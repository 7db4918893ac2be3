//! Commands on the stops of a schedule, and the projection onto one stop.

use vstd::prelude::*;
use crate::commands::gtfs::{GTFSCommandInterpreterError, GtfsNode, NodeView};
use crate::commands::{stops_run, CommandInterpreter, Report};
use crate::gtfs::routes::{Route, Routes};
use crate::gtfs::stop_times::{StopTime, StopTimes};
use crate::gtfs::trips::{Trip, Trips};
use crate::gtfs::index::{IdIndex, Name};
use crate::gtfs::keyed::{
    first_place, first_with_key, has_key, lemma_first_is_lookup, lemma_has_first,
    lemma_has_key_push, lemma_marked_is_filter, lookup, position, select,
};
use crate::gtfs::stops::{Stop, Stops};
use crate::gtfs::{GtfsSchedule, ScheduleView};
use crate::projection::{
    acyclic, at_stops, called_on, calls_on, climbs_to, descendants_of, descends_from,
    first_on_cycle, inside, lemma_climb_one_more, lemma_climber_is_stop, lemma_cycle_goes_on,
    lemma_cycle_through_parent, lies_on_cycle, parent_of, run_by, runs_on, stop_projection,
};
use crate::text::{join2, join3, same_text, skip_first, split_command};

verus! {

/// The stops of a schedule, as a target of commands.
pub struct StopsCommandInterpreter<'a>(pub &'a GtfsSchedule);

/// Why a command on stops failed.
#[derive(Debug)]
pub enum StopsCommandError {
    /// The first segment is no command and no stop identifier.
    InvalidCommand(String),
    /// The stop could not be projected onto; the message says why. A stop
    /// that was found can be projected onto, so no command hands this error
    /// out.
    ErrorGettingStop(String),
    /// The rest of the command failed at the stop named.
    ErrorExecutingCommandForStop(String, Box<GTFSCommandInterpreterError>),
}

impl StopsCommandError {
    /// The message of the error.
    pub open spec fn text(&self) -> Seq<char>
        decreases self,
    {
        match self {
            StopsCommandError::InvalidCommand(command) => "Invalid command: "@ + command@,
            StopsCommandError::ErrorGettingStop(reason) => "Error getting stop: "@ + reason@,
            StopsCommandError::ErrorExecutingCommandForStop(stop_id, cause) =>
                "Error executing command for stop "@ + stop_id@ + ": "@ + cause.text(),
        }
    }

    /// The message of the error.
    pub fn to_string(&self) -> (message: String)
        ensures
            message@ == self.text(),
        decreases self,
    {
        match self {
            StopsCommandError::InvalidCommand(command) => join2(
                "Invalid command: ",
                command.as_str(),
            ),
            StopsCommandError::ErrorGettingStop(reason) => join2(
                "Error getting stop: ",
                reason.as_str(),
            ),
            StopsCommandError::ErrorExecutingCommandForStop(stop_id, cause) => {
                let mut message = join3("Error executing command for stop ", stop_id.as_str(), ": ");
                message.append(cause.to_string().as_str());
                message
            },
        }
    }
}

/// Why a stop could not be projected onto.
#[derive(Debug)]
pub enum StopCommandError {
    /// The schedule has no stop with this identifier.
    NoSuchStop(String),
    /// The descendants of the stop named could not be gathered. The
    /// children of a stop are found among the stops themselves, so none of
    /// them can be missing, and no projection hands this error out.
    ErrorGettingDescendants(String, Box<StopCommandError>),
}

impl StopCommandError {
    /// The message of the error.
    pub open spec fn text(&self) -> Seq<char>
        decreases self,
    {
        match self {
            StopCommandError::NoSuchStop(stop_id) => "No such stop: "@ + stop_id@,
            StopCommandError::ErrorGettingDescendants(stop_id, cause) =>
                "Error getting descendants for stop "@ + stop_id@ + ": "@ + cause.text(),
        }
    }

    /// The message of the error.
    pub fn to_string(&self) -> (message: String)
        ensures
            message@ == self.text(),
        decreases self,
    {
        match self {
            StopCommandError::NoSuchStop(stop_id) => join2("No such stop: ", stop_id.as_str()),
            StopCommandError::ErrorGettingDescendants(stop_id, cause) => {
                let mut message = join3(
                    "Error getting descendants for stop ",
                    stop_id.as_str(),
                    ": ",
                );
                message.append(cause.to_string().as_str());
                message
            },
        }
    }
}

/// Whether the stop at place `child` is listed under the stop at place
/// `parent`: each is the first stop with its identifier, and the one names
/// the other as the location it lies in.
spec fn listed_under(stops: Seq<Stop>, child: int, parent: int) -> bool {
    &&& 0 <= child < stops.len()
    &&& first_with_key(stops, stops[child].stop_id@, child)
    &&& stops[child].spec_parent_station() matches Some(id) && first_with_key(stops, id, parent)
}

/// Whether `list` holds the place `c`.
spec fn holds_place(list: Seq<usize>, c: int) -> bool {
    exists|k: int| 0 <= k < list.len() && (#[trigger] list[k]) as int == c
}

/// Whether `children` lists, for each stop, those of the first `upto` stops
/// that are listed under it, and nothing else.
spec fn children_indexed(stops: Seq<Stop>, children: Seq<Vec<usize>>, upto: int) -> bool {
    &&& children.len() == stops.len()
    &&& forall|i: int, k: int|
        0 <= i < children.len() && 0 <= k < children[i]@.len() ==> (#[trigger] children[i]@[k])
            < upto && listed_under(stops, children[i]@[k] as int, i)
    &&& forall|c: int, i: int|
        0 <= c < upto && #[trigger] listed_under(stops, c, i) ==> holds_place(children[i]@, c)
}

/// The number of places that `marks` leaves unmarked.
spec fn unmarked(marks: Seq<bool>) -> nat
    decreases marks.len(),
{
    if marks.len() == 0 {
        0
    } else {
        unmarked(marks.drop_last()) + if marks.last() {
            0nat
        } else {
            1nat
        }
    }
}

/// Marking one more place leaves one place fewer unmarked.
proof fn lemma_one_fewer_unmarked(marks: Seq<bool>, at: int)
    requires
        0 <= at < marks.len(),
        !marks[at],
    ensures
        unmarked(marks.update(at, true)) + 1 == unmarked(marks),
    decreases marks.len(),
{
    let after = marks.update(at, true);
    if at == marks.len() - 1 {
        assert(after.drop_last() =~= marks.drop_last());
    } else {
        assert(after.drop_last() =~= marks.drop_last().update(at, true));
        lemma_one_fewer_unmarked(marks.drop_last(), at);
    }
}

/// Whether every stop listed under the stop at place `i` is marked.
spec fn children_marked(children: Seq<Vec<usize>>, marks: Seq<bool>, i: int) -> bool {
    forall|k: int| 0 <= k < children[i]@.len() ==> marks[(#[trigger] children[i]@[k]) as int]
}

/// Whether every marked stop is the first with its identifier and lies in
/// the stop `root`, or is that stop.
spec fn marks_descend(stops: Seq<Stop>, marks: Seq<bool>, root: Seq<char>) -> bool {
    forall|i: int|
        0 <= i < marks.len() && #[trigger] marks[i] ==> first_with_key(stops, stops[i].stop_id@, i)
            && descends_from(stops, stops[i].stop_id@, root)
}

/// A stop listed under one that lies in `root` lies in `root` too.
proof fn lemma_child_descends(stops: Seq<Stop>, child: int, parent: int, root: Seq<char>)
    requires
        listed_under(stops, child, parent),
        descends_from(stops, stops[parent].stop_id@, root),
    ensures
        descends_from(stops, stops[child].stop_id@, root),
{
    let steps = choose|steps: nat| climbs_to(stops, stops[parent].stop_id@, root, steps);
    assert(climbs_to(stops, stops[child].stop_id@, root, steps + 1));
}

/// Where the marks hold the root and, with each marked stop, all that is
/// listed under it, they hold the first stop of every identifier that lies
/// in the root.
proof fn lemma_closed_marks_hold_descendants(
    stops: Seq<Stop>,
    children: Seq<Vec<usize>>,
    marks: Seq<bool>,
    root: Seq<char>,
    id: Seq<char>,
    steps: nat,
)
    requires
        marks.len() == stops.len(),
        children_indexed(stops, children, stops.len() as int),
        has_key(stops, root),
        marks[first_place(stops, root)],
        forall|i: int| 0 <= i < marks.len() && marks[i] ==> children_marked(children, marks, i),
        climbs_to(stops, id, root, steps),
    ensures
        has_key(stops, id),
        marks[first_place(stops, id)],
    decreases steps,
{
    if steps > 0 {
        let parent = parent_of(stops, id)->0;
        lemma_closed_marks_hold_descendants(stops, children, marks, root, parent, (steps - 1) as nat);
        lemma_has_first(stops, id);
        lemma_has_first(stops, parent);
        let c = first_place(stops, id);
        let i = first_place(stops, parent);
        assert(listed_under(stops, c, i));
        let k = choose|k: int| 0 <= k < children[i]@.len() && (#[trigger] children[i]@[k]) as int == c;
    }
}

/// For each stop the place of the first stop with its identifier, and for
/// each stop the places of the stops listed under it.
fn index_children(stops: &Vec<Stop>) -> (index: (Vec<usize>, Vec<Vec<usize>>))
    ensures
        index.0@.len() == stops@.len(),
        forall|c: int|
            0 <= c < stops@.len() ==> first_with_key(
                stops@,
                stops@[c].stop_id@,
                (#[trigger] index.0@[c]) as int,
            ),
        children_indexed(stops@, index.1@, stops@.len() as int),
{
    let n = stops.len();
    let mut children: Vec<Vec<usize>> = Vec::new();
    while children.len() < n
        invariant
            children@.len() <= n,
            forall|i: int| 0 <= i < children@.len() ==> (#[trigger] children@[i])@.len() == 0,
        decreases n - children@.len(),
    {
        children.push(Vec::new());
    }
    let index = IdIndex::build(stops);
    let mut firsts: Vec<usize> = Vec::new();
    let mut c: usize = 0;
    while c < n
        invariant
            c <= n,
            n == stops@.len(),
            index.indexes(stops@),
            firsts@.len() == c,
            forall|j: int|
                0 <= j < c ==> first_with_key(stops@, stops@[j].stop_id@, (#[trigger] firsts@[j]) as int),
            children_indexed(stops@, children@, c as int),
        decreases n - c,
    {
        let ghost before = children@;
        // The stop itself stands under its identifier, so some stop is found.
        let first = match index.find(stops, stops[c].stop_id.as_str()) {
            Some(first) => first,
            None => c,
        };
        let mut listed: Ghost<Option<int>> = Ghost(None);
        if first == c {
            match stops[c].parent_station() {
                Some(parent) => {
                    match index.find(stops, parent) {
                        Some(i) => {
                            children[i].push(c);
                            proof {
                                listed@ = Some(i as int);
                            }
                        },
                        None => {},
                    }
                },
                None => {},
            }
        }
        proof {
            assert forall|i: int, k: int|
                0 <= i < children@.len() && 0 <= k < children@[i]@.len() implies (
            #[trigger] children@[i]@[k]) < c + 1 && listed_under(
                stops@,
                children@[i]@[k] as int,
                i,
            ) by {
                if listed@ == Some(i) && k == before[i]@.len() {
                } else {
                    assert(children@[i]@[k] == before[i]@[k]);
                }
            }
            assert forall|d: int, i: int|
                0 <= d < c + 1 && #[trigger] listed_under(stops@, d, i) implies holds_place(
                children@[i]@,
                d,
            ) by {
                if d < c {
                    let k = choose|k: int|
                        0 <= k < before[i]@.len() && (#[trigger] before[i]@[k]) as int == d;
                    assert(children@[i]@[k] as int == d);
                } else {
                    assert(children@[i]@[before[i]@.len() as int] == c);
                }
            }
        }
        firsts.push(first);
        c += 1;
    }
    (firsts, children)
}

/// Marks the stop at place `start` and everything that lies in it, going
/// down the lists of children with a stack of the stops still to visit. A
/// stop that is marked is not visited again, so a cycle of parents ends
/// the walk instead of repeating it. Stops that were read from a table hold
/// no such cycle: reading refuses them.
fn put_descendants(
    marks: &mut Vec<bool>,
    start: usize,
    children: &Vec<Vec<usize>>,
    Ghost(stops): Ghost<Seq<Stop>>,
    Ghost(root): Ghost<Seq<char>>,
)
    requires
        old(marks)@.len() == stops.len(),
        forall|i: int| 0 <= i < old(marks)@.len() ==> !old(marks)@[i],
        children_indexed(stops, children@, stops.len() as int),
        first_with_key(stops, root, start as int),
    ensures
        final(marks)@.len() == stops.len(),
        forall|i: int|
            0 <= i < stops.len() ==> (#[trigger] final(marks)@[i] <==> first_with_key(
                stops,
                stops[i].stop_id@,
                i,
            ) && descends_from(stops, stops[i].stop_id@, root)),
{
    let n = marks.len();
    let mut stack: Vec<usize> = Vec::new();
    marks.set(start, true);
    stack.push(start);
    proof {
        assert(climbs_to(stops, root, root, 0));
        assert(stack@[0] == start);
    }
    while stack.len() > 0
        invariant
            marks@.len() == n,
            n == stops.len(),
            children_indexed(stops, children@, n as int),
            start < n,
            marks@[start as int],
            forall|s: int| 0 <= s < stack@.len() ==> (#[trigger] stack@[s]) < n && marks@[stack@[s] as int],
            marks_descend(stops, marks@, root),
            forall|i: int|
                0 <= i < n && #[trigger] marks@[i] ==> stack@.contains(i as usize) || children_marked(
                    children@,
                    marks@,
                    i,
                ),
        decreases unmarked(marks@), stack@.len(),
    {
        let ghost marks0 = marks@;
        let ghost stack0 = stack@;
        let i = stack.pop().unwrap();
        let kids = &children[i];
        let m = kids.len();
        let mut k: usize = 0;
        proof {
            assert forall|j: int| 0 <= j < n && #[trigger] marks@[j] implies j == i
                || stack@.contains(j as usize) || children_marked(children@, marks@, j) by {
                if stack0.contains(j as usize) {
                    let s = choose|s: int| 0 <= s < stack0.len() && stack0[s] == j as usize;
                    if s < stack@.len() {
                        assert(stack@[s] == j as usize);
                    }
                }
            }
        }
        while k < m
            invariant
                marks@.len() == n,
                n == stops.len(),
                children_indexed(stops, children@, n as int),
                start < n,
                i < n,
                kids@ == children@[i as int]@,
                m == kids@.len(),
                k <= m,
                marks@[start as int],
                marks@[i as int],
                forall|s: int|
                    0 <= s < stack@.len() ==> (#[trigger] stack@[s]) < n && marks@[stack@[s] as int],
                marks_descend(stops, marks@, root),
                forall|j: int|
                    0 <= j < n && #[trigger] marks@[j] ==> j == i || stack@.contains(j as usize)
                        || children_marked(children@, marks@, j),
                forall|d: int| 0 <= d < k ==> marks@[(#[trigger] kids@[d]) as int],
                unmarked(marks@) < unmarked(marks0) || (marks@ == marks0 && stack@
                    == stack0.drop_last()),
            decreases m - k,
        {
            let c = kids[k];
            if !marks[c] {
                let ghost marks1 = marks@;
                let ghost stack1 = stack@;
                marks.set(c, true);
                stack.push(c);
                proof {
                    lemma_one_fewer_unmarked(marks1, c as int);
                    lemma_child_descends(stops, c as int, i as int, root);
                    assert(stack@[stack1.len() as int] == c);
                    assert forall|j: int| 0 <= j < n && #[trigger] marks@[j] implies j == i
                        || stack@.contains(j as usize) || children_marked(children@, marks@, j) by {
                        if j == c {
                        } else if stack1.contains(j as usize) {
                            let s = choose|s: int| 0 <= s < stack1.len() && stack1[s] == j as usize;
                            assert(stack@[s] == j as usize);
                        } else if j != i {
                            assert(children_marked(children@, marks1, j));
                        }
                    }
                }
            }
            k += 1;
        }
    }
    proof {
        assert forall|i: int|
            0 <= i < stops.len() && first_with_key(stops, stops[i].stop_id@, i) && descends_from(
                stops,
                stops[i].stop_id@,
                root,
            ) implies marks@[i] by {
            let steps = choose|steps: nat| climbs_to(stops, stops[i].stop_id@, root, steps);
            lemma_closed_marks_hold_descendants(
                stops,
                children@,
                marks@,
                root,
                stops[i].stop_id@,
                steps,
            );
        }
    }
}

/// Whether the stop at place `at` lies in itself. The walk climbs from the
/// stop by its parents, as many steps as there are stops; should it neither
/// end nor come back by then, the descendants of the stop decide.
fn lies_in_itself(stops: &Vec<Stop>, index: &IdIndex, at: usize) -> (cyclic: bool)
    requires
        index.indexes(stops@),
        at < stops@.len(),
    ensures
        cyclic == lies_on_cycle(stops@, stops@[at as int].stop_id@),
{
    let n = stops.len();
    let ghost id = stops@[at as int].stop_id@;
    // The stop itself stands under its identifier, so some stop is found.
    let start = match index.find(stops, stops[at].stop_id.as_str()) {
        Some(start) => start,
        None => at,
    };
    proof {
        lemma_first_is_lookup(stops@, id, start as int);
        assert(climbs_to(stops@, id, id, 0));
    }
    let mut cur = start;
    let mut steps: usize = 0;
    while steps < n
        invariant
            steps <= n,
            n == stops@.len(),
            index.indexes(stops@),
            id == stops@[at as int].stop_id@,
            first_with_key(stops@, id, start as int),
            cur < n,
            first_with_key(stops@, stops@[cur as int].stop_id@, cur as int),
            climbs_to(stops@, id, stops@[cur as int].stop_id@, steps as nat),
        decreases n - steps,
    {
        let parent = match stops[cur].parent_station() {
            Some(parent) => index.find(stops, parent),
            None => None,
        };
        proof {
            lemma_first_is_lookup(stops@, stops@[cur as int].stop_id@, cur as int);
        }
        match parent {
            None => {
                proof {
                    if lies_on_cycle(stops@, id) {
                        let around = choose|around: nat|
                            around > 0 && #[trigger] climbs_to(stops@, id, id, around);
                        lemma_cycle_goes_on(
                            stops@,
                            id,
                            stops@[cur as int].stop_id@,
                            around,
                            steps as nat,
                        );
                    }
                }
                return false;
            },
            Some(next) => {
                proof {
                    lemma_first_is_lookup(stops@, stops@[next as int].stop_id@, next as int);
                    lemma_climb_one_more(
                        stops@,
                        id,
                        stops@[cur as int].stop_id@,
                        stops@[next as int].stop_id@,
                        steps as nat,
                    );
                }
                steps += 1;
                if next == start {
                    assert(climbs_to(stops@, id, id, steps as nat));
                    return true;
                }
                cur = next;
            },
        }
    }
    let (_, children) = index_children(stops);
    let mut marks: Vec<bool> = Vec::new();
    while marks.len() < n
        invariant
            marks@.len() <= n,
            forall|i: int| 0 <= i < marks@.len() ==> !marks@[i],
        decreases n - marks@.len(),
    {
        marks.push(false);
    }
    put_descendants(&mut marks, start, &children, Ghost(stops@), Ghost(id));
    let parent = match stops[start].parent_station() {
        Some(parent) => index.find(stops, parent),
        None => None,
    };
    proof {
        lemma_cycle_through_parent(stops@, id);
        if parent_of(stops@, id) is Some && descends_from(stops@, parent_of(stops@, id)->0, id) {
            let steps = choose|steps: nat| climbs_to(stops@, parent_of(stops@, id)->0, id, steps);
            lemma_climber_is_stop(stops@, parent_of(stops@, id)->0, id, steps);
        }
    }
    match parent {
        Some(place) => {
            proof {
                lemma_first_is_lookup(stops@, stops@[place as int].stop_id@, place as int);
            }
            marks[place]
        },
        None => false,
    }
}

/// The place of the first stop of `stops` that lies in itself, if there is
/// one.
pub fn stop_on_cycle(stops: &Vec<Stop>) -> (found: Option<usize>)
    ensures
        match found {
            Some(at) => first_on_cycle(stops@, at as int),
            None => acyclic(stops@),
        },
{
    let index = IdIndex::build(stops);
    let n = stops.len();
    let mut i: usize = 0;
    while i < n
        invariant
            i <= n,
            n == stops@.len(),
            index.indexes(stops@),
            forall|j: int| 0 <= j < i ==> !lies_on_cycle(stops@, (#[trigger] stops@[j]).stop_id@),
        decreases n - i,
    {
        if lies_in_itself(stops, &index, i) {
            return Some(i);
        }
        i += 1;
    }
    None
}

/// For each call of `calls`, whether it is made at one of `stops`.
fn mark_calls_at_stops(calls: &Vec<StopTime>, stops: &Vec<Stop>) -> (marks: Vec<bool>)
    ensures
        marks@.len() == calls@.len(),
        forall|i: int|
            0 <= i < calls@.len() ==> marks@[i] == (calls@[i].stop() matches Some(stop_id)
                && has_key(stops@, stop_id)),
{
    let index = IdIndex::build(stops);
    let mut marks: Vec<bool> = Vec::new();
    let n = calls.len();
    let mut i: usize = 0;
    while i < n
        invariant
            i <= n,
            n == calls@.len(),
            index.indexes(stops@),
            marks@.len() == i,
            forall|k: int|
                0 <= k < i ==> marks@[k] == (calls@[k].stop() matches Some(stop_id) && has_key(
                    stops@,
                    stop_id,
                )),
        decreases n - i,
    {
        let keep = match &calls[i].stop_id {
            Some(stop_id) => index.find(stops, stop_id.as_str()).is_some(),
            None => false,
        };
        marks.push(keep);
        i += 1;
    }
    marks
}

/// The trips that the calls of `calls` belong to.
fn trips_called_on<'a>(calls: &'a Vec<StopTime>) -> (names: Vec<Name<'a>>)
    ensures
        forall|id: Seq<char>| has_key(names@, id) <==> calls_on(calls@, id),
{
    let mut names: Vec<Name<'a>> = Vec::new();
    let n = calls.len();
    let mut i: usize = 0;
    while i < n
        invariant
            i <= n,
            n == calls@.len(),
            forall|id: Seq<char>| has_key(names@, id) <==> calls_on(calls@.take(i as int), id),
        decreases n - i,
    {
        let ghost before = names@;
        names.push(Name { text: calls[i].trip_id.as_str() });
        proof {
            let earlier = calls@.take(i as int);
            let now = calls@.take(i + 1);
            assert forall|id: Seq<char>| has_key(names@, id) <==> calls_on(now, id) by {
                lemma_has_key_push(before, names@[before.len() as int], id);
                if calls@[i as int].trip_id@ == id {
                    assert(now[i as int].trip_id@ == id);
                }
            }
        }
        i += 1;
    }
    proof {
        assert(calls@.take(n as int) =~= calls@);
    }
    names
}

/// For each trip of `trips`, whether some call of `calls` belongs to it.
fn mark_trips_of_calls(trips: &Vec<Trip>, calls: &Vec<StopTime>) -> (marks: Vec<bool>)
    ensures
        marks@.len() == trips@.len(),
        forall|i: int| 0 <= i < trips@.len() ==> marks@[i] == calls_on(calls@, trips@[i].trip_id@),
{
    let names = trips_called_on(calls);
    let index = IdIndex::build(&names);
    let mut marks: Vec<bool> = Vec::new();
    let n = trips.len();
    let mut i: usize = 0;
    while i < n
        invariant
            i <= n,
            n == trips@.len(),
            index.indexes(names@),
            forall|id: Seq<char>| has_key(names@, id) <==> calls_on(calls@, id),
            marks@.len() == i,
            forall|k: int| 0 <= k < i ==> marks@[k] == calls_on(calls@, trips@[k].trip_id@),
        decreases n - i,
    {
        marks.push(index.find(&names, trips[i].trip_id.as_str()).is_some());
        i += 1;
    }
    marks
}

/// The routes that the trips of `trips` run on.
fn routes_run_on<'a>(trips: &'a Vec<Trip>) -> (names: Vec<Name<'a>>)
    ensures
        forall|id: Seq<char>| has_key(names@, id) <==> runs_on(trips@, id),
{
    let mut names: Vec<Name<'a>> = Vec::new();
    let n = trips.len();
    let mut i: usize = 0;
    while i < n
        invariant
            i <= n,
            n == trips@.len(),
            forall|id: Seq<char>| has_key(names@, id) <==> runs_on(trips@.take(i as int), id),
        decreases n - i,
    {
        let ghost before = names@;
        names.push(Name { text: trips[i].route_id.as_str() });
        proof {
            let earlier = trips@.take(i as int);
            let now = trips@.take(i + 1);
            assert forall|id: Seq<char>| has_key(names@, id) <==> runs_on(now, id) by {
                lemma_has_key_push(before, names@[before.len() as int], id);
                if trips@[i as int].route_id@ == id {
                    assert(now[i as int].route_id@ == id);
                }
            }
        }
        i += 1;
    }
    proof {
        assert(trips@.take(n as int) =~= trips@);
    }
    names
}

/// For each route of `routes`, whether some trip of `trips` runs on it.
fn mark_routes_of_trips(routes: &Vec<Route>, trips: &Vec<Trip>) -> (marks: Vec<bool>)
    ensures
        marks@.len() == routes@.len(),
        forall|i: int| 0 <= i < routes@.len() ==> marks@[i] == runs_on(trips@, routes@[i].route_id@),
{
    let names = routes_run_on(trips);
    let index = IdIndex::build(&names);
    let mut marks: Vec<bool> = Vec::new();
    let n = routes.len();
    let mut i: usize = 0;
    while i < n
        invariant
            i <= n,
            n == routes@.len(),
            index.indexes(names@),
            forall|id: Seq<char>| has_key(names@, id) <==> runs_on(trips@, id),
            marks@.len() == i,
            forall|k: int| 0 <= k < i ==> marks@[k] == runs_on(trips@, routes@[k].route_id@),
        decreases n - i,
    {
        marks.push(index.find(&names, routes[i].route_id.as_str()).is_some());
        i += 1;
    }
    marks
}

impl StopsCommandInterpreter<'_> {
    /// Copies of the stop `stop_id` and of all the stops that lie in it, in
    /// the order of the schedule. Where the stop lies in itself, these are
    /// the stops of the cycle and what lies in them.
    pub fn clone_descendants(&self, stop_id: &str) -> (descendants: Result<Stops, StopCommandError>)
        ensures
            match descendants {
                Ok(found) => has_key(self.0.stops@, stop_id@) && found@ == descendants_of(
                    self.0.stops@,
                    stop_id@,
                ),
                Err(StopCommandError::NoSuchStop(id)) => !has_key(self.0.stops@, stop_id@) && id@
                    == stop_id@,
                Err(_) => false,
            },
    {
        let stops = &self.0.stops.stops;
        let start = match position(stops, stop_id) {
            Some(start) => start,
            None => {
                return Err(StopCommandError::NoSuchStop(String::from_str(stop_id)));
            },
        };
        let (firsts, children) = index_children(stops);
        let n = stops.len();
        let mut marks: Vec<bool> = Vec::new();
        while marks.len() < n
            invariant
                marks@.len() <= n,
                forall|i: int| 0 <= i < marks@.len() ==> !marks@[i],
            decreases n - marks@.len(),
        {
            marks.push(false);
        }
        put_descendants(&mut marks, start, &children, Ghost(stops@), Ghost(stop_id@));
        let mut chosen: Vec<bool> = Vec::new();
        let mut j: usize = 0;
        while j < n
            invariant
                j <= n,
                n == stops@.len(),
                marks@.len() == n,
                firsts@.len() == n,
                chosen@.len() == j,
                forall|c: int|
                    0 <= c < n ==> first_with_key(
                        stops@,
                        stops@[c].stop_id@,
                        (#[trigger] firsts@[c]) as int,
                    ),
                forall|i: int|
                    0 <= i < n ==> (#[trigger] marks@[i] <==> first_with_key(
                        stops@,
                        stops@[i].stop_id@,
                        i,
                    ) && descends_from(stops@, stops@[i].stop_id@, stop_id@)),
                forall|c: int|
                    0 <= c < j ==> chosen@[c] == descends_from(stops@, stops@[c].stop_id@, stop_id@),
            decreases n - j,
        {
            let first = firsts[j];
            chosen.push(marks[first]);
            j += 1;
        }
        let found = select(stops, &chosen);
        proof {
            lemma_marked_is_filter(stops@, chosen@, inside(stops@, stop_id@));
        }
        Ok(Stops { stops: found })
    }
}

/// The projection of `schedule` onto the stop `stop_id`, where the schedule
/// has that stop.
pub fn project_by_stop(schedule: &GtfsSchedule, stop_id: &str) -> (projected: Result<
    GtfsSchedule,
    StopCommandError,
>)
    ensures
        match projected {
            Ok(part) => has_key(schedule.stops@, stop_id@) && part@ == stop_projection(
                schedule@,
                stop_id@,
            ),
            Err(StopCommandError::NoSuchStop(id)) => !has_key(schedule.stops@, stop_id@) && id@
                == stop_id@,
            Err(_) => false,
        },
{
    let stops = StopsCommandInterpreter(schedule).clone_descendants(stop_id)?;

    let call_marks = mark_calls_at_stops(&schedule.stop_times.stop_times, &stops.stops);
    let stop_times = select(&schedule.stop_times.stop_times, &call_marks);
    proof {
        lemma_marked_is_filter(schedule.stop_times@, call_marks@, at_stops(stops@));
    }

    let trip_marks = mark_trips_of_calls(&schedule.trips.trips, &stop_times);
    let trips = select(&schedule.trips.trips, &trip_marks);
    proof {
        lemma_marked_is_filter(schedule.trips@, trip_marks@, called_on(stop_times@));
    }

    let route_marks = mark_routes_of_trips(&schedule.routes.routes, &trips);
    let routes = select(&schedule.routes.routes, &route_marks);
    proof {
        lemma_marked_is_filter(schedule.routes@, route_marks@, run_by(trips@));
    }

    Ok(
        GtfsSchedule {
            stops,
            routes: Routes { routes },
            trips: Trips { trips },
            stop_times: StopTimes { stop_times },
        },
    )
}

/// The node that selecting the stop `stop_id` in `schedule` leads to: the
/// projection onto the stop, under the stop's identifier and name. It
/// keeps no parent.
pub open spec fn stop_node(schedule: ScheduleView, stop_id: Seq<char>) -> NodeView {
    NodeView {
        gtfs: stop_projection(schedule, stop_id),
        parent: None,
        node_id: stop_id,
        node_name: match lookup(schedule.stops, stop_id) {
            Some(stop) => match stop.spec_stop_name() {
                Some(name) => Some(name@),
                None => None,
            },
            None => None,
        },
    }
}

impl StopsCommandInterpreter<'_> {
    /// The node of the stop `stop_id`, where the schedule has that stop.
    pub fn stop(&self, stop_id: &str) -> (node: Result<GtfsNode, StopCommandError>)
        ensures
            match node {
                Ok(child) => has_key(self.0.stops@, stop_id@) && child@ == stop_node(
                    self.0@,
                    stop_id@,
                ),
                Err(StopCommandError::NoSuchStop(id)) => !has_key(self.0.stops@, stop_id@) && id@
                    == stop_id@,
                Err(_) => false,
            },
    {
        let at = match position(&self.0.stops.stops, stop_id) {
            Some(at) => at,
            None => {
                return Err(StopCommandError::NoSuchStop(String::from_str(stop_id)));
            },
        };
        let node_name = match self.0.stops.stops[at].get_stop_name() {
            Some(name) => Some(String::from_str(name)),
            None => None,
        };
        let gtfs = project_by_stop(self.0, stop_id)?;
        Ok(GtfsNode { gtfs, parent: None, node_id: String::from_str(stop_id), node_name })
    }
}

/// The line that lists `stop`: its identifier, then its name, or a
/// stand-in where it has none.
pub open spec fn stop_line(stop: Stop) -> Seq<char> {
    stop.stop_id@ + ": "@ + match stop.spec_stop_name() {
        Some(name) => name@,
        None => "Unnamed Location"@,
    }
}

/// Whether `lines` holds the line of each stop of `stops`, in their order.
pub open spec fn lists_stops(lines: Seq<String>, stops: Seq<Stop>) -> bool {
    &&& lines.len() == stops.len()
    &&& forall|i: int| 0 <= i < lines.len() ==> (#[trigger] lines[i])@ == stop_line(stops[i])
}

impl StopsCommandInterpreter<'_> {
    /// One line for each stop of the schedule, in its order.
    pub fn list(&self) -> (lines: Vec<String>)
        ensures
            lists_stops(lines@, self.0.stops@),
    {
        let stops = &self.0.stops.stops;
        let mut lines: Vec<String> = Vec::new();
        let n = stops.len();
        let mut i: usize = 0;
        while i < n
            invariant
                i <= n,
                n == stops@.len(),
                lines@.len() == i,
                forall|k: int| 0 <= k < i ==> (#[trigger] lines@[k])@ == stop_line(stops@[k]),
            decreases n - i,
        {
            let stop = &stops[i];
            let line = match stop.get_stop_name() {
                Some(name) => join3(stop.stop_id.as_str(), ": ", name),
                None => join3(stop.stop_id.as_str(), ": ", "Unnamed Location"),
            };
            lines.push(line);
            i += 1;
        }
        lines
    }

    /// The number of stops of the schedule.
    pub fn info(&self) -> (stops: usize)
        ensures
            stops == self.0.stops@.len(),
    {
        self.0.stops.len()
    }
}

impl<'a> CommandInterpreter for StopsCommandInterpreter<'a> {
    type CommandResult = Report;

    type CommandError = StopsCommandError;

    open spec fn runs(&self, command: Seq<char>, outcome: Result<Report, StopsCommandError>) -> bool {
        stops_run(self.0@, command, outcome)
    }

    /// Carries out `command` at the stops of the schedule.
    fn interpret(&self, command: &str) -> (outcome: Result<Report, StopsCommandError>)
        ensures
            stops_run(self.0@, command@, outcome),
        decreases command@.len(), 1nat,
    {
        let (first, rest) = split_command(command);
        if same_text(first, "list") {
            Ok(Report::Listing { lines: self.list() })
        } else if same_text(first, "info") {
            Ok(Report::StopsInfo { stops: self.info() })
        } else {
            match self.stop(first) {
                Err(StopCommandError::NoSuchStop(_)) => Err(
                    StopsCommandError::InvalidCommand(String::from_str(command)),
                ),
                Err(e) => Err(StopsCommandError::ErrorGettingStop(e.to_string())),
                Ok(child) => match child.interpret(skip_first(rest).as_str()) {
                    Ok(report) => Ok(report),
                    Err(e) => Err(
                        StopsCommandError::ErrorExecutingCommandForStop(
                            String::from_str(first),
                            Box::new(e),
                        ),
                    ),
                },
            }
        }
    }
}

} // verus!
