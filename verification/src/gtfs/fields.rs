//! The fields of one record of a table, by column name.

use vstd::prelude::*;
use crate::gtfs::util::Decimal;
use crate::text::{join2, join3, same_text};

verus! {

/// One value of a record: its text as the table gives it, and what that
/// text comes to when it is read as a decimal number, or why it cannot be
/// read as one. Whoever makes the cell does the reading.
#[derive(Debug, PartialEq)]
pub struct Cell {
    pub text: String,
    pub decimal: Result<Decimal, String>,
}

impl Clone for Cell {
    fn clone(&self) -> (copy: Self)
        ensures
            copy == *self,
    {
        Cell {
            text: self.text.clone(),
            decimal: match &self.decimal {
                Ok(value) => Ok(*value),
                Err(why) => Err(why.clone()),
            },
        }
    }
}

/// The cells of one record under the names of their columns, in the order
/// of the columns. Where a name stands twice, its last cell counts.
#[derive(Debug)]
pub struct Fields {
    pub entries: Vec<(String, Cell)>,
}

/// The cell that counts for each name of `entries`.
pub open spec fn cells_by_name(entries: Seq<(String, Cell)>) -> Map<Seq<char>, Cell>
    decreases entries.len(),
{
    if entries.len() == 0 {
        Map::empty()
    } else {
        cells_by_name(entries.drop_last()).insert(entries.last().0@, entries.last().1)
    }
}

/// The names of `header` with the cells of `cells`, pair by pair, as far as
/// both reach.
pub open spec fn paired(header: Seq<String>, cells: Seq<Cell>) -> Seq<(String, Cell)> {
    Seq::new(
        if header.len() < cells.len() {
            header.len()
        } else {
            cells.len()
        },
        |i: int| (header[i], cells[i]),
    )
}

/// The text under `name`, where the record has the column and the text is
/// not empty.
pub open spec fn text_of(fields: Map<Seq<char>, Cell>, name: Seq<char>) -> Option<Seq<char>> {
    if fields.contains_key(name) && fields[name].text@.len() > 0 {
        Some(fields[name].text@)
    } else {
        None
    }
}

/// How the text under `name` reads as a decimal number, where the record has
/// the column and the text is not empty.
pub open spec fn decimal_of(fields: Map<Seq<char>, Cell>, name: Seq<char>) -> Option<
    Result<Decimal, String>,
> {
    if fields.contains_key(name) && fields[name].text@.len() > 0 {
        Some(fields[name].decimal)
    } else {
        None
    }
}

/// The decimal number under `name`, where one is given that can be read.
pub open spec fn optional_decimal(fields: Map<Seq<char>, Cell>, name: Seq<char>) -> Option<Decimal> {
    match decimal_of(fields, name) {
        Some(Ok(value)) => Some(value),
        _ => None,
    }
}

/// Whether a text is given under `name` that cannot be read as a decimal
/// number.
pub open spec fn decimal_refused(fields: Map<Seq<char>, Cell>, name: Seq<char>) -> bool {
    decimal_of(fields, name) matches Some(Err(_))
}

/// The decimal number under `name`, which must be given, or what is wrong:
/// nothing is given, or what is given cannot be read.
pub open spec fn required_decimal(fields: Map<Seq<char>, Cell>, name: Seq<char>) -> Result<
    Decimal,
    Seq<char>,
> {
    match decimal_of(fields, name) {
        None => Err(name + " is required"@),
        Some(Ok(value)) => Ok(value),
        Some(Err(why)) => Err("invalid "@ + name + " '"@ + fields[name].text@ + "': "@ + why@),
    }
}

/// The decimal number under `name`, where one is given, or what is wrong:
/// what is given cannot be read.
pub open spec fn decimal_if_given(fields: Map<Seq<char>, Cell>, name: Seq<char>) -> Result<
    Option<Decimal>,
    Seq<char>,
> {
    match decimal_of(fields, name) {
        None => Ok(None),
        Some(Ok(value)) => Ok(Some(value)),
        Some(Err(why)) => Err("invalid "@ + name + " '"@ + fields[name].text@ + "': "@ + why@),
    }
}

/// The text under `name`, which must be given, or what is wrong.
pub open spec fn required_text(fields: Map<Seq<char>, Cell>, name: Seq<char>) -> Result<
    Seq<char>,
    Seq<char>,
> {
    match text_of(fields, name) {
        Some(text) => Ok(text),
        None => Err(name + " is required"@),
    }
}

/// What `text` holds, where there is one.
pub open spec fn optional_text(text: Option<String>) -> Option<Seq<char>> {
    match text {
        Some(t) => Some(t@),
        None => None,
    }
}

impl View for Fields {
    type V = Map<Seq<char>, Cell>;

    open spec fn view(&self) -> Map<Seq<char>, Cell> {
        cells_by_name(self.entries@)
    }
}

impl Fields {
    /// The names of `header` with the cells of `cells`, pair by pair, as
    /// far as both reach.
    pub fn zip(header: &Vec<String>, cells: &Vec<Cell>) -> (fields: Fields)
        ensures
            fields.entries@ == paired(header@, cells@),
    {
        let mut entries: Vec<(String, Cell)> = Vec::new();
        let n = if header.len() < cells.len() {
            header.len()
        } else {
            cells.len()
        };
        let mut i: usize = 0;
        while i < n
            invariant
                i <= n,
                n <= header@.len(),
                n <= cells@.len(),
                entries@.len() == i,
                forall|k: int| 0 <= k < i ==> entries@[k] == (header@[k], cells@[k]),
            decreases n - i,
        {
            entries.push((header[i].clone(), cells[i].clone()));
            i += 1;
        }
        Fields { entries }
    }

    /// The cell under `name`, where the record has the column.
    pub fn get(&self, name: &str) -> (found: Option<&Cell>)
        ensures
            match found {
                Some(cell) => self@.contains_key(name@) && self@[name@] == *cell,
                None => !self@.contains_key(name@),
            },
    {
        let n = self.entries.len();
        let mut found: Option<usize> = None;
        let mut i: usize = 0;
        while i < n
            invariant
                i <= n,
                n == self.entries@.len(),
                match found {
                    Some(at) => at < i && cells_by_name(self.entries@.take(i as int)).contains_key(
                        name@,
                    ) && cells_by_name(self.entries@.take(i as int))[name@]
                        == self.entries@[at as int].1,
                    None => !cells_by_name(self.entries@.take(i as int)).contains_key(name@),
                },
            decreases n - i,
        {
            proof {
                assert(self.entries@.take(i + 1).drop_last() =~= self.entries@.take(i as int));
            }
            if same_text(self.entries[i].0.as_str(), name) {
                found = Some(i);
            }
            i += 1;
        }
        proof {
            assert(self.entries@.take(n as int) =~= self.entries@);
        }
        match found {
            Some(at) => Some(&self.entries[at].1),
            None => None,
        }
    }

    /// The text under `name`, where the record has the column and the text
    /// is not empty.
    pub fn text(&self, name: &str) -> (found: Option<&str>)
        ensures
            match found {
                Some(text) => text_of(self@, name@) == Some(text@),
                None => text_of(self@, name@) is None,
            },
    {
        match self.get(name) {
            Some(cell) => {
                if cell.text.as_str().unicode_len() == 0 {
                    None
                } else {
                    Some(cell.text.as_str())
                }
            },
            None => None,
        }
    }

    /// How the text under `name` reads as a decimal number, where the record
    /// has the column and the text is not empty.
    pub fn decimal(&self, name: &str) -> (found: Option<&Result<Decimal, String>>)
        ensures
            match found {
                Some(reading) => decimal_of(self@, name@) == Some(*reading),
                None => decimal_of(self@, name@) is None,
            },
    {
        match self.get(name) {
            Some(cell) => {
                if cell.text.as_str().unicode_len() == 0 {
                    None
                } else {
                    Some(&cell.decimal)
                }
            },
            None => None,
        }
    }

    /// The decimal number under `name`, where one is given.
    pub fn read_decimal(&self, name: &str) -> (outcome: Result<Option<Decimal>, String>)
        ensures
            match outcome {
                Ok(value) => decimal_if_given(self@, name@) == Ok::<Option<Decimal>, Seq<char>>(value),
                Err(message) => decimal_if_given(self@, name@) == Err::<Option<Decimal>, Seq<char>>(
                    message@,
                ),
            },
    {
        match self.get(name) {
            Some(cell) => {
                if cell.text.as_str().unicode_len() == 0 {
                    Ok(None)
                } else {
                    match &cell.decimal {
                        Ok(value) => Ok(Some(*value)),
                        Err(why) => {
                            let mut message = join3("invalid ", name, " '");
                            message.append(cell.text.as_str());
                            message.append("': ");
                            message.append(why.as_str());
                            Err(message)
                        },
                    }
                }
            },
            None => Ok(None),
        }
    }

    /// The decimal number under `name`, which must be given.
    pub fn require_decimal(&self, name: &str) -> (outcome: Result<Decimal, String>)
        ensures
            match outcome {
                Ok(value) => required_decimal(self@, name@) == Ok::<Decimal, Seq<char>>(value),
                Err(message) => required_decimal(self@, name@) == Err::<Decimal, Seq<char>>(message@),
            },
    {
        match self.read_decimal(name) {
            Ok(Some(value)) => Ok(value),
            Ok(None) => Err(join2(name, " is required")),
            Err(message) => Err(message),
        }
    }

    /// A copy of the text under `name`, which must be given.
    pub fn require_text(&self, name: &str) -> (outcome: Result<String, String>)
        ensures
            match outcome {
                Ok(text) => required_text(self@, name@) == Ok::<Seq<char>, Seq<char>>(text@),
                Err(message) => required_text(self@, name@) == Err::<Seq<char>, Seq<char>>(message@),
            },
    {
        match self.text(name) {
            Some(text) => Ok(String::from_str(text)),
            None => Err(join2(name, " is required")),
        }
    }

    /// A copy of the text under `name`, where the record has the column and
    /// the text is not empty.
    pub fn owned_text(&self, name: &str) -> (found: Option<String>)
        ensures
            optional_text(found) == text_of(self@, name@),
    {
        match self.text(name) {
            Some(text) => Some(String::from_str(text)),
            None => None,
        }
    }
}

/// The yes-or-no that `text` stands for, where it stands for one: nothing
/// and `0` leave it open, `1` says yes and `2` says no. Any other text
/// stands for none.
pub open spec fn tri_state(text: Option<Seq<char>>) -> Option<Option<bool>> {
    match text {
        None => Some(None),
        Some(t) => if t == "0"@ {
            Some(None)
        } else if t == "1"@ {
            Some(Some(true))
        } else if t == "2"@ {
            Some(Some(false))
        } else {
            None
        },
    }
}

/// The yes-or-no that `text` stands for, where it stands for one.
pub fn read_tri_state(text: Option<&str>) -> (state: Option<Option<bool>>)
    ensures
        state == tri_state(
            match text {
                Some(t) => Some(t@),
                None => None,
            },
        ),
{
    match text {
        None => Some(None),
        Some(t) => {
            if same_text(t, "0") {
                Some(None)
            } else if same_text(t, "1") {
                Some(Some(true))
            } else if same_text(t, "2") {
                Some(Some(false))
            } else {
                None
            }
        },
    }
}

} // verus!
