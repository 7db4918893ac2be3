//! Reading the rows of a table into records.

use vstd::prelude::*;
use crate::gtfs::fields::{cells_by_name, paired, Cell, Fields};

verus! {

/// A record that can be read from the fields of one row.
pub trait FromFields: Sized {
    /// Why a row is refused.
    type Fault;

    /// Whether a row with these fields is accepted.
    spec fn accepts(fields: Map<Seq<char>, Cell>) -> bool;

    /// Whether `outcome` is what a row with these fields comes to.
    spec fn loads(fields: Map<Seq<char>, Cell>, outcome: Result<Self, Self::Fault>) -> bool;

    /// Whether the numbers and times of a row with these fields are read
    /// as they are written.
    spec fn reads(fields: Map<Seq<char>, Cell>) -> bool;

    /// Reads a record from the fields of a row.
    fn from_fields(fields: &Fields) -> (outcome: Result<Self, Self::Fault>)
        ensures
            Self::loads(fields@, outcome),
            outcome is Ok <==> Self::accepts(fields@),
            Self::reads(fields@),
    ;
}

/// Why a table could not be read.
#[derive(Debug)]
pub enum TableFault<F> {
    /// The table gave no header.
    NoHeader,
    /// A row was refused.
    Record(F),
    /// A row could not be read from the table; the message says why.
    Read(String),
}

/// The fields of a row of cells under the header `header`.
pub open spec fn row_fields(header: Seq<String>, cells: Vec<Cell>) -> Map<Seq<char>, Cell> {
    cells_by_name(paired(header, cells@))
}

/// Whether `row` was read and is accepted.
pub open spec fn row_accepted<T: FromFields>(
    header: Seq<String>,
    row: Result<Vec<Cell>, String>,
) -> bool {
    match row {
        Ok(cells) => T::accepts(row_fields(header, cells)),
        Err(_) => false,
    }
}

/// Whether `row` was read and comes to `outcome`.
pub open spec fn row_loads<T: FromFields>(
    header: Seq<String>,
    row: Result<Vec<Cell>, String>,
    outcome: Result<T, T::Fault>,
) -> bool {
    match row {
        Ok(cells) => T::loads(row_fields(header, cells), outcome),
        Err(_) => false,
    }
}

/// Whether the numbers and times of `row` are read as they are written,
/// where the row was read.
pub open spec fn row_reads<T: FromFields>(header: Seq<String>, row: Result<Vec<Cell>, String>) -> bool {
    match row {
        Ok(cells) => T::reads(row_fields(header, cells)),
        Err(_) => true,
    }
}

/// Whether the numbers and times of each of the first `upto` rows are read
/// as they are written.
pub open spec fn rows_read<T: FromFields>(
    header: Seq<String>,
    rows: Seq<Result<Vec<Cell>, String>>,
    upto: int,
) -> bool {
    forall|j: int| 0 <= j < upto && j < rows.len() ==> row_reads::<T>(header, #[trigger] rows[j])
}

/// Whether `row` could not be read, for the reason `message`.
pub open spec fn row_unread(row: Result<Vec<Cell>, String>, message: Seq<char>) -> bool {
    match row {
        Ok(_) => false,
        Err(why) => why@ == message,
    }
}

/// Whether each of the first `upto` rows was read and is accepted.
pub open spec fn rows_accepted<T: FromFields>(
    header: Seq<String>,
    rows: Seq<Result<Vec<Cell>, String>>,
    upto: int,
) -> bool {
    forall|j: int| 0 <= j < upto ==> row_accepted::<T>(header, #[trigger] rows[j])
}

/// Whether the row at place `at` is the first that could not be read or is
/// refused.
pub open spec fn first_fault_at<T: FromFields>(
    header: Seq<String>,
    rows: Seq<Result<Vec<Cell>, String>>,
    at: int,
) -> bool {
    &&& 0 <= at < rows.len()
    &&& rows_accepted::<T>(header, rows, at)
    &&& !row_accepted::<T>(header, rows[at])
}

/// Whether some row could not be read or is refused.
pub open spec fn some_fault<T: FromFields>(
    header: Seq<String>,
    rows: Seq<Result<Vec<Cell>, String>>,
) -> bool {
    exists|at: int| first_fault_at::<T>(header, rows, at)
}

/// The place of the first row that could not be read or is refused, where
/// there is one.
pub open spec fn first_fault<T: FromFields>(
    header: Seq<String>,
    rows: Seq<Result<Vec<Cell>, String>>,
) -> int {
    choose|at: int| first_fault_at::<T>(header, rows, at)
}

/// The first faulty row stands at one place only.
pub proof fn lemma_first_fault_is_unique<T: FromFields>(
    header: Seq<String>,
    rows: Seq<Result<Vec<Cell>, String>>,
    at: int,
)
    requires
        first_fault_at::<T>(header, rows, at),
    ensures
        some_fault::<T>(header, rows),
        first_fault::<T>(header, rows) == at,
{
    let other = first_fault::<T>(header, rows);
}

/// Whether `outcome` is what the rows come to under the header: the record
/// of each row in the order of the rows, or the fault of the first row that
/// could not be read or was refused. In the rows up to there, numbers and
/// times are read as they are written.
pub open spec fn rows_load<T: FromFields>(
    header: Option<Vec<String>>,
    rows: Seq<Result<Vec<Cell>, String>>,
    outcome: Result<Vec<T>, TableFault<T::Fault>>,
) -> bool {
    match (header, outcome) {
        (None, Err(TableFault::NoHeader)) => true,
        (Some(names), Ok(loaded)) => loaded@.len() == rows.len() && rows_read::<T>(
            names@,
            rows,
            rows.len() as int,
        ) && forall|i: int|
            0 <= i < rows.len() ==> row_loads::<T>(names@, #[trigger] rows[i], Ok(loaded@[i])),
        (Some(names), Err(TableFault::Read(message))) => some_fault::<T>(names@, rows)
            && rows_read::<T>(names@, rows, first_fault::<T>(names@, rows) + 1) && row_unread(
            rows[first_fault::<T>(names@, rows)],
            message@,
        ),
        (Some(names), Err(TableFault::Record(fault))) => some_fault::<T>(names@, rows)
            && rows_read::<T>(names@, rows, first_fault::<T>(names@, rows) + 1) && row_loads::<T>(
            names@,
            rows[first_fault::<T>(names@, rows)],
            Err(fault),
        ),
        _ => false,
    }
}

/// Reads the record of each row, in the order of the rows, and stops at
/// the first row that could not be read or is refused.
pub fn load_rows<T: FromFields>(
    header: &Option<Vec<String>>,
    rows: &Vec<Result<Vec<Cell>, String>>,
) -> (outcome: Result<Vec<T>, TableFault<T::Fault>>)
    ensures
        rows_load::<T>(*header, rows@, outcome),
{
    let names = match header {
        Some(names) => names,
        None => {
            return Err(TableFault::NoHeader);
        },
    };
    let mut loaded: Vec<T> = Vec::new();
    let n = rows.len();
    let mut i: usize = 0;
    while i < n
        invariant
            i <= n,
            n == rows@.len(),
            *header == Some(*names),
            loaded@.len() == i,
            rows_accepted::<T>(names@, rows@, i as int),
            rows_read::<T>(names@, rows@, i as int),
            forall|k: int|
                0 <= k < i ==> row_loads::<T>(names@, #[trigger] rows@[k], Ok(loaded@[k])),
        decreases n - i,
    {
        match &rows[i] {
            Err(why) => {
                proof {
                    lemma_first_fault_is_unique::<T>(names@, rows@, i as int);
                }
                return Err(TableFault::Read(why.clone()));
            },
            Ok(cells) => {
                let fields = Fields::zip(names, cells);
                match T::from_fields(&fields) {
                    Ok(record) => {
                        loaded.push(record);
                    },
                    Err(fault) => {
                        proof {
                            lemma_first_fault_is_unique::<T>(names@, rows@, i as int);
                        }
                        return Err(TableFault::Record(fault));
                    },
                }
            },
        }
        i += 1;
    }
    Ok(loaded)
}

} // verus!
