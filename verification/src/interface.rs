//! What the command line needs besides the engine: tables read from
//! comma-separated text and turned into numbers, and results laid out as
//! text.

use vstd::prelude::*;

verus! {

/// The screens of the program.
#[derive(Debug, Clone, Copy, PartialEq, Eq)]
pub enum ProgramStates {
    Menu,
}

/// What a prompt hands back: a value to go on with, or the user's wish to
/// leave.
#[derive(Debug, PartialEq, Eq)]
pub enum Step<T> {
    Continue(T),
    Cancel,
}

/// `csv::Error`, which says why a record could not be read. Nothing is
/// known of its contents.
#[verifier::external_type_specification]
#[verifier::external_body]
pub struct ExCsvError(csv::Error);

/// `csv::Reader`, which hands out the records of comma-separated data one
/// by one. Nothing is known of its contents but through `unread_records`.
#[verifier::external_type_specification]
#[verifier::external_body]
#[verifier::reject_recursive_types(R)]
pub struct ExCsvReader<R>(csv::Reader<R>);

/// What a `csv::Reader` with the default settings of `csv::ReaderBuilder`
/// yields for `text`, record by record: `Some` with the fields of a record,
/// `None` where reading that record fails. With these settings the first
/// row of the text is a header and not among the records.
pub uninterp spec fn csv_records(text: Seq<char>) -> Seq<Option<Seq<Seq<char>>>>;

/// What a reader over text in memory has yet to yield, in the form of
/// `csv_records`.
pub uninterp spec fn unread_records(reader: csv::Reader<&[u8]>) -> Seq<Option<Seq<Seq<char>>>>;

/// The texts of a row of strings.
pub open spec fn texts_of(fields: Seq<String>) -> Seq<Seq<char>> {
    Seq::new(fields.len(), |j: int| fields[j]@)
}

/// The texts of a table of strings, row by row.
pub open spec fn table_of(rows: Seq<Vec<String>>) -> Seq<Seq<Seq<char>>> {
    Seq::new(rows.len(), |i: int| texts_of(rows[i]@))
}

/// Calls `csv::ReaderBuilder::new` and `csv::ReaderBuilder::from_reader` on
/// the bytes of `text`. The contract claims that what the new reader will
/// yield depends on the text alone.
#[verifier::external_body]
fn open_reader(text: &str) -> (reader: csv::Reader<&[u8]>)
    ensures
        unread_records(reader) == csv_records(text@),
{
    csv::ReaderBuilder::new().from_reader(text.as_bytes())
}

/// Calls `csv::Reader::records` and takes the iterator's next item, which
/// is read from the reader by `csv::Reader::read_record`; the fields of a
/// record are copied into strings. The contract claims that the reader
/// yields its records in order, one per call, a failure in place of a
/// record that cannot be read, and `None` once the data is used up, which
/// happens after finitely many calls as the data is in memory.
#[verifier::external_body]
fn next_record(reader: &mut csv::Reader<&[u8]>) -> (record: Option<
    Result<Vec<String>, csv::Error>,
>)
    ensures
        match record {
            None => unread_records(*old(reader)).len() == 0 && unread_records(*final(reader)).len()
                == 0,
            Some(outcome) => {
                &&& unread_records(*old(reader)).len() > 0
                &&& unread_records(*final(reader)) == unread_records(*old(reader)).skip(1)
                &&& match outcome {
                    Ok(fields) => unread_records(*old(reader))[0] == Some(texts_of(fields@)),
                    Err(_) => unread_records(*old(reader))[0] is None,
                }
            },
        },
{
    reader.records().next().map(
        |read| read.map(|record| record.iter().map(|field| field.to_string()).collect()),
    )
}

/// Why comma-separated text could not be read.
#[derive(Debug)]
pub struct CsvError {
    /// The number of records that were read before the one that failed.
    pub record: usize,
    /// The reader's own words.
    pub message: String,
}

/// Reads comma-separated text into a table of strings, one row per record.
/// The first row of the text is taken for a header and left out. Reading
/// stops at the first record that fails.
pub fn get_csv(text: &str) -> (table: Result<Vec<Vec<String>>, CsvError>)
    ensures
        match table {
            Ok(rows) => {
                &&& rows.len() == csv_records(text@).len()
                &&& forall|i: int|
                    0 <= i < rows.len() ==> #[trigger] csv_records(text@)[i] == Some(
                        texts_of(rows[i]@),
                    )
            },
            Err(fault) => {
                &&& fault.record < csv_records(text@).len()
                &&& csv_records(text@)[fault.record as int] is None
                &&& forall|i: int|
                    0 <= i < fault.record ==> #[trigger] csv_records(text@)[i] is Some
            },
        },
{
    let mut rdr = open_reader(text);
    let mut result: Vec<Vec<String>> = Vec::new();
    loop
        invariant
            result.len() <= csv_records(text@).len(),
            unread_records(rdr) == csv_records(text@).skip(result.len() as int),
            forall|i: int|
                0 <= i < result.len() ==> #[trigger] csv_records(text@)[i] == Some(
                    texts_of(result[i]@),
                ),
        decreases unread_records(rdr).len(),
    {
        match next_record(&mut rdr) {
            None => {
                return Ok(result);
            },
            Some(Ok(fields)) => {
                result.push(fields);
            },
            Some(Err(error)) => {
                return Err(CsvError { record: result.len(), message: error.to_string() });
            },
        }
    }
}

/// Why a table of strings could not be turned into numbers.
#[derive(Debug)]
pub struct CellError<E> {
    /// The row of the first cell that is no number, counted from 0.
    pub row: usize,
    /// The column of that cell, counted from 0.
    pub column: usize,
    /// What the parser said of that cell.
    pub cause: E,
}

/// The cell at `row` and `column` is read before the cell at `other_row`
/// and `other_column`, the table being read row by row, each row from the
/// left.
pub open spec fn read_before(row: int, column: int, other_row: int, other_column: int) -> bool {
    row < other_row || (row == other_row && column < other_column)
}

/// Turns a table of strings into a table of numbers of the same shape, each
/// cell by one call of `parse`. The table is read row by row, each row from
/// the left, and the first cell that `parse` refuses ends the reading: the
/// error names that cell and holds what `parse` returned for it.
pub fn get_float_csv_from_str_csv<T, E, F: Fn(&String) -> Result<T, E>>(
    input: Vec<Vec<String>>,
    parse: F,
) -> (list: Result<Vec<Vec<T>>, CellError<E>>)
    requires
        forall|i: int, j: int|
            0 <= i < input.len() && 0 <= j < input[i].len() ==> call_requires(
                parse,
                (&#[trigger] input[i][j],),
            ),
    ensures
        match list {
            Ok(numbers) => {
                &&& numbers.len() == input.len()
                &&& forall|i: int|
                    0 <= i < input.len() ==> (#[trigger] numbers[i]).len() == input[i].len()
                &&& forall|i: int, j: int|
                    0 <= i < input.len() && 0 <= j < input[i].len() ==> call_ensures(
                        parse,
                        (&#[trigger] input[i][j],),
                        Ok(numbers[i][j]),
                    )
            },
            Err(fault) => {
                &&& fault.row < input.len()
                &&& fault.column < input[fault.row as int].len()
                &&& call_ensures(
                    parse,
                    (&input[fault.row as int][fault.column as int],),
                    Err(fault.cause),
                )
                &&& forall|i: int, j: int|
                    0 <= i < input.len() && 0 <= j < input[i].len() && read_before(
                        i,
                        j,
                        fault.row as int,
                        fault.column as int,
                    ) ==> exists|number: T|
                        call_ensures(parse, (&#[trigger] input[i][j],), Ok(number))
            },
        },
{
    let mut list: Vec<Vec<T>> = Vec::new();
    let mut row: usize = 0;
    while row < input.len()
        invariant
            row <= input.len(),
            list.len() == row,
            forall|i: int, j: int|
                0 <= i < input.len() && 0 <= j < input[i].len() ==> call_requires(
                    parse,
                    (&#[trigger] input[i][j],),
                ),
            forall|i: int| 0 <= i < row ==> (#[trigger] list[i]).len() == input[i].len(),
            forall|i: int, j: int|
                0 <= i < row && 0 <= j < input[i].len() ==> call_ensures(
                    parse,
                    (&#[trigger] input[i][j],),
                    Ok(list[i][j]),
                ),
        decreases input.len() - row,
    {
        let cells = &input[row];
        let mut temp: Vec<T> = Vec::new();
        let mut column: usize = 0;
        while column < cells.len()
            invariant
                row < input.len(),
                cells == &input[row as int],
                column <= cells.len(),
                temp.len() == column,
                forall|i: int, j: int|
                    0 <= i < input.len() && 0 <= j < input[i].len() ==> call_requires(
                        parse,
                        (&#[trigger] input[i][j],),
                    ),
                forall|j: int|
                    0 <= j < column ==> call_ensures(
                        parse,
                        (&#[trigger] input[row as int][j],),
                        Ok(temp[j]),
                    ),
                list.len() == row,
                forall|i: int, j: int|
                    0 <= i < row && 0 <= j < input[i].len() ==> call_ensures(
                        parse,
                        (&#[trigger] input[i][j],),
                        Ok(list[i][j]),
                    ),
            decreases cells.len() - column,
        {
            assert(cells[column as int] == input[row as int][column as int]);
            match parse(&cells[column]) {
                Ok(number) => {
                    temp.push(number);
                },
                Err(cause) => {
                    assert forall|i: int, j: int|
                        0 <= i < input.len() && 0 <= j < input[i].len() && read_before(
                            i,
                            j,
                            row as int,
                            column as int,
                        ) implies exists|number: T|
                        call_ensures(parse, (&#[trigger] input[i][j],), Ok(number)) by {
                        if i < row {
                            assert(call_ensures(parse, (&input[i][j],), Ok(list[i][j])));
                        } else {
                            assert(call_ensures(parse, (&input[row as int][j],), Ok(temp[j])));
                        }
                    }
                    return Err(CellError { row, column, cause });
                },
            }
            column += 1;
        }
        list.push(temp);
        row += 1;
    }
    Ok(list)
}

} // verus!
