use crate::extractor::ExtractorError;
use crate::record::{fields_of, MapRecord, Record};
use vstd::prelude::*;

verus! {

/// What is said where a table has no header row.
pub const MISSING_HEADERS: &'static str = "missing headers";

/// Each cell of a row with the name of its column.
pub open spec fn paired(headers: Seq<String>, cells: Seq<String>) -> Seq<(String, String)> {
    Seq::new(cells.len(), |i: int| (headers[i], cells[i]))
}

/// The fields of a row: each cell under the name of its column, and no field at all for a
/// row that could not be read.
pub open spec fn row_fields(headers: Seq<String>, row: Option<Vec<String>>) -> Map<
    Seq<char>,
    Seq<char>,
> {
    match row {
        Some(cells) => fields_of(paired(headers, cells@)),
        None => Map::empty(),
    }
}

/// Makes records of the rows of a table, numbering them from 1 in the order they come.
#[derive(Debug)]
pub struct Rows {
    headers: Vec<String>,
    position: u64,
}

impl Rows {
    /// The names of the columns.
    pub closed spec fn spec_headers(&self) -> Seq<String> {
        self.headers@
    }

    /// How many rows have been made into records.
    pub closed spec fn spec_position(&self) -> u64 {
        self.position
    }

    /// Starts on a table with that header row; `None` stands for a header row that could
    /// not be read.
    pub fn new(headers: Option<Vec<String>>) -> (rows: Result<Rows, ExtractorError>)
        ensures
            match headers {
                Some(names) => rows matches Ok(started) && started.spec_headers() == names@
                    && started.spec_position() == 0,
                None => rows matches Err(error) && error@ == MISSING_HEADERS@,
            },
    {
        match headers {
            Some(names) => Ok(Rows { headers: names, position: 0 }),
            None => Err(ExtractorError::new(MISSING_HEADERS)),
        }
    }

    pub fn headers(&self) -> (headers: &Vec<String>)
        ensures
            headers@ == self.spec_headers(),
    {
        &self.headers
    }

    pub fn position(&self) -> (position: u64)
        ensures
            position == self.spec_position(),
    {
        self.position
    }

    /// The record of the next row; `None` stands for a row that could not be read, which
    /// still makes a record and takes a number. A row has no more cells than the table has
    /// columns.
    pub fn record_of(&mut self, row: Option<Vec<String>>) -> (record: MapRecord)
        requires
            old(self).spec_position() < u64::MAX,
            row matches Some(cells) ==> cells@.len() <= old(self).spec_headers().len(),
        ensures
            final(self).spec_headers() == old(self).spec_headers(),
            final(self).spec_position() == old(self).spec_position() + 1,
            record.spec_id() == old(self).spec_position() + 1,
            record.fields() == row_fields(old(self).spec_headers(), row),
    {
        self.position = self.position + 1;
        let mut entries: Vec<(String, String)> = Vec::new();
        match row {
            Some(cells) => {
                let mut at: usize = 0;
                while at < cells.len()
                    invariant
                        at <= cells@.len() <= self.headers@.len(),
                        entries@ == paired(self.headers@, cells@).take(at as int),
                    decreases cells@.len() - at,
                {
                    entries.push((self.headers[at].clone(), cells[at].clone()));
                    proof {
                        assert(entries@ =~= paired(self.headers@, cells@).take(at + 1));
                    }
                    at = at + 1;
                }
                proof {
                    assert(entries@ =~= paired(self.headers@, cells@));
                }
            },
            None => {},
        }
        MapRecord::new(self.position, entries)
    }
}

} // verus!
