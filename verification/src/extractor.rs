use crate::record::Record;
use vstd::prelude::*;

verus! {

/// Hands out the records of a source, one by one, until there are no more.
pub trait Extractor<R>: Iterator<Item = R> where R: Record {
}

/// A list of records hands them out from its first to its last.
impl<R: Record> Extractor<R> for std::vec::IntoIter<R> {
}

/// Why a source could not be opened.
#[derive(Debug)]
pub struct ExtractorError {
    message: String,
}

impl View for ExtractorError {
    type V = Seq<char>;

    closed spec fn view(&self) -> Seq<char> {
        self.message@
    }
}

impl ExtractorError {
    pub fn new(message: &str) -> (error: ExtractorError)
        ensures
            error@ == message@,
    {
        ExtractorError { message: message.to_owned() }
    }

    /// The message, as the error prints.
    pub fn to_string(&self) -> (text: String)
        ensures
            text@ == self@,
    {
        self.message.clone()
    }

    pub fn description(&self) -> (description: &str)
        ensures
            description@ == self@,
    {
        self.message.as_str()
    }
}

} // verus!
