use vstd::prelude::*;

verus! {

/// A failure while reading a payload from its producer.
#[derive(Debug, Clone, PartialEq, Eq)]
pub enum BodyError {
    /// The underlying transport or file failed while a chunk was read.
    Io(String),
    /// The producer gave up for a reason of its own.
    Other(String),
}

impl BodyError {
    /// The text that came with the failure.
    pub fn message(&self) -> (text: &String)
        ensures
            *text == match *self {
                BodyError::Io(m) => m,
                BodyError::Other(m) => m,
            },
    {
        match self {
            BodyError::Io(m) => m,
            BodyError::Other(m) => m,
        }
    }
}

} // verus!
