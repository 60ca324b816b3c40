//! Small implementations useful to plug a driver together.

use vstd::prelude::*;

use crate::driver::Storage;
use crate::err::HTTPError;

verus! {

/// A storage sink that accepts every batch and keeps nothing.
#[derive(Debug)]
pub struct DebuggingStorage {}

/// One extracted price entry: the item's description, its price text, and
/// a free-form note.
#[derive(Debug)]
pub struct ScrapedPrice {
    pub item: String,
    pub price: String,
    pub note: i32,
}

impl Storage<ScrapedPrice> for DebuggingStorage {
    /// Accepts every batch; nothing is kept.
    fn store(&mut self, _records: Vec<ScrapedPrice>) -> (r: Result<(), HTTPError>)
        ensures
            r is Ok,
    {
        Ok(())
    }
}

} // verus!
