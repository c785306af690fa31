//! The errors that a request can end in.

use vstd::prelude::*;
use crate::key::ResourceKey;
use crate::request::DataRequest;

verus! {

/// Why a request was not answered with data.
#[derive(Debug, PartialEq, Eq)]
pub enum DataError {
    /// No domain owns the key.
    MissingResourceKey(ResourceKey),
    /// A domain owns the key but has nothing for the options of the request.
    UnsupportedOptions(DataRequest),
    /// The owning domain's data could not be read.
    Io(String),
    /// The owning domain's data was read but could not be understood.
    Parse(String),
}

impl Clone for DataError {
    fn clone(&self) -> (copy: Self)
        ensures
            copy == *self,
    {
        match self {
            DataError::MissingResourceKey(key) => DataError::MissingResourceKey(*key),
            DataError::UnsupportedOptions(req) => DataError::UnsupportedOptions(req.clone()),
            DataError::Io(what) => DataError::Io(what.clone()),
            DataError::Parse(what) => DataError::Parse(what.clone()),
        }
    }
}

} // verus!
