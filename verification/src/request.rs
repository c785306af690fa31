//! Requests: a resource key together with the options that pick one variant.

use vstd::prelude::*;
use crate::key::ResourceKey;

verus! {

/// A variant and a language identifier, both optional, that select one entry
/// among those stored under a key. The language identifier is held in its
/// canonical text form.
#[derive(Debug, PartialEq, Eq, Hash)]
pub struct ResourceOptions {
    pub variant: Option<String>,
    pub langid: Option<String>,
}

/// A request for one piece of data.
#[derive(Debug, PartialEq, Eq, Hash)]
pub struct DataRequest {
    pub key: ResourceKey,
    pub options: ResourceOptions,
}

fn clone_text(text: &Option<String>) -> (copy: Option<String>)
    ensures
        copy == *text,
{
    match text {
        Some(s) => Some(s.clone()),
        None => None,
    }
}

impl Clone for ResourceOptions {
    fn clone(&self) -> (copy: Self)
        ensures
            copy == *self,
    {
        ResourceOptions { variant: clone_text(&self.variant), langid: clone_text(&self.langid) }
    }
}

impl Clone for DataRequest {
    fn clone(&self) -> (copy: Self)
        ensures
            copy == *self,
    {
        DataRequest { key: self.key, options: self.options.clone() }
    }
}

impl ResourceOptions {
    /// Options that select nothing in particular.
    pub fn empty() -> (options: Self)
        ensures
            options.variant is None,
            options.langid is None,
    {
        ResourceOptions { variant: None, langid: None }
    }
}

impl DataRequest {
    /// A request for `key` with empty options.
    pub fn for_key(key: ResourceKey) -> (req: Self)
        ensures
            req.key == key,
            req.options.variant is None,
            req.options.langid is None,
    {
        DataRequest { key, options: ResourceOptions::empty() }
    }
}

} // verus!
