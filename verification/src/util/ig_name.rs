//! Names: a 32-bit hash with, where it is known, the text it was made from.

use crate::util::ig_hash::{hash, spec_hash};
use vstd::prelude::*;

verus! {

/// A name as the engine compares it: by hash. The text is filled in when it
/// has been observed.
#[derive(Debug)]
pub struct igName {
    pub string: Option<String>,
    pub hash: u32,
}

impl igName {
    /// The name of a text.
    pub fn new(string: String) -> (name: igName)
        ensures
            name.string == Some(string),
            name.hash == spec_hash(string@),
    {
        let h = hash(string.as_str());
        igName { string: Some(string), hash: h }
    }

    /// A name known by its hash alone.
    pub fn from_hash(hash: u32) -> (name: igName)
        ensures
            name.string.is_none(),
            name.hash == hash,
    {
        igName { string: None, hash }
    }

    /// A copy of the name.
    pub fn duplicate(&self) -> (name: igName)
        ensures
            name == *self,
    {
        let string = match &self.string {
            Some(s) => Some(s.clone()),
            None => None,
        };
        igName { string, hash: self.hash }
    }
}

} // verus!
