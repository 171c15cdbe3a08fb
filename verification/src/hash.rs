//! Hashtags.
use crate::util::{generate_hash, hash_of};
use vstd::prelude::*;
use vstd::std_specs::cmp::PartialEqSpecImpl;
use vstd::string::StringExecFns;

verus! {

/// A hashtag: a `#` and a name, such as `#urgent`.
#[derive(Eq, Debug, Hash, PartialOrd, Ord)]
pub struct HashTag {
    tag: String,
}

impl View for HashTag {
    type V = Seq<char>;

    closed spec fn view(&self) -> Seq<char> {
        self.tag@
    }
}

impl Clone for HashTag {
    fn clone(&self) -> (r: Self)
        ensures
            r@ == self@,
    {
        HashTag { tag: self.tag.clone() }
    }
}

impl PartialEq for HashTag {
    fn eq(&self, other: &Self) -> (r: bool) {
        self.tag == other.tag
    }
}

impl PartialEqSpecImpl for HashTag {
    open spec fn obeys_eq_spec() -> bool {
        true
    }

    open spec fn eq_spec(&self, other: &Self) -> bool {
        self@ == other@
    }
}

impl HashTag {
    /// The hashtag with the given text.
    pub fn new(tag: &str) -> (r: HashTag)
        ensures
            r@ == tag@,
    {
        HashTag { tag: String::from_str(tag) }
    }

    /// The text of the hashtag.
    pub fn as_str(&self) -> (r: &str)
        ensures
            r@ == self@,
    {
        self.tag.as_str()
    }

    /// A copy of the text of the hashtag.
    pub fn to_string(&self) -> (r: String)
        ensures
            r@ == self@,
    {
        self.tag.clone()
    }

    /// A hash of the hashtag, by which a colour can be picked for it. Equal
    /// hashtags have equal hashes.
    pub fn hash(&self) -> (r: usize)
        ensures
            r == hash_of(self@) as usize,
    {
        generate_hash(self.tag.as_str())
    }
}

} // verus!
