//! Hashing of texts.
use std::collections::hash_map::DefaultHasher;
use std::hash::Hasher;
use vstd::prelude::*;
use vstd::std_specs::hash::DefaultHasherAdditionalSpecFns;

verus! {

/// The hash of a text: what the standard hasher makes of the bytes of the
/// text and one closing byte.
pub open spec fn hash_of(text: Seq<char>) -> u64 {
    DefaultHasher::spec_finish(seq![vstd::utf8::encode_utf8(text), seq![0xffu8]])
}

/// A hash of `input`. Equal texts have equal hashes.
pub fn generate_hash(input: &str) -> (r: usize)
    ensures
        r == hash_of(input@) as usize,
{
    let mut state = DefaultHasher::new();
    state.write(input.as_bytes());
    let closing: [u8; 1] = [0xff];
    state.write(closing.as_slice());
    assert(state@ =~~= seq![vstd::utf8::encode_utf8(input@), seq![0xffu8]]);
    #[verifier::truncate]
    (state.finish() as usize)
}

/// Whether two byte vectors differ.
fn differ(a: &Vec<u8>, b: &Vec<u8>) -> (r: bool)
    ensures
        r == (a@ != b@),
{
    if a.len() != b.len() {
        return true;
    }
    let mut i: usize = 0;
    while i < a.len()
        invariant
            i <= a@.len(),
            a@.len() == b@.len(),
            a@.take(i as int) == b@.take(i as int),
        decreases a.len() - i,
    {
        if a[i] != b[i] {
            return true;
        }
        i += 1;
    }
    assert(a@.take(a@.len() as int) == a@);
    assert(b@.take(b@.len() as int) == b@);
    false
}

/// Whether a file is to be written: where it does not hold `contents` yet.
/// `current` is what the file holds, if it can be read.
pub fn needs_write(current: &Option<Vec<u8>>, contents: &Vec<u8>) -> (r: bool)
    ensures
        r == match *current {
            Some(held) => held@ != contents@,
            None => true,
        },
{
    match current {
        Some(held) => differ(held, contents),
        None => true,
    }
}

} // verus!
