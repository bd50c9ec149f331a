use vstd::prelude::*;
use vstd::string::StringSliceAdditionalSpecFns;
use vstd::utf8::{encode_utf8, encode_utf8_decode_utf8};

verus! {

/// Two texts with the same UTF-8 bytes are the same text.
pub proof fn lemma_same_bytes_same_text(a: Seq<char>, b: Seq<char>)
    requires
        encode_utf8(a) == encode_utf8(b),
    ensures
        a == b,
{
    encode_utf8_decode_utf8(a);
    encode_utf8_decode_utf8(b);
}

/// Whether two texts are the same, character by character.
pub fn sameText(a: &str, b: &str) -> (same: bool)
    ensures
        same == (a@ == b@),
{
    let mine = a.as_bytes();
    let theirs = b.as_bytes();
    if mine.len() != theirs.len() {
        return false;
    }
    let mut i: usize = 0;
    while i < mine.len()
        invariant
            i <= mine@.len(),
            mine@.len() == theirs@.len(),
            mine@ == a.spec_bytes(),
            theirs@ == b.spec_bytes(),
            forall|k: int| 0 <= k < i ==> mine@[k] == theirs@[k],
        decreases mine@.len() - i,
    {
        if mine[i] != theirs[i] {
            return false;
        }
        i += 1;
    }
    proof {
        assert(mine@ =~= theirs@);
        lemma_same_bytes_same_text(a@, b@);
    }
    true
}

} // verus!
