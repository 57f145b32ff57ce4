//! Small helpers for plugin authors.
use vstd::prelude::*;
use crate::text::str_chars;

verus! {

/// One step of the pskey hash: `h * 33 + c`, wrapping at 32 bits.
pub open spec fn pskey_step(h: u32, c: char) -> u32 {
    ((h as int * 33 + c as u32 as int) % 0x1_0000_0000) as u32
}

/// The 32-bit hash of a key, before the top bit is cleared.
pub open spec fn pskey_hash(s: Seq<char>) -> u32
    decreases s.len(),
{
    if s.len() == 0 {
        5381
    } else {
        pskey_step(pskey_hash(s.drop_last()), s.last())
    }
}

/// The pskey of `skey`: the hash with its top bit cleared.
pub open spec fn spec_pskey(s: Seq<char>) -> u32 {
    (pskey_hash(s) % 0x8000_0000) as u32
}

/// Computes the pskey of a skey.
pub fn calculate_pskey(skey: &str) -> (r: u32)
    ensures
        r == spec_pskey(skey@),
        r < 0x8000_0000,
{
    let cs = str_chars(skey);
    let mut hash: u32 = 5381;
    let mut i: usize = 0;
    while i < cs.len()
        invariant
            0 <= i <= cs@.len(),
            cs@ == skey@,
            hash == pskey_hash(skey@.take(i as int)),
        decreases cs@.len() - i,
    {
        let c: u32 = cs[i] as u32;
        let shifted: u32 = hash << 5;
        let next: u32 = shifted.wrapping_add(hash).wrapping_add(c);
        assert(shifted == (hash as int * 32) % 0x1_0000_0000) by (bit_vector)
            requires shifted == hash << 5;
        assert(next == pskey_step(hash, cs@[i as int])) by {
            assert(skey@.take(i + 1).drop_last() == skey@.take(i as int));
        }
        assert(skey@.take(i + 1).drop_last() == skey@.take(i as int));
        hash = next;
        i = i + 1;
    }
    assert(skey@.take(cs@.len() as int) == skey@);
    let r: u32 = hash & 0x7fff_ffff;
    assert(r == hash % 0x8000_0000 && r < 0x8000_0000) by (bit_vector)
        requires r == hash & 0x7fff_ffff;
    r
}

} // verus!
