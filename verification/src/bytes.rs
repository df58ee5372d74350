//! Small verified helpers for byte sequences; the cache codec and the
//! request encoders are built on these.

use vstd::prelude::*;

verus! {

/// Exact byte-sequence equality.
pub fn bytes_eq(a: &[u8], b: &[u8]) -> (r: bool)
    ensures
        r == (a@ == b@),
{
    if a.len() != b.len() {
        assert(a@ != b@) by {
            assert(a@.len() != b@.len());
        }
        return false;
    }
    let n = a.len();
    let mut i: usize = 0;
    while i < n
        invariant
            n == a@.len() == b@.len(),
            0 <= i <= n,
            forall|j: int| 0 <= j < i ==> a@[j] == b@[j],
        decreases n - i,
    {
        if a[i] != b[i] {
            assert(a@ != b@) by {
                assert(a@[i as int] != b@[i as int]);
            }
            return false;
        }
        i += 1;
    }
    proof {
        assert(a@ =~= b@);
    }
    true
}

/// Append every byte of `s` to `v`.
pub fn push_bytes(v: &mut Vec<u8>, s: &[u8])
    ensures
        final(v)@ == old(v)@ + s@,
{
    let n = s.len();
    let mut i: usize = 0;
    while i < n
        invariant
            n == s@.len(),
            0 <= i <= n,
            v@ == old(v)@ + s@.subrange(0, i as int),
        decreases n - i,
    {
        v.push(s[i]);
        proof {
            assert(v@ =~= old(v)@ + s@.subrange(0, i + 1 as int));
        }
        i += 1;
    }
    proof {
        assert(old(v)@ + s@.subrange(0, n as int) =~= old(v)@ + s@);
    }
}

/// The bytes of `s` as an owned vector.
pub fn bytes_of(s: &[u8]) -> (r: Vec<u8>)
    ensures
        r@ == s@,
{
    let mut v: Vec<u8> = Vec::new();
    push_bytes(&mut v, s);
    proof {
        assert(v@ =~= s@);
    }
    v
}

/// The first index of `b` in `s`, if any.
pub fn find_byte(s: &[u8], b: u8) -> (r: Option<usize>)
    ensures
        match r {
            Some(i) => 0 <= i < s@.len() && s@[i as int] == b && forall|j: int|
                0 <= j < i ==> s@[j] != b,
            None => forall|j: int| 0 <= j < s@.len() ==> s@[j] != b,
        },
{
    let n = s.len();
    let mut i: usize = 0;
    while i < n
        invariant
            n == s@.len(),
            0 <= i <= n,
            forall|j: int| 0 <= j < i ==> s@[j] != b,
        decreases n - i,
    {
        if s[i] == b {
            return Some(i);
        }
        i += 1;
    }
    None
}

/// Whether `b` occurs in `s`.
pub fn contains_byte(s: &[u8], b: u8) -> (r: bool)
    ensures
        r == s@.contains(b),
{
    match find_byte(s, b) {
        Some(i) => {
            proof {
                assert(s@[i as int] == b);
            }
            true
        },
        None => {
            proof {
                assert(!s@.contains(b)) by {
                    if s@.contains(b) {
                        let j = choose|j: int| 0 <= j < s@.len() && s@[j] == b;
                        assert(s@[j] != b);
                    }
                }
            }
            false
        },
    }
}

/// A copy of `s[from..to]`.
pub fn bytes_range(s: &[u8], from: usize, to: usize) -> (r: Vec<u8>)
    requires
        0 <= from <= to <= s@.len(),
    ensures
        r@ == s@.subrange(from as int, to as int),
{
    let mut v: Vec<u8> = Vec::new();
    let mut i: usize = from;
    while i < to
        invariant
            0 <= from <= i <= to <= s@.len(),
            v@ == s@.subrange(from as int, i as int),
        decreases to - i,
    {
        v.push(s[i]);
        proof {
            assert(v@ =~= s@.subrange(from as int, i + 1 as int));
        }
        i += 1;
    }
    v
}

} // verus!
