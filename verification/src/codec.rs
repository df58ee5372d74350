//! The on-disk shape of the request cache: one line per entry,
//! `key,base64(payload)`, appended to and never rewritten.
//!
//! Keys must stay clear of the two separators (`,` and the line feed); both
//! resolvers produce such keys. Reading is tolerant: a malformed line — in
//! particular a corrupt trailing line after an interrupted write — is
//! skipped, not fatal.

use vstd::prelude::*;

use crate::b64::{b64_bytes_of, b64_clean, b64_decode, b64_encode, is_b64_byte};
use crate::bytes::{bytes_range, find_byte, push_bytes};
use crate::cache::CacheEntry;

verus! {

/// A key that the line format can carry: free of `,` and of the line feed.
pub open spec fn clean_key(k: Seq<u8>) -> bool {
    forall|i: int| 0 <= i < k.len() ==> k[i] != 44 && k[i] != 10
}

/// The line recording one entry (without its terminating line feed).
pub open spec fn spec_cache_line(k: Seq<u8>, p: Seq<u8>) -> Seq<u8> {
    k + seq![44u8] + b64_bytes_of(p)
}

/// The whole file: every entry's line in storage order, each terminated by
/// a line feed.
pub open spec fn spec_cache_file(es: Seq<(Seq<u8>, Seq<u8>)>) -> Seq<u8>
    decreases es.len(),
{
    if es.len() == 0 {
        Seq::empty()
    } else {
        spec_cache_line(es[0].0, es[0].1) + seq![10u8] + spec_cache_file(es.drop_first())
    }
}

/// Entries the file format represents faithfully: separator-free keys, and
/// payload encodings made of alphabet bytes (which the base64 wrapper
/// guarantees of every encoding it returns).
pub open spec fn wf_entries(es: Seq<(Seq<u8>, Seq<u8>)>) -> bool {
    forall|i: int|
        0 <= i < es.len() ==> clean_key(#[trigger] es[i].0) && b64_clean(b64_bytes_of(es[i].1))
}

/// Appending an entry appends its line.
proof fn lemma_file_push(es: Seq<(Seq<u8>, Seq<u8>)>, e: (Seq<u8>, Seq<u8>))
    ensures
        spec_cache_file(es.push(e)) == spec_cache_file(es) + spec_cache_line(e.0, e.1) + seq![
            10u8,
        ],
    decreases es.len(),
{
    let t = es.push(e);
    if es.len() == 0 {
        assert(t[0] == e);
        assert(t.drop_first() =~= Seq::<(Seq<u8>, Seq<u8>)>::empty());
        assert(spec_cache_file(Seq::<(Seq<u8>, Seq<u8>)>::empty()) == Seq::<u8>::empty());
        assert(spec_cache_file(t) == spec_cache_line(e.0, e.1) + seq![10u8] + spec_cache_file(
            t.drop_first(),
        ));
        assert(spec_cache_file(es) + spec_cache_line(e.0, e.1) + seq![10u8] =~= spec_cache_line(
            e.0,
            e.1,
        ) + seq![10u8] + Seq::<u8>::empty());
    } else {
        lemma_file_push(es.drop_first(), e);
        assert(t.drop_first() =~= es.drop_first().push(e));
        assert(t[0] == es[0]);
        assert(spec_cache_file(es) + spec_cache_line(e.0, e.1) + seq![10u8] =~= spec_cache_line(
            es[0].0,
            es[0].1,
        ) + seq![10u8] + (spec_cache_file(es.drop_first()) + spec_cache_line(e.0, e.1) + seq![
            10u8,
        ]));
    }
}

/// Encode one entry as its line (no terminating line feed).
pub fn encode_cache_line(key: &[u8], payload: &[u8]) -> (r: Vec<u8>)
    ensures
        r@ == spec_cache_line(key@, payload@),
        b64_clean(b64_bytes_of(payload@)),
        r@.len() > key@.len(),
        forall|i: int| 0 <= i < key@.len() ==> r@[i] == key@[i],
        r@[key@.len() as int] == 44,
{
    let mut out: Vec<u8> = Vec::new();
    push_bytes(&mut out, key);
    out.push(44);
    let enc = b64_encode(payload);
    push_bytes(&mut out, enc.as_slice());
    proof {
        assert(out@ =~= key@ + seq![44u8] + b64_bytes_of(payload@));
    }
    out
}

/// Parse one line. When the line is the encoding of a separator-free key
/// and a payload, exactly that pair comes back: this is the read half of
/// the round trip.
pub fn parse_cache_line(line: &[u8]) -> (r: Option<CacheEntry>)
    ensures
        forall|k: Seq<u8>, p: Seq<u8>|
            clean_key(k) && b64_clean(b64_bytes_of(p)) && line@ == spec_cache_line(k, p)
                ==> (r matches Some(e) && e.key@ == k && e.payload@ == p),
{
    match find_byte(line, 44) {
        Some(i) => {
            let end = line.len();
            let key = bytes_range(line, 0, i);
            let rest = bytes_range(line, i + 1, end);
            proof {
                assert forall|k: Seq<u8>, p: Seq<u8>|
                    clean_key(k) && b64_clean(b64_bytes_of(p)) && line@ == spec_cache_line(
                        k,
                        p,
                    ) implies i == k.len() && key@ == k && rest@ == b64_bytes_of(p) by {
                    let c = b64_bytes_of(p);
                    assert(line@[k.len() as int] == 44);
                    assert forall|j: int| 0 <= j < k.len() implies line@[j] != 44 by {
                        assert(line@[j] == k[j]);
                    }
                    assert forall|j: int| k.len() < j < line@.len() implies line@[j] != 44 by {
                        assert(line@[j] == c[j - k.len() - 1]);
                        assert(is_b64_byte(c[j - k.len() - 1]));
                    }
                    assert(i == k.len());
                    assert(key@ =~= k);
                    assert(rest@ =~= c);
                }
            }
            match b64_decode(rest.as_slice()) {
                Some(payload) => {
                    let e = CacheEntry { key, payload };
                    Some(e)
                },
                None => {
                    proof {
                        assert forall|k: Seq<u8>, p: Seq<u8>|
                            clean_key(k) && b64_clean(b64_bytes_of(p)) && line@ == spec_cache_line(
                                k,
                                p,
                            ) implies false by {
                            assert(rest@ == b64_bytes_of(p));
                        }
                    }
                    None
                },
            }
        },
        None => {
            proof {
                assert forall|k: Seq<u8>, p: Seq<u8>|
                    clean_key(k) && b64_clean(b64_bytes_of(p)) && line@ == spec_cache_line(
                        k,
                        p,
                    ) implies false by {
                    assert(line@[k.len() as int] == 44);
                }
            }
            None
        },
    }
}

/// Encode the whole entry sequence as the line-oriented file body.
pub fn encode_cache_file(entries: &Vec<CacheEntry>) -> (r: Vec<u8>)
    ensures
        r@ == spec_cache_file(entries@.map_values(|e: CacheEntry| e@)),
        forall|i: int|
            0 <= i < entries@.len() ==> b64_clean(b64_bytes_of((#[trigger] entries@[i])@.1)),
{
    let ghost es = entries@.map_values(|e: CacheEntry| e@);
    let mut out: Vec<u8> = Vec::new();
    let n = entries.len();
    let mut i: usize = 0;
    proof {
        assert(es.take(0) =~= Seq::<(Seq<u8>, Seq<u8>)>::empty());
    }
    while i < n
        invariant
            n == entries@.len(),
            es == entries@.map_values(|e: CacheEntry| e@),
            0 <= i <= n,
            out@ == spec_cache_file(es.take(i as int)),
            forall|j: int| 0 <= j < i ==> b64_clean(b64_bytes_of(#[trigger] es[j].1)),
        decreases n - i,
    {
        let line = encode_cache_line(entries[i].key.as_slice(), entries[i].payload.as_slice());
        push_bytes(&mut out, line.as_slice());
        out.push(10);
        proof {
            assert(es[i as int] == entries@[i as int]@);
            lemma_file_push(es.take(i as int), es[i as int]);
            assert(es.take(i + 1 as int) =~= es.take(i as int).push(es[i as int]));
            assert(out@ =~= spec_cache_file(es.take(i as int)) + spec_cache_line(
                es[i as int].0,
                es[i as int].1,
            ) + seq![10u8]);
        }
        i += 1;
    }
    proof {
        assert(es.take(n as int) =~= es);
        assert forall|j: int|
            0 <= j < entries@.len() implies b64_clean(
            b64_bytes_of((#[trigger] entries@[j])@.1),
        ) by {
            assert(es[j] == entries@[j]@);
        }
    }
    out
}

/// Decode a file body back into entries, skipping malformed lines (a corrupt
/// trailing line included). Reading back what `encode_cache_file` wrote for
/// separator-free keys reproduces the entries exactly: the file-level round
/// trip.
pub fn parse_cache_file(bytes: &[u8]) -> (r: Vec<CacheEntry>)
    ensures
        forall|es: Seq<(Seq<u8>, Seq<u8>)>|
            wf_entries(es) && bytes@ == spec_cache_file(es) ==> r@.map_values(
                |e: CacheEntry| e@,
            ) =~= es,
    decreases bytes@.len(),
{
    if bytes.len() == 0 {
        let r: Vec<CacheEntry> = Vec::new();
        proof {
            assert forall|es: Seq<(Seq<u8>, Seq<u8>)>|
                wf_entries(es) && bytes@ == spec_cache_file(es) implies r@.map_values(
                |e: CacheEntry| e@,
            ) =~= es by {
                if es.len() != 0 {
                    assert(spec_cache_file(es).len() >= 1) by {
                        assert(spec_cache_file(es) == spec_cache_line(es[0].0, es[0].1) + seq![
                            10u8,
                        ] + spec_cache_file(es.drop_first()));
                    }
                }
            }
        }
        return r;
    }
    match find_byte(bytes, 10) {
        Some(nl) => {
            let seg = bytes_range(bytes, 0, nl);
            let rest = bytes_range(bytes, nl + 1, bytes.len());
            let head = parse_cache_line(seg.as_slice());
            let mut tail = parse_cache_file(rest.as_slice());
            let mut out: Vec<CacheEntry> = Vec::new();
            match head {
                Some(e) => out.push(e),
                None => (),
            }
            let ghost out_before = out@;
            let ghost tail_before = tail@;
            out.append(&mut tail);
            proof {
                assert forall|es: Seq<(Seq<u8>, Seq<u8>)>|
                    wf_entries(es) && bytes@ == spec_cache_file(es) implies out@.map_values(
                    |e: CacheEntry| e@,
                ) =~= es by {
                    assert(es.len() != 0);
                    let k = es[0].0;
                    let p = es[0].1;
                    let line = spec_cache_line(k, p);
                    let c = b64_bytes_of(p);
                    assert(clean_key(k) && b64_clean(c));
                    assert(bytes@ == line + seq![10u8] + spec_cache_file(es.drop_first()));
                    // the first line feed sits exactly at the end of the first line
                    assert forall|j: int| 0 <= j < line.len() implies bytes@[j] != 10 by {
                        assert(bytes@[j] == line[j]);
                        if j < k.len() {
                            assert(line[j] == k[j]);
                        } else if j == k.len() {
                            assert(line[j] == 44);
                        } else {
                            assert(line[j] == c[j - k.len() - 1]);
                            assert(is_b64_byte(c[j - k.len() - 1]));
                        }
                    }
                    assert(bytes@[line.len() as int] == 10);
                    assert(nl == line.len());
                    assert(seg@ =~= line);
                    assert(rest@ =~= spec_cache_file(es.drop_first()));
                    assert(wf_entries(es.drop_first())) by {
                        assert forall|i: int|
                            0 <= i < es.drop_first().len() implies clean_key(
                            #[trigger] es.drop_first()[i].0,
                        ) && b64_clean(b64_bytes_of(es.drop_first()[i].1)) by {
                            assert(es.drop_first()[i] == es[i + 1]);
                        }
                    }
                    assert(head matches Some(e) && e.key@ == k && e.payload@ == p);
                    assert(tail_before.map_values(|e: CacheEntry| e@) =~= es.drop_first());
                    assert(out@ == out_before + tail_before);
                    assert(out@.len() == es.len());
                    assert forall|j: int| #![trigger out@[j]]
                        0 <= j < out@.len() implies out@.map_values(
                        |e: CacheEntry| e@,
                    )[j] == es[j] by {
                        if j == 0 {
                            assert(out@[0] == out_before[0]);
                        } else {
                            assert(out@[j] == tail_before[j - 1]);
                            assert(tail_before.map_values(|e: CacheEntry| e@)[j - 1]
                                == es.drop_first()[j - 1]);
                        }
                    }
                    assert(out@.map_values(|e: CacheEntry| e@) =~= es);
                }
            }
            out
        },
        None => {
            // no line feed at all: at most one (unterminated) line; tolerate it
            let head = parse_cache_line(bytes);
            let mut out: Vec<CacheEntry> = Vec::new();
            match head {
                Some(e) => out.push(e),
                None => (),
            }
            proof {
                assert forall|es: Seq<(Seq<u8>, Seq<u8>)>|
                    wf_entries(es) && bytes@ == spec_cache_file(es) implies out@.map_values(
                    |e: CacheEntry| e@,
                ) =~= es by {
                    assert(es.len() != 0);
                    let line = spec_cache_line(es[0].0, es[0].1);
                    assert(bytes@ == line + seq![10u8] + spec_cache_file(es.drop_first()));
                    assert(bytes@[line.len() as int] == 10);
                }
            }
            out
        },
    }
}

} // verus!
