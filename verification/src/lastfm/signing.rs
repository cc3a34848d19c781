//! The Last.fm API signature: the MD5 digest, in lowercase hex, of every
//! parameter name followed by its value in ascending name order (leaving out
//! `format`), followed by the shared secret.

use vstd::prelude::*;
use crate::lastfm::params::{Params, compare_keys, KeyOrder, keys_ascending, entries_map, sorted_entries};
use crate::text::push_char;
use vstd::utf8::encode_utf8;

verus! {

/// The MD5 digest of a byte string (what `md5::compute` returns).
pub uninterp spec fn md5_digest(data: Seq<u8>) -> Seq<u8>;

/// `md5::compute`: the 16-byte MD5 digest of `data`. Its contract claims only
/// that the result is `md5_digest` of the input; MD5 itself is not stated.
#[verifier::external_body]
fn md5_compute(data: &[u8]) -> (res: [u8; 16])
    ensures
        res@ == md5_digest(data@),
{
    md5::compute(data).0
}

/// The lowercase hexadecimal digit for a value below sixteen.
pub open spec fn hex_digit(d: nat) -> char {
    if d < 10 {
        ((d + '0' as nat) as u32) as char
    } else {
        ((d - 10 + 'a' as nat) as u32) as char
    }
}

/// Two lowercase hex digits per byte (`format!("{:x}", digest)`).
pub open spec fn hex_lower(bytes: Seq<u8>) -> Seq<char>
    decreases bytes.len(),
{
    if bytes.len() == 0 {
        Seq::empty()
    } else {
        hex_lower(bytes.drop_last()) + seq![
            hex_digit((bytes.last() / 16) as nat),
            hex_digit((bytes.last() % 16) as nat),
        ]
    }
}

/// The parameter that the signature leaves out.
pub open spec fn format_key() -> Seq<char> {
    seq!['f', 'o', 'r', 'm', 'a', 't']
}

/// Each name followed by its value, in the given order, leaving out `format`.
pub open spec fn signature_base(e: Seq<(Seq<char>, Seq<char>)>) -> Seq<char>
    decreases e.len(),
{
    if e.len() == 0 {
        Seq::empty()
    } else if e.last().0 == format_key() {
        signature_base(e.drop_last())
    } else {
        signature_base(e.drop_last()) + e.last().0 + e.last().1
    }
}

/// The signature of entries `e` under `secret`.
pub open spec fn api_signature(e: Seq<(Seq<char>, Seq<char>)>, secret: Seq<char>) -> Seq<char> {
    hex_lower(md5_digest(encode_utf8(signature_base(e) + secret)))
}

fn hex_digit_exec(d: u8) -> (c: char)
    requires
        d < 16,
    ensures
        c == hex_digit(d as nat),
{
    if d < 10 {
        ((d as u32 + '0' as u32) as u8) as char
    } else {
        ((d as u32 - 10 + 'a' as u32) as u8) as char
    }
}

/// Lowercase hex of a digest.
fn to_hex_lower(bytes: &[u8; 16]) -> (res: String)
    ensures
        res@ == hex_lower(bytes@),
        res@.len() == 32,
{
    let mut res = String::new();
    let mut i: usize = 0;
    assert(bytes@.subrange(0, 0) =~= Seq::<u8>::empty());
    while i < 16
        invariant
            i <= 16,
            bytes@.len() == 16,
            res@ == hex_lower(bytes@.subrange(0, i as int)),
            res@.len() == 2 * i,
        decreases 16 - i,
    {
        let b = bytes[i];
        push_char(&mut res, hex_digit_exec(b / 16));
        push_char(&mut res, hex_digit_exec(b % 16));
        let ghost next = bytes@.subrange(0, i + 1);
        assert(next.drop_last() =~= bytes@.subrange(0, i as int));
        assert(res@ =~= hex_lower(next));
        i = i + 1;
    }
    assert(bytes@.subrange(0, 16) =~= bytes@);
    res
}

/// Computes the Last.fm API signature of `params` with the shared secret.
pub fn sign(params: &Params, secret: &str) -> (res: String)
    ensures
        res@ == api_signature(params.entry_seq(), secret@),
        params.wf() ==> res@ == api_signature(sorted_entries(params@), secret@),
        res@.len() == 32,
{
    proof {
        if params.wf() {
            params.lemma_wf();
        }
    }
    let mut signature = String::new();
    let n = params.len();
    let mut i: usize = 0;
    assert(params.entry_seq().subrange(0, 0) =~= Seq::<(Seq<char>, Seq<char>)>::empty());
    while i < n
        invariant
            n == params.entry_seq().len(),
            i <= n,
            signature@ == signature_base(params.entry_seq().subrange(0, i as int)),
        decreases n - i,
    {
        let (key, value) = params.entry(i);
        let ghost next = params.entry_seq().subrange(0, i + 1);
        assert(next.drop_last() =~= params.entry_seq().subrange(0, i as int));
        let skip = match compare_keys(key.as_str(), "format") {
            KeyOrder::Equal => true,
            _ => false,
        };
        proof {
            reveal_strlit("format");
            assert("format"@ =~= format_key());
        }
        if !skip {
            signature.append(key.as_str());
            signature.append(value.as_str());
        }
        i = i + 1;
    }
    assert(params.entry_seq().subrange(0, n as int) =~= params.entry_seq());
    signature.append(secret);
    let digest = md5_compute(signature.as_str().as_bytes());
    to_hex_lower(&digest)
}

/// The entries of `e` other than those named `k`.
pub open spec fn without_key(e: Seq<(Seq<char>, Seq<char>)>, k: Seq<char>) -> Seq<
    (Seq<char>, Seq<char>),
>
    decreases e.len(),
{
    if e.len() == 0 {
        e
    } else if e.last().0 == k {
        without_key(e.drop_last(), k)
    } else {
        without_key(e.drop_last(), k).push(e.last())
    }
}

proof fn lemma_without_key_members(e: Seq<(Seq<char>, Seq<char>)>, k: Seq<char>, i: int)
    requires
        0 <= i < without_key(e, k).len(),
    ensures
        exists|j: int| 0 <= j < e.len() && e[j] == without_key(e, k)[i],
    decreases e.len(),
{
    if e.len() > 0 {
        let d = e.drop_last();
        if e.last().0 == k {
            lemma_without_key_members(d, k, i);
            let j = choose|j: int| 0 <= j < d.len() && d[j] == without_key(d, k)[i];
            assert(e[j] == d[j]);
        } else if i < without_key(d, k).len() {
            lemma_without_key_members(d, k, i);
            let j = choose|j: int| 0 <= j < d.len() && d[j] == without_key(d, k)[i];
            assert(e[j] == d[j]);
        } else {
            assert(e[e.len() - 1] == without_key(e, k)[i]);
        }
    }
}

proof fn lemma_without_key_ascending(e: Seq<(Seq<char>, Seq<char>)>, k: Seq<char>)
    requires
        keys_ascending(e),
    ensures
        keys_ascending(without_key(e, k)),
    decreases e.len(),
{
    if e.len() > 0 {
        let d = e.drop_last();
        assert(keys_ascending(d));
        lemma_without_key_ascending(d, k);
        if e.last().0 != k {
            let w = without_key(d, k);
            let x = without_key(e, k);
            assert forall|a: int, b: int| 0 <= a < b < x.len() implies crate::lastfm::params::key_less(
                #[trigger] x[a].0,
                #[trigger] x[b].0,
            ) by {
                if b < w.len() {
                    assert(x[a] == w[a] && x[b] == w[b]);
                } else {
                    lemma_without_key_members(d, k, a);
                    let j = choose|j: int| 0 <= j < d.len() && d[j] == w[a];
                    assert(e[j] == d[j]);
                    assert(x[a] == w[a]);
                }
            }
        }
    }
}

proof fn lemma_without_key_map(e: Seq<(Seq<char>, Seq<char>)>, k: Seq<char>)
    ensures
        entries_map(without_key(e, k)) == entries_map(e).remove(k),
    decreases e.len(),
{
    if e.len() == 0 {
        assert(entries_map(e).remove(k) =~= entries_map(e));
    } else {
        let d = e.drop_last();
        lemma_without_key_map(d, k);
        if e.last().0 == k {
            assert(entries_map(e).remove(k) =~= entries_map(d).remove(k));
        } else {
            let w = without_key(d, k);
            assert(w.push(e.last()).drop_last() =~= w);
            assert(entries_map(without_key(e, k)) =~= entries_map(e).remove(k));
        }
    }
}

proof fn lemma_signature_without_format(e: Seq<(Seq<char>, Seq<char>)>)
    ensures
        signature_base(e) == signature_base(without_key(e, format_key())),
    decreases e.len(),
{
    if e.len() > 0 {
        let d = e.drop_last();
        lemma_signature_without_format(d);
        if e.last().0 != format_key() {
            let w = without_key(d, format_key());
            assert(w.push(e.last()).drop_last() =~= w);
        }
    }
}

/// The signature depends only on the parameters other than `format`: two
/// parameter sets that agree on every other name and value, however they were
/// built, are signed alike.
pub proof fn law_signature_ignores_format_and_order(p: Params, q: Params, secret: Seq<char>)
    requires
        p.wf(),
        q.wf(),
        p@.remove(format_key()) == q@.remove(format_key()),
    ensures
        api_signature(p.entry_seq(), secret) == api_signature(q.entry_seq(), secret),
{
    p.lemma_wf();
    q.lemma_wf();
    let f = format_key();
    let wp = without_key(p.entry_seq(), f);
    let wq = without_key(q.entry_seq(), f);
    lemma_without_key_ascending(p.entry_seq(), f);
    lemma_without_key_ascending(q.entry_seq(), f);
    lemma_without_key_map(p.entry_seq(), f);
    lemma_without_key_map(q.entry_seq(), f);
    crate::lastfm::params::lemma_ascending_canonical(wp, wq);
    lemma_signature_without_format(p.entry_seq());
    lemma_signature_without_format(q.entry_seq());
}

} // verus!
