//! Byte-level wire layer shared by both envelope codecs.
//!
//! Every message is lowered to a canonical triple of parts — a list of
//! numbers, a list of strings, and one blob of raw bytes — and the triple
//! is framed as length-prefixed little-endian fields. The round trip
//! (read back what was written) is proved once, here, for the triple;
//! the envelope codecs then only need structural conversions.

use vstd::prelude::*;
use vstd::bytes::*;
use vstd::string::*;

verus! {

// ───────────────────────── spec writers ─────────────────────────

/// One character is written as its code point, four bytes little-endian.
pub open spec fn wr_chars(s: Seq<char>) -> Seq<u8>
    decreases s.len(),
{
    if s.len() == 0 {
        Seq::empty()
    } else {
        spec_u32_to_le_bytes(s[0] as u32) + wr_chars(s.drop_first())
    }
}

/// A string is its character count followed by its characters.
pub open spec fn wr_str(s: Seq<char>) -> Seq<u8> {
    spec_u64_to_le_bytes(s.len() as u64) + wr_chars(s)
}

pub open spec fn wr_nums(ns: Seq<u64>) -> Seq<u8>
    decreases ns.len(),
{
    if ns.len() == 0 {
        Seq::empty()
    } else {
        spec_u64_to_le_bytes(ns[0]) + wr_nums(ns.drop_first())
    }
}

pub open spec fn wr_strs(ss: Seq<Seq<char>>) -> Seq<u8>
    decreases ss.len(),
{
    if ss.len() == 0 {
        Seq::empty()
    } else {
        wr_str(ss[0]) + wr_strs(ss.drop_first())
    }
}

pub open spec fn wr_blob(v: Seq<u8>) -> Seq<u8> {
    spec_u64_to_le_bytes(v.len() as u64) + v
}

/// The whole frame: number list, string list, blob, each length-prefixed.
pub open spec fn wr_parts(ns: Seq<u64>, ss: Seq<Seq<char>>, blob: Seq<u8>) -> Seq<u8> {
    spec_u64_to_le_bytes(ns.len() as u64) + wr_nums(ns) + spec_u64_to_le_bytes(ss.len() as u64)
        + wr_strs(ss) + wr_blob(blob)
}

/// Machine limit: every count written as a u64 must fit one.
pub open spec fn parts_fit(ns: Seq<u64>, ss: Seq<Seq<char>>, blob: Seq<u8>) -> bool {
    &&& ns.len() <= u64::MAX
    &&& ss.len() <= u64::MAX
    &&& blob.len() <= u64::MAX
    &&& forall|i: int| 0 <= i < ss.len() ==> #[trigger] ss[i].len() <= u64::MAX
}

// ───────────────────────── spec readers ─────────────────────────

pub open spec fn rd_u32(b: Seq<u8>, p: int) -> Option<(u32, int)> {
    if 0 <= p && p + 4 <= b.len() {
        Some((spec_u32_from_le_bytes(b.subrange(p, p + 4)), p + 4))
    } else {
        None
    }
}

pub open spec fn rd_u64(b: Seq<u8>, p: int) -> Option<(u64, int)> {
    if 0 <= p && p + 8 <= b.len() {
        Some((spec_u64_from_le_bytes(b.subrange(p, p + 8)), p + 8))
    } else {
        None
    }
}

/// A code point is accepted only if it is a Unicode scalar value.
pub open spec fn scalar_ok(v: u32) -> bool {
    v < 0xD800 || (0xE000 <= v && v <= 0x10FFFF)
}

pub open spec fn rd_chars(b: Seq<u8>, p: int, n: nat) -> Option<(Seq<char>, int)>
    decreases n,
{
    if n == 0 {
        Some((Seq::empty(), p))
    } else {
        match rd_u32(b, p) {
            Some((v, p1)) => {
                if scalar_ok(v) {
                    match rd_chars(b, p1, (n - 1) as nat) {
                        Some((cs, p2)) => Some((seq![v as char] + cs, p2)),
                        None => None,
                    }
                } else {
                    None
                }
            },
            None => None,
        }
    }
}

pub open spec fn rd_str(b: Seq<u8>, p: int) -> Option<(Seq<char>, int)> {
    match rd_u64(b, p) {
        Some((n, p1)) => rd_chars(b, p1, n as nat),
        None => None,
    }
}

pub open spec fn rd_nums(b: Seq<u8>, p: int, n: nat) -> Option<(Seq<u64>, int)>
    decreases n,
{
    if n == 0 {
        Some((Seq::empty(), p))
    } else {
        match rd_u64(b, p) {
            Some((x, p1)) => match rd_nums(b, p1, (n - 1) as nat) {
                Some((xs, p2)) => Some((seq![x] + xs, p2)),
                None => None,
            },
            None => None,
        }
    }
}

pub open spec fn rd_strs(b: Seq<u8>, p: int, n: nat) -> Option<(Seq<Seq<char>>, int)>
    decreases n,
{
    if n == 0 {
        Some((Seq::empty(), p))
    } else {
        match rd_str(b, p) {
            Some((s, p1)) => {
                if p < p1 <= b.len() {
                    match rd_strs(b, p1, (n - 1) as nat) {
                        Some((ss, p2)) => Some((seq![s] + ss, p2)),
                        None => None,
                    }
                } else {
                    None
                }
            },
            None => None,
        }
    }
}

pub open spec fn rd_blob(b: Seq<u8>, p: int) -> Option<(Seq<u8>, int)> {
    match rd_u64(b, p) {
        Some((n, p1)) => {
            if p1 + n <= b.len() {
                Some((b.subrange(p1, p1 + n), p1 + n))
            } else {
                None
            }
        },
        None => None,
    }
}

pub open spec fn rd_parts(b: Seq<u8>, p: int) -> Option<((Seq<u64>, Seq<Seq<char>>, Seq<u8>), int)> {
    match rd_u64(b, p) {
        Some((cn, p1)) => match rd_nums(b, p1, cn as nat) {
            Some((ns, p2)) => match rd_u64(b, p2) {
                Some((cs, p3)) => match rd_strs(b, p3, cs as nat) {
                    Some((ss, p4)) => match rd_blob(b, p4) {
                        Some((blob, p5)) => Some(((ns, ss, blob), p5)),
                        None => None,
                    },
                    None => None,
                },
                None => None,
            },
            None => None,
        },
        None => None,
    }
}

// ───────────────────────── round-trip lemmas ─────────────────────────

pub proof fn lemma_wr_chars_len(s: Seq<char>)
    ensures
        wr_chars(s).len() == 4 * s.len(),
    decreases s.len(),
{
    lemma_auto_spec_u32_to_from_le_bytes();
    if s.len() > 0 {
        lemma_wr_chars_len(s.drop_first());
    }
}

pub proof fn lemma_wr_nums_len(ns: Seq<u64>)
    ensures
        wr_nums(ns).len() == 8 * ns.len(),
    decreases ns.len(),
{
    lemma_auto_spec_u64_to_from_le_bytes();
    if ns.len() > 0 {
        lemma_wr_nums_len(ns.drop_first());
    }
}

/// Splitting a known concatenation out of a larger sequence.
proof fn lemma_subrange_concat<T>(b: Seq<T>, p: int, x: Seq<T>, y: Seq<T>)
    requires
        0 <= p,
        p + x.len() + y.len() <= b.len(),
        b.subrange(p, p + x.len() + y.len()) == x + y,
    ensures
        b.subrange(p, p + x.len()) == x,
        b.subrange(p + x.len(), p + x.len() + y.len()) == y,
{
    assert forall|i: int| 0 <= i < x.len() implies b.subrange(p, p + x.len() as int)[i] == x[i] by {
        assert(b.subrange(p, p + x.len() + y.len())[i] == (x + y)[i]);
    }
    assert(b.subrange(p, p + x.len()) =~= x);
    assert forall|i: int|
        0 <= i < y.len() implies b.subrange(p + x.len(), p + x.len() + y.len())[i] == y[i] by {
        let j = x.len() + i;
        assert(b.subrange(p, p + x.len() + y.len())[j] == (x + y)[j]);
        assert((x + y)[j] == y[i]);
        assert(b.subrange(p, p + x.len() + y.len())[j] == b[p + j]);
        assert(b.subrange(p + x.len(), p + x.len() + y.len())[i] == b[p + j]);
    }
    assert(b.subrange(p + x.len(), p + x.len() + y.len()) =~= y);
}

proof fn lemma_rd_u64_of(b: Seq<u8>, p: int, x: u64)
    requires
        0 <= p,
        p + 8 <= b.len(),
        b.subrange(p, p + 8) == spec_u64_to_le_bytes(x),
    ensures
        rd_u64(b, p) == Some((x, p + 8)),
{
    lemma_auto_spec_u64_to_from_le_bytes();
}

proof fn lemma_rd_chars_of(b: Seq<u8>, p: int, s: Seq<char>)
    requires
        0 <= p,
        p + 4 * s.len() <= b.len(),
        b.subrange(p, p + 4 * s.len()) == wr_chars(s),
    ensures
        rd_chars(b, p, s.len()) == Some((s, p + 4 * s.len())),
    decreases s.len(),
{
    lemma_auto_spec_u32_to_from_le_bytes();
    if s.len() == 0 {
        assert(s =~= Seq::<char>::empty());
    } else {
        let rest = s.drop_first();
        lemma_wr_chars_len(rest);
        let head = spec_u32_to_le_bytes(s[0] as u32);
        lemma_subrange_concat(b, p, head, wr_chars(rest));
        let v = s[0] as u32;
        assert(rd_u32(b, p) == Some((v, p + 4)));
        vstd::utf8::char_is_scalar(s[0]);
        assert(scalar_ok(v));
        lemma_rd_chars_of(b, p + 4, rest);
        vstd::utf8::char_u32_cast(s[0], v);
        assert(seq![v as char] + rest =~= s);
    }
}

proof fn lemma_rd_str_of(b: Seq<u8>, p: int, s: Seq<char>)
    requires
        0 <= p,
        s.len() <= u64::MAX,
        p + wr_str(s).len() <= b.len(),
        b.subrange(p, p + wr_str(s).len()) == wr_str(s),
    ensures
        rd_str(b, p) == Some((s, p + wr_str(s).len())),
        wr_str(s).len() == 8 + 4 * s.len(),
{
    lemma_auto_spec_u64_to_from_le_bytes();
    lemma_wr_chars_len(s);
    let lenb = spec_u64_to_le_bytes(s.len() as u64);
    lemma_subrange_concat(b, p, lenb, wr_chars(s));
    lemma_rd_u64_of(b, p, s.len() as u64);
    lemma_rd_chars_of(b, p + 8, s);
}

proof fn lemma_rd_nums_of(b: Seq<u8>, p: int, ns: Seq<u64>)
    requires
        0 <= p,
        p + 8 * ns.len() <= b.len(),
        b.subrange(p, p + 8 * ns.len()) == wr_nums(ns),
    ensures
        rd_nums(b, p, ns.len()) == Some((ns, p + 8 * ns.len())),
    decreases ns.len(),
{
    lemma_auto_spec_u64_to_from_le_bytes();
    if ns.len() == 0 {
        assert(ns =~= Seq::<u64>::empty());
    } else {
        let rest = ns.drop_first();
        lemma_wr_nums_len(rest);
        let head = spec_u64_to_le_bytes(ns[0]);
        lemma_subrange_concat(b, p, head, wr_nums(rest));
        lemma_rd_u64_of(b, p, ns[0]);
        lemma_rd_nums_of(b, p + 8, rest);
        assert(seq![ns[0]] + rest =~= ns);
    }
}

proof fn lemma_rd_strs_of(b: Seq<u8>, p: int, ss: Seq<Seq<char>>)
    requires
        0 <= p,
        p + wr_strs(ss).len() <= b.len(),
        b.subrange(p, p + wr_strs(ss).len()) == wr_strs(ss),
        forall|i: int| 0 <= i < ss.len() ==> #[trigger] ss[i].len() <= u64::MAX,
    ensures
        rd_strs(b, p, ss.len()) == Some((ss, p + wr_strs(ss).len())),
    decreases ss.len(),
{
    if ss.len() == 0 {
        assert(ss =~= Seq::<Seq<char>>::empty());
    } else {
        let rest = ss.drop_first();
        let head = wr_str(ss[0]);
        let hl = head.len() as int;
        lemma_auto_spec_u64_to_from_le_bytes();
        lemma_wr_chars_len(ss[0]);
        lemma_subrange_concat(b, p, head, wr_strs(rest));
        lemma_rd_str_of(b, p, ss[0]);
        assert forall|i: int| 0 <= i < rest.len() implies #[trigger] rest[i].len()
            <= u64::MAX by {
            assert(rest[i] == ss[i + 1]);
        }
        lemma_rd_strs_of(b, p + hl, rest);
        assert(seq![ss[0]] + rest =~= ss);
    }
}

proof fn lemma_rd_blob_of(b: Seq<u8>, p: int, v: Seq<u8>)
    requires
        0 <= p,
        v.len() <= u64::MAX,
        p + wr_blob(v).len() <= b.len(),
        b.subrange(p, p + wr_blob(v).len()) == wr_blob(v),
    ensures
        rd_blob(b, p) == Some((v, p + wr_blob(v).len())),
{
    lemma_auto_spec_u64_to_from_le_bytes();
    let lenb = spec_u64_to_le_bytes(v.len() as u64);
    lemma_subrange_concat(b, p, lenb, v);
    lemma_rd_u64_of(b, p, v.len() as u64);
}

/// The wire layer's round trip: reading a written frame yields the parts
/// that were written, consuming the whole frame.
pub proof fn lemma_parts_round_trip(ns: Seq<u64>, ss: Seq<Seq<char>>, blob: Seq<u8>)
    requires
        parts_fit(ns, ss, blob),
    ensures
        rd_parts(wr_parts(ns, ss, blob), 0) == Some(
            ((ns, ss, blob), wr_parts(ns, ss, blob).len() as int),
        ),
{
    let b = wr_parts(ns, ss, blob);
    lemma_auto_spec_u64_to_from_le_bytes();
    lemma_wr_nums_len(ns);
    let a0 = spec_u64_to_le_bytes(ns.len() as u64);
    let a1 = wr_nums(ns);
    let a2 = spec_u64_to_le_bytes(ss.len() as u64);
    let a3 = wr_strs(ss);
    let a4 = wr_blob(blob);
    let p1 = a0.len() as int;
    let p2 = p1 + a1.len();
    let p3 = p2 + a2.len();
    let p4 = p3 + a3.len();
    let p5 = p4 + a4.len();
    assert(b.len() == p5);
    let r1 = a1 + (a2 + (a3 + a4));
    let r2 = a2 + (a3 + a4);
    let r3 = a3 + a4;
    assert(b.subrange(0, p5) =~= a0 + r1);
    lemma_subrange_concat(b, 0, a0, r1);
    lemma_subrange_concat(b, p1, a1, r2);
    lemma_subrange_concat(b, p2, a2, r3);
    lemma_subrange_concat(b, p3, a3, a4);
    lemma_rd_u64_of(b, 0, ns.len() as u64);
    lemma_rd_nums_of(b, p1, ns);
    lemma_rd_u64_of(b, p2, ss.len() as u64);
    lemma_rd_strs_of(b, p3, ss);
    lemma_rd_blob_of(b, p4, blob);
}

// ───────────────────────── exec encoders ─────────────────────────

pub open spec fn strs_view(ss: Seq<String>) -> Seq<Seq<char>> {
    ss.map_values(|s: String| s@)
}

fn enc_u32(out: &mut Vec<u8>, x: u32)
    ensures
        final(out)@ == old(out)@ + spec_u32_to_le_bytes(x),
{
    let mut b = u32_to_le_bytes(x);
    out.append(&mut b);
}

fn enc_u64(out: &mut Vec<u8>, x: u64)
    ensures
        final(out)@ == old(out)@ + spec_u64_to_le_bytes(x),
{
    let mut b = u64_to_le_bytes(x);
    out.append(&mut b);
}

fn enc_chars_from(out: &mut Vec<u8>, s: &str, i: usize, n: usize)
    requires
        i <= n,
        n as nat == s@.len(),
    ensures
        final(out)@ == old(out)@ + wr_chars(s@.skip(i as int)),
    decreases n - i,
{
    if i < n {
        let c = s.get_char(i);
        enc_u32(out, c as u32);
        enc_chars_from(out, s, i + 1, n);
        proof {
            let tail = s@.skip(i as int);
            assert(tail[0] == s@[i as int]);
            assert(tail.drop_first() =~= s@.skip(i as int + 1));
            assert(old(out)@ + spec_u32_to_le_bytes(c as u32) + wr_chars(tail.drop_first())
                =~= old(out)@ + wr_chars(tail));
        }
    } else {
        proof {
            assert(s@.skip(i as int) =~= Seq::<char>::empty());
            assert(out@ =~= old(out)@ + wr_chars(s@.skip(i as int)));
        }
    }
}

fn enc_str(out: &mut Vec<u8>, s: &str)
    ensures
        final(out)@ == old(out)@ + wr_str(s@),
        s@.len() <= u64::MAX,
{
    let n = s.unicode_len();
    enc_u64(out, n as u64);
    enc_chars_from(out, s, 0, n);
    proof {
        assert(s@.skip(0) =~= s@);
        assert(old(out)@ + spec_u64_to_le_bytes(s@.len() as u64) + wr_chars(s@) =~= old(out)@
            + wr_str(s@));
    }
}

fn enc_nums_from(out: &mut Vec<u8>, ns: &Vec<u64>, i: usize)
    requires
        i <= ns@.len(),
    ensures
        final(out)@ == old(out)@ + wr_nums(ns@.skip(i as int)),
    decreases ns@.len() - i,
{
    if i < ns.len() {
        enc_u64(out, ns[i]);
        enc_nums_from(out, ns, i + 1);
        proof {
            let tail = ns@.skip(i as int);
            assert(tail[0] == ns@[i as int]);
            assert(tail.drop_first() =~= ns@.skip(i as int + 1));
            assert(old(out)@ + spec_u64_to_le_bytes(ns@[i as int]) + wr_nums(tail.drop_first())
                =~= old(out)@ + wr_nums(tail));
        }
    } else {
        proof {
            assert(ns@.skip(i as int) =~= Seq::<u64>::empty());
            assert(out@ =~= old(out)@ + wr_nums(ns@.skip(i as int)));
        }
    }
}

fn enc_strs_from(out: &mut Vec<u8>, ss: &Vec<String>, i: usize)
    requires
        i <= ss@.len(),
    ensures
        final(out)@ == old(out)@ + wr_strs(strs_view(ss@).skip(i as int)),
        forall|j: int| i <= j < ss@.len() ==> #[trigger] ss@[j]@.len() <= u64::MAX,
    decreases ss@.len() - i,
{
    if i < ss.len() {
        enc_str(out, ss[i].as_str());
        enc_strs_from(out, ss, i + 1);
        proof {
            let tail = strs_view(ss@).skip(i as int);
            assert(tail[0] == ss@[i as int]@);
            assert(tail.drop_first() =~= strs_view(ss@).skip(i as int + 1));
            assert(old(out)@ + wr_str(ss@[i as int]@) + wr_strs(tail.drop_first()) =~= old(out)@
                + wr_strs(tail));
        }
    } else {
        proof {
            assert(strs_view(ss@).skip(i as int) =~= Seq::<Seq<char>>::empty());
            assert(out@ =~= old(out)@ + wr_strs(strs_view(ss@).skip(i as int)));
        }
    }
}

/// Writes one frame: the parts triple in its canonical byte form.
pub fn encode_frame(ns: &Vec<u64>, ss: &Vec<String>, blob: &Vec<u8>) -> (r: Vec<u8>)
    ensures
        r@ == wr_parts(ns@, strs_view(ss@), blob@),
        parts_fit(ns@, strs_view(ss@), blob@),
{
    let mut out: Vec<u8> = Vec::new();
    enc_u64(&mut out, ns.len() as u64);
    enc_nums_from(&mut out, ns, 0);
    enc_u64(&mut out, ss.len() as u64);
    enc_strs_from(&mut out, ss, 0);
    enc_u64(&mut out, blob.len() as u64);
    let mut b2 = blob.clone();
    out.append(&mut b2);
    proof {
        assert(ns@.skip(0) =~= ns@);
        assert(strs_view(ss@).skip(0) =~= strs_view(ss@));
        assert(out@ =~= wr_parts(ns@, strs_view(ss@), blob@));
        assert(forall|i: int|
            0 <= i < strs_view(ss@).len() ==> #[trigger] strs_view(ss@)[i].len() <= u64::MAX);
    }
    out
}

// ───────────────────────── exec decoders ─────────────────────────

fn read_u32(b: &Vec<u8>, p: usize) -> (r: Option<(u32, usize)>)
    ensures
        match r {
            Some(t) => rd_u32(b@, p as int) == Some((t.0, t.1 as int)) && t.1 <= b@.len(),
            None => rd_u32(b@, p as int) is None,
        },
{
    if p <= b.len() && b.len() - p >= 4 {
        let sl = vstd::slice::slice_subrange(b.as_slice(), p, p + 4);
        Some((u32_from_le_bytes(sl), p + 4))
    } else {
        None
    }
}

fn read_u64(b: &Vec<u8>, p: usize) -> (r: Option<(u64, usize)>)
    ensures
        match r {
            Some(t) => rd_u64(b@, p as int) == Some((t.0, t.1 as int)) && t.1 <= b@.len(),
            None => rd_u64(b@, p as int) is None,
        },
{
    if p <= b.len() && b.len() - p >= 8 {
        let sl = vstd::slice::slice_subrange(b.as_slice(), p, p + 8);
        Some((u64_from_le_bytes(sl), p + 8))
    } else {
        None
    }
}

fn read_chars(b: &Vec<u8>, p: usize, n: u64) -> (r: Option<(String, usize)>)
    requires
        p <= b@.len(),
    ensures
        match r {
            Some(t) => rd_chars(b@, p as int, n as nat) == Some((t.0@, t.1 as int)) && t.1
                <= b@.len(),
            None => rd_chars(b@, p as int, n as nat) is None,
        },
    decreases n,
{
    if n == 0 {
        Some((String::new(), p))
    } else {
        match read_u32(b, p) {
            None => None,
            Some((v, p1)) => match char::from_u32(v) {
                None => None,
                Some(c) => match read_chars(b, p1, n - 1) {
                    None => None,
                    Some((rest, p2)) => {
                        let mut s = String::new();
                        crate::sys::push_char(&mut s, c);
                        s.append(rest.as_str());
                        proof {
                            vstd::utf8::char_u32_cast(c, v);
                            assert(Seq::<char>::empty().push(c) + rest@ =~= seq![v as char]
                                + rest@);
                        }
                        Some((s, p2))
                    },
                },
            },
        }
    }
}

fn read_str(b: &Vec<u8>, p: usize) -> (r: Option<(String, usize)>)
    requires
        p <= b@.len(),
    ensures
        match r {
            Some(t) => rd_str(b@, p as int) == Some((t.0@, t.1 as int)) && t.1 <= b@.len(),
            None => rd_str(b@, p as int) is None,
        },
{
    match read_u64(b, p) {
        None => None,
        Some((n, p1)) => read_chars(b, p1, n),
    }
}

fn read_nums(b: &Vec<u8>, p: usize, n: u64) -> (r: Option<(Vec<u64>, usize)>)
    requires
        p <= b@.len(),
    ensures
        match r {
            Some(t) => rd_nums(b@, p as int, n as nat) == Some((t.0@, t.1 as int)) && t.1
                <= b@.len(),
            None => rd_nums(b@, p as int, n as nat) is None,
        },
    decreases n,
{
    if n == 0 {
        Some((Vec::new(), p))
    } else {
        match read_u64(b, p) {
            None => None,
            Some((x, p1)) => match read_nums(b, p1, n - 1) {
                None => None,
                Some((rest, p2)) => {
                    let mut out: Vec<u64> = Vec::new();
                    out.push(x);
                    let mut rest2 = rest;
                    out.append(&mut rest2);
                    proof {
                        assert(out@ =~= seq![x] + rd_nums(b@, p1 as int, (n - 1) as nat)->Some_0.0);
                    }
                    Some((out, p2))
                },
            },
        }
    }
}

fn read_strs(b: &Vec<u8>, p: usize, n: u64) -> (r: Option<(Vec<String>, usize)>)
    requires
        p <= b@.len(),
    ensures
        match r {
            Some(t) => rd_strs(b@, p as int, n as nat) == Some((strs_view(t.0@), t.1 as int))
                && t.1 <= b@.len(),
            None => rd_strs(b@, p as int, n as nat) is None,
        },
    decreases n,
{
    if n == 0 {
        proof {
            assert(strs_view(Seq::<String>::empty()) =~= Seq::<Seq<char>>::empty());
        }
        Some((Vec::new(), p))
    } else {
        match read_str(b, p) {
            None => None,
            Some((s, p1)) => {
                if p1 <= p {
                    proof {
                        assert(rd_strs(b@, p as int, n as nat) is None);
                    }
                    None
                } else {
                    match read_strs(b, p1, n - 1) {
                        None => None,
                        Some((rest, p2)) => {
                            let mut out: Vec<String> = Vec::new();
                            out.push(s);
                            let mut rest2 = rest;
                            out.append(&mut rest2);
                            proof {
                                let specrest = rd_strs(b@, p1 as int, (n - 1) as nat)->Some_0.0;
                                assert(strs_view(out@) =~= seq![out@[0]@] + specrest);
                            }
                            Some((out, p2))
                        },
                    }
                }
            },
        }
    }
}

fn read_blob(b: &Vec<u8>, p: usize) -> (r: Option<(Vec<u8>, usize)>)
    ensures
        match r {
            Some(t) => rd_blob(b@, p as int) == Some((t.0@, t.1 as int)) && t.1 <= b@.len(),
            None => rd_blob(b@, p as int) is None,
        },
{
    match read_u64(b, p) {
        None => None,
        Some((n, p1)) => {
            if n <= (b.len() - p1) as u64 {
                let n_us = n as usize;
                let sl = vstd::slice::slice_subrange(b.as_slice(), p1, p1 + n_us);
                let v = vstd::slice::slice_to_vec(sl);
                Some((v, p1 + n_us))
            } else {
                None
            }
        },
    }
}

/// The decoded frame, as its three parts.
pub struct WireParts {
    pub nums: Vec<u64>,
    pub strs: Vec<String>,
    pub blob: Vec<u8>,
}

/// What a full frame decodes to: the parts, provided the frame is consumed
/// exactly.
pub open spec fn rd_frame(b: Seq<u8>) -> Option<(Seq<u64>, Seq<Seq<char>>, Seq<u8>)> {
    match rd_parts(b, 0) {
        Some((t, p)) => if p == b.len() {
            Some(t)
        } else {
            None
        },
        None => None,
    }
}

/// Reads one frame back into its parts, rejecting trailing bytes.
pub fn decode_frame(b: &Vec<u8>) -> (r: Option<WireParts>)
    ensures
        match r {
            Some(t) => rd_frame(b@) == Some((t.nums@, strs_view(t.strs@), t.blob@)),
            None => rd_frame(b@) is None,
        },
{
    match read_u64(b, 0) {
        None => None,
        Some((cn, p1)) => match read_nums(b, p1, cn) {
            None => None,
            Some((nums, p2)) => match read_u64(b, p2) {
                None => None,
                Some((cs, p3)) => match read_strs(b, p3, cs) {
                    None => None,
                    Some((strs, p4)) => match read_blob(b, p4) {
                        None => None,
                        Some((blob, p5)) => {
                            if p5 == b.len() {
                                Some(WireParts { nums, strs, blob })
                            } else {
                                None
                            }
                        },
                    },
                },
            },
        },
    }
}

/// The executable round trip, stated once and for all frames: decoding an
/// encoded parts triple gives back exactly that triple.
pub proof fn lemma_frame_round_trip(ns: Seq<u64>, ss: Seq<Seq<char>>, blob: Seq<u8>)
    requires
        parts_fit(ns, ss, blob),
    ensures
        rd_frame(wr_parts(ns, ss, blob)) == Some((ns, ss, blob)),
{
    lemma_parts_round_trip(ns, ss, blob);
}

} // verus!
