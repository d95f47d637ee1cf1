//! Reading big-endian integers and byte runs at a position of a buffer.

use vstd::prelude::*;
use crate::error::{DecodeError, no_trailing};

verus! {

/// Big-endian encoding of a 16-bit value.
pub open spec fn be16(v: u16) -> Seq<u8> {
    seq![(v / 256) as u8, (v % 256) as u8]
}

/// Big-endian encoding of a 32-bit value.
pub open spec fn be32(v: u32) -> Seq<u8> {
    seq![
        (v / 0x100_0000) as u8,
        (v / 0x1_0000 % 256) as u8,
        (v / 256 % 256) as u8,
        (v % 256) as u8,
    ]
}

/// Value of the big-endian 16-bit integer at `p`.
pub open spec fn u16_at_spec(s: Seq<u8>, p: int) -> u16 {
    (s[p] as int * 256 + s[p + 1] as int) as u16
}

/// Value of the big-endian 32-bit integer at `p`.
pub open spec fn u32_at_spec(s: Seq<u8>, p: int) -> u32 {
    (s[p] as int * 0x100_0000 + s[p + 1] as int * 0x1_0000 + s[p + 2] as int * 256
        + s[p + 3] as int) as u32
}

/// A value with a canonical byte layout on the wire.
pub trait Wire {
    spec fn wire(&self) -> Seq<u8>;
}

impl Wire for u8 {
    open spec fn wire(&self) -> Seq<u8> {
        seq![*self]
    }
}

impl Wire for u16 {
    open spec fn wire(&self) -> Seq<u8> {
        be16(*self)
    }
}

impl Decode for u16 {
    open spec fn valid(&self) -> bool {
        true
    }

    open spec fn outcome(s: Seq<u8>, pos: int) -> Result<int, DecodeError> {
        need(s, pos, 2)
    }

    proof fn lemma_cut(s: Seq<u8>, pos: int, k: int) {
        lemma_cut_need(s, pos, 2, k);
    }

    fn decode(s: &[u8], pos: usize) -> (r: Result<(u16, usize), DecodeError>) {
        read_u16(s, pos)
    }
}

/// The layouts of a sequence of values, one after the other.
pub open spec fn wire_seq<T: Wire>(items: Seq<T>) -> Seq<u8>
    decreases items.len(),
{
    if items.len() == 0 {
        Seq::empty()
    } else {
        wire_seq(items.drop_last()) + items.last().wire()
    }
}

/// `r` is a successful decode that started at `pos` and consumed exactly the
/// layout of the value it returned, or it is an error.
pub open spec fn decoded_from<T: Wire>(s: Seq<u8>, pos: int, r: Result<(T, usize), DecodeError>) -> bool {
    match r {
        Ok((x, end)) => pos <= end <= s.len() && s.subrange(pos, end as int) == x.wire(),
        Err(e) => e != DecodeError::TrailingBytes,
    }
}

/// A big-endian 16-bit layout reads back as its value.
pub proof fn lemma_be16_reads(s: Seq<u8>, p: int, v: u16)
    requires
        0 <= p,
        p + 2 <= s.len(),
        s.subrange(p, p + 2) == be16(v),
    ensures
        u16_at_spec(s, p) == v,
{
    assert(s[p] == s.subrange(p, p + 2)[0]);
    assert(s[p + 1] == s.subrange(p, p + 2)[1]);
    let hi = (v / 256) as u8;
    let lo = (v % 256) as u8;
    assert(hi as int * 256 + lo as int == v) by (nonlinear_arith)
        requires
            hi == v / 256,
            lo == v % 256,
            v < 0x1_0000,
    ;
}

/// A big-endian 32-bit layout reads back as its value.
pub proof fn lemma_be32_reads(s: Seq<u8>, p: int, v: u32)
    requires
        0 <= p,
        p + 4 <= s.len(),
        s.subrange(p, p + 4) == be32(v),
    ensures
        u32_at_spec(s, p) == v,
{
    assert(s[p] == s.subrange(p, p + 4)[0]);
    assert(s[p + 1] == s.subrange(p, p + 4)[1]);
    assert(s[p + 2] == s.subrange(p, p + 4)[2]);
    assert(s[p + 3] == s.subrange(p, p + 4)[3]);
    let b0 = (v / 0x100_0000) as u8;
    let b1 = (v / 0x1_0000 % 256) as u8;
    let b2 = (v / 256 % 256) as u8;
    let b3 = (v % 256) as u8;
    assert(b0 as int * 0x100_0000 + b1 as int * 0x1_0000 + b2 as int * 256 + b3 as int == v) by (nonlinear_arith)
        requires
            b0 == v / 0x100_0000,
            b1 == v / 0x1_0000 % 256,
            b2 == v / 256 % 256,
            b3 == v % 256,
            v < 0x1_0000_0000,
    ;
}

/// Where `a + b` is laid out at `p`, `a` is laid out at `p` and `b` right after.
pub proof fn lemma_split(s: Seq<u8>, p: int, a: Seq<u8>, b: Seq<u8>)
    requires
        0 <= p,
        p + a.len() + b.len() <= s.len(),
        s.subrange(p, p + a.len() + b.len()) == a + b,
    ensures
        s.subrange(p, p + a.len()) == a,
        s.subrange(p + a.len(), p + a.len() + b.len()) == b,
{
    assert(s.subrange(p, p + a.len()) =~= (a + b).subrange(0, a.len() as int));
    assert(s.subrange(p + a.len(), p + a.len() + b.len()) =~= (a + b).subrange(a.len() as int, (a.len() + b.len()) as int));
    assert((a + b).subrange(0, a.len() as int) =~= a);
    assert((a + b).subrange(a.len() as int, (a.len() + b.len()) as int) =~= b);
}

/// The layouts of a sequence, read from the front.
pub proof fn lemma_wire_seq_front<T: Wire>(items: Seq<T>)
    requires
        items.len() > 0,
    ensures
        wire_seq(items) == items[0].wire() + wire_seq(items.drop_first()),
    decreases items.len(),
{
    if items.len() == 1 {
        assert(items.drop_last() =~= Seq::<T>::empty());
        assert(items.drop_first() =~= Seq::<T>::empty());
        assert(wire_seq(items) =~= items[0].wire() + wire_seq(items.drop_first()));
    } else {
        lemma_wire_seq_front(items.drop_last());
        assert(items.drop_last().drop_first() =~= items.drop_first().drop_last());
        assert(items.drop_last()[0] == items[0]);
        assert(items.drop_first().last() == items.last());
        assert(wire_seq(items) =~= items[0].wire() + wire_seq(items.drop_first()));
    }
}

/// `n` 16-bit values laid out at `p` decode as a list of `n` of them.
pub proof fn lemma_u16_list_layout(s: Seq<u8>, p: int, items: Seq<u16>)
    requires
        0 <= p,
        p + wire_seq(items).len() <= s.len(),
        s.subrange(p, p + wire_seq(items).len()) == wire_seq(items),
    ensures
        wire_seq(items).len() == 2 * items.len(),
        list_outcome::<u16>(s, p, items.len()) == Ok::<int, DecodeError>(p + 2 * items.len()),
    decreases items.len(),
{
    if items.len() > 0 {
        lemma_wire_seq_front(items);
        let rest = items.drop_first();
        lemma_split(s, p, items[0].wire(), wire_seq(rest));
        lemma_u16_list_layout(s, p + 2, rest);
    }
}

pub proof fn lemma_extend(s: Seq<u8>, a: int, b: int, c: int)
    requires
        0 <= a <= b <= c <= s.len(),
    ensures
        s.subrange(a, c) == s.subrange(a, b) + s.subrange(b, c),
{
    assert(s.subrange(a, c) =~= s.subrange(a, b) + s.subrange(b, c));
}

pub proof fn lemma_wire_seq_push<T: Wire>(items: Seq<T>, x: T)
    ensures
        wire_seq(items.push(x)) == wire_seq(items) + x.wire(),
{
    assert(items.push(x).drop_last() =~= items);
}

/// The outcome of reading `w` bytes at `p`: the position after them, or
/// `InsufficientBytes` when the buffer ends first.
pub open spec fn need(s: Seq<u8>, p: int, w: int) -> Result<int, DecodeError> {
    if p + w <= s.len() {
        Ok(p + w)
    } else {
        Err(DecodeError::InsufficientBytes)
    }
}

/// `r` is the outcome `o`: success ending at the position `o` gives, or
/// the error `o` gives.
pub open spec fn follows<T>(r: Result<(T, usize), DecodeError>, o: Result<int, DecodeError>) -> bool {
    match o {
        Ok(end) => r is Ok && r->Ok_0.1 == end,
        Err(e) => r is Err && r->Err_0 == e,
    }
}

/// Cutting the buffer at `k` keeps an outcome that ended by `k`, and turns
/// one that ended after `k` into `InsufficientBytes`.
pub open spec fn stable_under_cut(full: Result<int, DecodeError>, cut: Result<int, DecodeError>, pos: int, k: int, len: nat) -> bool {
    match full {
        Ok(e) => pos <= e <= len && if e <= k {
            cut == full
        } else {
            cut == Err::<int, DecodeError>(DecodeError::InsufficientBytes)
        },
        Err(_) => true,
    }
}

pub proof fn lemma_cut_need(s: Seq<u8>, p: int, w: int, k: int)
    requires
        0 <= p <= k <= s.len(),
        w >= 0,
    ensures
        stable_under_cut(need(s, p, w), need(s.take(k), p, w), p, k, s.len()),
{
}

/// Where to cut when a step starts at `p`: at `k`, or at `p` when `p` is
/// later.
pub open spec fn clamp(p: int, k: int) -> int {
    if p <= k {
        k
    } else {
        p
    }
}

/// A value that can be decoded from the wire on its own.
pub trait Decode: Wire + Sized {
    /// What every decoded value satisfies (counts agree with lengths, a
    /// variant agrees with its tag).
    spec fn valid(&self) -> bool;

    /// Where the layout that starts at `pos` ends, or why there is none.
    spec fn outcome(s: Seq<u8>, pos: int) -> Result<int, DecodeError>;

    proof fn lemma_cut(s: Seq<u8>, pos: int, k: int)
        requires
            0 <= pos <= k <= s.len(),
        ensures
            stable_under_cut(Self::outcome(s, pos), Self::outcome(s.take(k), pos), pos, k, s.len()),
    ;

    fn decode(s: &[u8], pos: usize) -> (r: Result<(Self, usize), DecodeError>)
        requires
            pos <= s@.len(),
        ensures
            decoded_from(s@, pos as int, r),
            r matches Ok((x, _)) ==> x.valid(),
            follows(r, Self::outcome(s@, pos as int)),
    ;
}

/// Outcome of `n` layouts of `T`, one after the other.
pub open spec fn list_outcome<T: Decode>(s: Seq<u8>, pos: int, n: nat) -> Result<int, DecodeError>
    decreases n,
{
    if n == 0 {
        Ok(pos)
    } else {
        match T::outcome(s, pos) {
            Ok(p) => list_outcome::<T>(s, p, (n - 1) as nat),
            Err(e) => Err(e),
        }
    }
}

pub open spec fn all_valid<T: Decode>(items: Seq<T>) -> bool {
    forall|i: int| 0 <= i < items.len() ==> #[trigger] items[i].valid()
}

pub proof fn lemma_cut_list<T: Decode>(s: Seq<u8>, pos: int, n: nat, k: int)
    requires
        0 <= pos <= k <= s.len(),
    ensures
        stable_under_cut(list_outcome::<T>(s, pos, n), list_outcome::<T>(s.take(k), pos, n), pos, k, s.len()),
    decreases n,
{
    if n > 0 {
        T::lemma_cut(s, pos, k);
        if let Ok(p) = T::outcome(s, pos) {
            lemma_cut_list::<T>(s, p, (n - 1) as nat, clamp(p, k));
        }
    }
}

/// Decodes `n` values, one after the other.
pub fn decode_list<T: Decode>(s: &[u8], pos: usize, n: usize) -> (r: Result<(Vec<T>, usize), DecodeError>)
    requires
        pos <= s@.len(),
    ensures
        no_trailing(r),
        r matches Ok((v, end)) ==> v@.len() == n && pos <= end <= s@.len() && s@.subrange(
            pos as int,
            end as int,
        ) == wire_seq(v@) && all_valid(v@),
        follows(r, list_outcome::<T>(s@, pos as int, n as nat)),
{
    let mut out: Vec<T> = Vec::new();
    let mut p: usize = pos;
    let mut i: usize = 0;
    while i < n
        invariant
            i <= n,
            pos <= p <= s@.len(),
            out@.len() == i,
            s@.subrange(pos as int, p as int) == wire_seq(out@),
            all_valid(out@),
            list_outcome::<T>(s@, pos as int, n as nat) == list_outcome::<T>(s@, p as int, (n - i) as nat),
        decreases n - i,
    {
        let (x, q) = T::decode(s, p)?;
        proof {
            lemma_extend(s@, pos as int, p as int, q as int);
            lemma_wire_seq_push(out@, x);
        }
        out.push(x);
        p = q;
        i = i + 1;
    }
    proof {
        if out@.len() == 0 {
            assert(s@.subrange(pos as int, p as int) =~= Seq::empty());
        }
    }
    Ok((out, p))
}

/// Reads one byte at `pos`.
pub fn read_u8(s: &[u8], pos: usize) -> (r: Result<(u8, usize), DecodeError>)
    requires
        pos <= s@.len(),
    ensures
        r is Err <==> pos + 1 > s@.len(),
        r is Err ==> r == Err::<(u8, usize), DecodeError>(DecodeError::InsufficientBytes),
        r matches Ok((v, end)) ==> end == pos + 1 && v == s@[pos as int] && s@.subrange(
            pos as int,
            end as int,
        ) == v.wire(),
{
    if s.len() - pos < 1 {
        return Err(DecodeError::InsufficientBytes);
    }
    let v = s[pos];
    assert(s@.subrange(pos as int, pos + 1) =~= seq![v]);
    Ok((v, pos + 1))
}

/// Reads a big-endian 16-bit integer at `pos`.
pub fn read_u16(s: &[u8], pos: usize) -> (r: Result<(u16, usize), DecodeError>)
    requires
        pos <= s@.len(),
    ensures
        r is Err <==> pos + 2 > s@.len(),
        r is Err ==> r == Err::<(u16, usize), DecodeError>(DecodeError::InsufficientBytes),
        r matches Ok((v, end)) ==> end == pos + 2 && v == u16_at_spec(s@, pos as int)
            && s@.subrange(pos as int, end as int) == be16(v),
{
    if s.len() - pos < 2 {
        return Err(DecodeError::InsufficientBytes);
    }
    let hi = s[pos];
    let lo = s[pos + 1];
    let v: u16 = (hi as u16) * 256 + (lo as u16);
    assert(v / 256 == hi && v % 256 == lo) by (nonlinear_arith)
        requires
            v == hi as int * 256 + lo as int,
            hi < 256,
            lo < 256,
    ;
    assert(s@.subrange(pos as int, pos + 2) =~= be16(v));
    Ok((v, pos + 2))
}

/// Reads a big-endian 32-bit integer at `pos`.
pub fn read_u32(s: &[u8], pos: usize) -> (r: Result<(u32, usize), DecodeError>)
    requires
        pos <= s@.len(),
    ensures
        r is Err <==> pos + 4 > s@.len(),
        r is Err ==> r == Err::<(u32, usize), DecodeError>(DecodeError::InsufficientBytes),
        r matches Ok((v, end)) ==> end == pos + 4 && v == u32_at_spec(s@, pos as int)
            && s@.subrange(pos as int, end as int) == be32(v),
{
    if s.len() - pos < 4 {
        return Err(DecodeError::InsufficientBytes);
    }
    let b0 = s[pos];
    let b1 = s[pos + 1];
    let b2 = s[pos + 2];
    let b3 = s[pos + 3];
    let v: u32 = (b0 as u32) * 0x100_0000 + (b1 as u32) * 0x1_0000 + (b2 as u32) * 256
        + (b3 as u32);
    assert(v / 0x100_0000 == b0 && v / 0x1_0000 % 256 == b1 && v / 256 % 256 == b2 && v % 256
        == b3) by (nonlinear_arith)
        requires
            v == b0 as int * 0x100_0000 + b1 as int * 0x1_0000 + b2 as int * 256 + b3 as int,
            b0 < 256,
            b1 < 256,
            b2 < 256,
            b3 < 256,
    ;
    assert(s@.subrange(pos as int, pos + 4) =~= be32(v));
    Ok((v, pos + 4))
}

/// Copies the `n` bytes at `pos`.
pub fn read_bytes(s: &[u8], pos: usize, n: usize) -> (r: Result<(Vec<u8>, usize), DecodeError>)
    requires
        pos <= s@.len(),
    ensures
        r is Err <==> pos + n > s@.len(),
        r is Err ==> r == Err::<(Vec<u8>, usize), DecodeError>(DecodeError::InsufficientBytes),
        r matches Ok((v, end)) ==> end == pos + n && v@ == s@.subrange(pos as int, end as int),
{
    if s.len() - pos < n {
        return Err(DecodeError::InsufficientBytes);
    }
    let mut out: Vec<u8> = Vec::new();
    let mut i: usize = 0;
    while i < n
        invariant
            i <= n,
            pos + n <= s@.len(),
            s@.len() == s.len(),
            out@ == s@.subrange(pos as int, pos + i),
        decreases n - i,
    {
        out.push(s[pos + i]);
        assert(out@ =~= s@.subrange(pos as int, pos + i + 1));
        i = i + 1;
    }
    Ok((out, pos + n))
}

/// Reads `n` big-endian 16-bit integers, one after the other.
pub fn read_u16_list(s: &[u8], pos: usize, n: usize) -> (r: Result<(Vec<u16>, usize), DecodeError>)
    requires
        pos <= s@.len(),
    ensures
        r is Err <==> pos + 2 * n > s@.len(),
        r is Err ==> r == Err::<(Vec<u16>, usize), DecodeError>(DecodeError::InsufficientBytes),
        r matches Ok((v, end)) ==> v@.len() == n && end == pos + 2 * n && pos <= end <= s@.len()
            && s@.subrange(pos as int, end as int) == wire_seq(v@),
{
    let mut out: Vec<u16> = Vec::new();
    let mut p: usize = pos;
    let mut i: usize = 0;
    while i < n
        invariant
            i <= n,
            pos <= p <= s@.len(),
            p == pos + 2 * i,
            out@.len() == i,
            s@.subrange(pos as int, p as int) == wire_seq(out@),
        decreases n - i,
    {
        match read_u16(s, p) {
            Ok((v, q)) => {
                proof {
                    lemma_extend(s@, pos as int, p as int, q as int);
                    lemma_wire_seq_push(out@, v);
                }
                out.push(v);
                p = q;
                i = i + 1;
            },
            Err(e) => {
                return Err(e);
            },
        }
    }
    proof {
        if s@.subrange(pos as int, p as int).len() == 0 {
            assert(s@.subrange(pos as int, p as int) =~= Seq::empty());
        }
    }
    Ok((out, p))
}

} // verus!
