//! The fixed-width fields of the format: little-endian integers and runs of
//! bytes of a given length.

use vstd::prelude::*;
use vstd::slice::slice_subrange;
use crate::error::FormatError;

verus! {

/// The number that the first four bytes of `b` hold, lowest byte first.
pub open spec fn spec_le_u32(b: Seq<u8>) -> u32
    recommends
        b.len() >= 4,
{
    (b[0] as int + 256 * (b[1] as int) + 65536 * (b[2] as int) + 16777216 * (b[3] as int)) as u32
}

/// The four bytes of `v`, lowest first.
pub open spec fn spec_u32_bytes(v: u32) -> Seq<u8> {
    seq![
        (v as int % 256) as u8,
        ((v as int / 256) % 256) as u8,
        ((v as int / 65536) % 256) as u8,
        (v as int / 16777216) as u8,
    ]
}

/// What is left of `i` after its first `n` bytes.
pub open spec fn spec_rest(i: Seq<u8>, n: int) -> Seq<u8> {
    i.subrange(n, i.len() as int)
}

/// Splits off the first `n` bytes: the bytes that are left, then those
/// taken. Fails where fewer than `n` bytes are there.
pub open spec fn spec_take(i: Seq<u8>, n: nat) -> Result<(Seq<u8>, Seq<u8>), FormatError> {
    if i.len() < n {
        Err(FormatError::Truncated)
    } else {
        Ok((spec_rest(i, n as int), i.subrange(0, n as int)))
    }
}

/// Reads a little-endian `u32`: the bytes that are left, then the number.
pub open spec fn spec_parse_u32(i: Seq<u8>) -> Result<(Seq<u8>, u32), FormatError> {
    if i.len() < 4 {
        Err(FormatError::Truncated)
    } else {
        Ok((spec_rest(i, 4), spec_le_u32(i)))
    }
}

/// Accepts a declared number of elements only where that many elements of
/// at least `minimum` bytes each can lie in `remaining` bytes.
pub open spec fn spec_validate_count(remaining: nat, count: u32, minimum: nat) -> Result<
    nat,
    FormatError,
> {
    if count as nat > remaining / minimum {
        Err(FormatError::InvalidCount)
    } else {
        Ok(count as nat)
    }
}

/// The bytes of the elements of `s`, each written by `f`, one after another.
pub open spec fn concat_map<T>(s: Seq<T>, f: spec_fn(T) -> Seq<u8>) -> Seq<u8>
    decreases s.len(),
{
    if s.len() == 0 {
        Seq::<u8>::empty()
    } else {
        concat_map(s.drop_last(), f) + f(s.last())
    }
}

/// Reads `n` elements with `f`, one after another, and adds them to `acc`:
/// the bytes that are left, then the elements. Fails where `f` fails.
pub open spec fn repeat_parse<T>(
    f: spec_fn(Seq<u8>) -> Result<(Seq<u8>, T), FormatError>,
    i: Seq<u8>,
    n: nat,
    acc: Seq<T>,
) -> Result<(Seq<u8>, Seq<T>), FormatError>
    decreases n,
{
    if n == 0 {
        Ok((i, acc))
    } else {
        match f(i) {
            Err(e) => Err(e),
            Ok((rest, x)) => repeat_parse(f, rest, (n - 1) as nat, acc.push(x)),
        }
    }
}

/// The bytes of a sequence with one more element are the bytes of the
/// sequence, then those of the element.
pub proof fn lemma_concat_map_push<T>(s: Seq<T>, f: spec_fn(T) -> Seq<u8>, x: T)
    ensures
        concat_map(s.push(x), f) == concat_map(s, f) + f(x),
{
    assert(s.push(x).drop_last() =~= s);
}

/// The bytes of a sequence are those of its first element, then those of the
/// others.
pub proof fn lemma_concat_map_first<T>(s: Seq<T>, f: spec_fn(T) -> Seq<u8>)
    requires
        s.len() > 0,
    ensures
        concat_map(s, f) == f(s[0]) + concat_map(s.subrange(1, s.len() as int), f),
    decreases s.len(),
{
    let tail = s.subrange(1, s.len() as int);
    if s.len() == 1 {
        assert(s.drop_last() =~= Seq::<T>::empty());
        assert(concat_map(s.drop_last(), f) =~= Seq::<u8>::empty());
        assert(concat_map(tail, f) =~= Seq::<u8>::empty());
        assert(concat_map(s, f) =~= f(s[0]) + concat_map(tail, f));
    } else {
        lemma_concat_map_first(s.drop_last(), f);
        assert(s.drop_last().subrange(1, s.len() - 1) =~= tail.drop_last());
        assert(tail.last() == s.last());
        assert(concat_map(s, f) =~= f(s[0]) + concat_map(tail, f));
    }
}

/// Where each element takes at least `minimum` bytes, the whole takes at
/// least that many for each element.
pub proof fn lemma_concat_map_len<T>(s: Seq<T>, f: spec_fn(T) -> Seq<u8>, minimum: nat)
    requires
        forall|k: int| 0 <= k < s.len() ==> f(#[trigger] s[k]).len() >= minimum,
    ensures
        concat_map(s, f).len() >= s.len() * minimum,
    decreases s.len(),
{
    if s.len() > 0 {
        let front = s.drop_last();
        assert forall|k: int| 0 <= k < front.len() implies f(#[trigger] front[k]).len()
            >= minimum by {
            assert(front[k] == s[k]);
        }
        lemma_concat_map_len(front, f, minimum);
        assert(f(s[s.len() - 1]).len() >= minimum);
        assert(s.len() * minimum == front.len() * minimum + minimum) by (nonlinear_arith)
            requires
                s.len() == front.len() + 1,
        ;
    } else {
        assert(s.len() * minimum == 0) by (nonlinear_arith)
            requires
                s.len() == 0,
        ;
    }
}

/// Elements that `g` wrote in front of `tail` are read back by `f`, where
/// `f` reads back each single element that `g` wrote and `valid` accepts.
pub proof fn lemma_repeat_parse_written<T>(
    f: spec_fn(Seq<u8>) -> Result<(Seq<u8>, T), FormatError>,
    g: spec_fn(T) -> Seq<u8>,
    valid: spec_fn(T) -> bool,
    s: Seq<T>,
    tail: Seq<u8>,
    acc: Seq<T>,
)
    requires
        forall|x: T, t: Seq<u8>|
            valid(x) ==> #[trigger] f(g(x) + t) == Ok::<(Seq<u8>, T), FormatError>((t, x)),
        forall|k: int| 0 <= k < s.len() ==> valid(#[trigger] s[k]),
    ensures
        repeat_parse(f, concat_map(s, g) + tail, s.len(), acc) == Ok::<
            (Seq<u8>, Seq<T>),
            FormatError,
        >((tail, acc + s)),
    decreases s.len(),
{
    if s.len() == 0 {
        assert(concat_map(s, g) + tail =~= tail);
        assert(acc + s =~= acc);
    } else {
        lemma_concat_map_first(s, g);
        let rest = s.subrange(1, s.len() as int);
        assert(valid(s[0]));
        assert(concat_map(s, g) + tail =~= g(s[0]) + (concat_map(rest, g) + tail));
        assert forall|k: int| 0 <= k < rest.len() implies valid(#[trigger] rest[k]) by {
            assert(rest[k] == s[k + 1]);
        }
        lemma_repeat_parse_written(f, g, valid, rest, tail, acc.push(s[0]));
        assert(acc.push(s[0]) + rest =~= acc + s);
    }
}

/// Four bytes written from a number read back as that number.
pub proof fn lemma_u32_bytes_round_trip(v: u32)
    ensures
        spec_u32_bytes(v).len() == 4,
        spec_le_u32(spec_u32_bytes(v)) == v,
{
}

/// Reading a number that was written in front of `tail` gives the number and
/// leaves `tail`.
pub proof fn lemma_parse_u32_written(v: u32, tail: Seq<u8>)
    ensures
        spec_parse_u32(spec_u32_bytes(v) + tail) == Ok::<(Seq<u8>, u32), FormatError>((tail, v)),
{
    let i = spec_u32_bytes(v) + tail;
    lemma_u32_bytes_round_trip(v);
    assert(spec_rest(i, 4) =~= tail);
    assert(i[0] == spec_u32_bytes(v)[0]);
    assert(i[1] == spec_u32_bytes(v)[1]);
    assert(i[2] == spec_u32_bytes(v)[2]);
    assert(i[3] == spec_u32_bytes(v)[3]);
}

/// Taking back `n` bytes that were written in front of `tail` gives them and
/// leaves `tail`.
pub proof fn lemma_take_written(bytes: Seq<u8>, tail: Seq<u8>)
    ensures
        spec_take(bytes + tail, bytes.len()) == Ok::<(Seq<u8>, Seq<u8>), FormatError>(
            (tail, bytes),
        ),
{
    let i = bytes + tail;
    assert(spec_rest(i, bytes.len() as int) =~= tail);
    assert(i.subrange(0, bytes.len() as int) =~= bytes);
}

/// Splits off the first `n` bytes of `i`.
pub fn take(i: &[u8], n: usize) -> (r: Result<(&[u8], &[u8]), FormatError>)
    ensures
        match r {
            Ok((rest, taken)) => spec_take(i@, n as nat) == Ok::<(Seq<u8>, Seq<u8>), FormatError>(
                (rest@, taken@),
            ),
            Err(e) => spec_take(i@, n as nat) == Err::<(Seq<u8>, Seq<u8>), FormatError>(e),
        },
{
    if i.len() < n {
        Err(FormatError::Truncated)
    } else {
        Ok((slice_subrange(i, n, i.len()), slice_subrange(i, 0, n)))
    }
}

/// Turns a declared number of elements into a `usize`, after checking that
/// so many elements of at least `minimum_object_size` bytes each can lie in
/// `i`. Made before anything is allocated for the elements.
pub fn validate_count(i: &[u8], count: u32, minimum_object_size: usize) -> (r: Result<
    usize,
    FormatError,
>)
    requires
        minimum_object_size > 0,
    ensures
        match r {
            Ok(n) => spec_validate_count(i@.len(), count, minimum_object_size as nat) == Ok::<
                nat,
                FormatError,
            >(n as nat),
            Err(e) => spec_validate_count(i@.len(), count, minimum_object_size as nat) == Err::<
                nat,
                FormatError,
            >(e),
        },
{
    let room: usize = i.len() / minimum_object_size;
    if count as usize > room {
        Err(FormatError::InvalidCount)
    } else {
        Ok(count as usize)
    }
}

/// Reads a little-endian `u32` from the front of `i`.
pub fn le_u32(i: &[u8]) -> (r: Result<(&[u8], u32), FormatError>)
    ensures
        match r {
            Ok((rest, v)) => spec_parse_u32(i@) == Ok::<(Seq<u8>, u32), FormatError>((rest@, v)),
            Err(e) => spec_parse_u32(i@) == Err::<(Seq<u8>, u32), FormatError>(e),
        },
{
    if i.len() < 4 {
        Err(FormatError::Truncated)
    } else {
        let low: u32 = (i[0] as u32) + 256 * (i[1] as u32);
        let v: u32 = low + 65536 * (i[2] as u32) + 16777216 * (i[3] as u32);
        Ok((slice_subrange(i, 4, i.len()), v))
    }
}

/// Appends the four bytes of `v`, lowest first.
pub fn push_u32(buffer: &mut Vec<u8>, v: u32)
    ensures
        final(buffer)@ == old(buffer)@ + spec_u32_bytes(v),
{
    buffer.push((v % 256) as u8);
    buffer.push(((v / 256) % 256) as u8);
    buffer.push(((v / 65536) % 256) as u8);
    buffer.push((v / 16777216) as u8);
    assert(buffer@ =~= old(buffer)@ + spec_u32_bytes(v));
}

/// Appends a copy of `bytes`.
pub fn push_bytes(buffer: &mut Vec<u8>, bytes: &[u8])
    ensures
        final(buffer)@ == old(buffer)@ + bytes@,
{
    let mut k: usize = 0;
    while k < bytes.len()
        invariant
            k <= bytes@.len(),
            buffer@ == old(buffer)@ + bytes@.subrange(0, k as int),
        decreases bytes@.len() - k,
    {
        buffer.push(bytes[k]);
        assert(buffer@ =~= old(buffer)@ + bytes@.subrange(0, k + 1));
        k = k + 1;
    }
    assert(bytes@.subrange(0, k as int) =~= bytes@);
}

} // verus!
