//! Strings of the format: UTF-8 bytes turned into a `String`, and the
//! numbers that attributes hold as decimal text.

use vstd::prelude::*;
use vstd::string::*;
use vstd::utf8::*;
use core::str::Utf8Error;

verus! {

/// The error of `core::str::from_utf8`. Nothing is said of what it holds.
#[verifier::external_type_specification]
#[verifier::external_body]
pub struct ExUtf8Error(core::str::Utf8Error);

/// `core::str::from_utf8` accepts exactly the byte slices that are UTF-8, and
/// the string slice that it returns consists of the bytes that it was given.
pub assume_specification[ core::str::from_utf8 ](v: &[u8]) -> (r: Result<&str, Utf8Error>)
    ensures
        r is Ok <==> valid_utf8(v@),
        r matches Ok(s) ==> s.spec_bytes() == v@,
;

/// What `nom::character::complete::u8` makes of a text: the text that is
/// left and the number, or nothing where it fails.
pub uninterp spec fn nom_u8(text: Seq<char>) -> Option<(Seq<char>, u8)>;

/// What `nom::character::complete::u32` makes of a text: the text that is
/// left and the number, or nothing where it fails.
pub uninterp spec fn nom_u32(text: Seq<char>) -> Option<(Seq<char>, u32)>;

/// What `nom::character::complete::i32` makes of a text: the text that is
/// left and the number, or nothing where it fails.
pub uninterp spec fn nom_i32(text: Seq<char>) -> Option<(Seq<char>, i32)>;

/// What `nom::character::complete::space1` makes of a text: the text that
/// is left and the blanks that it took, or nothing where it fails.
pub uninterp spec fn nom_space1(text: Seq<char>) -> Option<(Seq<char>, Seq<char>)>;

/// Calls `nom::character::complete::u8` on a string slice, with nom's own
/// error type. The result is a function of the text alone; it is named, not
/// described.
#[verifier::external_body]
pub(crate) fn decimal_u8(text: &str) -> (r: Option<(&str, u8)>)
    ensures
        match r {
            Some((rest, value)) => nom_u8(text@) == Some((rest@, value)),
            None => nom_u8(text@) is None,
        },
{
    match nom::character::complete::u8::<&str, nom::error::Error<&str>>(text) {
        Ok((rest, value)) => Some((rest, value)),
        Err(_) => None,
    }
}

/// Calls `nom::character::complete::u32` on a string slice, with nom's own
/// error type. The result is a function of the text alone; it is named, not
/// described.
#[verifier::external_body]
pub(crate) fn decimal_u32(text: &str) -> (r: Option<(&str, u32)>)
    ensures
        match r {
            Some((rest, value)) => nom_u32(text@) == Some((rest@, value)),
            None => nom_u32(text@) is None,
        },
{
    match nom::character::complete::u32::<&str, nom::error::Error<&str>>(text) {
        Ok((rest, value)) => Some((rest, value)),
        Err(_) => None,
    }
}

/// Calls `nom::character::complete::i32` on a string slice, with nom's own
/// error type. The result is a function of the text alone; it is named, not
/// described.
#[verifier::external_body]
pub(crate) fn decimal_i32(text: &str) -> (r: Option<(&str, i32)>)
    ensures
        match r {
            Some((rest, value)) => nom_i32(text@) == Some((rest@, value)),
            None => nom_i32(text@) is None,
        },
{
    match nom::character::complete::i32::<&str, nom::error::Error<&str>>(text) {
        Ok((rest, value)) => Some((rest, value)),
        Err(_) => None,
    }
}

/// Calls `nom::character::complete::space1` on a string slice, with nom's
/// own error type. The result is a function of the text alone; it is named,
/// not described.
#[verifier::external_body]
pub(crate) fn blanks(text: &str) -> (r: Option<(&str, &str)>)
    ensures
        match r {
            Some((rest, taken)) => nom_space1(text@) == Some((rest@, taken@)),
            None => nom_space1(text@) is None,
        },
{
    match nom::character::complete::space1::<&str, nom::error::Error<&str>>(text) {
        Ok((rest, taken)) => Some((rest, taken)),
        Err(_) => None,
    }
}

/// Two strings with the same bytes are the same string.
pub proof fn lemma_same_bytes_same_text(a: Seq<char>, b: Seq<char>)
    requires
        encode_utf8(a) == encode_utf8(b),
    ensures
        a == b,
{
    encode_utf8_decode_utf8(a);
    encode_utf8_decode_utf8(b);
}

/// Turns UTF-8 bytes into an owned string, and fails on bytes that are not
/// UTF-8.
pub fn to_str(i: &[u8]) -> (r: Result<String, Utf8Error>)
    ensures
        r is Ok <==> valid_utf8(i@),
        r matches Ok(s) ==> s@ == decode_utf8(i@) && encode_utf8(s@) == i@,
{
    match core::str::from_utf8(i) {
        Ok(res) => {
            proof {
                encode_utf8_decode_utf8(res@);
            }
            Ok(res.to_owned())
        },
        Err(e) => Err(e),
    }
}

/// Whether two byte slices hold the same bytes.
pub fn same_bytes(a: &[u8], b: &[u8]) -> (same: bool)
    ensures
        same == (a@ == b@),
{
    if a.len() != b.len() {
        return false;
    }
    let mut k: usize = 0;
    while k < a.len()
        invariant
            a@.len() == b@.len(),
            k <= a@.len(),
            a@.subrange(0, k as int) == b@.subrange(0, k as int),
        decreases a@.len() - k,
    {
        if a[k] != b[k] {
            return false;
        }
        assert(a@.subrange(0, k + 1) =~= a@.subrange(0, k as int).push(a@[k as int]));
        assert(b@.subrange(0, k + 1) =~= b@.subrange(0, k as int).push(b@[k as int]));
        k = k + 1;
    }
    assert(a@ =~= a@.subrange(0, k as int));
    assert(b@ =~= b@.subrange(0, k as int));
    true
}

/// Whether two string slices hold the same text.
pub fn same_text(a: &str, b: &str) -> (same: bool)
    ensures
        same == (a@ == b@),
{
    proof {
        if a.spec_bytes() == b.spec_bytes() {
            lemma_same_bytes_same_text(a@, b@);
        }
    }
    same_bytes(a.as_bytes(), b.as_bytes())
}

} // verus!
