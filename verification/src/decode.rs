use vstd::prelude::*;
use vstd::slice::slice_subrange;

verus! {

/// Why a decoder refused its input; the kinds bear the names that nom's
/// `ErrorKind` gives to these errors.
#[derive(Debug, Clone, Copy, PartialEq, Eq, Structural)]
pub enum ErrorKind {
    /// The input ended before a value was complete.
    Eof,
    /// The name of the asset is not the one of a question file.
    Tag,
    /// A value was read but could not be converted (an unknown grade, text
    /// that is not UTF-8).
    MapRes,
}

/// A refusal: its kind, and the input at which the refusing decoder was
/// looking.
#[derive(Debug)]
pub struct DecodeError<'a> {
    pub input: &'a [u8],
    pub code: ErrorKind,
}

/// What a decoder does with an input, as a mathematical function: it
/// succeeds with the rest of the input and a value, it refuses the input, or
/// it panics.
pub enum Step<T> {
    Done(Seq<u8>, T),
    Fail(ErrorKind, Seq<u8>),
    Panic,
}

impl<T> Step<T> {
    /// The same refusal or panic, for a decoder of another value type. It is
    /// applied only to outcomes that are not `Done`.
    pub open spec fn failure<U>(self) -> Step<U> {
        match self {
            Step::Fail(k, at) => Step::Fail(k, at),
            _ => Step::Panic,
        }
    }
}

/// The result `r` of an executable decoder agrees with the outcome `s`.
pub open spec fn agrees<'a, T: View>(r: Result<(&'a [u8], T), DecodeError<'a>>, s: Step<T::V>) -> bool {
    match s {
        Step::Done(rest, v) => r matches Ok((rr, vv)) && rr@ == rest && vv@ == v,
        Step::Fail(k, at) => r matches Err(e) && e.code == k && e.input@ == at,
        Step::Panic => false,
    }
}

/// The result `r` of an executable decoder agrees with the outcome `s`,
/// the value taken by its deep view (for values that hold vectors).
pub open spec fn agrees_deep<'a, T: DeepView>(r: Result<(&'a [u8], T), DecodeError<'a>>, s: Step<T::V>) -> bool {
    match s {
        Step::Done(rest, v) => r matches Ok((rr, vv)) && rr@ == rest && vv.deep_view() == v,
        Step::Fail(k, at) => r matches Err(e) && e.code == k && e.input@ == at,
        Step::Panic => false,
    }
}

/// The value of the first four bytes of `b`, read as a little endian two's
/// complement integer.
pub open spec fn le_i32_value(b: Seq<u8>) -> i32 {
    let u: int = b[0] + 256 * b[1] + 65536 * b[2] + 16777216 * b[3];
    (if u < 0x8000_0000 {
        u
    } else {
        u - 0x1_0000_0000
    }) as i32
}

/// Reads a little endian `i32`.
pub open spec fn spec_le_i32(s: Seq<u8>) -> Step<i32> {
    if s.len() >= 4 {
        Step::Done(s.skip(4), le_i32_value(s))
    } else {
        Step::Fail(ErrorKind::Eof, s)
    }
}

/// Takes the next `n` bytes.
pub open spec fn spec_take(s: Seq<u8>, n: int) -> Step<Seq<u8>> {
    if 0 <= n <= s.len() {
        Step::Done(s.skip(n), s.take(n))
    } else {
        Step::Fail(ErrorKind::Eof, s)
    }
}

/// Calls `nom::number::complete::le_i32`, which reads four bytes as a little
/// endian `i32` and refuses an input shorter than four bytes. Only whether it
/// succeeded and the value read are kept: the rest is the input after the
/// four bytes.
#[verifier::external_body]
fn nom_le_i32(input: &[u8]) -> (r: Option<i32>)
    ensures
        r is Some <==> input@.len() >= 4,
        r matches Some(v) ==> v == le_i32_value(input@),
{
    nom::number::complete::le_i32::<&[u8], nom::error::Error<&[u8]>>(input).ok().map(|p| p.1)
}

/// Reads a little endian `i32` from the start of `input`.
pub fn read_le_i32<'a>(input: &'a [u8]) -> (r: Result<(&'a [u8], i32), DecodeError<'a>>)
    ensures
        agrees(r, spec_le_i32(input@)),
{
    match nom_le_i32(input) {
        Some(v) => {
            let rest = slice_subrange(input, 4, input.len());
            assert(rest@ =~= input@.skip(4));
            Ok((rest, v))
        },
        None => Err(DecodeError { input, code: ErrorKind::Eof }),
    }
}

/// Takes the next `n` bytes of `input`.
pub fn take_bytes<'a>(input: &'a [u8], n: usize) -> (r: Result<(&'a [u8], &'a [u8]), DecodeError<'a>>)
    ensures
        agrees(r, spec_take(input@, n as int)),
{
    if n <= input.len() {
        let taken = slice_subrange(input, 0, n);
        let rest = slice_subrange(input, n, input.len());
        assert(taken@ =~= input@.take(n as int));
        assert(rest@ =~= input@.skip(n as int));
        Ok((rest, taken))
    } else {
        Err(DecodeError { input, code: ErrorKind::Eof })
    }
}

} // verus!
