use vstd::prelude::*;
use crate::decode::{DecodeError, ErrorKind};
use crate::present::{chars_of, string_from_chars};
use crate::text::{decimal_digits, digit_char};

verus! {

/// The name of a kind of refusal, as `Debug` writes nom's `ErrorKind`.
pub open spec fn error_kind_name(k: ErrorKind) -> Seq<char> {
    match k {
        ErrorKind::Eof => "Eof"@,
        ErrorKind::Tag => "Tag"@,
        ErrorKind::MapRes => "MapRes"@,
    }
}

/// The bytes of `b` as a list of decimal numbers separated by `, `, without
/// the brackets.
pub open spec fn byte_list_body(b: Seq<u8>) -> Seq<char>
    decreases b.len(),
{
    if b.len() == 0 {
        seq![]
    } else if b.len() == 1 {
        decimal_digits(b[0] as nat)
    } else {
        byte_list_body(b.drop_last()) + ", "@ + decimal_digits(b.last() as nat)
    }
}

/// The text of a refusal, in the form `Error(Error { input: [..], code: .. })`
/// in which the `Debug` of a nom error writes the input at which it was
/// raised and its kind.
pub open spec fn decode_error_text(input: Seq<u8>, k: ErrorKind) -> Seq<char> {
    "Error(Error { input: ["@ + byte_list_body(input) + "], code: "@ + error_kind_name(k) + " })"@
}

/// The character of the decimal digit `d`.
fn digit_char_of(d: u8) -> (c: char)
    requires
        d < 10,
    ensures
        c == digit_char(d as int),
{
    match d {
        0 => '0',
        1 => '1',
        2 => '2',
        3 => '3',
        4 => '4',
        5 => '5',
        6 => '6',
        7 => '7',
        8 => '8',
        _ => '9',
    }
}

/// Appends the decimal digits of `b` to `out`.
fn push_decimal(out: &mut Vec<char>, b: u8)
    ensures
        final(out)@ == old(out)@ + decimal_digits(b as nat),
{
    proof {
        reveal_with_fuel(decimal_digits, 3);
    }
    if b >= 100 {
        out.push(digit_char_of(b / 100));
        out.push(digit_char_of((b / 10) % 10));
        out.push(digit_char_of(b % 10));
        assert(decimal_digits(b as nat) =~= seq![
            digit_char((b / 100) as int),
            digit_char(((b / 10) % 10) as int),
            digit_char((b % 10) as int),
        ]);
    } else if b >= 10 {
        out.push(digit_char_of(b / 10));
        out.push(digit_char_of(b % 10));
        assert(decimal_digits(b as nat) =~= seq![digit_char((b / 10) as int), digit_char((b % 10) as int)]);
    } else {
        out.push(digit_char_of(b));
    }
}

/// Appends the characters of `t` to `out`.
fn push_text(out: &mut Vec<char>, t: &str)
    ensures
        final(out)@ == old(out)@ + t@,
{
    let cs = chars_of(t);
    let ghost start = out@;
    let mut i: usize = 0;
    while i < cs.len()
        invariant
            i <= cs.len(),
            cs@ == t@,
            out@ == start + cs@.take(i as int),
        decreases cs.len() - i,
    {
        out.push(cs[i]);
        assert(cs@.take(i + 1) =~= cs@.take(i as int).push(cs@[i as int]));
        i = i + 1;
    }
    assert(cs@.take(cs.len() as int) =~= cs@);
}

/// The text of the refusal `e`, as the `Debug` of a nom error writes it,
/// such as `Error(Error { input: [1, 2], code: Eof })`.
pub fn decode_error_message(e: &DecodeError) -> (s: String)
    ensures
        s@ == decode_error_text(e.input@, e.code),
{
    let mut out: Vec<char> = Vec::new();
    push_text(&mut out, "Error(Error { input: [");
    let ghost head = out@;
    let mut i: usize = 0;
    while i < e.input.len()
        invariant
            i <= e.input.len(),
            out@ == head + byte_list_body(e.input@.take(i as int)),
        decreases e.input.len() - i,
    {
        let ghost before = out@;
        assert(e.input@.take(i + 1).drop_last() =~= e.input@.take(i as int));
        assert(e.input@.take(i + 1).last() == e.input@[i as int]);
        if i > 0 {
            push_text(&mut out, ", ");
        }
        push_decimal(&mut out, e.input[i]);
        proof {
            if i == 0 {
                assert(byte_list_body(e.input@.take(0)) =~= Seq::<char>::empty());
                assert(e.input@.take(1) =~= seq![e.input@[0]]);
            }
            assert(out@ =~= head + byte_list_body(e.input@.take(i + 1)));
        }
        i = i + 1;
    }
    assert(e.input@.take(e.input.len() as int) =~= e.input@);
    push_text(&mut out, "], code: ");
    let kind = match e.code {
        ErrorKind::Eof => "Eof",
        ErrorKind::Tag => "Tag",
        ErrorKind::MapRes => "MapRes",
    };
    push_text(&mut out, kind);
    push_text(&mut out, " })");
    let s = string_from_chars(out.as_slice());
    assert(s@ =~= decode_error_text(e.input@, e.code));
    s
}

} // verus!
