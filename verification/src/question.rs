use vstd::prelude::*;
use vstd::utf8::{decode_utf8, valid_utf8};
use crate::decode::{agrees, agrees_deep, read_le_i32, spec_le_i32, spec_take, take_bytes, DecodeError, ErrorKind, Step};
use crate::kyu::{kyu_from_code, Kyu};
use crate::types::{QuestionItem, QuestionItemView};

verus! {

broadcast use vstd::string::group_string_axioms;

/* The layout of a question file.

   Integers are little endian `i32`. A string is a length, then that many
   bytes, then padding bytes (of any value) up to the next multiple of four
   counted from the string's bytes; a negative length
   stands for a null string and is followed by nothing. A text is a string
   whose bytes are UTF-8. A text list is a count, then that many texts. */

/// Padding bytes that follow a string of `len` bytes, so that the next field
/// starts at a multiple of four.
pub open spec fn unity_padding(len: int) -> int {
    (4 - len % 4) % 4
}

/// Reads a string: its bytes, without the padding.
pub open spec fn spec_unity_string(s: Seq<u8>) -> Step<Seq<u8>> {
    match spec_le_i32(s) {
        Step::Done(r, len) => if len < 0 {
            Step::Done(r, seq![])
        } else {
            match spec_take(r, len as int) {
                Step::Done(r2, bytes) => match spec_take(r2, unity_padding(len as int)) {
                    Step::Done(r3, _) => Step::Done(r3, bytes),
                    other => other.failure(),
                },
                other => other.failure(),
            }
        },
        other => other.failure(),
    }
}

/// Reads a text: a string whose bytes are decoded as UTF-8.
pub open spec fn spec_text(s: Seq<u8>) -> Step<Seq<char>> {
    match spec_unity_string(s) {
        Step::Done(r, bytes) => if valid_utf8(bytes) {
            Step::Done(r, decode_utf8(bytes))
        } else {
            Step::Fail(ErrorKind::MapRes, bytes)
        },
        other => other.failure(),
    }
}

/// Reads `n` texts in a row.
pub open spec fn spec_texts(s: Seq<u8>, n: nat) -> Step<Seq<Seq<char>>>
    decreases n,
{
    if n == 0 {
        Step::Done(s, seq![])
    } else {
        match spec_text(s) {
            Step::Done(r, v) => match spec_texts(r, (n - 1) as nat) {
                Step::Done(r2, vs) => Step::Done(r2, seq![v] + vs),
                other => other,
            },
            other => other.failure(),
        }
    }
}

/// Reads a text list. A negative count makes the decoder panic: it asks for
/// a vector with that count as its capacity.
pub open spec fn spec_text_list(s: Seq<u8>) -> Step<Seq<Seq<char>>> {
    match spec_le_i32(s) {
        Step::Done(r, n) => if n < 0 {
            Step::Panic
        } else {
            spec_texts(r, n as nat)
        },
        other => other.failure(),
    }
}

/// Reads a grade by its code.
pub open spec fn spec_kyu(s: Seq<u8>) -> Step<Kyu> {
    match spec_le_i32(s) {
        Step::Done(r, v) => match kyu_from_code(v) {
            Some(k) => Step::Done(r, k),
            None => Step::Fail(ErrorKind::MapRes, r),
        },
        other => other.failure(),
    }
}

/// `prefix` put before the values read by a decoder with outcome `s`.
pub open spec fn prepend<T>(prefix: Seq<T>, s: Step<Seq<T>>) -> Step<Seq<T>> {
    match s {
        Step::Done(r, vs) => Step::Done(r, prefix + vs),
        other => other,
    }
}

proof fn lemma_texts_unfold(s: Seq<u8>, n: nat, prefix: Seq<Seq<char>>)
    requires
        n > 0,
    ensures
        spec_text(s) matches Step::Done(r, v) ==> prepend(prefix, spec_texts(s, n)) == prepend(
            prefix.push(v),
            spec_texts(r, (n - 1) as nat),
        ),
        !(spec_text(s) is Done) ==> prepend(prefix, spec_texts(s, n)) == spec_text(s).failure::<
            Seq<Seq<char>>,
        >(),
{
    if let Step::Done(r, v) = spec_text(s) {
        if let Step::Done(r2, vs) = spec_texts(r, (n - 1) as nat) {
            assert(prefix + (seq![v] + vs) =~= prefix.push(v) + vs);
        }
    }
}

/// Decodes a string: the bytes between its length and its padding. A
/// negative length gives no bytes.
pub fn parse_unity_string<'a>(input: &'a [u8]) -> (r: Result<(&'a [u8], &'a [u8]), DecodeError<'a>>)
    ensures
        agrees(r, spec_unity_string(input@)),
{
    let (input, len) = read_le_i32(input)?;
    if len < 0 {
        let empty = slice_subrange_empty(input);
        return Ok((input, empty));
    }
    let len = len as usize;
    let (input, bytes) = take_bytes(input, len)?;
    let padding = (4 - (len % 4)) % 4;
    let (input, _) = take_bytes(input, padding)?;
    Ok((input, bytes))
}

/// An empty slice that borrows from `input`.
fn slice_subrange_empty<'a>(input: &'a [u8]) -> (e: &'a [u8])
    ensures
        e@ == Seq::<u8>::empty(),
{
    let e = vstd::slice::slice_subrange(input, 0, 0);
    assert(e@ =~= Seq::<u8>::empty());
    e
}

/// Calls `std::str::from_utf8`, which accepts exactly the byte sequences that
/// are well-formed UTF-8 and then gives the text they encode.
#[verifier::external_body]
fn utf8_text(bytes: &[u8]) -> (r: Option<&str>)
    ensures
        r is Some <==> valid_utf8(bytes@),
        r matches Some(t) ==> t@ == decode_utf8(bytes@),
{
    std::str::from_utf8(bytes).ok()
}

/// Decodes a text: a string whose bytes must be UTF-8.
pub fn parse_string<'a>(input: &'a [u8]) -> (r: Result<(&'a [u8], String), DecodeError<'a>>)
    ensures
        agrees(r, spec_text(input@)),
{
    let (input, bytes) = parse_unity_string(input)?;
    match utf8_text(bytes) {
        Some(t) => Ok((input, t.to_string())),
        None => Err(DecodeError { input: bytes, code: ErrorKind::MapRes }),
    }
}

/// Decodes a text list.
pub fn parse_string_array<'a>(input: &'a [u8]) -> (r: Result<(&'a [u8], Vec<String>), DecodeError<'a>>)
    requires
        !(spec_text_list(input@) is Panic),
    ensures
        agrees_deep(r, spec_text_list(input@)),
{
    let (rest0, size) = read_le_i32(input)?;
    let ghost start = rest0@;
    let mut rest = rest0;
    let mut out: Vec<String> = Vec::new();
    let mut i: i32 = 0;
    while i < size
        invariant
            0 <= i <= size,
            spec_text_list(input@) == spec_texts(start, size as nat),
            spec_texts(start, size as nat) == prepend(out.deep_view(), spec_texts(rest@, (size - i) as nat)),
        decreases size - i,
    {
        proof {
            lemma_texts_unfold(rest@, (size - i) as nat, out.deep_view());
        }
        let (next, v) = parse_string(rest)?;
        let ghost before = out.deep_view();
        out.push(v);
        assert(out.deep_view() =~= before.push(v@));
        rest = next;
        i = i + 1;
    }
    assert(out.deep_view() + Seq::<Seq<char>>::empty() =~= out.deep_view());
    Ok((rest, out))
}

/// Reads the leading numbers of a question: field id, question id, grade,
/// year and kind.
#[verifier::opaque]
pub open spec fn spec_item_head(s: Seq<u8>) -> Step<(i32, i32, Kyu, i32, i32)> {
    match spec_le_i32(s) {
        Step::Done(r1, field_id) => match spec_le_i32(r1) {
            Step::Done(r2, question_id) => match spec_kyu(r2) {
                Step::Done(r3, level) => match spec_le_i32(r3) {
                    Step::Done(r4, year) => match spec_le_i32(r4) {
                        Step::Done(r5, kind) => Step::Done(
                            r5,
                            (field_id, question_id, level, year, kind),
                        ),
                        other => other.failure(),
                    },
                    other => other.failure(),
                },
                other => other.failure(),
            },
            other => other.failure(),
        },
        other => other.failure(),
    }
}

/// Reads two texts in a row.
#[verifier::opaque]
pub open spec fn spec_text_pair(s: Seq<u8>) -> Step<(Seq<char>, Seq<char>)> {
    match spec_text(s) {
        Step::Done(r1, a) => match spec_text(r1) {
            Step::Done(r2, b) => Step::Done(r2, (a, b)),
            other => other.failure(),
        },
        other => other.failure(),
    }
}

/// Reads three integers in a row.
#[verifier::opaque]
pub open spec fn spec_i32_triple(s: Seq<u8>) -> Step<(i32, i32, i32)> {
    match spec_le_i32(s) {
        Step::Done(r1, a) => match spec_le_i32(r1) {
            Step::Done(r2, b) => match spec_le_i32(r2) {
                Step::Done(r3, c) => Step::Done(r3, (a, b, c)),
                other => other.failure(),
            },
            other => other.failure(),
        },
        other => other.failure(),
    }
}

/// Reads two text lists in a row.
#[verifier::opaque]
pub open spec fn spec_text_list_pair(s: Seq<u8>) -> Step<(Seq<Seq<char>>, Seq<Seq<char>>)> {
    match spec_text_list(s) {
        Step::Done(r1, a) => match spec_text_list(r1) {
            Step::Done(r2, b) => Step::Done(r2, (a, b)),
            other => other.failure(),
        },
        other => other.failure(),
    }
}

/// Reads one question: its leading numbers, the matter and format texts,
/// the three part numbers, the sentence and answer choice texts, the lists
/// of correct answers and of words used, and the selected index.
pub open spec fn spec_item(s: Seq<u8>) -> Step<QuestionItemView> {
    match spec_item_head(s) {
        Step::Done(r1, head) => match spec_text_pair(r1) {
            Step::Done(r2, texts1) => match spec_i32_triple(r2) {
                Step::Done(r3, parts) => match spec_text_pair(r3) {
                    Step::Done(r4, texts2) => match spec_text_list_pair(r4) {
                        Step::Done(r5, lists) => match spec_le_i32(r5) {
                            Step::Done(r6, selected_index) => Step::Done(
                                r6,
                                QuestionItemView {
                                    field_id: head.0,
                                    question_id: head.1,
                                    level: head.2,
                                    year: head.3,
                                    kind: head.4,
                                    matter: texts1.0,
                                    format: texts1.1,
                                    large_part: parts.0,
                                    middle_part: parts.1,
                                    small_part: parts.2,
                                    sentence: texts2.0,
                                    answer_choices: texts2.1,
                                    correct_answer_list: lists.0,
                                    use_word_list: lists.1,
                                    selected_index,
                                },
                            ),
                            other => other.failure(),
                        },
                        other => other.failure(),
                    },
                    other => other.failure(),
                },
                other => other.failure(),
            },
            other => other.failure(),
        },
        other => other.failure(),
    }
}

/// Decodes a grade from its code; an unknown code is refused.
pub fn parse_kyu<'a>(input: &'a [u8]) -> (r: Result<(&'a [u8], Kyu), DecodeError<'a>>)
    ensures
        agrees(r, spec_kyu(input@)),
{
    let (input, value) = read_le_i32(input)?;
    match Kyu::from_code(value) {
        Some(k) => Ok((input, k)),
        None => Err(DecodeError { input, code: ErrorKind::MapRes }),
    }
}

fn parse_item_head<'a>(input: &'a [u8]) -> (r: Result<(&'a [u8], (i32, i32, Kyu, i32, i32)), DecodeError<'a>>)
    ensures
        agrees(r, spec_item_head(input@)),
{
    reveal(spec_item_head);
    let (input, field_id) = read_le_i32(input)?;
    let (input, question_id) = read_le_i32(input)?;
    let (input, level) = parse_kyu(input)?;
    let (input, year) = read_le_i32(input)?;
    let (input, kind) = read_le_i32(input)?;
    Ok((input, (field_id, question_id, level, year, kind)))
}

fn parse_text_pair<'a>(input: &'a [u8]) -> (r: Result<(&'a [u8], (String, String)), DecodeError<'a>>)
    ensures
        agrees(r, spec_text_pair(input@)),
{
    reveal(spec_text_pair);
    let (input, a) = parse_string(input)?;
    let (input, b) = parse_string(input)?;
    Ok((input, (a, b)))
}

fn parse_i32_triple<'a>(input: &'a [u8]) -> (r: Result<(&'a [u8], (i32, i32, i32)), DecodeError<'a>>)
    ensures
        agrees(r, spec_i32_triple(input@)),
{
    reveal(spec_i32_triple);
    let (input, a) = read_le_i32(input)?;
    let (input, b) = read_le_i32(input)?;
    let (input, c) = read_le_i32(input)?;
    Ok((input, (a, b, c)))
}

fn parse_text_list_pair<'a>(input: &'a [u8]) -> (r: Result<(&'a [u8], (Vec<String>, Vec<String>)), DecodeError<'a>>)
    requires
        !(spec_text_list_pair(input@) is Panic),
    ensures
        agrees_deep(r, spec_text_list_pair(input@)),
{
    reveal(spec_text_list_pair);
    let (input, a) = parse_string_array(input)?;
    let (input, b) = parse_string_array(input)?;
    Ok((input, (a, b)))
}

/// Decodes one question.
pub fn parse_question_item<'a>(input: &'a [u8]) -> (r: Result<(&'a [u8], QuestionItem), DecodeError<'a>>)
    requires
        !(spec_item(input@) is Panic),
    ensures
        agrees(r, spec_item(input@)),
{
    let (input, head) = parse_item_head(input)?;
    let (input, texts1) = parse_text_pair(input)?;
    let (input, parts) = parse_i32_triple(input)?;
    let (input, texts2) = parse_text_pair(input)?;
    let (input, lists) = parse_text_list_pair(input)?;
    let (input, selected_index) = read_le_i32(input)?;
    let (field_id, question_id, level, year, kind) = head;
    let (matter, format) = texts1;
    let (large_part, middle_part, small_part) = parts;
    let (sentence, answer_choices) = texts2;
    let (correct_answer_list, use_word_list) = lists;
    Ok((
        input,
        QuestionItem {
            field_id,
            question_id,
            level,
            year,
            kind,
            matter,
            format,
            large_part,
            middle_part,
            small_part,
            sentence,
            answer_choices,
            correct_answer_list,
            use_word_list,
            selected_index,
        },
    ))
}

/// A decoder with outcome `st` on `s`, when it succeeds, leaves a suffix of
/// `s` after consuming at least `min` bytes, a multiple of four.
pub open spec fn aligned_suffix<T>(s: Seq<u8>, st: Step<T>, min: int) -> bool {
    st matches Step::Done(r, _) ==> {
        let k = s.len() - r.len();
        &&& min <= k
        &&& k % 4 == 0
        &&& r == s.skip(k)
    }
}

proof fn lemma_skip_skip(s: Seq<u8>, a: int, b: int)
    requires
        0 <= a,
        0 <= b,
        a + b <= s.len(),
    ensures
        s.skip(a).skip(b) == s.skip(a + b),
{
    assert(s.skip(a).skip(b) =~= s.skip(a + b));
}

/// Composition: if the first decoder leaves `r1` of `s` and the second leaves
/// `r2` of `r1`, both aligned, then `r2` is an aligned suffix of `s`.
pub proof fn lemma_chain_suffix(s: Seq<u8>, r1: Seq<u8>, r2: Seq<u8>)
    requires
        r1.len() <= s.len(),
        r1 == s.skip(s.len() - r1.len()),
        r2.len() <= r1.len(),
        r2 == r1.skip(r1.len() - r2.len()),
    ensures
        r2 == s.skip(s.len() - r2.len()),
{
    lemma_skip_skip(s, s.len() - r1.len(), r1.len() - r2.len());
}

pub proof fn lemma_unity_string_aligned(s: Seq<u8>)
    ensures
        aligned_suffix(s, spec_unity_string(s), 4),
{
    if let Step::Done(r, len) = spec_le_i32(s) {
        if len >= 0 {
            if let Step::Done(r2, bytes) = spec_take(r, len as int) {
                let pad = unity_padding(len as int);
                if let Step::Done(r3, _) = spec_take(r2, pad) {
                    lemma_skip_skip(s, 4, len as int);
                    lemma_skip_skip(s, 4 + len, pad);
                    assert((len + pad) % 4 == 0);
                }
            }
        }
    }
}

pub proof fn lemma_text_aligned(s: Seq<u8>)
    ensures
        aligned_suffix(s, spec_text(s), 4),
{
    lemma_unity_string_aligned(s);
}

pub proof fn lemma_texts_aligned(s: Seq<u8>, n: nat)
    ensures
        aligned_suffix(s, spec_texts(s, n), 4 * n as int),
    decreases n,
{
    if n == 0 {
        assert(s.skip(0) =~= s);
    } else {
        lemma_text_aligned(s);
        if let Step::Done(r, v) = spec_text(s) {
            lemma_texts_aligned(r, (n - 1) as nat);
            if let Step::Done(r2, vs) = spec_texts(r, (n - 1) as nat) {
                lemma_chain_suffix(s, r, r2);
            }
        }
    }
}

pub proof fn lemma_text_list_aligned(s: Seq<u8>)
    ensures
        aligned_suffix(s, spec_text_list(s), 4),
{
    if let Step::Done(r, n) = spec_le_i32(s) {
        if n >= 0 {
            lemma_texts_aligned(r, n as nat);
            if let Step::Done(r2, _) = spec_texts(r, n as nat) {
                lemma_chain_suffix(s, r, r2);
            }
        }
    }
}

proof fn lemma_item_head_aligned(s: Seq<u8>)
    ensures
        aligned_suffix(s, spec_item_head(s), 20),
{
    reveal(spec_item_head);
    if let Step::Done(r1, _) = spec_le_i32(s) {
        if let Step::Done(r2, _) = spec_le_i32(r1) {
            if let Step::Done(r3, _) = spec_kyu(r2) {
                if let Step::Done(r4, _) = spec_le_i32(r3) {
                    if let Step::Done(r5, _) = spec_le_i32(r4) {
                        lemma_chain_suffix(s, r1, r2);
                        lemma_chain_suffix(s, r2, r3);
                        lemma_chain_suffix(s, r3, r4);
                        lemma_chain_suffix(s, r4, r5);
                    }
                }
            }
        }
    }
}

proof fn lemma_text_pair_aligned(s: Seq<u8>)
    ensures
        aligned_suffix(s, spec_text_pair(s), 8),
{
    reveal(spec_text_pair);
    lemma_text_aligned(s);
    if let Step::Done(r1, _) = spec_text(s) {
        lemma_text_aligned(r1);
        if let Step::Done(r2, _) = spec_text(r1) {
            lemma_chain_suffix(s, r1, r2);
        }
    }
}

proof fn lemma_i32_triple_aligned(s: Seq<u8>)
    ensures
        aligned_suffix(s, spec_i32_triple(s), 12),
{
    reveal(spec_i32_triple);
    if let Step::Done(r1, _) = spec_le_i32(s) {
        if let Step::Done(r2, _) = spec_le_i32(r1) {
            if let Step::Done(r3, _) = spec_le_i32(r2) {
                lemma_chain_suffix(s, r1, r2);
                lemma_chain_suffix(s, r2, r3);
            }
        }
    }
}

proof fn lemma_text_list_pair_aligned(s: Seq<u8>)
    ensures
        aligned_suffix(s, spec_text_list_pair(s), 8),
{
    reveal(spec_text_list_pair);
    lemma_text_list_aligned(s);
    if let Step::Done(r1, _) = spec_text_list(s) {
        lemma_text_list_aligned(r1);
        if let Step::Done(r2, _) = spec_text_list(r1) {
            lemma_chain_suffix(s, r1, r2);
        }
    }
}

/// Every field of a question starts on a four-byte boundary: a decoded
/// question consumes a multiple of four bytes, at least the 60 bytes of a
/// question whose strings are all empty, and leaves the rest of the input.
pub proof fn lemma_question_item_aligned(s: Seq<u8>)
    ensures
        aligned_suffix(s, spec_item(s), 60),
{
    lemma_item_head_aligned(s);
    if let Step::Done(r1, _) = spec_item_head(s) {
        lemma_text_pair_aligned(r1);
        if let Step::Done(r2, _) = spec_text_pair(r1) {
            lemma_i32_triple_aligned(r2);
            if let Step::Done(r3, _) = spec_i32_triple(r2) {
                lemma_text_pair_aligned(r3);
                if let Step::Done(r4, _) = spec_text_pair(r3) {
                    lemma_text_list_pair_aligned(r4);
                    if let Step::Done(r5, _) = spec_text_list_pair(r4) {
                        if let Step::Done(r6, _) = spec_le_i32(r5) {
                            lemma_chain_suffix(s, r1, r2);
                            lemma_chain_suffix(s, r2, r3);
                            lemma_chain_suffix(s, r3, r4);
                            lemma_chain_suffix(s, r4, r5);
                            lemma_chain_suffix(s, r5, r6);
                        }
                    }
                }
            }
        }
    }
}

} // verus!
