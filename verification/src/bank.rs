use vstd::prelude::*;
use crate::decode::{agrees, read_le_i32, spec_le_i32, spec_take, take_bytes, DecodeError, ErrorKind, Step};
use crate::question::{
    aligned_suffix, lemma_chain_suffix, lemma_question_item_aligned, lemma_unity_string_aligned,
    parse_question_item, parse_unity_string, prepend, spec_item, spec_unity_string,
};
use crate::types::{QuestionFile, QuestionFileView, QuestionItem, QuestionItemView};

verus! {

/* A question file is a Unity `MonoBehaviour` asset: a native header, the
   asset's name (a string starting with `KankenQuestionSO_`), the declared
   number of questions, the questions, and the id of their field. */

/// Length of the native header that precedes the asset's name.
pub const HEADER_LEN: usize = 0x1C;

/// The bytes that the name of a question asset starts with: `KankenQuestionSO_`.
pub open spec fn question_asset_prefix() -> Seq<u8> {
    seq![
        // "K a n k e n Q u e s t i o n S O _" in ASCII
        0x4bu8, 0x61, 0x6e, 0x6b, 0x65, 0x6e, 0x51, 0x75, 0x65, 0x73, 0x74, 0x69, 0x6f, 0x6e,
        0x53, 0x4f, 0x5f,
    ]
}

/// `name` starts with `prefix`.
pub open spec fn starts_with(name: Seq<u8>, prefix: Seq<u8>) -> bool {
    prefix.len() <= name.len() && name.take(prefix.len() as int) == prefix
}

/// Skips the native header.
pub open spec fn spec_header(s: Seq<u8>) -> Step<()> {
    match spec_take(s, HEADER_LEN as int) {
        Step::Done(r, _) => Step::Done(r, ()),
        other => other.failure(),
    }
}

/// Reads the header and the asset's name, and checks that the name is the
/// one of a question asset.
pub open spec fn spec_file_start(s: Seq<u8>) -> Step<()> {
    match spec_header(s) {
        Step::Done(r1, _) => match spec_unity_string(r1) {
            Step::Done(r2, name) => if starts_with(name, question_asset_prefix()) {
                Step::Done(r2, ())
            } else {
                Step::Fail(ErrorKind::Tag, name)
            },
            other => other.failure(),
        },
        other => other.failure(),
    }
}

/// Reads questions for as long as one can be read: the first input on which
/// a question is refused ends the list and is left unread. A question whose
/// text list has a negative count makes the whole read panic.
pub open spec fn spec_items(s: Seq<u8>) -> Step<Seq<QuestionItemView>>
    decreases s.len(),
{
    match spec_item(s) {
        Step::Done(r, v) => {
            proof {
                lemma_question_item_aligned(s);
            }
            prepend(seq![v], spec_items(r))
        },
        Step::Fail(_, _) => Step::Done(s, seq![]),
        Step::Panic => Step::Panic,
    }
}

/// Reads a whole question file.
pub open spec fn spec_question_file(s: Seq<u8>) -> Step<QuestionFileView> {
    match spec_file_start(s) {
        Step::Done(r1, _) => match spec_le_i32(r1) {
            Step::Done(r2, record_list_size) => match spec_items(r2) {
                Step::Done(r3, items) => match spec_le_i32(r3) {
                    Step::Done(r4, field_id) => Step::Done(
                        r4,
                        QuestionFileView { record_list_size, items, field_id },
                    ),
                    other => other.failure(),
                },
                other => other.failure(),
            },
            other => other.failure(),
        },
        other => other.failure(),
    }
}

/// Skips the native header (`HEADER_LEN` bytes) of the asset.
pub fn skip_header<'a>(input: &'a [u8]) -> (r: Result<(&'a [u8], ()), DecodeError<'a>>)
    ensures
        agrees(r, spec_header(input@)),
{
    let (input, _) = take_bytes(input, HEADER_LEN)?;
    Ok((input, ()))
}

/// The bytes that the name of a question asset starts with.
fn question_asset_prefix_bytes() -> (p: Vec<u8>)
    ensures
        p@ == question_asset_prefix(),
{
    let p = vec![
        // "K a n k e n Q u e s t i o n S O _" in ASCII
        0x4bu8, 0x61, 0x6e, 0x6b, 0x65, 0x6e, 0x51, 0x75, 0x65, 0x73, 0x74, 0x69, 0x6f, 0x6e,
        0x53, 0x4f, 0x5f,
    ];
    assert(p@ =~= question_asset_prefix());
    p
}

/// Whether `name` starts with `prefix`.
fn bytes_start_with(name: &[u8], prefix: &Vec<u8>) -> (b: bool)
    ensures
        b == starts_with(name@, prefix@),
{
    if prefix.len() > name.len() {
        return false;
    }
    let mut i: usize = 0;
    while i < prefix.len()
        invariant
            prefix.len() <= name.len(),
            i <= prefix.len(),
            forall|j: int| 0 <= j < i ==> name@[j] == prefix@[j],
        decreases prefix.len() - i,
    {
        if name[i] != prefix[i] {
            assert(name@.take(prefix.len() as int)[i as int] != prefix@[i as int]);
            return false;
        }
        i = i + 1;
    }
    assert(name@.take(prefix.len() as int) =~= prefix@);
    true
}

/// Skips the header and checks the asset's name; a name that does not start
/// with `KankenQuestionSO_` is refused with `ErrorKind::Tag` at the name.
pub fn parse_question_file_start<'a>(input: &'a [u8]) -> (r: Result<(&'a [u8], ()), DecodeError<'a>>)
    ensures
        agrees(r, spec_file_start(input@)),
{
    let (input, _) = skip_header(input)?;
    let (rest, name) = parse_unity_string(input)?;
    let prefix = question_asset_prefix_bytes();
    if !bytes_start_with(name, &prefix) {
        return Err(DecodeError { input: name, code: ErrorKind::Tag });
    }
    Ok((rest, ()))
}

/// Reads the declared number of questions.
pub fn parse_record_list_size<'a>(input: &'a [u8]) -> (r: Result<(&'a [u8], i32), DecodeError<'a>>)
    ensures
        agrees(r, spec_le_i32(input@)),
{
    read_le_i32(input)
}

proof fn lemma_items_unfold(s: Seq<u8>, prefix: Seq<QuestionItemView>)
    ensures
        spec_item(s) matches Step::Done(r, v) ==> prepend(prefix, spec_items(s)) == prepend(
            prefix.push(v),
            spec_items(r),
        ),
        spec_item(s) is Fail ==> spec_items(s) == Step::<Seq<QuestionItemView>>::Done(s, seq![]),
        spec_item(s) is Panic ==> spec_items(s) is Panic,
{
    if let Step::Done(r, v) = spec_item(s) {
        if let Step::Done(r2, vs) = spec_items(r) {
            assert(prefix + (seq![v] + vs) =~= prefix.push(v) + vs);
        }
    }
}

/// Decodes questions for as long as one can be decoded.
fn parse_items<'a>(input: &'a [u8]) -> (r: (&'a [u8], Vec<QuestionItem>))
    requires
        !(spec_items(input@) is Panic),
    ensures
        spec_items(input@) == Step::Done(r.0@, r.1@.map_values(|q: QuestionItem| q@)),
{
    let mut rest = input;
    let mut items: Vec<QuestionItem> = Vec::new();
    loop
        invariant
            spec_items(input@) == prepend(items@.map_values(|q: QuestionItem| q@), spec_items(rest@)),
            !(spec_items(input@) is Panic),
        decreases rest@.len(),
    {
        let ghost prefix = items@.map_values(|q: QuestionItem| q@);
        proof {
            lemma_items_unfold(rest@, prefix);
            lemma_question_item_aligned(rest@);
        }
        match parse_question_item(rest) {
            Ok((next, item)) => {
                items.push(item);
                assert(items@.map_values(|q: QuestionItem| q@) =~= prefix.push(item@));
                rest = next;
            },
            Err(_) => {
                assert(prefix + Seq::<QuestionItemView>::empty() =~= prefix);
                return (rest, items);
            },
        }
    }
}

/// Decodes a question file: the header, the asset's name, the declared
/// number of questions, as many questions as can be decoded, and the field
/// id. Returns the input that follows the field id.
pub fn parse_question_file<'a>(input: &'a [u8]) -> (r: Result<(&'a [u8], QuestionFile), DecodeError<'a>>)
    requires
        !(spec_question_file(input@) is Panic),
    ensures
        agrees(r, spec_question_file(input@)),
{
    let (input, _) = parse_question_file_start(input)?;
    let (input, record_list_size) = parse_record_list_size(input)?;
    let (input, items) = parse_items(input);
    let (input, field_id) = read_le_i32(input)?;
    Ok((input, QuestionFile { record_list_size, items, field_id }))
}

proof fn lemma_items_aligned(s: Seq<u8>)
    ensures
        aligned_suffix(s, spec_items(s), 0),
    decreases s.len(),
{
    lemma_question_item_aligned(s);
    match spec_item(s) {
        Step::Done(r, v) => {
            lemma_items_aligned(r);
            if let Step::Done(r2, _) = spec_items(r) {
                lemma_chain_suffix(s, r, r2);
            }
        },
        _ => {
            assert(s.skip(0) =~= s);
        },
    }
}

/// Every field of a question file starts on a four-byte boundary: a decoded
/// file consumes a multiple of four bytes, at least the 40 bytes of a file
/// with an empty name and no questions, and leaves the rest of the input.
pub proof fn lemma_question_file_aligned(s: Seq<u8>)
    ensures
        aligned_suffix(s, spec_question_file(s), 40),
{
    if let Step::Done(r0, _) = spec_header(s) {
        lemma_unity_string_aligned(r0);
        if let Step::Done(r1, _) = spec_file_start(s) {
            if let Step::Done(r2, _) = spec_le_i32(r1) {
                lemma_items_aligned(r2);
                if let Step::Done(r3, _) = spec_items(r2) {
                    if let Step::Done(r4, _) = spec_le_i32(r3) {
                        lemma_chain_suffix(s, r0, r1);
                        lemma_chain_suffix(s, r1, r2);
                        lemma_chain_suffix(s, r2, r3);
                        lemma_chain_suffix(s, r3, r4);
                    }
                }
            }
        }
    }
}

} // verus!
