use vstd::prelude::*;
use vstd::utf8::{encode_utf8, encode_utf8_decode_utf8, encode_utf8_valid_utf8};
use crate::decode::{le_i32_value, spec_le_i32, spec_take, Step};
use crate::kyu::{kyu_code, Kyu};
use crate::question::{
    spec_i32_triple, spec_item, spec_item_head, spec_kyu, spec_text, spec_text_list,
    spec_text_list_pair, spec_text_pair, spec_texts, spec_unity_string, unity_padding,
};
use crate::bank::{spec_file_start, spec_header, spec_items, spec_question_file, starts_with, question_asset_prefix, HEADER_LEN};
use crate::types::{QuestionFileView, QuestionItemView};

verus! {

/* How a question is laid out in bytes, written from the values to the
   bytes: the decoders read back exactly what this layout writes. */

/// The four bytes of `v`, little endian, two's complement.
pub open spec fn le_i32_bytes(v: i32) -> Seq<u8> {
    let u: int = if v >= 0 {
        v as int
    } else {
        v + 0x1_0000_0000
    };
    let q1 = u / 256;
    let q2 = q1 / 256;
    let q3 = q2 / 256;
    seq![(u % 256) as u8, (q1 % 256) as u8, (q2 % 256) as u8, q3 as u8]
}

/// A string: its length, its bytes, and zero bytes up to a multiple of four.
#[verifier::opaque]
pub open spec fn string_bytes(b: Seq<u8>) -> Seq<u8> {
    le_i32_bytes(b.len() as i32) + b + Seq::new(unity_padding(b.len() as int) as nat, |i: int| 0u8)
}

/// A text: the string of its UTF-8 encoding.
#[verifier::opaque]
pub open spec fn text_bytes(t: Seq<char>) -> Seq<u8> {
    string_bytes(encode_utf8(t))
}

/// Texts one after another.
pub open spec fn texts_bytes(ts: Seq<Seq<char>>) -> Seq<u8>
    decreases ts.len(),
{
    if ts.len() == 0 {
        seq![]
    } else {
        text_bytes(ts[0]) + texts_bytes(ts.drop_first())
    }
}

/// A text list: its count, then its texts.
pub open spec fn text_list_bytes(ts: Seq<Seq<char>>) -> Seq<u8> {
    le_i32_bytes(ts.len() as i32) + texts_bytes(ts)
}

/// A question: field id, question id, grade code, year, kind, matter,
/// format, large, middle and small part, sentence, answer choices, correct
/// answers, words used, selected index.
pub open spec fn item_bytes(q: QuestionItemView) -> Seq<u8> {
    le_i32_bytes(q.field_id) + le_i32_bytes(q.question_id) + le_i32_bytes(kyu_code(q.level))
        + le_i32_bytes(q.year) + le_i32_bytes(q.kind) + text_bytes(q.matter) + text_bytes(q.format)
        + le_i32_bytes(q.large_part) + le_i32_bytes(q.middle_part) + le_i32_bytes(q.small_part)
        + text_bytes(q.sentence) + text_bytes(q.answer_choices) + text_list_bytes(q.correct_answer_list)
        + text_list_bytes(q.use_word_list) + le_i32_bytes(q.selected_index)
}

/// A text whose encoding has a length that an `i32` holds.
pub open spec fn text_fits(t: Seq<char>) -> bool {
    encode_utf8(t).len() <= i32::MAX
}

pub open spec fn texts_fit(ts: Seq<Seq<char>>) -> bool {
    &&& ts.len() <= i32::MAX
    &&& forall|i: int| 0 <= i < ts.len() ==> text_fits(#[trigger] ts[i])
}

/// A question whose texts and lists can be laid out.
pub open spec fn item_fits(q: QuestionItemView) -> bool {
    &&& text_fits(q.matter)
    &&& text_fits(q.format)
    &&& text_fits(q.sentence)
    &&& text_fits(q.answer_choices)
    &&& texts_fit(q.correct_answer_list)
    &&& texts_fit(q.use_word_list)
}

pub proof fn lemma_le_i32_roundtrip(v: i32, r: Seq<u8>)
    ensures
        spec_le_i32(le_i32_bytes(v) + r) == Step::Done(r, v),
{
    let s = le_i32_bytes(v) + r;
    let u: int = if v >= 0 {
        v as int
    } else {
        v + 0x1_0000_0000
    };
    let q1 = u / 256;
    let q2 = q1 / 256;
    let q3 = q2 / 256;
    assert(u == u % 256 + 256 * q1);
    assert(q1 == q1 % 256 + 256 * q2);
    assert(q2 == q2 % 256 + 256 * q3);
    assert(0 <= q3 < 256);
    assert(s[0] + 256 * s[1] + 65536 * s[2] + 16777216 * s[3] == u);
    assert(le_i32_value(s) == v);
    assert(s.skip(4) =~= r);
}

proof fn lemma_string_roundtrip(b: Seq<u8>, r: Seq<u8>)
    requires
        b.len() <= i32::MAX,
    ensures
        spec_unity_string(string_bytes(b) + r) == Step::Done(r, b),
{
    reveal(string_bytes);
    let len = b.len() as i32;
    let pad = Seq::new(unity_padding(b.len() as int) as nat, |i: int| 0u8);
    let s = string_bytes(b) + r;
    assert(s =~= le_i32_bytes(len) + (b + (pad + r)));
    lemma_le_i32_roundtrip(len, b + (pad + r));
    let r1 = b + (pad + r);
    assert(r1.skip(len as int) =~= pad + r);
    assert(r1.take(len as int) =~= b);
    assert((pad + r).skip(pad.len() as int) =~= r);
}

pub proof fn lemma_text_roundtrip(t: Seq<char>, r: Seq<u8>)
    requires
        text_fits(t),
    ensures
        spec_text(text_bytes(t) + r) == Step::Done(r, t),
{
    reveal(text_bytes);
    lemma_string_roundtrip(encode_utf8(t), r);
    encode_utf8_valid_utf8(t);
    encode_utf8_decode_utf8(t);
}

proof fn lemma_texts_roundtrip(ts: Seq<Seq<char>>, r: Seq<u8>)
    requires
        forall|i: int| 0 <= i < ts.len() ==> text_fits(#[trigger] ts[i]),
    ensures
        spec_texts(texts_bytes(ts) + r, ts.len()) == Step::Done(r, ts),
    decreases ts.len(),
{
    if ts.len() == 0 {
        assert(texts_bytes(ts) + r =~= r);
        assert(ts =~= Seq::<Seq<char>>::empty());
    } else {
        let rest = ts.drop_first();
        assert forall|i: int| 0 <= i < rest.len() implies text_fits(#[trigger] rest[i]) by {
            assert(rest[i] == ts[i + 1]);
        }
        assert(text_fits(ts[0]));
        lemma_texts_roundtrip(rest, r);
        lemma_text_roundtrip(ts[0], texts_bytes(rest) + r);
        assert(texts_bytes(ts) + r =~= text_bytes(ts[0]) + (texts_bytes(rest) + r));
        assert(seq![ts[0]] + rest =~= ts);
    }
}

pub proof fn lemma_text_list_roundtrip(ts: Seq<Seq<char>>, r: Seq<u8>)
    requires
        texts_fit(ts),
    ensures
        spec_text_list(text_list_bytes(ts) + r) == Step::Done(r, ts),
{
    lemma_le_i32_roundtrip(ts.len() as i32, texts_bytes(ts) + r);
    assert(text_list_bytes(ts) + r =~= le_i32_bytes(ts.len() as i32) + (texts_bytes(ts) + r));
    lemma_texts_roundtrip(ts, r);
}

proof fn lemma_kyu_roundtrip(k: Kyu, r: Seq<u8>)
    ensures
        spec_kyu(le_i32_bytes(kyu_code(k)) + r) == Step::Done(r, k),
{
    lemma_le_i32_roundtrip(kyu_code(k), r);
}

proof fn lemma_head_roundtrip(q: QuestionItemView, r: Seq<u8>)
    ensures
        spec_item_head(
            le_i32_bytes(q.field_id) + le_i32_bytes(q.question_id) + le_i32_bytes(kyu_code(q.level))
                + le_i32_bytes(q.year) + le_i32_bytes(q.kind) + r,
        ) == Step::Done(r, (q.field_id, q.question_id, q.level, q.year, q.kind)),
{
    reveal(spec_item_head);
    let r4 = le_i32_bytes(q.kind) + r;
    let r3 = le_i32_bytes(q.year) + r4;
    let r2 = le_i32_bytes(kyu_code(q.level)) + r3;
    let r1 = le_i32_bytes(q.question_id) + r2;
    assert(le_i32_bytes(q.field_id) + le_i32_bytes(q.question_id) + le_i32_bytes(kyu_code(q.level))
        + le_i32_bytes(q.year) + le_i32_bytes(q.kind) + r =~= le_i32_bytes(q.field_id) + r1);
    lemma_le_i32_roundtrip(q.field_id, r1);
    lemma_le_i32_roundtrip(q.question_id, r2);
    lemma_kyu_roundtrip(q.level, r3);
    lemma_le_i32_roundtrip(q.year, r4);
    lemma_le_i32_roundtrip(q.kind, r);
}

proof fn lemma_pair_roundtrip(a: Seq<char>, b: Seq<char>, r: Seq<u8>)
    requires
        text_fits(a),
        text_fits(b),
    ensures
        spec_text_pair(text_bytes(a) + text_bytes(b) + r) == Step::Done(r, (a, b)),
{
    reveal(spec_text_pair);
    assert(text_bytes(a) + text_bytes(b) + r =~= text_bytes(a) + (text_bytes(b) + r));
    lemma_text_roundtrip(a, text_bytes(b) + r);
    lemma_text_roundtrip(b, r);
}

proof fn lemma_triple_roundtrip(a: i32, b: i32, c: i32, r: Seq<u8>)
    ensures
        spec_i32_triple(le_i32_bytes(a) + le_i32_bytes(b) + le_i32_bytes(c) + r) == Step::Done(r, (a, b, c)),
{
    reveal(spec_i32_triple);
    assert(le_i32_bytes(a) + le_i32_bytes(b) + le_i32_bytes(c) + r =~= le_i32_bytes(a) + (le_i32_bytes(b) + (
    le_i32_bytes(c) + r)));
    lemma_le_i32_roundtrip(a, le_i32_bytes(b) + (le_i32_bytes(c) + r));
    lemma_le_i32_roundtrip(b, le_i32_bytes(c) + r);
    lemma_le_i32_roundtrip(c, r);
}

proof fn lemma_list_pair_roundtrip(a: Seq<Seq<char>>, b: Seq<Seq<char>>, r: Seq<u8>)
    requires
        texts_fit(a),
        texts_fit(b),
    ensures
        spec_text_list_pair(text_list_bytes(a) + text_list_bytes(b) + r) == Step::Done(r, (a, b)),
{
    reveal(spec_text_list_pair);
    assert(text_list_bytes(a) + text_list_bytes(b) + r =~= text_list_bytes(a) + (text_list_bytes(b) + r));
    lemma_text_list_roundtrip(a, text_list_bytes(b) + r);
    lemma_text_list_roundtrip(b, r);
}

/// Decoding reads back what the layout writes: a question laid out by
/// `item_bytes`, followed by any bytes, decodes to that question, field by
/// field, and leaves the following bytes.
pub proof fn lemma_item_roundtrip(q: QuestionItemView, r: Seq<u8>)
    requires
        item_fits(q),
    ensures
        spec_item(item_bytes(q) + r) == Step::Done(r, q),
{
    let head = le_i32_bytes(q.field_id) + le_i32_bytes(q.question_id) + le_i32_bytes(kyu_code(q.level))
        + le_i32_bytes(q.year) + le_i32_bytes(q.kind);
    let t1 = text_bytes(q.matter) + text_bytes(q.format);
    let parts = le_i32_bytes(q.large_part) + le_i32_bytes(q.middle_part) + le_i32_bytes(q.small_part);
    let t2 = text_bytes(q.sentence) + text_bytes(q.answer_choices);
    let lists = text_list_bytes(q.correct_answer_list) + text_list_bytes(q.use_word_list);
    let r5 = le_i32_bytes(q.selected_index) + r;
    let r4 = lists + r5;
    let r3 = t2 + r4;
    let r2 = parts + r3;
    let r1 = t1 + r2;
    assert(item_bytes(q) + r =~= head + r1);
    lemma_head_roundtrip(q, r1);
    lemma_pair_roundtrip(q.matter, q.format, r2);
    lemma_triple_roundtrip(q.large_part, q.middle_part, q.small_part, r3);
    lemma_pair_roundtrip(q.sentence, q.answer_choices, r4);
    lemma_list_pair_roundtrip(q.correct_answer_list, q.use_word_list, r5);
    lemma_le_i32_roundtrip(q.selected_index, r);
    let v = spec_item(item_bytes(q) + r);
    assert(v == Step::Done(r, q));
}

/// Questions one after another.
pub open spec fn items_bytes(items: Seq<QuestionItemView>) -> Seq<u8>
    decreases items.len(),
{
    if items.len() == 0 {
        seq![]
    } else {
        item_bytes(items[0]) + items_bytes(items.drop_first())
    }
}

/// A question file: a header of `HEADER_LEN` bytes, the asset's name as a
/// string, the declared number of questions, the questions, the field id.
pub open spec fn question_file_bytes(header: Seq<u8>, name: Seq<u8>, f: QuestionFileView) -> Seq<u8> {
    header + string_bytes(name) + le_i32_bytes(f.record_list_size) + items_bytes(f.items) + le_i32_bytes(
        f.field_id,
    )
}

proof fn lemma_items_roundtrip(items: Seq<QuestionItemView>, fid: i32)
    requires
        forall|i: int| 0 <= i < items.len() ==> item_fits(#[trigger] items[i]),
    ensures
        spec_items(items_bytes(items) + le_i32_bytes(fid)) == Step::Done(le_i32_bytes(fid), items),
    decreases items.len(),
{
    let tail = le_i32_bytes(fid);
    if items.len() == 0 {
        assert(items_bytes(items) + tail =~= tail);
        reveal(spec_item_head);
        lemma_le_i32_roundtrip(fid, Seq::<u8>::empty());
        assert(tail + Seq::<u8>::empty() =~= tail);
        assert(spec_le_i32(Seq::<u8>::empty()) is Fail);
        assert(spec_item_head(tail) is Fail);
        assert(spec_item(tail) is Fail);
        assert(items =~= Seq::<QuestionItemView>::empty());
    } else {
        let rest = items.drop_first();
        assert forall|i: int| 0 <= i < rest.len() implies item_fits(#[trigger] rest[i]) by {
            assert(rest[i] == items[i + 1]);
        }
        assert(item_fits(items[0]));
        lemma_items_roundtrip(rest, fid);
        lemma_item_roundtrip(items[0], items_bytes(rest) + tail);
        assert(items_bytes(items) + tail =~= item_bytes(items[0]) + (items_bytes(rest) + tail));
        assert(seq![items[0]] + rest =~= items);
    }
}

/// Decoding reads back a whole question file as the layout writes it: with a
/// header of the right length, a name that starts with `KankenQuestionSO_`
/// and questions that can be laid out, the file decodes to its declared
/// number, its questions in order and its field id, and nothing is left.
pub proof fn lemma_question_file_roundtrip(header: Seq<u8>, name: Seq<u8>, f: QuestionFileView)
    requires
        header.len() == HEADER_LEN,
        name.len() <= i32::MAX,
        starts_with(name, question_asset_prefix()),
        forall|i: int| 0 <= i < f.items.len() ==> item_fits(#[trigger] f.items[i]),
    ensures
        spec_question_file(question_file_bytes(header, name, f)) == Step::Done(Seq::<u8>::empty(), f),
{
    let fid = le_i32_bytes(f.field_id);
    let r3 = items_bytes(f.items) + fid;
    let r2 = le_i32_bytes(f.record_list_size) + r3;
    let r1 = string_bytes(name) + r2;
    let s = question_file_bytes(header, name, f);
    assert(s =~= header + r1);
    assert((header + r1).skip(HEADER_LEN as int) =~= r1);
    assert(spec_header(s) == Step::Done(r1, ()));
    lemma_string_roundtrip(name, r2);
    assert(spec_file_start(s) == Step::Done(r2, ()));
    lemma_le_i32_roundtrip(f.record_list_size, r3);
    lemma_items_roundtrip(f.items, f.field_id);
    lemma_le_i32_roundtrip(f.field_id, Seq::<u8>::empty());
    assert(fid + Seq::<u8>::empty() =~= fid);
}

} // verus!
