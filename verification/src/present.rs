use vstd::prelude::*;
use vstd::slice::slice_subrange;
use vstd::string::StringExecFns;
use crate::types::{AllocationScore, AnswerType};

verus! {

/* What the browser shows of a question: the sentence cut into spans, with
   the words between `｛` and `｝` set apart and the selected one
   highlighted; the answer choices; the correct answers joined. */

/// A piece of a sentence, and whether it is the word the question asks about.
#[derive(Debug, Clone)]
pub struct Span {
    pub text: String,
    pub highlighted: bool,
}

impl View for Span {
    type V = (Seq<char>, bool);

    open spec fn view(&self) -> (Seq<char>, bool) {
        (self.text@, self.highlighted)
    }
}

/// The mark that opens a word of a sentence, `｛` (U+FF5B).
pub open spec fn open_mark() -> char {
    '｛'
}

/// The mark that closes a word of a sentence, `｝` (U+FF5D).
pub open spec fn close_mark() -> char {
    '｝'
}

/// `i` is the first place of `c` in `s`.
pub open spec fn is_first_place(s: Seq<char>, c: char, i: int) -> bool {
    &&& 0 <= i < s.len()
    &&& s[i] == c
    &&& forall|j: int| 0 <= j < i ==> s[j] != c
}

/// The first place of `c` in `s`, if any.
pub open spec fn find_char(s: Seq<char>, c: char) -> Option<int> {
    if exists|i: int| 0 <= i < s.len() && s[i] == c {
        Some(choose|i: int| is_first_place(s, c, i))
    } else {
        None
    }
}

proof fn lemma_first_place_below(s: Seq<char>, c: char, w: int)
    requires
        0 <= w < s.len(),
        s[w] == c,
    ensures
        exists|i: int| is_first_place(s, c, i),
    decreases w,
{
    if forall|j: int| 0 <= j < w ==> s[j] != c {
        assert(is_first_place(s, c, w));
    } else {
        let j = choose|j: int| 0 <= j < w && s[j] == c;
        lemma_first_place_below(s, c, j);
    }
}

pub proof fn lemma_find_char(s: Seq<char>, c: char)
    ensures
        find_char(s, c) matches Some(i) ==> is_first_place(s, c, i),
        find_char(s, c) is None ==> forall|j: int| 0 <= j < s.len() ==> s[j] != c,
{
    if exists|i: int| 0 <= i < s.len() && s[i] == c {
        let w = choose|i: int| 0 <= i < s.len() && s[i] == c;
        lemma_first_place_below(s, c, w);
    }
}

proof fn lemma_find_char_is(s: Seq<char>, c: char, i: int)
    requires
        is_first_place(s, c, i),
    ensures
        find_char(s, c) == Some(i),
{
    lemma_find_char(s, c);
    let j = find_char(s, c)->0;
    if j < i {
        assert(s[j] != c);
    }
    if i < j {
        assert(s[i] != c);
    }
}

/// The spans of `rem`, the `k`th marked word counted from 0, with the word
/// numbered `sel` highlighted. The text before a mark `｛` is a plain span
/// when it is not empty; the text from that mark to the next `｝` is a word
/// span, even when empty; a `｛` with no `｝` after it is dropped and the
/// text after it is read on; what remains after the last mark is a plain
/// span when it is not empty.
pub open spec fn spans_from(rem: Seq<char>, k: int, sel: int) -> Seq<(Seq<char>, bool)>
    decreases rem.len(),
{
    match find_char(rem, open_mark()) {
        None => if rem.len() > 0 {
            seq![(rem, false)]
        } else {
            seq![]
        },
        Some(o) => {
            proof {
                lemma_find_char(rem, open_mark());
            }
            let before: Seq<(Seq<char>, bool)> = if o > 0 {
                seq![(rem.take(o), false)]
            } else {
                seq![]
            };
            let after = rem.skip(o + 1);
            match find_char(after, close_mark()) {
                None => before + spans_from(after, k, sel),
                Some(c) => {
                    proof {
                        lemma_find_char(after, close_mark());
                    }
                    before + seq![(after.take(c), k == sel)] + spans_from(after.skip(c + 1), k + 1, sel)
                },
            }
        },
    }
}

/// The spans in which a sentence is shown, the word numbered `sel`
/// highlighted.
pub open spec fn sentence_spans_spec(s: Seq<char>, sel: int) -> Seq<(Seq<char>, bool)> {
    spans_from(s, 0, sel)
}

/// No span of `spans_from(rem, k, sel)` is highlighted when `sel < k`, and
/// at most one is otherwise.
proof fn lemma_spans_from_highlight(rem: Seq<char>, k: int, sel: int)
    ensures
        sel < k ==> forall|i: int| 0 <= i < spans_from(rem, k, sel).len() ==> !(#[trigger] spans_from(rem, k, sel)[i]).1,
        forall|i: int, j: int|
            0 <= i < j < spans_from(rem, k, sel).len() ==> !((#[trigger] spans_from(rem, k, sel)[i]).1 && (#[trigger] spans_from(rem, k, sel)[j]).1),
    decreases rem.len(),
{
    lemma_find_char(rem, open_mark());
    if let Some(o) = find_char(rem, open_mark()) {
        let after = rem.skip(o + 1);
        lemma_find_char(after, close_mark());
        let before: Seq<(Seq<char>, bool)> = if o > 0 {
            seq![(rem.take(o), false)]
        } else {
            seq![]
        };
        match find_char(after, close_mark()) {
            None => {
                lemma_spans_from_highlight(after, k, sel);
                let tail = spans_from(after, k, sel);
                assert(spans_from(rem, k, sel) == before + tail);
                assert forall|i: int| 0 <= i < before.len() implies !(#[trigger] before[i]).1 by {}
            },
            Some(c) => {
                let next = after.skip(c + 1);
                lemma_spans_from_highlight(next, k + 1, sel);
                let tail = spans_from(next, k + 1, sel);
                let word: Seq<(Seq<char>, bool)> = seq![(after.take(c), k == sel)];
                let all = spans_from(rem, k, sel);
                assert(all == before + word + tail);
                assert forall|i: int| 0 <= i < before.len() implies !(#[trigger] before[i]).1 by {}
                if k == sel {
                    assert(forall|i: int| 0 <= i < tail.len() ==> !(#[trigger] tail[i]).1);
                }
                assert forall|i: int, j: int|
                    0 <= i < j < all.len() implies !((#[trigger] all[i]).1 && (#[trigger] all[j]).1) by {
                    let b = before.len() as int;
                    if j < b {
                        assert(!all[j].1);
                    } else if j == b {
                        assert(!all[i].1);
                    } else if i < b {
                        assert(!all[i].1);
                    } else if i == b {
                        if k == sel {
                            assert(!tail[j - b - 1].1);
                        }
                    } else {
                        assert(all[i] == tail[i - b - 1]);
                        assert(all[j] == tail[j - b - 1]);
                    }
                }
                if sel < k {
                    assert forall|i: int| 0 <= i < all.len() implies !(#[trigger] all[i]).1 by {
                        let b = before.len() as int;
                        if i > b {
                            assert(all[i] == tail[i - b - 1]);
                        }
                    }
                }
            },
        }
    }
}

/// The browser highlights at most one word of a sentence: no two spans of a
/// sentence are both highlighted.
pub proof fn lemma_at_most_one_highlighted(s: Seq<char>, sel: int)
    ensures
        forall|i: int, j: int|
            0 <= i < j < sentence_spans_spec(s, sel).len() ==> !((#[trigger] sentence_spans_spec(s, sel)[i]).1
                && (#[trigger] sentence_spans_spec(s, sel)[j]).1),
{
    lemma_spans_from_highlight(s, 0, sel);
}

/// A text without the mark `｛` is shown as one plain span (none when
/// empty); a text made of a plain part without `｛`, then `｛`, a word without
/// `｝`, `｝` and a remainder, is shown as the plain part (when not empty),
/// the word, highlighted exactly when its number is the selected one, and
/// then the remainder, whose words are numbered from the next number.
pub proof fn lemma_spans_by_layout(a: Seq<char>, w: Seq<char>, b: Seq<char>, k: int, sel: int)
    requires
        forall|i: int| 0 <= i < a.len() ==> a[i] != open_mark(),
        forall|i: int| 0 <= i < w.len() ==> w[i] != close_mark(),
    ensures
        spans_from(a, k, sel) == (if a.len() > 0 {
            seq![(a, false)]
        } else {
            Seq::<(Seq<char>, bool)>::empty()
        }),
        spans_from(a + seq![open_mark()] + w + seq![close_mark()] + b, k, sel) == (if a.len() > 0 {
            seq![(a, false)]
        } else {
            Seq::<(Seq<char>, bool)>::empty()
        }) + seq![(w, k == sel)] + spans_from(b, k + 1, sel),
{
    lemma_find_char(a, open_mark());
    let s = a + seq![open_mark()] + w + seq![close_mark()] + b;
    assert(is_first_place(s, open_mark(), a.len() as int));
    lemma_find_char_is(s, open_mark(), a.len() as int);
    let after = s.skip(a.len() as int + 1);
    assert(after =~= w + seq![close_mark()] + b);
    assert(is_first_place(after, close_mark(), w.len() as int));
    lemma_find_char_is(after, close_mark(), w.len() as int);
    assert(s.take(a.len() as int) =~= a);
    assert(after.take(w.len() as int) =~= w);
    assert(after.skip(w.len() as int + 1) =~= b);
}

/// Cutting at `c`: a text without `c` is one piece, and a text made of a
/// piece without `c`, then `c`, then a remainder, is that piece followed by
/// the pieces of the remainder.
pub proof fn lemma_split_by_layout(a: Seq<char>, b: Seq<char>, c: char)
    requires
        forall|i: int| 0 <= i < a.len() ==> a[i] != c,
    ensures
        split_on(a, c) == seq![a],
        split_on(a + seq![c] + b, c) == seq![a] + split_on(b, c),
{
    lemma_find_char(a, c);
    let s = a + seq![c] + b;
    assert(is_first_place(s, c, a.len() as int));
    lemma_find_char_is(s, c, a.len() as int);
    assert(s.take(a.len() as int) =~= a);
    assert(s.skip(a.len() as int + 1) =~= b);
}

/// Collects the characters of `s` with `str::chars`.
#[verifier::external_body]
pub(crate) fn chars_of(s: &str) -> (r: Vec<char>)
    ensures
        r@ == s@,
{
    s.chars().collect()
}

/// Collects `cs` into a `String` with `Iterator::collect`.
#[verifier::external_body]
pub(crate) fn string_from_chars(cs: &[char]) -> (r: String)
    ensures
        r@ == cs@,
{
    cs.iter().collect()
}

/// The text of `chars[a..b]`.
fn text_between(chars: &Vec<char>, a: usize, b: usize) -> (r: String)
    requires
        a <= b <= chars.len(),
    ensures
        r@ == chars@.subrange(a as int, b as int),
{
    string_from_chars(slice_subrange(chars.as_slice(), a, b))
}

/// The first place of `c` in `chars` at or after `pos`.
pub fn find_from(chars: &Vec<char>, pos: usize, c: char) -> (r: Option<usize>)
    requires
        pos <= chars.len(),
    ensures
        match r {
            Some(i) => pos <= i < chars.len() && find_char(chars@.skip(pos as int), c) == Some(
                i - pos,
            ),
            None => find_char(chars@.skip(pos as int), c) is None,
        },
{
    let ghost rest = chars@.skip(pos as int);
    let mut i = pos;
    while i < chars.len()
        invariant
            pos <= i <= chars.len(),
            rest == chars@.skip(pos as int),
            forall|j: int| pos <= j < i ==> chars@[j] != c,
        decreases chars.len() - i,
    {
        if chars[i] == c {
            proof {
                assert forall|j: int| 0 <= j < i - pos implies rest[j] != c by {
                    assert(rest[j] == chars@[pos + j]);
                }
                lemma_find_char_is(rest, c, i - pos);
            }
            return Some(i);
        }
        i = i + 1;
    }
    proof {
        lemma_find_char(rest, c);
        if find_char(rest, c) is Some {
            let j = find_char(rest, c)->0;
            assert(rest[j] == chars@[pos + j]);
        }
    }
    None
}

/// Cuts a sentence into the spans in which it is shown: plain text, and the
/// words between `｛` and `｝`, the word numbered `selected_index` (from 0)
/// highlighted.
pub fn sentence_spans(sentence: &str, selected_index: i32) -> (r: Vec<Span>)
    ensures
        r@.map_values(|sp: Span| sp@) == sentence_spans_spec(sentence@, selected_index as int),
{
    let chars = chars_of(sentence);
    let n = chars.len();
    let ghost s = chars@;
    let ghost sel = selected_index as int;
    let mut out: Vec<Span> = Vec::new();
    let mut pos: usize = 0;
    let mut k: usize = 0;
    assert(s.skip(0) =~= s);
    assert(out@.map_values(|sp: Span| sp@) =~= Seq::<(Seq<char>, bool)>::empty());
    loop
        invariant
            n == chars.len(),
            s == chars@,
            s == sentence@,
            sel == selected_index as int,
            pos <= n,
            k <= pos,
            spans_from(s, 0, sel) == out@.map_values(|sp: Span| sp@) + spans_from(s.skip(pos as int), k as int, sel),
        decreases n - pos,
    {
        let ghost rem = s.skip(pos as int);
        let ghost before = out@.map_values(|sp: Span| sp@);
        match find_from(&chars, pos, '｛') {
            None => {
                assert(find_char(rem, open_mark()) is None);
                if pos < n {
                    assert(spans_from(rem, k as int, sel) == seq![(rem, false)]);
                    let t = text_between(&chars, pos, n);
                    assert(t@ =~= rem);
                    out.push(Span { text: t, highlighted: false });
                    assert(out@.map_values(|sp: Span| sp@) =~= before + seq![(rem, false)]);
                } else {
                    assert(rem.len() == 0);
                    assert(spans_from(rem, k as int, sel) == Seq::<(Seq<char>, bool)>::empty());
                    assert(out@.map_values(|sp: Span| sp@) =~= before + Seq::<(Seq<char>, bool)>::empty());
                }
                return out;
            },
            Some(o) => {
                let ghost oo = (o - pos) as int;
                let ghost pre: Seq<(Seq<char>, bool)> = if oo > 0 {
                    seq![(rem.take(oo), false)]
                } else {
                    seq![]
                };
                if o > pos {
                    let t = text_between(&chars, pos, o);
                    assert(t@ =~= rem.take(oo));
                    out.push(Span { text: t, highlighted: false });
                    assert(out@.map_values(|sp: Span| sp@) =~= before + pre);
                } else {
                    assert(out@.map_values(|sp: Span| sp@) =~= before + pre);
                }
                let a = o + 1;
                let ghost after = rem.skip(oo + 1);
                assert(after =~= s.skip(a as int));
                let ghost mid = out@.map_values(|sp: Span| sp@);
                match find_from(&chars, a, '｝') {
                    None => {
                        assert(spans_from(rem, k as int, sel) == pre + spans_from(after, k as int, sel));
                        assert(before + (pre + spans_from(after, k as int, sel)) =~= mid + spans_from(after, k as int, sel));
                        pos = a;
                    },
                    Some(c) => {
                        let ghost cc = (c - a) as int;
                        let highlighted = if selected_index >= 0 {
                            let target = selected_index as usize;
                            assert(target as int == sel);
                            k == target
                        } else {
                            false
                        };
                        assert(highlighted == (k as int == sel));
                        let t = text_between(&chars, a, c);
                        assert(t@ =~= after.take(cc));
                        out.push(Span { text: t, highlighted });
                        let ghost word: Seq<(Seq<char>, bool)> = seq![(after.take(cc), k as int == sel)];
                        assert(out@.map_values(|sp: Span| sp@) =~= mid + word);
                        assert(after.skip(cc + 1) =~= s.skip(c + 1));
                        assert(spans_from(rem, k as int, sel) == pre + word + spans_from(after.skip(cc + 1), k + 1, sel));
                        assert(before + (pre + word + spans_from(after.skip(cc + 1), k + 1, sel)) =~= mid + word + spans_from(after.skip(cc + 1), k + 1, sel));
                        pos = c + 1;
                        k = k + 1;
                    },
                }
            },
        }
    }
}

/// The pieces of `s` between the occurrences of `c`, as `str::split` gives
/// them: empty pieces included, one piece when `c` does not occur.
pub open spec fn split_on(s: Seq<char>, c: char) -> Seq<Seq<char>>
    decreases s.len(),
{
    match find_char(s, c) {
        None => seq![s],
        Some(i) => {
            proof {
                lemma_find_char(s, c);
            }
            seq![s.take(i)] + split_on(s.skip(i + 1), c)
        },
    }
}

/// The choices of a choice question: its answer choices text cut at each
/// space, or `None` for a question without choices (empty text).
pub open spec fn choice_options_spec(answer_choices: Seq<char>) -> Option<Seq<Seq<char>>> {
    if answer_choices.len() == 0 {
        None
    } else {
        Some(split_on(answer_choices, ' '))
    }
}

/// The texts of `list` joined, `sep` between each two.
pub open spec fn join_texts(list: Seq<Seq<char>>, sep: Seq<char>) -> Seq<char>
    decreases list.len(),
{
    if list.len() == 0 {
        seq![]
    } else if list.len() == 1 {
        list[0]
    } else {
        join_texts(list.drop_last(), sep) + sep + list.last()
    }
}

/// Joining puts the separator between every two consecutive texts and
/// nowhere else: no texts give the empty text, one text gives itself, and
/// adding a text to a nonempty list adds the separator and the text to the
/// end of the joined text.
pub proof fn lemma_join_texts_laws(list: Seq<Seq<char>>, x: Seq<char>, sep: Seq<char>)
    ensures
        join_texts(Seq::<Seq<char>>::empty(), sep) == Seq::<char>::empty(),
        join_texts(seq![x], sep) == x,
        list.len() >= 1 ==> join_texts(list.push(x), sep) == join_texts(list, sep) + sep + x,
{
    assert(list.push(x).drop_last() =~= list);
    assert(seq![x][0] == x);
}

/// The separator between correct answers, `、`.
pub open spec fn answer_separator() -> Seq<char> {
    "、"@
}

/// The choices of a choice question, or `None` when it has none.
pub fn choice_options(answer_choices: &str) -> (r: Option<Vec<String>>)
    ensures
        match choice_options_spec(answer_choices@) {
            Some(pieces) => r matches Some(v) && v.deep_view() == pieces,
            None => r is None,
        },
{
    let chars = chars_of(answer_choices);
    let n = chars.len();
    if n == 0 {
        return None;
    }
    let ghost s = chars@;
    let mut out: Vec<String> = Vec::new();
    let mut pos: usize = 0;
    assert(s.skip(0) =~= s);
    assert(out.deep_view() =~= Seq::<Seq<char>>::empty());
    loop
        invariant
            n == chars.len(),
            s == chars@,
            s == answer_choices@,
            s.len() > 0,
            pos <= n,
            split_on(s, ' ') == out.deep_view() + split_on(s.skip(pos as int), ' '),
        decreases n - pos,
    {
        let ghost rem = s.skip(pos as int);
        let ghost before = out.deep_view();
        match find_from(&chars, pos, ' ') {
            None => {
                let t = text_between(&chars, pos, n);
                assert(t@ =~= rem);
                assert(split_on(rem, ' ') == seq![rem]);
                out.push(t);
                assert(out.deep_view() =~= before + seq![rem]);
                return Some(out);
            },
            Some(i) => {
                let ghost ii = (i - pos) as int;
                let t = text_between(&chars, pos, i);
                assert(t@ =~= rem.take(ii));
                out.push(t);
                assert(out.deep_view() =~= before + seq![rem.take(ii)]);
                assert(rem.skip(ii + 1) =~= s.skip(i + 1));
                assert(before + (seq![rem.take(ii)] + split_on(rem.skip(ii + 1), ' ')) =~= out.deep_view()
                    + split_on(rem.skip(ii + 1), ' '));
                pos = i + 1;
            },
        }
    }
}

/// The correct answers of a question, joined with `、`.
pub fn answers_text(list: &Vec<String>) -> (r: String)
    ensures
        r@ == join_texts(list.deep_view(), answer_separator()),
{
    let ghost all = list.deep_view();
    let mut out = String::new();
    let mut i: usize = 0;
    while i < list.len()
        invariant
            i <= list.len(),
            all == list.deep_view(),
            out@ == join_texts(all.take(i as int), answer_separator()),
        decreases list.len() - i,
    {
        assert(all.take(i + 1).drop_last() =~= all.take(i as int));
        assert(all.take(i + 1).last() == list@[i as int]@);
        if i > 0 {
            out.append("、");
        } else {
            assert(join_texts(all.take(0), answer_separator()) =~= Seq::<char>::empty());
            assert(all.take(1)[0] == list@[0]@);
        }
        out.append(list[i].as_str());
        i = i + 1;
    }
    assert(all.take(list.len() as int) =~= all);
    out
}

impl AllocationScore {
    /// How many points a question is worth, as shown: `1点` or `2点`.
    pub fn label(&self) -> (s: &'static str)
        ensures
            s@ == (match self {
                AllocationScore::OnePoint => "1点"@,
                AllocationScore::TwoPoints => "2点"@,
            }),
    {
        match self {
            AllocationScore::OnePoint => "1点",
            AllocationScore::TwoPoints => "2点",
        }
    }
}

impl AnswerType {
    /// How a question is answered, as shown: `手書き` (by hand), `数字`
    /// (number) or `選択` (choice).
    pub fn label(&self) -> (s: &'static str)
        ensures
            s@ == (match self {
                AnswerType::Handwriting => "手書き"@,
                AnswerType::Number => "数字"@,
                AnswerType::Choice => "選択"@,
            }),
    {
        match self {
            AnswerType::Handwriting => "手書き",
            AnswerType::Number => "数字",
            AnswerType::Choice => "選択",
        }
    }
}

} // verus!
