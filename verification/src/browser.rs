use vstd::prelude::*;
use crate::kyu::Kyu;
use crate::types::{QuestionField, QuestionFieldView};

verus! {

/* The state of the question browser: the joined fields, the grade and
   field (mode) that are shown, and the question shown in that field. */

/// What the user asks of the browser.
#[derive(Debug, Clone)]
pub enum Message {
    SelectKyu(Kyu),
    SelectMode(String),
    NextQuestion,
    PrevQuestion,
}

pub enum MessageView {
    SelectKyu(Kyu),
    SelectMode(Seq<char>),
    NextQuestion,
    PrevQuestion,
}

impl View for Message {
    type V = MessageView;

    open spec fn view(&self) -> MessageView {
        match self {
            Message::SelectKyu(k) => MessageView::SelectKyu(*k),
            Message::SelectMode(m) => MessageView::SelectMode(m@),
            Message::NextQuestion => MessageView::NextQuestion,
            Message::PrevQuestion => MessageView::PrevQuestion,
        }
    }
}

/// The browser's state.
#[derive(Debug)]
pub struct KankenBrowser {
    pub questions: Vec<QuestionField>,
    pub selected_kyu: Kyu,
    pub selected_mode: String,
    pub current_question_index: usize,
}

pub struct KankenBrowserView {
    pub questions: Seq<QuestionFieldView>,
    pub selected_kyu: Kyu,
    pub selected_mode: Seq<char>,
    pub current_question_index: nat,
}

impl View for KankenBrowser {
    type V = KankenBrowserView;

    open spec fn view(&self) -> KankenBrowserView {
        KankenBrowserView {
            questions: self.questions@.map_values(|f: QuestionField| f@),
            selected_kyu: self.selected_kyu,
            selected_mode: self.selected_mode@,
            current_question_index: self.current_question_index as nat,
        }
    }
}

/// The mode shown when a grade has no field: `読み` (reading).
pub open spec fn fallback_mode() -> Seq<char> {
    "読み"@
}

/// Field `f` is of grade `k`, and, when `mode` is given, is named `mode`.
pub open spec fn field_matches(f: QuestionFieldView, k: Kyu, mode: Option<Seq<char>>) -> bool {
    &&& f.field_info.level == k
    &&& mode matches Some(m) ==> f.field_info.name == m
}

/// `i` is the first field of `qs` that matches.
pub open spec fn is_first_match(qs: Seq<QuestionFieldView>, k: Kyu, mode: Option<Seq<char>>, i: int) -> bool {
    &&& 0 <= i < qs.len()
    &&& field_matches(qs[i], k, mode)
    &&& forall|j: int| 0 <= j < i ==> !field_matches(#[trigger] qs[j], k, mode)
}

pub open spec fn has_match(qs: Seq<QuestionFieldView>, k: Kyu, mode: Option<Seq<char>>) -> bool {
    exists|i: int| 0 <= i < qs.len() && field_matches(#[trigger] qs[i], k, mode)
}

/// The first field of `qs` that matches, if any.
pub open spec fn first_match(qs: Seq<QuestionFieldView>, k: Kyu, mode: Option<Seq<char>>) -> Option<int> {
    if has_match(qs, k, mode) {
        Some(choose|i: int| is_first_match(qs, k, mode, i))
    } else {
        None
    }
}

/// The mode shown after grade `k` is selected: the name of the first field
/// of that grade, or the fallback.
pub open spec fn mode_for_kyu(qs: Seq<QuestionFieldView>, k: Kyu) -> Seq<char> {
    match first_match(qs, k, None) {
        Some(i) => qs[i].field_info.name,
        None => fallback_mode(),
    }
}

/// The number of questions of the field that state `s` shows: the first
/// field of the selected grade and mode, or none.
pub open spec fn current_len(s: KankenBrowserView) -> int {
    match first_match(s.questions, s.selected_kyu, Some(s.selected_mode)) {
        Some(i) => s.questions[i].items.len() as int,
        None => 0,
    }
}

/// The state after message `m` in state `s`.
pub open spec fn next_state(s: KankenBrowserView, m: MessageView) -> KankenBrowserView {
    match m {
        MessageView::SelectKyu(k) => KankenBrowserView {
            selected_kyu: k,
            selected_mode: mode_for_kyu(s.questions, k),
            current_question_index: 0,
            ..s
        },
        MessageView::SelectMode(mode) => KankenBrowserView {
            selected_mode: mode,
            current_question_index: 0,
            ..s
        },
        MessageView::NextQuestion => if s.current_question_index + 1 < current_len(s) {
            KankenBrowserView { current_question_index: s.current_question_index + 1, ..s }
        } else {
            s
        },
        MessageView::PrevQuestion => if s.current_question_index > 0 {
            KankenBrowserView { current_question_index: (s.current_question_index - 1) as nat, ..s }
        } else {
            s
        },
    }
}

/// The shown question is one of the shown field, or the first place when
/// the field is empty or missing.
pub open spec fn index_in_field(s: KankenBrowserView) -> bool {
    s.current_question_index == 0 || s.current_question_index < current_len(s)
}

proof fn lemma_first_match_is_first(qs: Seq<QuestionFieldView>, k: Kyu, mode: Option<Seq<char>>, i: int)
    requires
        is_first_match(qs, k, mode, i),
    ensures
        first_match(qs, k, mode) == Some(i),
{
    let j = choose|j: int| is_first_match(qs, k, mode, j);
    assert(is_first_match(qs, k, mode, j));
    if j < i {
        assert(!field_matches(qs[j], k, mode));
    }
    if i < j {
        assert(!field_matches(qs[i], k, mode));
    }
}

proof fn lemma_first_below(qs: Seq<QuestionFieldView>, k: Kyu, mode: Option<Seq<char>>, w: int)
    requires
        0 <= w < qs.len(),
        field_matches(qs[w], k, mode),
    ensures
        exists|i: int| is_first_match(qs, k, mode, i),
    decreases w,
{
    if forall|j: int| 0 <= j < w ==> !field_matches(#[trigger] qs[j], k, mode) {
        assert(is_first_match(qs, k, mode, w));
    } else {
        let j = choose|j: int| 0 <= j < w && field_matches(#[trigger] qs[j], k, mode);
        lemma_first_below(qs, k, mode, j);
    }
}

/// The first match exists whenever some field matches.
proof fn lemma_first_match_spec(qs: Seq<QuestionFieldView>, k: Kyu, mode: Option<Seq<char>>)
    ensures
        first_match(qs, k, mode) matches Some(i) ==> is_first_match(qs, k, mode, i),
        first_match(qs, k, mode) is None ==> forall|j: int|
            0 <= j < qs.len() ==> !field_matches(#[trigger] qs[j], k, mode),
{
    if has_match(qs, k, mode) {
        let w = choose|i: int| 0 <= i < qs.len() && field_matches(#[trigger] qs[i], k, mode);
        lemma_first_below(qs, k, mode, w);
    }
}

/// The first field of `questions` of grade `k` and, when `mode` is given,
/// named `mode`.
pub fn find_field(questions: &Vec<QuestionField>, k: Kyu, mode: Option<&String>) -> (r: Option<usize>)
    ensures
        ({
            let qs = questions@.map_values(|f: QuestionField| f@);
            let m = match mode {
                Some(s) => Some(s@),
                None => None,
            };
            match r {
                Some(i) => i < questions.len() && first_match(qs, k, m) == Some(i as int),
                None => first_match(qs, k, m) is None,
            }
        }),
{
    let ghost qs = questions@.map_values(|f: QuestionField| f@);
    let ghost m = match mode {
        Some(s) => Some(s@),
        None => None,
    };
    proof {
        lemma_first_match_spec(qs, k, m);
    }
    let mut i: usize = 0;
    while i < questions.len()
        invariant
            i <= questions.len(),
            qs == questions@.map_values(|f: QuestionField| f@),
            m == (match mode {
                Some(s) => Some(s@),
                None => None,
            }),
            forall|j: int| 0 <= j < i ==> !field_matches(#[trigger] qs[j], k, m),
        decreases questions.len() - i,
    {
        let f = &questions[i];
        assert(qs[i as int] == f@);
        let found = f.field_info.level == k && match mode {
            Some(name) => f.field_info.name == *name,
            None => true,
        };
        if found {
            proof {
                lemma_first_match_is_first(qs, k, m, i as int);
            }
            return Some(i);
        }
        i = i + 1;
    }
    assert(!has_match(qs, k, m));
    None
}

impl KankenBrowser {
    /// The name of the first field of grade `k`, or `読み`.
    pub fn mode_for(questions: &Vec<QuestionField>, k: Kyu) -> (m: String)
        ensures
            m@ == mode_for_kyu(questions@.map_values(|f: QuestionField| f@), k),
    {
        match find_field(questions, k, None) {
            Some(i) => questions[i].field_info.name.clone(),
            None => "読み".to_string(),
        }
    }

    /// The browser on `questions`, showing the first question of the first
    /// field of grade 10.
    pub fn new(questions: Vec<QuestionField>) -> (b: KankenBrowser)
        ensures
            b@.questions == questions@.map_values(|f: QuestionField| f@),
            b@.selected_kyu == Kyu::Kyu10,
            b@.selected_mode == mode_for_kyu(b@.questions, Kyu::Kyu10),
            b@.current_question_index == 0,
            index_in_field(b@),
    {
        let selected_kyu = Kyu::Kyu10;
        let selected_mode = KankenBrowser::mode_for(&questions, selected_kyu);
        KankenBrowser { questions, selected_kyu, selected_mode, current_question_index: 0 }
    }

    /// The field shown, if there is one.
    pub fn current_field(&self) -> (r: Option<&QuestionField>)
        ensures
            match first_match(self@.questions, self.selected_kyu, Some(self.selected_mode@)) {
                Some(i) => r matches Some(f) && f@ == self@.questions[i],
                None => r is None,
            },
    {
        match find_field(&self.questions, self.selected_kyu, Some(&self.selected_mode)) {
            Some(i) => Some(&self.questions[i]),
            None => None,
        }
    }

    /// The number of questions of the field shown, or 0 when there is none.
    pub fn current_len(&self) -> (n: usize)
        ensures
            n == current_len(self@),
    {
        match self.current_field() {
            Some(f) => f.items.len(),
            None => 0,
        }
    }

    /// Applies `msg`: selecting a grade shows its first field, selecting a
    /// mode shows that field, and both go back to the first question; the
    /// next and previous questions stay within the field.
    pub fn update(&mut self, msg: Message)
        requires
            old(self).current_question_index < usize::MAX,
        ensures
            final(self)@ == next_state(old(self)@, msg@),
    {
        match msg {
            Message::SelectKyu(kyu) => {
                self.selected_kyu = kyu;
                self.selected_mode = KankenBrowser::mode_for(&self.questions, kyu);
                self.current_question_index = 0;
            },
            Message::SelectMode(mode) => {
                self.selected_mode = mode;
                self.current_question_index = 0;
            },
            Message::NextQuestion => {
                let len = self.current_len();
                if self.current_question_index + 1 < len {
                    self.current_question_index += 1;
                }
            },
            Message::PrevQuestion => {
                if self.current_question_index > 0 {
                    self.current_question_index -= 1;
                }
            },
        }
    }
}

/// The names of the fields of grade `k`, in order.
pub open spec fn modes_of(qs: Seq<QuestionFieldView>, k: Kyu) -> Seq<Seq<char>>
    decreases qs.len(),
{
    if qs.len() == 0 {
        seq![]
    } else if qs.last().field_info.level == k {
        modes_of(qs.drop_last(), k).push(qs.last().field_info.name)
    } else {
        modes_of(qs.drop_last(), k)
    }
}

impl KankenBrowser {
    /// The names of the fields of the selected grade, in order: the modes
    /// that can be selected.
    pub fn modes(&self) -> (r: Vec<String>)
        ensures
            r.deep_view() == modes_of(self@.questions, self.selected_kyu),
    {
        let ghost qs = self@.questions;
        let mut out: Vec<String> = Vec::new();
        let mut i: usize = 0;
        while i < self.questions.len()
            invariant
                i <= self.questions.len(),
                qs == self.questions@.map_values(|f: QuestionField| f@),
                out.deep_view() == modes_of(qs.take(i as int), self.selected_kyu),
            decreases self.questions.len() - i,
        {
            assert(qs.take(i + 1).drop_last() =~= qs.take(i as int));
            assert(qs.take(i + 1).last() == self.questions@[i as int]@);
            if self.questions[i].field_info.level == self.selected_kyu {
                let ghost before = out.deep_view();
                out.push(self.questions[i].field_info.name.clone());
                assert(out.deep_view() =~= before.push(self.questions@[i as int].field_info.name@));
            }
            i = i + 1;
        }
        assert(qs.take(self.questions.len() as int) =~= qs);
        out
    }
}

/// Selecting grade `k` shows grade `k` from its first question, in the mode
/// named after the first field (the one with the lowest index) of grade `k`,
/// or in `読み` when no field has grade `k`; the fields are unchanged.
pub proof fn lemma_select_kyu_shows_first_field(s: KankenBrowserView, k: Kyu)
    ensures
        ({
            let t = next_state(s, MessageView::SelectKyu(k));
            &&& t.selected_kyu == k
            &&& t.current_question_index == 0
            &&& t.questions == s.questions
            &&& forall|i: int| is_first_match(s.questions, k, None, i) ==> t.selected_mode == #[trigger] s.questions[i].field_info.name
            &&& (forall|j: int| 0 <= j < s.questions.len() ==> #[trigger] s.questions[j].field_info.level != k)
                ==> t.selected_mode == "読み"@
        }),
{
    let qs = s.questions;
    lemma_first_match_spec(qs, k, None);
    assert forall|i: int| is_first_match(qs, k, None, i) implies next_state(s, MessageView::SelectKyu(k)).selected_mode
        == #[trigger] qs[i].field_info.name by {
        lemma_first_match_is_first(qs, k, None, i);
    }
    if forall|j: int| 0 <= j < qs.len() ==> #[trigger] qs[j].field_info.level != k {
        if first_match(qs, k, None) is Some {
            let i = first_match(qs, k, None)->0;
            assert(qs[i].field_info.level != k);
        }
    }
}

/// Stepping moves by one question within the shown field and changes nothing
/// else: the next question is shown when the field has one after the
/// current, the previous one when the current is not the first; otherwise
/// the state stays. Selecting a mode shows its first question, in the same
/// grade.
pub proof fn lemma_steps_move_by_one(s: KankenBrowserView, mode: Seq<char>)
    ensures
        ({
            let n = next_state(s, MessageView::NextQuestion);
            &&& n.questions == s.questions && n.selected_kyu == s.selected_kyu && n.selected_mode == s.selected_mode
            &&& s.current_question_index + 1 < current_len(s) ==> n.current_question_index == s.current_question_index + 1
            &&& s.current_question_index + 1 >= current_len(s) ==> n.current_question_index == s.current_question_index
        }),
        ({
            let p = next_state(s, MessageView::PrevQuestion);
            &&& p.questions == s.questions && p.selected_kyu == s.selected_kyu && p.selected_mode == s.selected_mode
            &&& s.current_question_index > 0 ==> p.current_question_index + 1 == s.current_question_index
            &&& s.current_question_index == 0 ==> p.current_question_index == 0
        }),
        ({
            let m = next_state(s, MessageView::SelectMode(mode));
            &&& m.questions == s.questions && m.selected_kyu == s.selected_kyu
            &&& m.selected_mode == mode && m.current_question_index == 0
        }),
{
}

/// The number of questions shown is that of the first field (lowest index)
/// of the selected grade and mode, or 0 when there is no such field.
pub proof fn lemma_current_len_is_first_field(s: KankenBrowserView)
    ensures
        forall|i: int| is_first_match(s.questions, s.selected_kyu, Some(s.selected_mode), i)
            ==> current_len(s) == (#[trigger] s.questions[i]).items.len(),
        (forall|j: int| 0 <= j < s.questions.len() ==> !field_matches(#[trigger] s.questions[j], s.selected_kyu, Some(s.selected_mode)))
            ==> current_len(s) == 0,
{
    let qs = s.questions;
    let m = Some(s.selected_mode);
    lemma_first_match_spec(qs, s.selected_kyu, m);
    assert forall|i: int| is_first_match(qs, s.selected_kyu, m, i) implies current_len(s) == (#[trigger] qs[i]).items.len() by {
        lemma_first_match_is_first(qs, s.selected_kyu, m, i);
    }
    if forall|j: int| 0 <= j < qs.len() ==> !field_matches(#[trigger] qs[j], s.selected_kyu, m) {
        if first_match(qs, s.selected_kyu, m) is Some {
            let i = first_match(qs, s.selected_kyu, m)->0;
            assert(field_matches(qs[i], s.selected_kyu, m));
        }
    }
}

/// The mode shown after selecting a grade is the first of the modes listed
/// for that grade: the modes of a grade are listed exactly when some field
/// has that grade, and the first one listed is the name of its first field.
pub proof fn lemma_selected_mode_is_first_listed(qs: Seq<QuestionFieldView>, k: Kyu)
    ensures
        modes_of(qs, k).len() > 0 <==> has_match(qs, k, None),
        modes_of(qs, k).len() > 0 ==> mode_for_kyu(qs, k) == modes_of(qs, k)[0],
        modes_of(qs, k).len() == 0 ==> mode_for_kyu(qs, k) == fallback_mode(),
    decreases qs.len(),
{
    lemma_first_match_spec(qs, k, None);
    if qs.len() > 0 {
        let init = qs.drop_last();
        lemma_selected_mode_is_first_listed(init, k);
        lemma_first_match_spec(init, k, None);
        let n = qs.len() - 1;
        if has_match(init, k, None) {
            let i = first_match(init, k, None)->0;
            assert(is_first_match(init, k, None, i));
            assert forall|j: int| 0 <= j < i implies !field_matches(#[trigger] qs[j], k, None) by {
                assert(qs[j] == init[j]);
            }
            assert(init[i] == qs[i]);
            assert(is_first_match(qs, k, None, i));
            lemma_first_match_is_first(qs, k, None, i);
            assert(has_match(qs, k, None));
        } else {
            assert forall|j: int| 0 <= j < n implies !field_matches(#[trigger] qs[j], k, None) by {
                assert(qs[j] == init[j]);
                assert(!field_matches(init[j], k, None));
            }
            if qs[n].field_info.level == k {
                assert(is_first_match(qs, k, None, n));
                lemma_first_match_is_first(qs, k, None, n);
                assert(has_match(qs, k, None));
            } else {
                assert forall|j: int| 0 <= j < qs.len() implies !field_matches(#[trigger] qs[j], k, None) by {}
                assert(!has_match(qs, k, None));
            }
        }
    } else {
        assert(!has_match(qs, k, None));
    }
}

/// Every message keeps the shown question within the shown field.
pub proof fn lemma_update_keeps_index_in_field(s: KankenBrowserView, m: MessageView)
    requires
        index_in_field(s),
    ensures
        index_in_field(next_state(s, m)),
{
}

/// Going to the next question and back returns to the same state, when there
/// is a next question.
pub proof fn lemma_prev_undoes_next(s: KankenBrowserView)
    requires
        s.current_question_index + 1 < current_len(s),
    ensures
        next_state(next_state(s, MessageView::NextQuestion), MessageView::PrevQuestion) == s,
{
}

/// Going to the previous question and forward returns to the same state,
/// when the shown question is within its field and is not the first.
pub proof fn lemma_next_undoes_prev(s: KankenBrowserView)
    requires
        index_in_field(s),
        s.current_question_index > 0,
    ensures
        next_state(next_state(s, MessageView::PrevQuestion), MessageView::NextQuestion) == s,
{
}

} // verus!
