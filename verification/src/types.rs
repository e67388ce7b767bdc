use vstd::prelude::*;
use crate::kyu::Kyu;

verus! {

/// How a question is answered.
#[derive(Debug, Clone, Copy, PartialEq, Eq, Structural)]
pub enum AnswerType {
    /// Written by hand (stored as 1).
    Handwriting,
    /// A number, such as a stroke count or stroke order (stored as 2).
    Number,
    /// Picked among choices (stored as 3).
    Choice,
}

/// Points that one question of a field is worth.
#[derive(Debug, Clone, Copy, PartialEq, Eq, Structural)]
pub enum AllocationScore {
    /// Stored as 1.
    OnePoint,
    /// Stored as 2.
    TwoPoints,
}

/// Which dictionary the application shows beside a question.
#[derive(Debug, Clone, Copy, PartialEq, Eq, Structural)]
pub enum DispDictionaryType {
    /// Stored as 0.
    NoDictionary,
    /// Stored as 1.
    Kanji,
    /// Stored as 2.
    Yojijukugo,
    /// Stored as 3.
    YojijukugoMeaning,
}

/// The answer type stored as `v`, if any.
pub open spec fn answer_type_from_code(v: i32) -> Option<AnswerType> {
    if v == 1 {
        Some(AnswerType::Handwriting)
    } else if v == 2 {
        Some(AnswerType::Number)
    } else if v == 3 {
        Some(AnswerType::Choice)
    } else {
        None
    }
}

/// The dictionary type stored as `v`, if any.
pub open spec fn disp_dictionary_type_from_code(v: i32) -> Option<DispDictionaryType> {
    if v == 0 {
        Some(DispDictionaryType::NoDictionary)
    } else if v == 1 {
        Some(DispDictionaryType::Kanji)
    } else if v == 2 {
        Some(DispDictionaryType::Yojijukugo)
    } else if v == 3 {
        Some(DispDictionaryType::YojijukugoMeaning)
    } else {
        None
    }
}

/// The allocation score stored as `v`, if any.
pub open spec fn allocation_score_from_code(v: i32) -> Option<AllocationScore> {
    if v == 1 {
        Some(AllocationScore::OnePoint)
    } else if v == 2 {
        Some(AllocationScore::TwoPoints)
    } else {
        None
    }
}

/// The code under which an answer type is stored: 1 handwriting, 2 number,
/// 3 choice.
pub open spec fn answer_type_code(t: AnswerType) -> i32 {
    match t {
        AnswerType::Handwriting => 1,
        AnswerType::Number => 2,
        AnswerType::Choice => 3,
    }
}

/// The code under which a dictionary type is stored: 0 none, 1 kanji,
/// 2 four-character idioms, 3 their meanings.
pub open spec fn disp_dictionary_type_code(t: DispDictionaryType) -> i32 {
    match t {
        DispDictionaryType::NoDictionary => 0,
        DispDictionaryType::Kanji => 1,
        DispDictionaryType::Yojijukugo => 2,
        DispDictionaryType::YojijukugoMeaning => 3,
    }
}

/// The code under which an allocation score is stored: its number of points.
pub open spec fn allocation_score_code(t: AllocationScore) -> i32 {
    match t {
        AllocationScore::OnePoint => 1,
        AllocationScore::TwoPoints => 2,
    }
}

/// A code decodes to an answer type exactly when it is the code stored for
/// that type, so each code means one type and each type has one code.
pub proof fn lemma_answer_type_codes(c: i32, t: AnswerType)
    ensures
        answer_type_from_code(c) == Some(t) <==> answer_type_code(t) == c,
        answer_type_from_code(c) is Some <==> 1 <= c <= 3,
{
}

/// A code decodes to a dictionary type exactly when it is the code stored
/// for that type.
pub proof fn lemma_disp_dictionary_type_codes(c: i32, t: DispDictionaryType)
    ensures
        disp_dictionary_type_from_code(c) == Some(t) <==> disp_dictionary_type_code(t) == c,
        disp_dictionary_type_from_code(c) is Some <==> 0 <= c <= 3,
{
}

/// A code decodes to an allocation score exactly when it is the score's
/// number of points.
pub proof fn lemma_allocation_score_codes(c: i32, t: AllocationScore)
    ensures
        allocation_score_from_code(c) == Some(t) <==> allocation_score_code(t) == c,
        allocation_score_from_code(c) is Some <==> 1 <= c <= 2,
{
}

/// One question as stored in a question file.
#[derive(Debug, Clone, PartialEq)]
pub struct QuestionItem {
    pub field_id: i32,
    pub question_id: i32,
    pub level: Kyu,
    pub year: i32,
    pub kind: i32,
    pub matter: String,
    pub format: String,
    pub large_part: i32,
    pub middle_part: i32,
    pub small_part: i32,
    pub sentence: String,
    pub answer_choices: String,
    pub correct_answer_list: Vec<String>,
    pub use_word_list: Vec<String>,
    pub selected_index: i32,
}

/// A question with its texts taken as character sequences.
pub struct QuestionItemView {
    pub field_id: i32,
    pub question_id: i32,
    pub level: Kyu,
    pub year: i32,
    pub kind: i32,
    pub matter: Seq<char>,
    pub format: Seq<char>,
    pub large_part: i32,
    pub middle_part: i32,
    pub small_part: i32,
    pub sentence: Seq<char>,
    pub answer_choices: Seq<char>,
    pub correct_answer_list: Seq<Seq<char>>,
    pub use_word_list: Seq<Seq<char>>,
    pub selected_index: i32,
}

impl View for QuestionItem {
    type V = QuestionItemView;

    open spec fn view(&self) -> QuestionItemView {
        QuestionItemView {
            field_id: self.field_id,
            question_id: self.question_id,
            level: self.level,
            year: self.year,
            kind: self.kind,
            matter: self.matter@,
            format: self.format@,
            large_part: self.large_part,
            middle_part: self.middle_part,
            small_part: self.small_part,
            sentence: self.sentence@,
            answer_choices: self.answer_choices@,
            correct_answer_list: self.correct_answer_list.deep_view(),
            use_word_list: self.use_word_list.deep_view(),
            selected_index: self.selected_index,
        }
    }
}

/// The content of a question file: the declared number of questions, the
/// questions, and the id of the field they belong to.
#[derive(Debug, PartialEq)]
pub struct QuestionFile {
    pub record_list_size: i32,
    pub items: Vec<QuestionItem>,
    pub field_id: i32,
}

/// A question file with its questions taken by their views.
pub struct QuestionFileView {
    pub record_list_size: i32,
    pub items: Seq<QuestionItemView>,
    pub field_id: i32,
}

impl View for QuestionFile {
    type V = QuestionFileView;

    open spec fn view(&self) -> QuestionFileView {
        QuestionFileView {
            record_list_size: self.record_list_size,
            items: self.items@.map_values(|q: QuestionItem| q@),
            field_id: self.field_id,
        }
    }
}

/// One row of the field master table: how the questions of a field are
/// presented and scored.
#[derive(Debug, Clone, PartialEq)]
pub struct FieldInfo {
    pub field_id: i32,
    pub level: Kyu,
    pub name: String,
    pub preamble: String,
    pub answer_type: AnswerType,
    pub answer_count: i32,
    pub correct_type: i32,
    pub disp_correct_answer_type: i32,
    pub disp_dictionary_type: DispDictionaryType,
    pub count_per_exam: i32,
    pub allocation_score: AllocationScore,
}

/// A master row with its texts taken as character sequences.
pub struct FieldInfoView {
    pub field_id: i32,
    pub level: Kyu,
    pub name: Seq<char>,
    pub preamble: Seq<char>,
    pub answer_type: AnswerType,
    pub answer_count: i32,
    pub correct_type: i32,
    pub disp_correct_answer_type: i32,
    pub disp_dictionary_type: DispDictionaryType,
    pub count_per_exam: i32,
    pub allocation_score: AllocationScore,
}

impl View for FieldInfo {
    type V = FieldInfoView;

    open spec fn view(&self) -> FieldInfoView {
        FieldInfoView {
            field_id: self.field_id,
            level: self.level,
            name: self.name@,
            preamble: self.preamble@,
            answer_type: self.answer_type,
            answer_count: self.answer_count,
            correct_type: self.correct_type,
            disp_correct_answer_type: self.disp_correct_answer_type,
            disp_dictionary_type: self.disp_dictionary_type,
            count_per_exam: self.count_per_exam,
            allocation_score: self.allocation_score,
        }
    }
}

/// A field: its master row and its questions.
#[derive(Debug, Clone, PartialEq)]
pub struct QuestionField {
    pub items: Vec<QuestionItem>,
    pub field_info: FieldInfo,
}

/// A field with its row and questions taken by their views.
pub struct QuestionFieldView {
    pub items: Seq<QuestionItemView>,
    pub field_info: FieldInfoView,
}

impl View for QuestionField {
    type V = QuestionFieldView;

    open spec fn view(&self) -> QuestionFieldView {
        QuestionFieldView {
            items: self.items@.map_values(|q: QuestionItem| q@),
            field_info: self.field_info@,
        }
    }
}

} // verus!
