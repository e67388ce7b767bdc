use parser::browser::{KankenBrowser, Message};
use parser::present::{answers_text, choice_options, sentence_spans, Span};
use parser::{AllocationScore, AnswerType, DispDictionaryType, FieldInfo, Kyu, QuestionField, QuestionItem};

fn item(sentence: &str) -> QuestionItem {
    QuestionItem {
        field_id: 0,
        question_id: 0,
        level: Kyu::Kyu10,
        year: 2020,
        kind: 0,
        matter: String::new(),
        format: String::new(),
        large_part: 0,
        middle_part: 0,
        small_part: 0,
        sentence: sentence.to_string(),
        answer_choices: String::new(),
        correct_answer_list: vec![],
        use_word_list: vec![],
        selected_index: 0,
    }
}

fn field(level: Kyu, name: &str, n: usize) -> QuestionField {
    QuestionField {
        items: (0..n).map(|i| item(&format!("q{}", i))).collect(),
        field_info: FieldInfo {
            field_id: 1,
            level,
            name: name.to_string(),
            preamble: String::new(),
            answer_type: AnswerType::Handwriting,
            answer_count: 1,
            correct_type: 0,
            disp_correct_answer_type: 0,
            disp_dictionary_type: DispDictionaryType::Kanji,
            count_per_exam: 10,
            allocation_score: AllocationScore::OnePoint,
        },
    }
}

fn browser() -> KankenBrowser {
    KankenBrowser::new(vec![
        field(Kyu::Kyu9, "書き", 1),
        field(Kyu::Kyu10, "読み", 3),
        field(Kyu::Kyu10, "部首", 2),
    ])
}

#[test]
fn starts_on_the_first_field_of_grade_ten() {
    let b = browser();
    assert_eq!(b.selected_kyu, Kyu::Kyu10);
    assert_eq!(b.selected_mode, "読み");
    assert_eq!(b.current_question_index, 0);
    assert_eq!(b.current_len(), 3);
}

#[test]
fn next_stops_at_the_last_question() {
    let mut b = browser();
    b.update(Message::NextQuestion);
    b.update(Message::NextQuestion);
    assert_eq!(b.current_question_index, 2);
    b.update(Message::NextQuestion);
    assert_eq!(b.current_question_index, 2);
    b.update(Message::PrevQuestion);
    assert_eq!(b.current_question_index, 1);
}

#[test]
fn prev_stops_at_the_first_question() {
    let mut b = browser();
    b.update(Message::PrevQuestion);
    assert_eq!(b.current_question_index, 0);
}

#[test]
fn selecting_resets_the_question() {
    let mut b = browser();
    b.update(Message::NextQuestion);
    b.update(Message::SelectMode("部首".to_string()));
    assert_eq!(b.current_question_index, 0);
    assert_eq!(b.current_len(), 2);
    b.update(Message::NextQuestion);
    b.update(Message::SelectKyu(Kyu::Kyu9));
    assert_eq!(b.selected_mode, "書き");
    assert_eq!(b.current_question_index, 0);
    b.update(Message::SelectKyu(Kyu::Kyu1));
    assert_eq!(b.selected_mode, "読み");
    assert!(b.current_field().is_none());
    assert_eq!(b.current_len(), 0);
    b.update(Message::NextQuestion);
    assert_eq!(b.current_question_index, 0);
}

fn span(text: &str, highlighted: bool) -> (String, bool) {
    (text.to_string(), highlighted)
}

fn pairs(v: Vec<Span>) -> Vec<(String, bool)> {
    v.into_iter().map(|s| (s.text, s.highlighted)).collect()
}

#[test]
fn marked_words_become_spans() {
    let spans = pairs(sentence_spans("彼は｛漢字｝を｛書｝く", 1));
    assert_eq!(
        spans,
        vec![span("彼は", false), span("漢字", false), span("を", false), span("書", true), span("く", false)]
    );
}

#[test]
fn unclosed_mark_is_dropped() {
    assert_eq!(pairs(sentence_spans("a｛b", 0)), vec![span("a", false), span("b", false)]);
    assert_eq!(pairs(sentence_spans("｛｝", 0)), vec![span("", true)]);
    assert!(sentence_spans("", 0).is_empty());
    assert_eq!(pairs(sentence_spans("｛x｝", -1)), vec![span("x", false)]);
}

#[test]
fn choices_are_cut_at_spaces() {
    assert_eq!(choice_options(""), None);
    assert_eq!(
        choice_options("ア イ  ウ"),
        Some(vec!["ア".to_string(), "イ".to_string(), String::new(), "ウ".to_string()])
    );
}

#[test]
fn answers_are_joined() {
    assert_eq!(answers_text(&vec![]), "");
    assert_eq!(answers_text(&vec!["かん".to_string()]), "かん");
    assert_eq!(answers_text(&vec!["かん".to_string(), "じ".to_string()]), "かん、じ");
}

#[test]
fn grades_have_codes_and_labels() {
    assert_eq!(Kyu::ALL.len(), 12);
    assert_eq!(Kyu::ALL[0], Kyu::Kyu10);
    assert_eq!(Kyu::ALL[11], Kyu::Kyu1);
    for k in Kyu::ALL {
        assert_eq!(Kyu::try_from(k.code()), Ok(k));
        assert_eq!(Kyu::from_code(k.code()), Some(k));
    }
    assert_eq!(Kyu::Jun2.code(), 4);
    assert_eq!(Kyu::Kyu10.label(), "10級");
    assert_eq!(Kyu::Jun1.label(), "準1級");
    assert_eq!(Kyu::try_from(0), Err("Invalid Kyu value: 0".to_string()));
    assert_eq!(Kyu::try_from(-7), Err("Invalid Kyu value: -7".to_string()));
    assert_eq!(AllocationScore::TwoPoints.label(), "2点");
    assert_eq!(AnswerType::Choice.label(), "選択");
}

#[test]
fn modes_are_the_fields_of_the_selected_grade() {
    let mut b = browser();
    assert_eq!(b.modes(), vec!["読み".to_string(), "部首".to_string()]);
    b.update(Message::SelectKyu(Kyu::Kyu9));
    assert_eq!(b.modes(), vec!["書き".to_string()]);
    b.update(Message::SelectKyu(Kyu::Kyu3));
    assert!(b.modes().is_empty());
}
