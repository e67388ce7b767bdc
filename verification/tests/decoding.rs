use parser::bank::{parse_question_file, parse_question_file_start, skip_header};
use parser::decode::{read_le_i32, ErrorKind};
use parser::question::{parse_kyu, parse_question_item, parse_string, parse_string_array, parse_unity_string};
use parser::Kyu;

fn unity_string_bytes(s: &[u8]) -> Vec<u8> {
    let mut out = Vec::new();
    out.extend_from_slice(&(s.len() as i32).to_le_bytes());
    out.extend_from_slice(s);

    let padding = (4 - (s.len() % 4)) % 4;
    out.extend(std::iter::repeat(0).take(padding));
    out
}

fn int_bytes(v: i32) -> Vec<u8> {
    v.to_le_bytes().to_vec()
}

fn string_array_bytes(items: &[&str]) -> Vec<u8> {
    let mut out = int_bytes(items.len() as i32);
    for s in items {
        out.extend(unity_string_bytes(s.as_bytes()));
    }
    out
}

/// One question, in the order of its fields.
fn item_bytes(field_id: i32, question_id: i32, level: i32, sentence: &str, answers: &[&str]) -> Vec<u8> {
    let mut out = Vec::new();
    out.extend(int_bytes(field_id));
    out.extend(int_bytes(question_id));
    out.extend(int_bytes(level));
    out.extend(int_bytes(2019));
    out.extend(int_bytes(1));
    out.extend(unity_string_bytes("漢字".as_bytes()));
    out.extend(unity_string_bytes(b"fmt"));
    out.extend(int_bytes(3));
    out.extend(int_bytes(4));
    out.extend(int_bytes(5));
    out.extend(unity_string_bytes(sentence.as_bytes()));
    out.extend(unity_string_bytes(b""));
    out.extend(string_array_bytes(answers));
    out.extend(string_array_bytes(&["word"]));
    out.extend(int_bytes(0));
    out
}

fn question_file_bytes(field_id: i32, declared: i32, count: usize) -> Vec<u8> {
    let mut data = vec![0u8; 0x1C];
    data.extend(unity_string_bytes(format!("KankenQuestionSO_{}", field_id).as_bytes()));
    data.extend(int_bytes(declared));
    for q in 0..count {
        data.extend(item_bytes(field_id, q as i32, 12, "｛漢｝字", &["かん"]));
    }
    data.extend(int_bytes(field_id));
    data
}

#[test]
fn on_first_file() {
    let data = question_file_bytes(120, 1300, 1300);
    let (rem, question_file) = parse_question_file(&data).unwrap();
    assert_eq!(question_file.record_list_size, 1300);
    assert_eq!(question_file.items.len(), 1300);
    assert_eq!(question_file.field_id, 120);
    assert!(rem.is_empty());
}

#[test]
fn on_second_file() {
    let data = question_file_bytes(119, 650, 650);
    let (rem, question_file) = parse_question_file(&data).unwrap();
    assert_eq!(question_file.record_list_size, 650);
    assert_eq!(question_file.items.len(), 650);
    assert_eq!(question_file.field_id, 119);
    assert!(rem.is_empty());
}

#[test]
fn test_skip_header() {
    let data = vec![0u8; 100];
    let (rest, ()) = skip_header(&data).unwrap();
    assert_eq!(rest.len(), 72);
}

#[test]
fn test_parse_question_file_start_ok() {
    let mut data = vec![0u8; 0x1C];
    data.extend(unity_string_bytes(b"KankenQuestionSO_114"));

    let (rem, ()) = parse_question_file_start(&data).unwrap();
    assert!(rem.is_empty());
}

#[test]
fn test_parse_question_file_start_wrong_name() {
    let mut data = vec![0u8; 0x1C];
    data.extend(unity_string_bytes(b"KankenDictionarySO"));

    assert!(parse_question_file_start(&data).is_err());
}

#[test]
fn wrong_name_is_refused_at_the_name() {
    let mut data = vec![0u8; 0x1C];
    data.extend(unity_string_bytes(b"KankenDictionarySO"));
    let err = parse_question_file_start(&data).unwrap_err();
    assert_eq!(err.code, ErrorKind::Tag);
    assert_eq!(err.input, b"KankenDictionarySO");
}

#[test]
fn short_header_is_refused() {
    let data = vec![0u8; 27];
    let err = skip_header(&data).unwrap_err();
    assert_eq!(err.code, ErrorKind::Eof);
    assert_eq!(err.input.len(), 27);
}

#[test]
fn reads_little_endian_integers() {
    let data = [0x00, 0x03, 0x05, 0x07, 0xAA];
    let (rest, v) = read_le_i32(&data).unwrap();
    assert_eq!(v, 0x07050300);
    assert_eq!(rest, &[0xAA]);
    let (_, v) = read_le_i32(&[0xFE, 0xFF, 0xFF, 0xFF]).unwrap();
    assert_eq!(v, -2);
    let err = read_le_i32(&[0x01]).unwrap_err();
    assert_eq!(err.code, ErrorKind::Eof);
}

#[test]
fn strings_are_padded_to_four_bytes() {
    let mut data = unity_string_bytes(b"abcde");
    assert_eq!(data.len(), 12);
    data.push(9);
    let (rest, bytes) = parse_unity_string(&data).unwrap();
    assert_eq!(bytes, b"abcde");
    assert_eq!(rest, &[9]);
}

#[test]
fn negative_length_is_a_null_string() {
    let mut data = int_bytes(-1);
    data.extend_from_slice(&[1, 2]);
    let (rest, bytes) = parse_unity_string(&data).unwrap();
    assert!(bytes.is_empty());
    assert_eq!(rest, &[1, 2]);
}

#[test]
fn missing_padding_is_refused() {
    let mut data = int_bytes(2);
    data.extend_from_slice(b"ab");
    let err = parse_unity_string(&data).unwrap_err();
    assert_eq!(err.code, ErrorKind::Eof);
}

#[test]
fn text_must_be_utf8() {
    let data = unity_string_bytes(&[0xFF, 0xFE]);
    let err = parse_string(&data).unwrap_err();
    assert_eq!(err.code, ErrorKind::MapRes);
    assert_eq!(err.input, &[0xFF, 0xFE]);
    let (_, s) = parse_string(&unity_string_bytes("準2級".as_bytes())).unwrap();
    assert_eq!(s, "準2級");
}

#[test]
fn text_list_reads_its_count() {
    let data = string_array_bytes(&["a", "bc", ""]);
    let (rest, list) = parse_string_array(&data).unwrap();
    assert!(rest.is_empty());
    assert_eq!(list, vec!["a".to_string(), "bc".to_string(), String::new()]);
}

#[test]
fn unknown_grade_is_refused() {
    let thirteen = int_bytes(13);
    let err = parse_kyu(&thirteen).unwrap_err();
    assert_eq!(err.code, ErrorKind::MapRes);
    let (_, k) = parse_kyu(&int_bytes(4)).unwrap();
    assert_eq!(k, Kyu::Jun2);
}

#[test]
fn decodes_one_question() {
    let mut data = item_bytes(7, 42, 3, "｛漢｝字", &["かん", "じ"]);
    data.extend(int_bytes(99));
    let (rest, q) = parse_question_item(&data).unwrap();
    assert_eq!(rest, &99i32.to_le_bytes());
    assert_eq!(q.field_id, 7);
    assert_eq!(q.question_id, 42);
    assert_eq!(q.level, Kyu::Kyu2);
    assert_eq!(q.year, 2019);
    assert_eq!(q.kind, 1);
    assert_eq!(q.matter, "漢字");
    assert_eq!(q.format, "fmt");
    assert_eq!((q.large_part, q.middle_part, q.small_part), (3, 4, 5));
    assert_eq!(q.sentence, "｛漢｝字");
    assert_eq!(q.answer_choices, "");
    assert_eq!(q.correct_answer_list, vec!["かん".to_string(), "じ".to_string()]);
    assert_eq!(q.use_word_list, vec!["word".to_string()]);
    assert_eq!(q.selected_index, 0);
}

#[test]
fn questions_stop_at_the_first_refused_one() {
    let mut data = vec![0u8; 0x1C];
    data.extend(unity_string_bytes(b"KankenQuestionSO_5"));
    data.extend(int_bytes(2));
    data.extend(item_bytes(5, 0, 12, "a", &[]));
    data.extend(item_bytes(5, 1, 99, "b", &[]));
    let (rem, file) = parse_question_file(&data).unwrap();
    assert_eq!(file.items.len(), 1);
    assert_eq!(file.field_id, 5);
    assert_eq!(file.record_list_size, 2);
    assert!(!rem.is_empty());
}

#[test]
fn file_without_field_id_is_refused() {
    let mut data = vec![0u8; 0x1C];
    data.extend(unity_string_bytes(b"KankenQuestionSO_5"));
    data.extend(int_bytes(0));
    data.extend_from_slice(&[1, 2]);
    let err = parse_question_file(&data).unwrap_err();
    assert_eq!(err.code, ErrorKind::Eof);
}
