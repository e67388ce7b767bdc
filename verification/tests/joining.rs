use parser::fields::{checked_parse_all_fields, parse_all_fields, ParseError};
use parser::master::{checked_parse_field_master, field_info_from_record, parse_field_master, row_would_panic};
use parser::{AllocationScore, AnswerType, DispDictionaryType, Kyu};

const MASTER: &str = "\
field_id,level,name,preamble,answer_type,answer_count,correct_type,disp_correct_answer_type,disp_dictionary_type,count_per_exam,allocation_score
1,12,読み,次の漢字の読みを書きなさい,1,1,0,0,1,10,1
 2 , 11 ,書き,p2, 3 ,2,1,1,0,5, 2
x,12,bad id,p,1,1,0,0,1,10,1
3,13,bad grade,p,1,1,0,0,1,10,1
4,12,bad answer type,p,9,1,0,0,1,10,1
abc
";

fn unity_string_bytes(s: &[u8]) -> Vec<u8> {
    let mut out = Vec::new();
    out.extend_from_slice(&(s.len() as i32).to_le_bytes());
    out.extend_from_slice(s);
    let padding = (4 - (s.len() % 4)) % 4;
    out.extend(std::iter::repeat(0).take(padding));
    out
}

fn item_bytes(field_id: i32, question_id: i32) -> Vec<u8> {
    let mut out = Vec::new();
    for v in [field_id, question_id, 12, 2020, 0] {
        out.extend_from_slice(&v.to_le_bytes());
    }
    out.extend(unity_string_bytes(b"m"));
    out.extend(unity_string_bytes(b"f"));
    for v in [0i32, 0, 0] {
        out.extend_from_slice(&v.to_le_bytes());
    }
    out.extend(unity_string_bytes("｛一｝つ".as_bytes()));
    out.extend(unity_string_bytes(b""));
    out.extend_from_slice(&1i32.to_le_bytes());
    out.extend(unity_string_bytes("ひと".as_bytes()));
    out.extend_from_slice(&0i32.to_le_bytes());
    out.extend_from_slice(&0i32.to_le_bytes());
    out
}

fn file_bytes(name_id: i32, declared: i32, count: i32, field_id: i32) -> Vec<u8> {
    let mut data = vec![0u8; 0x1C];
    data.extend(unity_string_bytes(format!("KankenQuestionSO_{}", name_id).as_bytes()));
    data.extend_from_slice(&declared.to_le_bytes());
    for q in 0..count {
        data.extend(item_bytes(field_id, q));
    }
    data.extend_from_slice(&field_id.to_le_bytes());
    data
}

#[test]
fn reads_the_field_master() {
    let infos = parse_field_master(MASTER);
    assert_eq!(infos.len(), 2);
    let a = &infos[0];
    assert_eq!(a.field_id, 1);
    assert_eq!(a.level, Kyu::Kyu10);
    assert_eq!(a.name, "読み");
    assert_eq!(a.preamble, "次の漢字の読みを書きなさい");
    assert_eq!(a.answer_type, AnswerType::Handwriting);
    assert_eq!(a.answer_count, 1);
    assert_eq!(a.correct_type, 0);
    assert_eq!(a.disp_correct_answer_type, 0);
    assert_eq!(a.disp_dictionary_type, DispDictionaryType::Kanji);
    assert_eq!(a.count_per_exam, 10);
    assert_eq!(a.allocation_score, AllocationScore::OnePoint);
    let b = &infos[1];
    assert_eq!(b.field_id, 2);
    assert_eq!(b.level, Kyu::Kyu9);
    assert_eq!(b.answer_type, AnswerType::Choice);
    assert_eq!(b.disp_dictionary_type, DispDictionaryType::NoDictionary);
    assert_eq!(b.allocation_score, AllocationScore::TwoPoints);
}

#[test]
fn header_line_is_not_a_field() {
    let infos = parse_field_master("1,12,a,b,1,1,0,0,1,10,1\n");
    assert!(infos.is_empty());
}

#[test]
fn short_record_is_detected() {
    let rec: Vec<String> = vec!["5".to_string(), "12".to_string()];
    assert!(row_would_panic(&rec));
    let rec: Vec<String> = vec!["five".to_string()];
    assert!(!row_would_panic(&rec));
    assert!(field_info_from_record(&rec).is_none());
    assert!(checked_parse_field_master("h\n5,12\n").is_none());
    assert_eq!(checked_parse_field_master(MASTER).unwrap().len(), 2);
}

#[test]
fn joins_files_with_rows() {
    let f1 = file_bytes(1, 2, 2, 1);
    let f2 = file_bytes(2, 1, 1, 2);
    let fields = parse_all_fields(&[&f1, &f2], MASTER).unwrap();
    assert_eq!(fields.len(), 2);
    assert_eq!(fields[0].field_info.field_id, 1);
    assert_eq!(fields[0].items.len(), 2);
    assert_eq!(fields[0].items[1].question_id, 1);
    assert_eq!(fields[1].field_info.name, "書き");
    assert_eq!(fields[1].items.len(), 1);
    assert_eq!(fields[1].items[0].correct_answer_list, vec!["ひと".to_string()]);
}

#[test]
fn counts_must_agree() {
    let f1 = file_bytes(1, 2, 2, 1);
    match parse_all_fields(&[&f1], MASTER) {
        Err(ParseError::FieldCountMismatch { csv_count, dat_count }) => {
            assert_eq!((csv_count, dat_count), (2, 1));
        }
        other => panic!("unexpected {:?}", other),
    }
}

#[test]
fn trailing_bytes_are_refused() {
    let mut f1 = file_bytes(1, 2, 2, 1);
    f1.extend_from_slice(&[0, 0, 0]);
    let f2 = file_bytes(2, 1, 1, 2);
    match parse_all_fields(&[&f1, &f2], MASTER) {
        Err(ParseError::Remaining { field_id, bytes }) => assert_eq!((field_id, bytes), (1, 3)),
        other => panic!("unexpected {:?}", other),
    }
}

#[test]
fn declared_size_must_match() {
    let f1 = file_bytes(1, 3, 2, 1);
    let f2 = file_bytes(2, 1, 1, 2);
    match parse_all_fields(&[&f1, &f2], MASTER) {
        Err(ParseError::SizeMismatch { field_id, declared, actual }) => {
            assert_eq!((field_id, declared, actual), (1, 3, 2))
        }
        other => panic!("unexpected {:?}", other),
    }
}

#[test]
fn field_ids_must_match() {
    let f1 = file_bytes(1, 2, 2, 1);
    let f2 = file_bytes(2, 1, 1, 7);
    match parse_all_fields(&[&f1, &f2], MASTER) {
        Err(ParseError::IdMismatch { expected, got }) => assert_eq!((expected, got), (2, 7)),
        other => panic!("unexpected {:?}", other),
    }
}

#[test]
fn undecodable_file_is_reported() {
    let f1 = file_bytes(1, 2, 2, 1);
    let mut f2 = vec![0u8; 0x1C];
    f2.extend(unity_string_bytes(b"KankenDictionarySO"));
    match parse_all_fields(&[&f1, &f2], MASTER) {
        Err(ParseError::NomError(text)) => {
            let expected: nom::Err<nom::error::Error<&[u8]>> = nom::Err::Error(nom::error::Error::new(
                b"KankenDictionarySO",
                nom::error::ErrorKind::Tag,
            ));
            assert_eq!(text, format!("{:?}", expected));
            assert!(text.starts_with("Error(Error { input: [75, 97, 110"));
        }
        other => panic!("unexpected {:?}", other),
    }
}

#[test]
fn first_error_wins() {
    let f1 = file_bytes(1, 2, 2, 9);
    let f2 = vec![1u8];
    match parse_all_fields(&[&f1, &f2], MASTER) {
        Err(ParseError::IdMismatch { expected, got }) => assert_eq!((expected, got), (1, 9)),
        other => panic!("unexpected {:?}", other),
    }
}

#[test]
fn checked_join_refuses_short_records() {
    let f1 = file_bytes(1, 2, 2, 1);
    assert!(checked_parse_all_fields(&[&f1], "h\n1,12\n").is_none());
    let f2 = file_bytes(2, 1, 1, 2);
    assert!(checked_parse_all_fields(&[&f1, &f2], MASTER).unwrap().is_ok());
}

#[test]
fn short_file_error_text() {
    let f1 = file_bytes(1, 2, 2, 1);
    let f2 = vec![1u8, 2, 3];
    match parse_all_fields(&[&f1, &f2], MASTER) {
        Err(ParseError::NomError(text)) => {
            assert_eq!(text, "Error(Error { input: [1, 2, 3], code: Eof })");
        }
        other => panic!("unexpected {:?}", other),
    }
}
