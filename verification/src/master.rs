use vstd::prelude::*;
use crate::kyu::{kyu_code, kyu_from_code, Kyu};
use crate::text::{decimal_i32, parse_i32_str, trim, trim_str};
use crate::types::{
    allocation_score_code, allocation_score_from_code, answer_type_code, answer_type_from_code,
    disp_dictionary_type_code, disp_dictionary_type_from_code,
    AllocationScore, AnswerType, DispDictionaryType, FieldInfo, FieldInfoView,
};

verus! {

/* The field master table is a CSV text with a header line. Each later
   record describes one field:
     0 field id, 1 grade code, 2 name, 3 preamble, 4 answer type code,
     5 answer count, 6 correct type, 7 correct answer display type,
     8 dictionary type code, 9 count per exam, 10 allocation score code.
   Numbers may be surrounded by white space. A record that does not describe
   a field is skipped. */

/// The records that the `csv` crate reads from `text` with a reader built by
/// `csv::ReaderBuilder::new().flexible(true)`: the first line is taken as the
/// header and not returned; records may have any number of fields; each later
/// record is `Some` of its fields, or `None` where the reader reported an
/// error for it.
pub uninterp spec fn csv_records(text: Seq<char>) -> Seq<Option<Seq<Seq<char>>>>;

/// Reads the records of `csv_str` with `csv::ReaderBuilder::new().flexible(true)`
/// and `Reader::records`, keeping each record's fields as strings, and a
/// record that came with an error as `None`.
#[verifier::external_body]
pub(crate) fn read_csv_records(csv_str: &str) -> (r: Vec<Option<Vec<String>>>)
    ensures
        r.deep_view() == csv_records(csv_str@),
{
    let mut rdr = csv::ReaderBuilder::new().flexible(true).from_reader(csv_str.as_bytes());
    let mut out = Vec::new();
    for rec in rdr.records() {
        out.push(rec.ok().map(|r| r.iter().map(|f| f.to_string()).collect()));
    }
    out
}

/// The number written in field `i` of `rec`, white space around it ignored.
pub open spec fn int_at(rec: Seq<Seq<char>>, i: int) -> Option<i32> {
    decimal_i32(trim(rec[i]))
}

pub open spec fn level_at(rec: Seq<Seq<char>>) -> Option<Kyu> {
    match int_at(rec, 1) {
        Some(v) => kyu_from_code(v),
        None => None,
    }
}

pub open spec fn answer_type_at(rec: Seq<Seq<char>>) -> Option<AnswerType> {
    match int_at(rec, 4) {
        Some(v) => answer_type_from_code(v),
        None => None,
    }
}

pub open spec fn disp_dictionary_type_at(rec: Seq<Seq<char>>) -> Option<DispDictionaryType> {
    match int_at(rec, 8) {
        Some(v) => disp_dictionary_type_from_code(v),
        None => None,
    }
}

pub open spec fn allocation_score_at(rec: Seq<Seq<char>>) -> Option<AllocationScore> {
    match int_at(rec, 10) {
        Some(v) => allocation_score_from_code(v),
        None => None,
    }
}

/// Reading `rec` asks for a field that it does not have. Fields are read in
/// the order 0, 1, 4, 8, 10 and the reading stops at the first that does not
/// give a value, so a short record panics only if all the fields read before
/// the missing one gave a value.
pub open spec fn row_panics(rec: Seq<Seq<char>>) -> bool {
    ||| rec.len() < 1
    ||| int_at(rec, 0) is Some && rec.len() < 2
    ||| int_at(rec, 0) is Some && level_at(rec) is Some && rec.len() < 5
    ||| int_at(rec, 0) is Some && level_at(rec) is Some && answer_type_at(rec) is Some && rec.len() < 9
    ||| int_at(rec, 0) is Some && level_at(rec) is Some && answer_type_at(rec) is Some
        && disp_dictionary_type_at(rec) is Some && rec.len() < 11
}

/// The field that `rec` describes, if it describes one.
pub open spec fn row_field_info(rec: Seq<Seq<char>>) -> Option<FieldInfoView> {
    if rec.len() >= 11 && int_at(rec, 0) is Some && level_at(rec) is Some && answer_type_at(rec) is Some
        && disp_dictionary_type_at(rec) is Some && allocation_score_at(rec) is Some
        && int_at(rec, 5) is Some && int_at(rec, 6) is Some && int_at(rec, 7) is Some
        && int_at(rec, 9) is Some {
        Some(
            FieldInfoView {
                field_id: int_at(rec, 0)->0,
                level: level_at(rec)->0,
                name: rec[2],
                preamble: rec[3],
                answer_type: answer_type_at(rec)->0,
                answer_count: int_at(rec, 5)->0,
                correct_type: int_at(rec, 6)->0,
                disp_correct_answer_type: int_at(rec, 7)->0,
                disp_dictionary_type: disp_dictionary_type_at(rec)->0,
                count_per_exam: int_at(rec, 9)->0,
                allocation_score: allocation_score_at(rec)->0,
            },
        )
    } else {
        None
    }
}

/// No record read without error makes the reading panic.
pub open spec fn rows_readable(records: Seq<Option<Seq<Seq<char>>>>) -> bool {
    forall|i: int| 0 <= i < records.len() ==> (#[trigger] records[i] matches Some(rec) ==> !row_panics(rec))
}

/// The fields described by the records read without error, in order.
pub open spec fn master_rows(records: Seq<Option<Seq<Seq<char>>>>) -> Seq<FieldInfoView>
    decreases records.len(),
{
    if records.len() == 0 {
        seq![]
    } else {
        let before = master_rows(records.drop_last());
        match records.last() {
            Some(rec) => match row_field_info(rec) {
                Some(fi) => before.push(fi),
                None => before,
            },
            None => before,
        }
    }
}

/// The field that a record describes carries the record's texts and numbers
/// as they are written: its id and numbers are the numbers of fields 0, 5, 6,
/// 7 and 9, its name and preamble are fields 2 and 3 unchanged, and its grade,
/// answer type, dictionary type and allocation score are the ones stored
/// under the codes of fields 1, 4, 8 and 10.
pub proof fn lemma_row_field_info_as_written(rec: Seq<Seq<char>>)
    ensures
        row_field_info(rec) matches Some(fi) ==> {
            &&& int_at(rec, 0) == Some(fi.field_id)
            &&& int_at(rec, 1) == Some(kyu_code(fi.level))
            &&& fi.name == rec[2]
            &&& fi.preamble == rec[3]
            &&& int_at(rec, 4) == Some(answer_type_code(fi.answer_type))
            &&& int_at(rec, 5) == Some(fi.answer_count)
            &&& int_at(rec, 6) == Some(fi.correct_type)
            &&& int_at(rec, 7) == Some(fi.disp_correct_answer_type)
            &&& int_at(rec, 8) == Some(disp_dictionary_type_code(fi.disp_dictionary_type))
            &&& int_at(rec, 9) == Some(fi.count_per_exam)
            &&& int_at(rec, 10) == Some(allocation_score_code(fi.allocation_score))
        },
{
}

/// The rows are read in order, one record at a time: no records give no
/// fields, and a further record adds the field it describes, if any, after
/// the fields of the records before it.
pub proof fn lemma_master_rows_in_order(records: Seq<Option<Seq<Seq<char>>>>, r: Option<Seq<Seq<char>>>)
    ensures
        master_rows(Seq::<Option<Seq<Seq<char>>>>::empty()) == Seq::<FieldInfoView>::empty(),
        master_rows(records.push(r)) == master_rows(records) + match r {
            Some(rec) => match row_field_info(rec) {
                Some(fi) => seq![fi],
                None => Seq::<FieldInfoView>::empty(),
            },
            None => Seq::<FieldInfoView>::empty(),
        },
{
    assert(records.push(r).drop_last() =~= records);
    let before = master_rows(records);
    assert(before + Seq::<FieldInfoView>::empty() =~= before);
    if let Some(rec) = r {
        if let Some(fi) = row_field_info(rec) {
            assert(before.push(fi) =~= before + seq![fi]);
        }
    }
}

/// The number in field `i` of `rec`.
fn int_field(rec: &Vec<String>, i: usize) -> (r: Option<i32>)
    requires
        i < rec.len(),
    ensures
        r == int_at(rec.deep_view(), i as int),
{
    parse_i32_str(trim_str(rec[i].as_str()))
}

/// Whether reading `rec` would ask for a field that it does not have.
pub fn row_would_panic(rec: &Vec<String>) -> (b: bool)
    ensures
        b == row_panics(rec.deep_view()),
{
    let ghost r = rec.deep_view();
    if rec.len() < 1 {
        return true;
    }
    if int_field(rec, 0).is_none() {
        return false;
    }
    if rec.len() < 2 {
        return true;
    }
    match int_field(rec, 1) {
        Some(v) => if Kyu::from_code(v).is_none() {
            return false;
        },
        None => return false,
    }
    if rec.len() < 5 {
        return true;
    }
    match int_field(rec, 4) {
        Some(v) => if !(1 <= v && v <= 3) {
            return false;
        },
        None => return false,
    }
    if rec.len() < 9 {
        return true;
    }
    match int_field(rec, 8) {
        Some(v) => if !(0 <= v && v <= 3) {
            return false;
        },
        None => return false,
    }
    rec.len() < 11
}

/// The field that the record `rec` describes, or `None` when one of its
/// numbers is missing or out of its range.
pub fn field_info_from_record(rec: &Vec<String>) -> (r: Option<FieldInfo>)
    requires
        !row_panics(rec.deep_view()),
    ensures
        match r {
            Some(f) => row_field_info(rec.deep_view()) == Some(f@),
            None => row_field_info(rec.deep_view()) is None,
        },
{
    let field_id = match int_field(rec, 0) {
        Some(v) => v,
        None => return None,
    };
    let level = match int_field(rec, 1) {
        Some(v) => match Kyu::try_from(v) {
            Ok(k) => k,
            Err(_) => return None,
        },
        None => return None,
    };
    let answer_type = match int_field(rec, 4) {
        Some(1) => AnswerType::Handwriting,
        Some(2) => AnswerType::Number,
        Some(3) => AnswerType::Choice,
        _ => return None,
    };
    let disp_dictionary_type = match int_field(rec, 8) {
        Some(0) => DispDictionaryType::NoDictionary,
        Some(1) => DispDictionaryType::Kanji,
        Some(2) => DispDictionaryType::Yojijukugo,
        Some(3) => DispDictionaryType::YojijukugoMeaning,
        _ => return None,
    };
    let allocation_score = match int_field(rec, 10) {
        Some(1) => AllocationScore::OnePoint,
        Some(2) => AllocationScore::TwoPoints,
        _ => return None,
    };
    let name = rec[2].clone();
    let preamble = rec[3].clone();
    let answer_count = match int_field(rec, 5) {
        Some(v) => v,
        None => return None,
    };
    let correct_type = match int_field(rec, 6) {
        Some(v) => v,
        None => return None,
    };
    let disp_correct_answer_type = match int_field(rec, 7) {
        Some(v) => v,
        None => return None,
    };
    let count_per_exam = match int_field(rec, 9) {
        Some(v) => v,
        None => return None,
    };
    Some(
        FieldInfo {
            field_id,
            level,
            name,
            preamble,
            answer_type,
            answer_count,
            correct_type,
            disp_correct_answer_type,
            disp_dictionary_type,
            count_per_exam,
            allocation_score,
        },
    )
}

/// The fields described by `records`, in order: records that came with an
/// error, and records that do not describe a field, are skipped.
pub fn field_infos_from_records(records: &Vec<Option<Vec<String>>>) -> (r: Vec<FieldInfo>)
    requires
        rows_readable(records.deep_view()),
    ensures
        r@.map_values(|f: FieldInfo| f@) == master_rows(records.deep_view()),
{
    let ghost all = records.deep_view();
    let mut out: Vec<FieldInfo> = Vec::new();
    let mut i: usize = 0;
    while i < records.len()
        invariant
            i <= records.len(),
            all == records.deep_view(),
            rows_readable(all),
            out@.map_values(|f: FieldInfo| f@) == master_rows(all.take(i as int)),
        decreases records.len() - i,
    {
        let ghost before = out@.map_values(|f: FieldInfo| f@);
        assert(all.take(i + 1).drop_last() =~= all.take(i as int));
        assert(all.take(i + 1).last() == all[i as int]);
        match &records[i] {
            Some(rec) => {
                assert(all[i as int] == Some(rec.deep_view()));
                match field_info_from_record(rec) {
                    Some(fi) => {
                        out.push(fi);
                        assert(out@.map_values(|f: FieldInfo| f@) =~= before.push(fi@));
                    },
                    None => {},
                }
            },
            None => {},
        }
        i = i + 1;
    }
    assert(all.take(records.len() as int) =~= all);
    out
}

/// Reads the field master table: the fields that its records describe, in
/// order.
pub fn parse_field_master(csv_str: &str) -> (r: Vec<FieldInfo>)
    requires
        rows_readable(csv_records(csv_str@)),
    ensures
        r@.map_values(|f: FieldInfo| f@) == master_rows(csv_records(csv_str@)),
{
    let records = read_csv_records(csv_str);
    field_infos_from_records(&records)
}

/// Whether some record read without error would make the reading panic.
pub fn records_would_panic(records: &Vec<Option<Vec<String>>>) -> (b: bool)
    ensures
        b == !rows_readable(records.deep_view()),
{
    let ghost all = records.deep_view();
    let mut i: usize = 0;
    while i < records.len()
        invariant
            i <= records.len(),
            all == records.deep_view(),
            forall|j: int| 0 <= j < i ==> (#[trigger] all[j] matches Some(rec) ==> !row_panics(rec)),
        decreases records.len() - i,
    {
        match &records[i] {
            Some(rec) => {
                assert(all[i as int] == Some(rec.deep_view()));
                if row_would_panic(rec) {
                    return true;
                }
            },
            None => {},
        }
        i = i + 1;
    }
    false
}

/// Reads the field master table, or gives `None` where `parse_field_master`
/// would ask a record for a field that it does not have.
pub fn checked_parse_field_master(csv_str: &str) -> (r: Option<Vec<FieldInfo>>)
    ensures
        r is None <==> !rows_readable(csv_records(csv_str@)),
        r matches Some(v) ==> v@.map_values(|f: FieldInfo| f@) == master_rows(csv_records(csv_str@)),
{
    let records = read_csv_records(csv_str);
    if records_would_panic(&records) {
        None
    } else {
        Some(parse_field_master(csv_str))
    }
}

} // verus!
