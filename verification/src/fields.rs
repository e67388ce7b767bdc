use vstd::prelude::*;
use crate::bank::{parse_question_file, spec_question_file};
use crate::decode::Step;
use crate::report::{decode_error_message, decode_error_text};
use crate::master::{csv_records, master_rows, parse_field_master, read_csv_records, records_would_panic, rows_readable};
use crate::types::{FieldInfo, FieldInfoView, QuestionField, QuestionFieldView, QuestionItem};

verus! {

/// Why the question files and the field master table could not be joined.
#[derive(Debug)]
pub enum ParseError {
    /// A question file could not be decoded; the text describes the
    /// refusal: its input and its kind.
    NomError(String),
    /// A question file has bytes after its field id.
    Remaining { field_id: i32, bytes: usize },
    /// A question file holds another number of questions than it declares.
    SizeMismatch { field_id: i32, declared: i32, actual: usize },
    /// A question file belongs to another field than its master row.
    IdMismatch { expected: i32, got: i32 },
    /// The master table describes another number of fields than there are
    /// question files.
    FieldCountMismatch { csv_count: usize, dat_count: usize },
    /// The master table could not be read.
    CsvError(String),
}

pub enum ParseErrorView {
    NomError(Seq<char>),
    Remaining { field_id: i32, bytes: usize },
    SizeMismatch { field_id: i32, declared: i32, actual: usize },
    IdMismatch { expected: i32, got: i32 },
    FieldCountMismatch { csv_count: usize, dat_count: usize },
    CsvError(Seq<char>),
}

impl View for ParseError {
    type V = ParseErrorView;

    open spec fn view(&self) -> ParseErrorView {
        match self {
            ParseError::NomError(s) => ParseErrorView::NomError(s@),
            ParseError::Remaining { field_id, bytes } => ParseErrorView::Remaining {
                field_id: *field_id,
                bytes: *bytes,
            },
            ParseError::SizeMismatch { field_id, declared, actual } => ParseErrorView::SizeMismatch {
                field_id: *field_id,
                declared: *declared,
                actual: *actual,
            },
            ParseError::IdMismatch { expected, got } => ParseErrorView::IdMismatch {
                expected: *expected,
                got: *got,
            },
            ParseError::FieldCountMismatch { csv_count, dat_count } =>
                ParseErrorView::FieldCountMismatch { csv_count: *csv_count, dat_count: *dat_count },
            ParseError::CsvError(s) => ParseErrorView::CsvError(s@),
        }
    }
}

/// Joins the master row `info` with the question file `dat`. `None` stands
/// for a panic while decoding `dat`.
pub open spec fn join_field(info: FieldInfoView, dat: Seq<u8>) -> Option<Result<QuestionFieldView, ParseErrorView>> {
    match spec_question_file(dat) {
        Step::Done(rem, file) => Some(
            if rem.len() != 0 {
                Err(ParseErrorView::Remaining { field_id: info.field_id, bytes: rem.len() as usize })
            } else if (#[verifier::truncate] (file.items.len() as i32)) != file.record_list_size {
                Err(
                    ParseErrorView::SizeMismatch {
                        field_id: info.field_id,
                        declared: file.record_list_size,
                        actual: file.items.len() as usize,
                    },
                )
            } else if file.field_id != info.field_id {
                Err(ParseErrorView::IdMismatch { expected: info.field_id, got: file.field_id })
            } else {
                Ok(QuestionFieldView { items: file.items, field_info: info })
            },
        ),
        Step::Fail(k, at) => Some(Err(ParseErrorView::NomError(decode_error_text(at, k)))),
        Step::Panic => None,
    }
}

/// Joins the rows with the files pairwise, in order, and stops at the first
/// pair that cannot be joined. `None` stands for a panic.
pub open spec fn join_fields(infos: Seq<FieldInfoView>, dats: Seq<Seq<u8>>) -> Option<Result<Seq<QuestionFieldView>, ParseErrorView>>
    decreases infos.len(),
{
    if infos.len() == 0 || dats.len() == 0 {
        Some(Ok(seq![]))
    } else {
        match join_fields(infos.drop_last(), dats.drop_last()) {
            Some(Ok(fields)) => match join_field(infos.last(), dats.last()) {
                Some(Ok(f)) => Some(Ok(fields.push(f))),
                Some(Err(e)) => Some(Err(e)),
                None => None,
            },
            other => other,
        }
    }
}

/// The outcome of joining the question files `dats` with the field master
/// table `csv`. `None` stands for a panic.
pub open spec fn all_fields(dats: Seq<Seq<u8>>, csv: Seq<char>) -> Option<Result<Seq<QuestionFieldView>, ParseErrorView>> {
    let infos = master_rows(csv_records(csv));
    if infos.len() != dats.len() {
        Some(
            Err(
                ParseErrorView::FieldCountMismatch {
                    csv_count: infos.len() as usize,
                    dat_count: dats.len() as usize,
                },
            ),
        )
    } else {
        join_fields(infos, dats)
    }
}

/// The bytes of each question file.
pub open spec fn dat_bytes(dat_files: &[&[u8]]) -> Seq<Seq<u8>> {
    dat_files@.map_values(|d: &[u8]| d@)
}

/// The result `r` agrees with the outcome `o`, which is not a panic.
pub open spec fn fields_agree(r: Result<Vec<QuestionField>, ParseError>, o: Option<Result<Seq<QuestionFieldView>, ParseErrorView>>) -> bool {
    match o {
        Some(Ok(fields)) => r matches Ok(v) && v@.map_values(|f: QuestionField| f@) == fields,
        Some(Err(e)) => r matches Err(err) && err@ == e,
        None => false,
    }
}

proof fn lemma_join_fields_step(infos: Seq<FieldInfoView>, dats: Seq<Seq<u8>>, i: int)
    requires
        0 <= i < infos.len(),
        infos.len() == dats.len(),
    ensures
        join_fields(infos.take(i + 1), dats.take(i + 1)) == match join_fields(infos.take(i), dats.take(i)) {
            Some(Ok(fields)) => match join_field(infos[i], dats[i]) {
                Some(Ok(f)) => Some(Ok(fields.push(f))),
                Some(Err(e)) => Some(Err(e)),
                None => None,
            },
            other => other,
        },
{
    assert(infos.take(i + 1).drop_last() =~= infos.take(i));
    assert(dats.take(i + 1).drop_last() =~= dats.take(i));
}

/// Field `f` is the master row `info` joined with the question file `dat`:
/// the file was decoded to its last byte, holds as many questions as it
/// declares, carries the row's field id, and `f` is the row with its
/// questions.
pub open spec fn field_joined(info: FieldInfoView, dat: Seq<u8>, f: QuestionFieldView) -> bool {
    &&& spec_question_file(dat) matches Step::Done(rest, file)
    &&& rest.len() == 0
    &&& file.items.len() as i32 == file.record_list_size
    &&& file.field_id == info.field_id
    &&& f == QuestionFieldView { items: file.items, field_info: info }
}

proof fn lemma_join_fields_shape(infos: Seq<FieldInfoView>, dats: Seq<Seq<u8>>)
    requires
        infos.len() == dats.len(),
    ensures
        join_fields(infos, dats) matches Some(Ok(fields)) ==> {
            &&& fields.len() == infos.len()
            &&& forall|i: int| 0 <= i < fields.len() ==> field_joined(infos[i], dats[i], #[trigger] fields[i])
        },
        join_fields(infos, dats) matches Some(Err(e)) ==> !(e is FieldCountMismatch),
    decreases infos.len(),
{
    if infos.len() > 0 {
        lemma_join_fields_shape(infos.drop_last(), dats.drop_last());
        if let Some(Ok(fields)) = join_fields(infos, dats) {
            let n = infos.len() - 1;
            assert forall|i: int| 0 <= i < fields.len() implies field_joined(infos[i], dats[i], #[trigger] fields[i]) by {
                if i < n {
                    assert(infos.drop_last()[i] == infos[i]);
                    assert(dats.drop_last()[i] == dats[i]);
                }
            }
        }
    }
}

/// What joining gives: the error `FieldCountMismatch` exactly when the master
/// table describes another number of fields than there are question files;
/// on success, one field per question file, in order, the `i`th joining the
/// `i`th row of the table with the `i`th file.
pub proof fn lemma_all_fields_shape(dats: Seq<Seq<u8>>, csv: Seq<char>)
    ensures
        ({
            let infos = master_rows(csv_records(csv));
            &&& all_fields(dats, csv) matches Some(Err(e)) ==> (e is FieldCountMismatch
                <==> infos.len() != dats.len())
            &&& infos.len() != dats.len() ==> (all_fields(dats, csv) matches Some(Err(e)) && e is FieldCountMismatch)
            &&& all_fields(dats, csv) matches Some(Ok(fields)) ==> {
                &&& fields.len() == dats.len()
                &&& forall|i: int| 0 <= i < fields.len() ==> field_joined(infos[i], dats[i], #[trigger] fields[i])
            }
        }),
{
    let infos = master_rows(csv_records(csv));
    if infos.len() == dats.len() {
        lemma_join_fields_shape(infos, dats);
    }
}

/// No question file makes its decoding panic.
pub open spec fn no_file_panics(dats: Seq<Seq<u8>>) -> bool {
    forall|i: int| 0 <= i < dats.len() ==> !(#[trigger] spec_question_file(dats[i]) is Panic)
}

proof fn lemma_join_without_panics(infos: Seq<FieldInfoView>, dats: Seq<Seq<u8>>)
    requires
        no_file_panics(dats),
    ensures
        join_fields(infos, dats) is Some,
    decreases infos.len(),
{
    if infos.len() > 0 && dats.len() > 0 {
        assert(no_file_panics(dats.drop_last())) by {
            assert forall|i: int| 0 <= i < dats.drop_last().len() implies !(#[trigger] spec_question_file(
                dats.drop_last()[i],
            ) is Panic) by {
                assert(dats.drop_last()[i] == dats[i]);
            }
        }
        lemma_join_without_panics(infos.drop_last(), dats.drop_last());
        assert(spec_question_file(dats[dats.len() - 1]) !is Panic);
    }
}

/// Joins the question files with the field master table as
/// `parse_all_fields` does, or gives `None` where reading the table would ask
/// a record for a field that it does not have.
pub fn checked_parse_all_fields(dat_files: &[&[u8]], csv_str: &str) -> (r: Option<Result<Vec<QuestionField>, ParseError>>)
    requires
        no_file_panics(dat_bytes(dat_files)),
    ensures
        r is None <==> !rows_readable(csv_records(csv_str@)),
        r matches Some(res) ==> fields_agree(res, all_fields(dat_bytes(dat_files), csv_str@)),
{
    let records = read_csv_records(csv_str);
    if records_would_panic(&records) {
        return None;
    }
    proof {
        lemma_join_without_panics(master_rows(csv_records(csv_str@)), dat_bytes(dat_files));
    }
    Some(parse_all_fields(dat_files, csv_str))
}

/// Joins the master row `info` with the question file `dat`.
fn join_field_with_file(info: FieldInfo, dat: &[u8]) -> (r: Result<QuestionField, ParseError>)
    requires
        join_field(info@, dat@) is Some,
    ensures
        match join_field(info@, dat@) {
            Some(Ok(f)) => r matches Ok(v) && v@ == f,
            Some(Err(e)) => r matches Err(err) && err@ == e,
            None => false,
        },
{
    let (rem, file) = match parse_question_file(dat) {
        Ok(p) => p,
        Err(e) => return Err(ParseError::NomError(decode_error_message(&e))),
    };
    if !rem.is_empty() {
        return Err(ParseError::Remaining { field_id: info.field_id, bytes: rem.len() });
    }
    if (#[verifier::truncate] (file.items.len() as i32)) != file.record_list_size {
        return Err(
            ParseError::SizeMismatch {
                field_id: info.field_id,
                declared: file.record_list_size,
                actual: file.items.len(),
            },
        );
    }
    if file.field_id != info.field_id {
        return Err(ParseError::IdMismatch { expected: info.field_id, got: file.field_id });
    }
    Ok(QuestionField { field_info: info, items: file.items })
}

/// Joins each question file with its row of the field master table.
///
/// The rows are the fields that `csv_str` describes, in order; the files are
/// `dat_files`, in the same order. When the numbers differ the result is
/// `FieldCountMismatch`. Otherwise each file is decoded in turn, and the
/// first that cannot be decoded, has bytes left after its field id, holds
/// another number of questions than it declares, or carries another field id
/// than its row gives the result's error; else each field is its row with the
/// file's questions.
pub fn parse_all_fields(dat_files: &[&[u8]], csv_str: &str) -> (r: Result<Vec<QuestionField>, ParseError>)
    requires
        rows_readable(csv_records(csv_str@)),
        all_fields(dat_bytes(dat_files), csv_str@) is Some,
    ensures
        fields_agree(r, all_fields(dat_bytes(dat_files), csv_str@)),
{
    let mut field_infos = parse_field_master(csv_str);
    let ghost infos = master_rows(csv_records(csv_str@));
    let ghost dats = dat_bytes(dat_files);
    assert(field_infos@.map_values(|f: FieldInfo| f@) == infos);
    if field_infos.len() != dat_files.len() {
        return Err(
            ParseError::FieldCountMismatch { csv_count: field_infos.len(), dat_count: dat_files.len() },
        );
    }
    let n = dat_files.len();
    let mut out: Vec<QuestionField> = Vec::new();
    let mut i: usize = 0;
    assert(infos.take(0) =~= Seq::<FieldInfoView>::empty());
    assert(dats.take(0) =~= Seq::<Seq<u8>>::empty());
    assert(out@.map_values(|f: QuestionField| f@) =~= Seq::<QuestionFieldView>::empty());
    assert(infos.skip(0) =~= infos);
    while i < n
        invariant
            n == dat_files.len(),
            n == infos.len(),
            dats == dat_bytes(dat_files),
            dats.len() == n,
            infos == master_rows(csv_records(csv_str@)),
            i <= n,
            field_infos@.map_values(|f: FieldInfo| f@) == infos.skip(i as int),
            join_fields(infos, dats) is Some,
            join_fields(infos.take(i as int), dats.take(i as int)) == Some(
                Ok::<Seq<QuestionFieldView>, ParseErrorView>(out@.map_values(|f: QuestionField| f@)),
            ),
        decreases n - i,
    {
        proof {
            lemma_join_fields_step(infos, dats, i as int);
            lemma_join_prefix_not_panic(infos, dats, (i + 1) as int);
        }
        let ghost before = out@.map_values(|f: QuestionField| f@);
        let ghost rest_infos = field_infos@;
        assert(rest_infos.map_values(|f: FieldInfo| f@).len() == rest_infos.len());
        assert(rest_infos.map_values(|f: FieldInfo| f@)[0] == infos[i as int]);
        let info = field_infos.remove(0);
        assert(info@ == infos[i as int]);
        assert forall|k: int| 0 <= k < field_infos@.len() implies #[trigger] field_infos@[k]@ == infos.skip(
            i + 1,
        )[k] by {
            assert(field_infos@[k] == rest_infos[k + 1]);
            assert(rest_infos.map_values(|f: FieldInfo| f@)[k + 1] == infos.skip(i as int)[k + 1]);
        }
        assert(field_infos@.map_values(|f: FieldInfo| f@) =~= infos.skip(i + 1));
        let dat = dat_files[i];
        assert(dat@ == dats[i as int]);
        match join_field_with_file(info, dat) {
            Ok(field) => {
                out.push(field);
                assert(out@.map_values(|f: QuestionField| f@) =~= before.push(field@));
            },
            Err(e) => {
                proof {
                    lemma_join_error_sticks(infos, dats, i + 1, n as int);
                    assert(infos.take(n as int) =~= infos);
                    assert(dats.take(n as int) =~= dats);
                }
                return Err(e);
            },
        }
        i = i + 1;
    }
    assert(infos.take(n as int) =~= infos);
    assert(dats.take(n as int) =~= dats);
    Ok(out)
}

/// Once a join stops at an error, joining more pairs gives the same error.
proof fn lemma_join_error_sticks(infos: Seq<FieldInfoView>, dats: Seq<Seq<u8>>, k: int, m: int)
    requires
        infos.len() == dats.len(),
        0 <= k <= m <= infos.len(),
        join_fields(infos.take(k), dats.take(k)) is Some,
        join_fields(infos.take(k), dats.take(k))->0 is Err,
    ensures
        join_fields(infos.take(m), dats.take(m)) == join_fields(infos.take(k), dats.take(k)),
    decreases m - k,
{
    if k < m {
        lemma_join_error_sticks(infos, dats, k, m - 1);
        lemma_join_fields_step(infos, dats, m - 1);
    }
}

/// A prefix of a join that does not panic does not panic.
proof fn lemma_join_prefix_not_panic(infos: Seq<FieldInfoView>, dats: Seq<Seq<u8>>, k: int)
    requires
        infos.len() == dats.len(),
        0 <= k <= infos.len(),
        join_fields(infos, dats) is Some,
    ensures
        join_fields(infos.take(k), dats.take(k)) is Some,
    decreases infos.len() - k,
{
    if k < infos.len() {
        lemma_join_prefix_not_panic(infos, dats, k + 1);
        lemma_join_fields_step(infos, dats, k);
    } else {
        assert(infos.take(k) =~= infos);
        assert(dats.take(k) =~= dats);
    }
}

} // verus!
