use vstd::prelude::*;
use crate::text::{decimal_digits, decimal_text};

verus! {

/// Exam grade. Grade 10 is the easiest, grade 1 the hardest; the
/// "pre" grades (`Jun2`, `Jun1`) sit between their neighbours.
#[derive(Debug, Clone, Copy, PartialEq, Eq, Structural)]
pub enum Kyu {
    Kyu10,
    Kyu9,
    Kyu8,
    Kyu7,
    Kyu6,
    Kyu5,
    Kyu4,
    Kyu3,
    Jun2,
    Kyu2,
    Jun1,
    Kyu1,
}

/// The integer by which a grade is stored in the question files and the
/// field master table.
pub open spec fn kyu_code(k: Kyu) -> i32 {
    match k {
        Kyu::Kyu10 => 12,
        Kyu::Kyu9 => 11,
        Kyu::Kyu8 => 10,
        Kyu::Kyu7 => 9,
        Kyu::Kyu6 => 8,
        Kyu::Kyu5 => 7,
        Kyu::Kyu4 => 6,
        Kyu::Kyu3 => 5,
        Kyu::Jun2 => 4,
        Kyu::Kyu2 => 3,
        Kyu::Jun1 => 2,
        Kyu::Kyu1 => 1,
    }
}

/// The grade stored as `v`, if any.
pub open spec fn kyu_from_code(v: i32) -> Option<Kyu> {
    if v == 12 {
        Some(Kyu::Kyu10)
    } else if v == 11 {
        Some(Kyu::Kyu9)
    } else if v == 10 {
        Some(Kyu::Kyu8)
    } else if v == 9 {
        Some(Kyu::Kyu7)
    } else if v == 8 {
        Some(Kyu::Kyu6)
    } else if v == 7 {
        Some(Kyu::Kyu5)
    } else if v == 6 {
        Some(Kyu::Kyu4)
    } else if v == 5 {
        Some(Kyu::Kyu3)
    } else if v == 4 {
        Some(Kyu::Jun2)
    } else if v == 3 {
        Some(Kyu::Kyu2)
    } else if v == 2 {
        Some(Kyu::Jun1)
    } else if v == 1 {
        Some(Kyu::Kyu1)
    } else {
        None
    }
}

/// The label under which a grade is shown.
pub open spec fn kyu_label(k: Kyu) -> Seq<char> {
    match k {
        Kyu::Kyu10 => "10級"@,
        Kyu::Kyu9 => "9級"@,
        Kyu::Kyu8 => "8級"@,
        Kyu::Kyu7 => "7級"@,
        Kyu::Kyu6 => "6級"@,
        Kyu::Kyu5 => "5級"@,
        Kyu::Kyu4 => "4級"@,
        Kyu::Kyu3 => "3級"@,
        Kyu::Jun2 => "準2級"@,
        Kyu::Kyu2 => "2級"@,
        Kyu::Jun1 => "準1級"@,
        Kyu::Kyu1 => "1級"@,
    }
}

/// The number of the grade stored under `code`: codes 12 down to 5 are grades
/// 10 down to 3; codes 4 and 3 are the two grades 2, codes 2 and 1 the two
/// grades 1.
pub open spec fn grade_number(code: int) -> int {
    if code >= 5 {
        code - 2
    } else {
        (code + 1) / 2
    }
}

/// The code is one of a "pre" grade (準), which comes before the grade of
/// the same number: codes 4 and 2.
pub open spec fn is_pre_grade_code(code: int) -> bool {
    code == 4 || code == 2
}

/// A grade's label is `準` for the pre grades, then the grade's number, then
/// `級`; only `Jun2` and `Jun1` carry `準`.
pub proof fn lemma_kyu_label_form(k: Kyu)
    ensures
        kyu_label(k) == (if is_pre_grade_code(kyu_code(k) as int) {
            "準"@
        } else {
            Seq::<char>::empty()
        }) + decimal_digits(grade_number(kyu_code(k) as int) as nat) + "級"@,
        is_pre_grade_code(kyu_code(k) as int) <==> (k == Kyu::Jun2 || k == Kyu::Jun1),
{
    reveal_strlit("準");
    reveal_strlit("級");
    reveal_with_fuel(decimal_digits, 2);
    match k {
        Kyu::Kyu10 => {
            reveal_strlit("10級");
            assert(kyu_label(k) =~= decimal_digits(10) + "級"@);
        },
        Kyu::Kyu9 => {
            reveal_strlit("9級");
            assert(kyu_label(k) =~= decimal_digits(9) + "級"@);
        },
        Kyu::Kyu8 => {
            reveal_strlit("8級");
            assert(kyu_label(k) =~= decimal_digits(8) + "級"@);
        },
        Kyu::Kyu7 => {
            reveal_strlit("7級");
            assert(kyu_label(k) =~= decimal_digits(7) + "級"@);
        },
        Kyu::Kyu6 => {
            reveal_strlit("6級");
            assert(kyu_label(k) =~= decimal_digits(6) + "級"@);
        },
        Kyu::Kyu5 => {
            reveal_strlit("5級");
            assert(kyu_label(k) =~= decimal_digits(5) + "級"@);
        },
        Kyu::Kyu4 => {
            reveal_strlit("4級");
            assert(kyu_label(k) =~= decimal_digits(4) + "級"@);
        },
        Kyu::Kyu3 => {
            reveal_strlit("3級");
            assert(kyu_label(k) =~= decimal_digits(3) + "級"@);
        },
        Kyu::Jun2 => {
            reveal_strlit("準2級");
            assert(kyu_label(k) =~= "準"@ + decimal_digits(2) + "級"@);
        },
        Kyu::Kyu2 => {
            reveal_strlit("2級");
            assert(kyu_label(k) =~= decimal_digits(2) + "級"@);
        },
        Kyu::Jun1 => {
            reveal_strlit("準1級");
            assert(kyu_label(k) =~= "準"@ + decimal_digits(1) + "級"@);
        },
        Kyu::Kyu1 => {
            reveal_strlit("1級");
            assert(kyu_label(k) =~= decimal_digits(1) + "級"@);
        },
    }
}

/// The message with which a code outside `1..=12` is refused.
pub open spec fn invalid_kyu_text(value: i32) -> Seq<char> {
    "Invalid Kyu value: "@ + decimal_text(value as int)
}

/// Formats the refusal message for `value` with `format!`; `Display` of an
/// `i32` writes its decimal digits, with a leading `-` when negative.
#[verifier::external_body]
fn invalid_kyu_message(value: i32) -> (m: String)
    ensures
        m@ == invalid_kyu_text(value),
{
    format!("Invalid Kyu value: {}", value)
}

impl TryFrom<i32> for Kyu {
    type Error = String;

    /// The grade stored as `value`; a code outside `1..=12` is refused with
    /// the message `Invalid Kyu value: <value>`.
    fn try_from(value: i32) -> (r: Result<Kyu, String>)
        ensures
            r is Ok <==> kyu_from_code(value) is Some,
            r matches Ok(k) ==> kyu_from_code(value) == Some(k),
            r matches Err(m) ==> m@ == invalid_kyu_text(value),
    {
        match Kyu::from_code(value) {
            Some(k) => Ok(k),
            None => Err(invalid_kyu_message(value)),
        }
    }
}

impl vstd::std_specs::convert::TryFromSpecImpl<i32> for Kyu {
    open spec fn obeys_try_from_spec() -> bool {
        false
    }

    open spec fn try_from_spec(v: i32) -> Result<Kyu, String> {
        arbitrary()
    }
}

impl View for Kyu {
    type V = Kyu;

    open spec fn view(&self) -> Kyu {
        *self
    }
}

impl Kyu {
    /// All grades, from the easiest to the hardest.
    pub const ALL: [Kyu; 12] = [
        Kyu::Kyu10,
        Kyu::Kyu9,
        Kyu::Kyu8,
        Kyu::Kyu7,
        Kyu::Kyu6,
        Kyu::Kyu5,
        Kyu::Kyu4,
        Kyu::Kyu3,
        Kyu::Jun2,
        Kyu::Kyu2,
        Kyu::Jun1,
        Kyu::Kyu1,
    ];

    /// The stored code of this grade.
    pub fn code(&self) -> (c: i32)
        ensures
            c == kyu_code(*self),
    {
        match self {
            Kyu::Kyu10 => 12,
            Kyu::Kyu9 => 11,
            Kyu::Kyu8 => 10,
            Kyu::Kyu7 => 9,
            Kyu::Kyu6 => 8,
            Kyu::Kyu5 => 7,
            Kyu::Kyu4 => 6,
            Kyu::Kyu3 => 5,
            Kyu::Jun2 => 4,
            Kyu::Kyu2 => 3,
            Kyu::Jun1 => 2,
            Kyu::Kyu1 => 1,
        }
    }

    /// The label under which this grade is shown, such as `10級` or `準2級`.
    pub fn label(&self) -> (s: &'static str)
        ensures
            s@ == kyu_label(*self),
    {
        match self {
            Kyu::Kyu10 => "10級",
            Kyu::Kyu9 => "9級",
            Kyu::Kyu8 => "8級",
            Kyu::Kyu7 => "7級",
            Kyu::Kyu6 => "6級",
            Kyu::Kyu5 => "5級",
            Kyu::Kyu4 => "4級",
            Kyu::Kyu3 => "3級",
            Kyu::Jun2 => "準2級",
            Kyu::Kyu2 => "2級",
            Kyu::Jun1 => "準1級",
            Kyu::Kyu1 => "1級",
        }
    }

    /// The grade stored as `value`, or `None` when `value` is not in `1..=12`.
    pub fn from_code(value: i32) -> (r: Option<Kyu>)
        ensures
            r == kyu_from_code(value),
    {
        match value {
            12 => Some(Kyu::Kyu10),
            11 => Some(Kyu::Kyu9),
            10 => Some(Kyu::Kyu8),
            9 => Some(Kyu::Kyu7),
            8 => Some(Kyu::Kyu6),
            7 => Some(Kyu::Kyu5),
            6 => Some(Kyu::Kyu4),
            5 => Some(Kyu::Kyu3),
            4 => Some(Kyu::Jun2),
            3 => Some(Kyu::Kyu2),
            2 => Some(Kyu::Jun1),
            1 => Some(Kyu::Kyu1),
            _ => None,
        }
    }
}

/// Every grade has a code, and decoding that code gives the grade back.
pub proof fn lemma_kyu_code_roundtrip(k: Kyu)
    ensures
        kyu_from_code(kyu_code(k)) == Some(k),
{
}

/// Exactly the codes `1..=12` decode to a grade, and the grade they decode
/// to is stored under that code.
pub proof fn lemma_kyu_codes_are_one_to_twelve(v: i32)
    ensures
        kyu_from_code(v) is Some <==> 1 <= v <= 12,
        kyu_from_code(v) matches Some(k) ==> kyu_code(k) == v,
{
}

/// The grades in display order are stored as 12 down to 1: every grade is
/// listed exactly once, from the easiest to the hardest.
pub proof fn lemma_all_kyus_in_order()
    ensures
        Kyu::ALL@.len() == 12,
        forall|i: int| 0 <= i < 12 ==> kyu_code(#[trigger] Kyu::ALL@[i]) == 12 - i,
        forall|k: Kyu| Kyu::ALL@.contains(k),
{
    assert(Kyu::ALL@ =~= seq![
        Kyu::Kyu10,
        Kyu::Kyu9,
        Kyu::Kyu8,
        Kyu::Kyu7,
        Kyu::Kyu6,
        Kyu::Kyu5,
        Kyu::Kyu4,
        Kyu::Kyu3,
        Kyu::Jun2,
        Kyu::Kyu2,
        Kyu::Jun1,
        Kyu::Kyu1,
    ]);
    assert forall|k: Kyu| Kyu::ALL@.contains(k) by {
        assert(Kyu::ALL@[12 - kyu_code(k)] == k);
    }
}

} // verus!
