//! Reader for the question banks of a kanji proficiency exam application.
//!
//! The library decodes the binary question files (Unity serialized
//! `MonoBehaviour` assets), reads the field master table (CSV), joins the two
//! into question fields, and holds the state logic of the question browser.

pub mod bank;
pub mod browser;
pub mod decode;
pub mod fields;
pub mod kyu;
pub mod layout;
pub mod master;
pub mod present;
pub mod question;
pub mod report;
pub mod text;
pub mod types;

pub use bank::parse_question_file;
pub use fields::{parse_all_fields, ParseError};
pub use kyu::Kyu;
pub use master::parse_field_master;
pub use question::parse_question_item;
pub use types::{
    AllocationScore, AnswerType, DispDictionaryType, FieldInfo, QuestionField, QuestionFile,
    QuestionItem,
};
