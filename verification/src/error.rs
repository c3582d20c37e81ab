//! The errors of a decode.

use vstd::prelude::*;
use vstd::string::*;
use crate::shape::IntKind;

verus! {

/// The error that the tokenizer reports for malformed markup.
#[verifier::external_type_specification]
#[verifier::external_body]
pub struct ExReaderError(xml::reader::Error);

/// The error that std reports for a text that is no integer of the asked width.
#[verifier::external_type_specification]
#[verifier::external_body]
pub struct ExParseIntError(std::num::ParseIntError);

/// Any failure of a decode. Every one of them ends the decode.
#[derive(Debug)]
pub struct DecodeError(pub Box<ErrorImpl>);

#[derive(Debug)]
pub enum ErrorImpl {
    /// The document does not have the structure that was asked for.
    Message(String),
    /// The markup itself is malformed.
    Reader(xml::reader::Error),
    /// Some text is no integer, as std reported it.
    ParseIntError(std::num::ParseIntError),
    /// `text` is no integer of width `kind`; `cause` says why.
    Scalar { text: String, kind: IntKind, cause: std::num::ParseIntError },
}

/// The text that `Display` gives for an error of the tokenizer.
pub uninterp spec fn reader_error_text(err: xml::reader::Error) -> Seq<char>;

/// The text that `Display` gives for std's integer error.
pub uninterp spec fn parse_int_error_text(err: std::num::ParseIntError) -> Seq<char>;

/// The copy that `Clone` makes of an error of the tokenizer.
pub uninterp spec fn reader_error_copy(err: xml::reader::Error) -> xml::reader::Error;

/// An error as the model of a decode knows it: its kind and what it
/// carries.
pub enum Failure {
    /// The document does not have the structure that was asked for;
    /// this is the description of what was expected and found.
    Structure(Seq<char>),
    /// The markup is malformed; this is the tokenizer's error.
    Malformed(xml::reader::Error),
    /// Some text is no integer, as std reported it.
    Integer(std::num::ParseIntError),
    /// This text is no integer of this width.
    Scalar(Seq<char>, IntKind),
}

/// Which of the three kinds an error is.
#[derive(Debug, Clone, Copy, PartialEq, Eq, Structural)]
pub enum ErrorKind {
    Structure,
    Malformed,
    ScalarParse,
}

impl DecodeError {
    pub open spec fn spec_kind(&self) -> ErrorKind {
        match *self.0 {
            ErrorImpl::Message(_) => ErrorKind::Structure,
            ErrorImpl::Reader(_) => ErrorKind::Malformed,
            ErrorImpl::ParseIntError(_) => ErrorKind::ScalarParse,
            ErrorImpl::Scalar { .. } => ErrorKind::ScalarParse,
        }
    }

    /// This error as the model of a decode knows it.
    pub open spec fn failure(&self) -> Failure {
        match *self.0 {
            ErrorImpl::Message(m) => Failure::Structure(m@),
            ErrorImpl::Reader(err) => Failure::Malformed(err),
            ErrorImpl::ParseIntError(err) => Failure::Integer(err),
            ErrorImpl::Scalar { text, kind, .. } => Failure::Scalar(text@, kind),
        }
    }

    /// The text that could not be read as a scalar, where the error says which.
    pub open spec fn offending_text(&self) -> Option<Seq<char>> {
        match *self.0 {
            ErrorImpl::Scalar { text, .. } => Some(text@),
            _ => None,
        }
    }

    /// The kind of this error.
    #[verifier::when_used_as_spec(spec_kind)]
    pub fn kind(&self) -> (k: ErrorKind)
        ensures
            k == self.spec_kind(),
    {
        match &*self.0 {
            ErrorImpl::Message(_) => ErrorKind::Structure,
            ErrorImpl::Reader(_) => ErrorKind::Malformed,
            ErrorImpl::ParseIntError(_) => ErrorKind::ScalarParse,
            ErrorImpl::Scalar { .. } => ErrorKind::ScalarParse,
        }
    }

    /// The text to show for this error: the description of a structural
    /// error; the text that the tokenizer's or std's error displays; for a
    /// text that is no integer, what std's error displays, a colon, a
    /// space and that text.
    pub fn message(&self) -> (shown: String)
        ensures
            shown@ == match *self.0 {
                ErrorImpl::Message(m) => m@,
                ErrorImpl::Reader(err) => reader_error_text(err),
                ErrorImpl::ParseIntError(err) => parse_int_error_text(err),
                ErrorImpl::Scalar { text, cause, .. } => parse_int_error_text(cause) + ": "@ + text@,
            },
    {
        match &*self.0 {
            ErrorImpl::Message(m) => m.clone(),
            ErrorImpl::Reader(err) => show_reader_error(err),
            ErrorImpl::ParseIntError(err) => show_parse_int_error(err),
            ErrorImpl::Scalar { text, cause, .. } => {
                let mut shown = show_parse_int_error(cause);
                shown.append(": ");
                shown.append(text.as_str());
                shown
            },
        }
    }
}

/// `Display` of `xml::reader::Error`: the position and what is wrong
/// there. The text is a function of the error alone, and is only given
/// its name here.
#[verifier::external_body]
fn show_reader_error(err: &xml::reader::Error) -> (text: String)
    ensures
        text@ == reader_error_text(*err),
{
    format!("{}", err)
}

/// `Display` of `std::num::ParseIntError`. The text is a function of the
/// error alone, and is only given its name here.
#[verifier::external_body]
fn show_parse_int_error(err: &std::num::ParseIntError) -> (text: String)
    ensures
        text@ == parse_int_error_text(*err),
{
    format!("{}", err)
}

/// A structural error with the given description.
pub fn with_message(s: String) -> (e: DecodeError)
    ensures
        *e.0 == ErrorImpl::Message(s),
        e.spec_kind() == ErrorKind::Structure,
{
    DecodeError(Box::new(ErrorImpl::Message(s)))
}

/// The error for a text that is no integer of the asked width.
pub fn parse_int(err: std::num::ParseIntError) -> (e: DecodeError)
    ensures
        *e.0 == ErrorImpl::ParseIntError(err),
        e.spec_kind() == ErrorKind::ScalarParse,
{
    DecodeError(Box::new(ErrorImpl::ParseIntError(err)))
}

/// The error for `text`, which is no integer of width `kind`.
pub fn scalar_parse(text: String, kind: IntKind, cause: std::num::ParseIntError) -> (e: DecodeError)
    ensures
        *e.0 == (ErrorImpl::Scalar { text, kind, cause }),
        e.spec_kind() == ErrorKind::ScalarParse,
        e.offending_text() == Some(text@),
{
    DecodeError(Box::new(ErrorImpl::Scalar { text, kind, cause }))
}

/// The error for malformed markup, as the tokenizer reported it.
pub fn reader(err: xml::reader::Error) -> (e: DecodeError)
    ensures
        *e.0 == ErrorImpl::Reader(err),
        e.spec_kind() == ErrorKind::Malformed,
{
    DecodeError(Box::new(ErrorImpl::Reader(err)))
}

} // verus!
