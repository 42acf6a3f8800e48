//! The failures that encoding and decoding report.

use vstd::prelude::*;
use vstd::std_specs::convert::FromSpecImpl;

verus! {

/// Errors that are returned by this crate.
#[derive(Debug, PartialEq, Clone)]
pub enum Error {
    /// The bytes written for a value are not as many as its size announced.
    EncodingError(String),
    /// The payload of a vector is longer than its length field can say.
    InvalidVectorLength,
    /// Not everything could be written out.
    InvalidWriteLength(String),
    /// A conversion to a value of fixed size failed.
    InvalidInput,
    /// The bytes are malformed.
    DecodingError(String),
    /// The input ended while more bytes were expected.
    EndOfStream,
}

/// An [`Error`] as contracts see it: its variant, and the text it carries as a
/// sequence of characters.
pub enum ErrorView {
    EncodingError(Seq<char>),
    InvalidVectorLength,
    InvalidWriteLength(Seq<char>),
    InvalidInput,
    DecodingError(Seq<char>),
    EndOfStream,
}

impl View for Error {
    type V = ErrorView;

    open spec fn view(&self) -> ErrorView {
        match self {
            Error::EncodingError(text) => ErrorView::EncodingError(text@),
            Error::InvalidVectorLength => ErrorView::InvalidVectorLength,
            Error::InvalidWriteLength(text) => ErrorView::InvalidWriteLength(text@),
            Error::InvalidInput => ErrorView::InvalidInput,
            Error::DecodingError(text) => ErrorView::DecodingError(text@),
            Error::EndOfStream => ErrorView::EndOfStream,
        }
    }
}

/// The character that stands for the decimal digit `digit`.
pub open spec fn spec_digit(digit: nat) -> char {
    if digit == 0 {
        '0'
    } else if digit == 1 {
        '1'
    } else if digit == 2 {
        '2'
    } else if digit == 3 {
        '3'
    } else if digit == 4 {
        '4'
    } else if digit == 5 {
        '5'
    } else if digit == 6 {
        '6'
    } else if digit == 7 {
        '7'
    } else if digit == 8 {
        '8'
    } else {
        '9'
    }
}

/// The decimal digits of `number`, the first of them not 0 unless the number
/// is 0.
pub open spec fn spec_decimal(number: nat) -> Seq<char>
    decreases number,
{
    if number < 10 {
        seq![spec_digit(number)]
    } else {
        spec_decimal(number / 10).push(spec_digit(number % 10))
    }
}

/// The text of the failure for an optional value whose tag byte is `tag`,
/// neither 0 nor 1.
pub open spec fn option_tag_text(tag: u8) -> Seq<char> {
    "Trying to decode Option<T> with "@ + spec_decimal(tag as nat)
        + " for option. It must be 0 for None and 1 for Some."@
}

/// The text of the failure for a vector of which `expected` bytes should have
/// been written and `written` were.
pub open spec fn written_length_text(expected: nat, written: nat) -> Seq<char> {
    spec_decimal(expected) + " bytes should have been serialized but "@ + spec_decimal(written)
        + " were written"@
}

/// The text of the failure for a vector whose elements end after `read` bytes
/// of a payload that was declared `expected` bytes long.
pub open spec fn read_length_text(read: nat, expected: nat) -> Seq<char> {
    spec_decimal(read) + " bytes were read but "@ + spec_decimal(expected) + " were expected"@
}

/// The text of the failure for an encoding of which `written` bytes were
/// reported as written and that holds `held` bytes.
pub open spec fn held_length_text(written: nat, held: nat) -> Seq<char> {
    "Expected that "@ + spec_decimal(written) + " bytes were written but the output holds "@
        + spec_decimal(held) + " bytes"@
}

/// The text of the failure for a discriminant `value` that no variant of an
/// enumeration has.
pub open spec fn unmatched_value_text(value: u64) -> Seq<char> {
    "Unmatched value "@ + spec_decimal(value as nat)
}

/// What `Debug` prints for a string that holds `text`: the text between
/// double quotes, with the characters escaped that Rust escapes in a string
/// literal.
pub uninterp spec fn debug_text(text: Seq<char>) -> Seq<char>;

/// Formats the text for a discriminant that no variant has with `format!`,
/// which prints an unsigned integer in decimal digits.
#[verifier::external_body]
pub(crate) fn unmatched_value_message(value: u64) -> (text: String)
    ensures
        text@ == unmatched_value_text(value),
{
    format!("Unmatched value {:?}", value)
}

/// Formats the text for a tag byte that is neither 0 nor 1 with `format!`,
/// which prints an unsigned integer in decimal digits.
#[verifier::external_body]
pub(crate) fn option_tag_message(tag: u8) -> (text: String)
    ensures
        text@ == option_tag_text(tag),
{
    format!(
        "Trying to decode Option<T> with {} for option. It must be 0 for None and 1 for Some.",
        tag
    )
}

/// Formats the text for a vector whose written length differs from the
/// announced one with `format!`, which prints an unsigned integer in decimal
/// digits.
#[verifier::external_body]
pub(crate) fn written_length_message(expected: usize, written: usize) -> (text: String)
    ensures
        text@ == written_length_text(expected as nat, written as nat),
{
    format!(
        "{} bytes should have been serialized but {} were written",
        expected, written
    )
}

/// Formats the text for a payload whose elements do not end where the
/// declared length does with `format!`, which prints an unsigned integer in
/// decimal digits.
#[verifier::external_body]
pub(crate) fn read_length_message(read: usize, expected: usize) -> (text: String)
    ensures
        text@ == read_length_text(read as nat, expected as nat),
{
    format!("{} bytes were read but {} were expected", read, expected)
}

/// Formats the text for an encoding that does not hold as many bytes as were
/// reported with `format!`, which prints an unsigned integer in decimal
/// digits.
#[verifier::external_body]
pub(crate) fn held_length_message(written: usize, held: usize) -> (text: String)
    ensures
        text@ == held_length_text(written as nat, held as nat),
{
    format!(
        "Expected that {} bytes were written but the output holds {} bytes",
        written, held
    )
}

/// The failure that this crate reports for a failure of the input: the end of
/// the stream where the input ended early, and else a decoding error that
/// carries `detail`.
pub open spec fn spec_input_failure(unexpected_eof: bool, detail: Seq<char>) -> ErrorView {
    if unexpected_eof {
        ErrorView::EndOfStream
    } else {
        ErrorView::DecodingError(detail)
    }
}

impl Error {
    /// The error for a failure of the input: the end of the stream where the
    /// input ended early, and else a decoding error that carries `detail`.
    pub fn from_input_failure(unexpected_eof: bool, detail: String) -> (error: Error)
        ensures
            error@ == spec_input_failure(unexpected_eof, detail@),
    {
        if unexpected_eof {
            Error::EndOfStream
        } else {
            Error::DecodingError(detail)
        }
    }

    /// The error as text: its variant and what it carries, as the derived
    /// `Debug` prints them with `format!`.
    #[verifier::external_body]
    pub fn to_string(&self) -> (text: String)
        ensures
            text@ == match self@ {
                ErrorView::EncodingError(carried) => "EncodingError("@ + debug_text(carried)
                    + ")"@,
                ErrorView::InvalidVectorLength => "InvalidVectorLength"@,
                ErrorView::InvalidWriteLength(carried) => "InvalidWriteLength("@ + debug_text(
                    carried,
                ) + ")"@,
                ErrorView::InvalidInput => "InvalidInput"@,
                ErrorView::DecodingError(carried) => "DecodingError("@ + debug_text(carried)
                    + ")"@,
                ErrorView::EndOfStream => "EndOfStream"@,
            },
    {
        format!("{:?}", self)
    }
}

/// `std::io::Error`, the failure of a reader or writer. Nothing of it is
/// visible here.
#[verifier::external_type_specification]
#[verifier::external_body]
pub struct ExIoError(std::io::Error);

/// `std::array::TryFromSliceError`, the failure of converting a slice to an
/// array of another length. Nothing of it is visible here.
#[verifier::external_type_specification]
#[verifier::external_body]
pub struct ExTryFromSliceError(std::array::TryFromSliceError);

/// Whether `std::io::Error::kind` says of `error` that the input ended early:
/// whether the kind is `UnexpectedEof`.
pub uninterp spec fn io_error_ends_early(error: std::io::Error) -> bool;

/// Asks `std::io::Error::kind` whether the input ended early. The answer
/// depends on the error alone; the contract gives it its name.
#[verifier::external_body]
fn is_unexpected_eof(error: &std::io::Error) -> (eof: bool)
    ensures
        eof == io_error_ends_early(*error),
{
    matches!(error.kind(), std::io::ErrorKind::UnexpectedEof)
}

/// Formats `error` as `Debug` prints it with `format!`, behind the words
/// "io error". Nothing is claimed of the text: for a failure of the operating
/// system it holds the system's own description.
#[verifier::external_body]
fn io_error_message(error: &std::io::Error) -> String {
    format!("io error: {:?}", error)
}

impl From<std::io::Error> for Error {
    /// The end of the stream where the input ended early, and else a decoding
    /// error that carries the failure as text.
    fn from(error: std::io::Error) -> (res: Error)
        ensures
            res@ is EndOfStream <==> io_error_ends_early(error),
            !io_error_ends_early(error) ==> res@ is DecodingError,
    {
        let unexpected_eof: bool = is_unexpected_eof(&error);
        let detail: String = io_error_message(&error);
        Error::from_input_failure(unexpected_eof, detail)
    }
}

impl FromSpecImpl<std::io::Error> for Error {
    /// The text that a decoding error carries is not a function of anything
    /// that is visible here.
    open spec fn obeys_from_spec() -> bool {
        false
    }

    open spec fn from_spec(error: std::io::Error) -> Error {
        arbitrary()
    }
}

impl From<std::array::TryFromSliceError> for Error {
    /// A slice that has not the length of the array asked for is invalid
    /// input.
    fn from(error: std::array::TryFromSliceError) -> (res: Error)
        ensures
            res@ == ErrorView::InvalidInput,
    {
        Error::InvalidInput
    }
}

impl FromSpecImpl<std::array::TryFromSliceError> for Error {
    open spec fn obeys_from_spec() -> bool {
        true
    }

    open spec fn from_spec(error: std::array::TryFromSliceError) -> Error {
        Error::InvalidInput
    }
}

impl From<std::num::TryFromIntError> for Error {
    /// A length that does not fit the integer type asked for is an invalid
    /// vector length.
    fn from(error: std::num::TryFromIntError) -> (res: Error)
        ensures
            res@ == ErrorView::InvalidVectorLength,
    {
        Error::InvalidVectorLength
    }
}

impl FromSpecImpl<std::num::TryFromIntError> for Error {
    open spec fn obeys_from_spec() -> bool {
        true
    }

    open spec fn from_spec(error: std::num::TryFromIntError) -> Error {
        Error::InvalidVectorLength
    }
}

impl From<std::convert::Infallible> for Error {
    /// There is no value of `Infallible`, so that this is never called; the
    /// conversion exists where a length is converted to its own type.
    fn from(error: std::convert::Infallible) -> (res: Error)
        ensures
            res@ == ErrorView::InvalidVectorLength,
    {
        Error::InvalidVectorLength
    }
}

impl FromSpecImpl<std::convert::Infallible> for Error {
    open spec fn obeys_from_spec() -> bool {
        true
    }

    open spec fn from_spec(error: std::convert::Infallible) -> Error {
        Error::InvalidVectorLength
    }
}

} // verus!
