//! The errors of the library.

use vstd::prelude::*;
use crate::text::views;

verus! {

/// Why a stanza, or one of its fields, was refused.
#[derive(Clone, Debug, PartialEq, Eq)]
pub enum Error {
    /// The field (named) is present but is not exactly one line.
    NotOneLine(String),
    /// These lines were expected to be exactly one line.
    NotExactlyOneLine(Vec<String>),
    /// The field (named) is required but absent.
    Required(String),
    /// The `Format` of a source package is not one this library knows.
    UnsupportedFormat(String),
    /// The priority is not one this library knows.
    UnsupportedPriority(String),
    /// A `Package-List` line has fewer than four words.
    PackageListLineTooShort(String),
    /// A package named in `Package-List` is not (or no longer) in `Binary`.
    NotInBinary(String),
    /// Some names in `Binary` never appeared in `Package-List`.
    BinaryNotInPackageList,
    /// A checksum line does not have exactly three words.
    ChecksumLine(String),
    /// A size is not a decimal number that fits in 64 bits.
    BadSize(String),
    /// A checksum is not the right number of hexadecimal digits.
    BadChecksum(String),
    /// `Checksums-Sha256` names a file that `Files` does not.
    UnmatchedSha256,
    /// An identity in a list of people is malformed.
    BadIdentity(String),
    /// A dependency list did not parse; the rest of the text where it stopped.
    Dependency(String),
    /// A field name that no record field takes.
    UnrecognisedField(String),
    /// A URL (or a reference against a base URL) that does not parse.
    BadUrl(String),
}

/// `Error` with its texts as character sequences.
pub enum ErrorView {
    NotOneLine(Seq<char>),
    NotExactlyOneLine(Seq<Seq<char>>),
    Required(Seq<char>),
    UnsupportedFormat(Seq<char>),
    UnsupportedPriority(Seq<char>),
    PackageListLineTooShort(Seq<char>),
    NotInBinary(Seq<char>),
    BinaryNotInPackageList,
    ChecksumLine(Seq<char>),
    BadSize(Seq<char>),
    BadChecksum(Seq<char>),
    UnmatchedSha256,
    BadIdentity(Seq<char>),
    Dependency(Seq<char>),
    UnrecognisedField(Seq<char>),
    BadUrl(Seq<char>),
}

impl View for Error {
    type V = ErrorView;

    open spec fn view(&self) -> ErrorView {
        match self {
            Error::NotOneLine(s) => ErrorView::NotOneLine(s@),
            Error::NotExactlyOneLine(v) => ErrorView::NotExactlyOneLine(views(v@)),
            Error::Required(s) => ErrorView::Required(s@),
            Error::UnsupportedFormat(s) => ErrorView::UnsupportedFormat(s@),
            Error::UnsupportedPriority(s) => ErrorView::UnsupportedPriority(s@),
            Error::PackageListLineTooShort(s) => ErrorView::PackageListLineTooShort(s@),
            Error::NotInBinary(s) => ErrorView::NotInBinary(s@),
            Error::BinaryNotInPackageList => ErrorView::BinaryNotInPackageList,
            Error::ChecksumLine(s) => ErrorView::ChecksumLine(s@),
            Error::BadSize(s) => ErrorView::BadSize(s@),
            Error::BadChecksum(s) => ErrorView::BadChecksum(s@),
            Error::UnmatchedSha256 => ErrorView::UnmatchedSha256,
            Error::BadIdentity(s) => ErrorView::BadIdentity(s@),
            Error::Dependency(s) => ErrorView::Dependency(s@),
            Error::UnrecognisedField(s) => ErrorView::UnrecognisedField(s@),
            Error::BadUrl(s) => ErrorView::BadUrl(s@),
        }
    }
}

} // verus!
