//! What can go wrong while a user's list is read from the site.

use std::num::ParseIntError;
use vstd::prelude::*;

verus! {

/// A failure of one user's retrieval. Each one ends that retrieval.
#[derive(Debug)]
pub enum LetterboxdError {
    /// A list item lacks the named attribute.
    HtmlMissingAttr(String),
    /// The site has no profile of that name.
    UserNotFound(String),
    /// The page has a pagination control without a single page link.
    PaginationElementNotFound,
    /// A film id or a page number is not a number.
    ParseError(ParseIntError),
    /// A rating marker holds something other than a glyph string.
    UnknownGlyph(String),
    /// A page is longer than what is handed to the HTML engine.
    PageTooLong,
}

/// A failure as plain values. The detail of a number that did not parse is
/// left out: it is std's to describe.
pub enum Fault {
    MissingAttr(Seq<char>),
    UserNotFound(Seq<char>),
    NoPageLink,
    BadNumber,
    UnknownGlyph(Seq<char>),
    PageTooLong,
}

impl View for LetterboxdError {
    type V = Fault;

    open spec fn view(&self) -> Fault {
        match *self {
            LetterboxdError::HtmlMissingAttr(attr) => Fault::MissingAttr(attr@),
            LetterboxdError::UserNotFound(user) => Fault::UserNotFound(user@),
            LetterboxdError::PaginationElementNotFound => Fault::NoPageLink,
            LetterboxdError::ParseError(_) => Fault::BadNumber,
            LetterboxdError::UnknownGlyph(glyph) => Fault::UnknownGlyph(glyph@),
            LetterboxdError::PageTooLong => Fault::PageTooLong,
        }
    }
}

/// The text of std's `Debug` for a `ParseIntError`, made by `format!`.
#[verifier::external_body]
fn parse_error_detail(error: &ParseIntError) -> (detail: String) {
    format!("{:?}", error)
}

impl LetterboxdError {
    /// The message for the person who asked.
    pub fn message(&self) -> (text: String)
        ensures
            match *self {
                LetterboxdError::HtmlMissingAttr(attr) => text@ == "missing attr "@ + attr@,
                LetterboxdError::UserNotFound(user) => text@ == "user not found "@ + user@,
                LetterboxdError::PaginationElementNotFound => text@
                    == "Error while getting the number of pages"@,
                LetterboxdError::ParseError(_) => exists|detail: Seq<char>|
                    text@ == "parsing failed: "@ + detail,
                LetterboxdError::UnknownGlyph(glyph) => text@ == "unknown rating: '"@ + glyph@
                    + "'"@,
                LetterboxdError::PageTooLong => text@ == "page too long to read"@,
            },
    {
        match self {
            LetterboxdError::HtmlMissingAttr(attr) => String::from_str("missing attr ").concat(
                attr.as_str(),
            ),
            LetterboxdError::UserNotFound(user) => String::from_str("user not found ").concat(
                user.as_str(),
            ),
            LetterboxdError::PaginationElementNotFound => String::from_str(
                "Error while getting the number of pages",
            ),
            LetterboxdError::ParseError(error) => {
                let detail = parse_error_detail(error);
                String::from_str("parsing failed: ").concat(detail.as_str())
            },
            LetterboxdError::UnknownGlyph(glyph) => String::from_str("unknown rating: '").concat(
                glyph.as_str(),
            ).concat("'"),
            LetterboxdError::PageTooLong => String::from_str("page too long to read"),
        }
    }
}

} // verus!
