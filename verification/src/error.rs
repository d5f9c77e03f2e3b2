//! The ways in which building an issue link can fail.

use vstd::prelude::*;
use vstd::string::StringExecFns;

verus! {

/// Why an issue link could not be built.
#[derive(Debug)]
pub enum Error {
    /// The repository owner given to the builder was the empty string.
    EmptyRepositoryOwner,
    /// The repository name given to the builder was the empty string.
    EmptyRepositoryName,
    /// The URL parser rejected the assembled link; the text is the parser's own message.
    UrlParseError(String),
}

/// The mathematical value of an [`Error`]: the same variants, with text as a sequence of characters.
pub ghost enum ErrorView {
    EmptyRepositoryOwner,
    EmptyRepositoryName,
    UrlParseError(Seq<char>),
}

impl View for Error {
    type V = ErrorView;

    open spec fn view(&self) -> ErrorView {
        match self {
            Error::EmptyRepositoryOwner => ErrorView::EmptyRepositoryOwner,
            Error::EmptyRepositoryName => ErrorView::EmptyRepositoryName,
            Error::UrlParseError(detail) => ErrorView::UrlParseError(detail@),
        }
    }
}

/// The mathematical value of a result of this library: the view of what it holds on either side.
pub open spec fn outcome<T: View>(result: Result<T, Error>) -> Result<T::V, ErrorView> {
    match result {
        Ok(value) => Ok(value@),
        Err(error) => Err(error@),
    }
}

impl ErrorView {
    /// The sentence shown to a user for this error.
    pub open spec fn message(self) -> Seq<char> {
        match self {
            ErrorView::EmptyRepositoryOwner => "Repository owner name is not defined"@,
            ErrorView::EmptyRepositoryName => "Repository name is not defined"@,
            ErrorView::UrlParseError(detail) => "Failed to parse URL with provided params. "@
                + detail,
        }
    }
}

impl Error {
    /// The sentence shown to a user for this error.
    pub fn to_string(&self) -> (text: String)
        ensures
            text@ == self@.message(),
    {
        match self {
            Error::EmptyRepositoryOwner => String::from_str("Repository owner name is not defined"),
            Error::EmptyRepositoryName => String::from_str("Repository name is not defined"),
            Error::UrlParseError(detail) => {
                let mut text = String::from_str("Failed to parse URL with provided params. ");
                text.append(detail.as_str());
                text
            },
        }
    }
}

} // verus!
