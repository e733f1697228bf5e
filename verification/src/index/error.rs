//! The failures a search backend can report.

use vstd::prelude::*;
use vstd::string::*;

verus! {

/// A failure while opening the index a backend searches.
#[derive(Debug, PartialEq, Eq)]
pub enum IndexError {
    /// No index exists at the given location.
    FileNotFound,
    /// The backend could not load the index; the text is its explanation.
    IndexError(String),
}

/// A failure of a backend call; the text is the backend's explanation.
#[derive(Debug, PartialEq, Eq)]
pub enum IndexSearchError {
    IndexSearchError(String),
}

/// The form in which the standard library's `Debug` shows a text: between
/// double quotes, with the characters escaped that need it.
pub uninterp spec fn debug_form(text: Seq<char>) -> Seq<char>;

/// Calls the standard library's `Debug` formatting of `str`, through
/// `format!`.  Claimed: what it gives depends on the text alone, so it is the
/// `debug_form` of the text.  Nothing is claimed about what that form holds.
#[verifier::external_body]
fn debug_text(text: &str) -> (shown: String)
    ensures
        shown@ == debug_form(text@),
{
    format!("{:?}", text)
}

/// The text every backend failure message starts with.
pub open spec fn service_prefix() -> Seq<char> {
    "SearchService: "@
}

impl IndexError {
    /// What [`IndexError::message`] returns.
    pub open spec fn spec_message(self) -> Seq<char> {
        match self {
            IndexError::FileNotFound => "SearchService: Index not found"@,
            IndexError::IndexError(reason) => service_prefix() + reason@,
        }
    }

    /// The text shown to a user for this failure.
    pub fn message(&self) -> (text: String)
        ensures
            text@ == self.spec_message(),
    {
        match self {
            IndexError::FileNotFound => String::from_str("SearchService: Index not found"),
            IndexError::IndexError(reason) => {
                String::from_str("SearchService: ").concat(reason.as_str())
            },
        }
    }
}

impl IndexSearchError {
    /// What [`IndexSearchError::message`] returns.
    pub open spec fn spec_message(self) -> Seq<char> {
        match self {
            IndexSearchError::IndexSearchError(reason) => service_prefix() + reason@,
        }
    }

    /// What [`IndexSearchError::framed`] returns.
    pub open spec fn spec_framed(shown: Seq<char>) -> Seq<char> {
        "IndexSearchError("@ + shown + ")"@
    }

    /// What [`IndexSearchError::debug_text`] returns: the variant's name with
    /// the `Debug` form of the explanation in brackets.
    pub open spec fn spec_debug_text(self) -> Seq<char> {
        match self {
            IndexSearchError::IndexSearchError(reason) => Self::spec_framed(debug_form(reason@)),
        }
    }

    /// Puts the shown form of an explanation in brackets behind the
    /// variant's name.
    pub fn framed(shown: &str) -> (text: String)
        ensures
            text@ == Self::spec_framed(shown@),
    {
        String::from_str("IndexSearchError(").concat(shown).concat(")")
    }

    /// The failure as `Debug` shows it.
    pub fn debug_text(&self) -> (text: String)
        ensures
            text@ == self.spec_debug_text(),
    {
        match self {
            IndexSearchError::IndexSearchError(reason) => {
                let shown = debug_text(reason.as_str());
                Self::framed(shown.as_str())
            },
        }
    }

    /// The text shown to a user for this failure.
    pub fn message(&self) -> (text: String)
        ensures
            text@ == self.spec_message(),
    {
        match self {
            IndexSearchError::IndexSearchError(reason) => {
                String::from_str("SearchService: ").concat(reason.as_str())
            },
        }
    }
}

impl From<String> for IndexError {
    /// Wraps the explanation a backend gave for not loading an index.
    fn from(value: String) -> (error: IndexError) {
        IndexError::IndexError(value)
    }
}

impl vstd::std_specs::convert::FromSpecImpl<String> for IndexError {
    open spec fn obeys_from_spec() -> bool {
        true
    }

    open spec fn from_spec(value: String) -> IndexError {
        IndexError::IndexError(value)
    }
}

impl From<String> for IndexSearchError {
    /// Wraps the explanation a backend gave for a failed call.
    fn from(value: String) -> (error: IndexSearchError) {
        IndexSearchError::IndexSearchError(value)
    }
}

impl vstd::std_specs::convert::FromSpecImpl<String> for IndexSearchError {
    open spec fn obeys_from_spec() -> bool {
        true
    }

    open spec fn from_spec(value: String) -> IndexSearchError {
        IndexSearchError::IndexSearchError(value)
    }
}

impl Clone for IndexSearchError {
    /// A second value equal to this one, so that one backend failure can be
    /// reported to every request of a bucket.
    fn clone(&self) -> (copy: IndexSearchError)
        ensures
            copy == *self,
    {
        match self {
            IndexSearchError::IndexSearchError(reason) => {
                IndexSearchError::IndexSearchError(reason.clone())
            },
        }
    }
}

impl Clone for IndexError {
    fn clone(&self) -> (copy: IndexError)
        ensures
            copy == *self,
    {
        match self {
            IndexError::FileNotFound => IndexError::FileNotFound,
            IndexError::IndexError(reason) => IndexError::IndexError(reason.clone()),
        }
    }
}

} // verus!
