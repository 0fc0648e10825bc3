//! The error taxonomy: every error aborts the whole conversion; there is no
//! local recovery and no partial output.

use vstd::prelude::*;

verus! {

use vstd::string::StringExecFns;

/// Why a conversion run was aborted.
#[derive(Debug)]
pub enum ConvError {
    /// A matched emoticon token names no known emoji: the token table and
    /// the emoji set are out of sync.  The shortcode is carried.
    UnknownEmoticon(String),
    /// The front-matter payload is malformed.  The payload is carried.
    FrontMatter(String),
    /// No front matter was seen by the end of the traversal.
    MissingFrontMatter,
    /// A footnote label is not a decimal integer, or its numeric position
    /// does not fit among the recorded definitions.  The label is carried.
    BadFootnoteLabel(String),
    /// A footnote definition was never referenced, so it has no counter.
    /// The label is carried.
    UnreferencedFootnote(String),
}

impl ConvError {
    /// A short description of the error, for display by the caller.
    pub fn describe(&self) -> (r: String)
        ensures
            match self {
                ConvError::UnknownEmoticon(s) => r@ == "emoticon with no matching emoji: "@
                    + s@,
                ConvError::FrontMatter(s) => r@ == "malformed front matter: "@ + s@,
                ConvError::MissingFrontMatter => r@ == "missing front matter"@,
                ConvError::BadFootnoteLabel(s) => r@ == "bad footnote label: "@ + s@,
                ConvError::UnreferencedFootnote(s) => r@ == "unreferenced footnote: "@ + s@,
            },
    {
        match self {
            ConvError::UnknownEmoticon(s) => {
                let mut r = String::from_str("emoticon with no matching emoji: ");
                r.append(s.as_str());
                r
            },
            ConvError::FrontMatter(s) => {
                let mut r = String::from_str("malformed front matter: ");
                r.append(s.as_str());
                r
            },
            ConvError::MissingFrontMatter => String::from_str("missing front matter"),
            ConvError::BadFootnoteLabel(s) => {
                let mut r = String::from_str("bad footnote label: ");
                r.append(s.as_str());
                r
            },
            ConvError::UnreferencedFootnote(s) => {
                let mut r = String::from_str("unreferenced footnote: ");
                r.append(s.as_str());
                r
            },
        }
    }
}

} // verus!
