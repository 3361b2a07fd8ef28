//! What can go wrong while one file is looked up.

use vstd::prelude::*;
use vstd::string::*;

verus! {

/// The ways in which the lookup of one file ends without a subtitle.
#[derive(Debug, PartialEq, Eq)]
pub enum SubError {
    /// A round trip to the catalog or the download failed in transit. The text
    /// is the transport's own account of it.
    NetworkError(String),
    /// A local file could not be read or written.
    Io(String),
    /// The pattern that names the files to look at is not a valid pattern.
    Pattern(String),
    /// The download is not an archive that can be read.
    Zip(String),
    /// The archive holds no subtitle.
    ZipEmpty,
    /// The catalog's reply does not have the expected shape.
    SvrInvalidResponse,
    /// The catalog refused the login.
    SvrInvalidCredentials,
    /// The catalog knows no subtitle for the file.
    SvrNoSubtitlesFound,
}

impl SubError {
    /// What the failure says of itself: for a failure that comes with a text,
    /// that text; for any other, its name.
    pub open spec fn message_text(&self) -> Seq<char> {
        match self {
            SubError::NetworkError(text) => text@,
            SubError::Io(text) => text@,
            SubError::Pattern(text) => text@,
            SubError::Zip(text) => text@,
            SubError::ZipEmpty => "Zip file empty"@,
            SubError::SvrInvalidResponse => "SvrInvalidResponse"@,
            SubError::SvrInvalidCredentials => "SvrInvalidCredentials"@,
            SubError::SvrNoSubtitlesFound => "SvrNoSubtitlesFound"@,
        }
    }

    /// The text to show for this failure.
    pub fn message(&self) -> (text: String)
        ensures
            text@ == self.message_text(),
    {
        match self {
            SubError::NetworkError(text) => text.clone(),
            SubError::Io(text) => text.clone(),
            SubError::Pattern(text) => text.clone(),
            SubError::Zip(text) => text.clone(),
            SubError::ZipEmpty => String::from_str("Zip file empty"),
            SubError::SvrInvalidResponse => String::from_str("SvrInvalidResponse"),
            SubError::SvrInvalidCredentials => String::from_str("SvrInvalidCredentials"),
            SubError::SvrNoSubtitlesFound => String::from_str("SvrNoSubtitlesFound"),
        }
    }
}

} // verus!
