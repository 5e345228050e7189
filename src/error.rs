use vstd::prelude::*;

verus! {

/// Why a flow failed.
#[derive(Debug, Clone)]
pub enum IngestError {
    /// The document's bytes could not be read as its format; holds the parser's message.
    Extraction(String),
    /// The upload's framing or a text part could not be decoded.
    Multipart(String),
    /// Looking up a book in the catalog failed.
    CatalogLookup(String),
    /// Fetching a book's text failed.
    RemoteFetch(String),
    /// The book offers no plain text.
    NoPlainTextFormat,
    /// No translation credential is configured.
    Configuration,
}

/// Message of a book without plain text.
pub open spec fn no_plain_text_message() -> Seq<char> {
    "No plain text format available for this book"@
}

/// Message of a missing translation credential.
pub open spec fn configuration_message() -> Seq<char> {
    "DEEPL_API_KEY not set"@
}

impl IngestError {
    /// The error as one flat message.
    pub open spec fn spec_message(&self) -> Seq<char> {
        match self {
            IngestError::Extraction(m) => m@,
            IngestError::Multipart(m) => m@,
            IngestError::CatalogLookup(m) => m@,
            IngestError::RemoteFetch(m) => m@,
            IngestError::NoPlainTextFormat => no_plain_text_message(),
            IngestError::Configuration => configuration_message(),
        }
    }

    /// The error as one flat message, as the caller receives it.
    pub fn message(&self) -> (r: String)
        ensures
            r@ == self.spec_message(),
    {
        match self {
            IngestError::Extraction(m) => m.clone(),
            IngestError::Multipart(m) => m.clone(),
            IngestError::CatalogLookup(m) => m.clone(),
            IngestError::RemoteFetch(m) => m.clone(),
            IngestError::NoPlainTextFormat => String::from_str(
                "No plain text format available for this book",
            ),
            IngestError::Configuration => String::from_str("DEEPL_API_KEY not set"),
        }
    }
}

} // verus!
