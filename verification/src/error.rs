//! The failures of the pipeline and the classes they fall into.

use vstd::prelude::*;

verus! {

/// The class of a failure, which decides how a caller reacts to it.
#[derive(Debug, Clone, Copy, PartialEq, Eq, Structural)]
pub enum ErrorKind {
    /// A mandatory input is empty or missing: no job is created.
    Validation,
    /// A resource could not be fetched or read.
    Fetch,
    /// A fragment could not be embedded.
    Encode,
    /// The vector store refused an operation.
    Store,
    /// The progress record of a job is gone.
    State,
}

/// A failure of the pipeline.
#[derive(Debug, Clone, PartialEq, Eq)]
pub enum AppError {
    /// The mandatory URL of an upload is empty.
    EmptyUrl,
    /// A summary was asked for a document that has no basic text.
    MissingBasicText,
    /// The sitemap could not be retrieved, for this reason.
    SitemapFetch { reason: String },
    /// The sitemap could not be searched for page locations.
    SitemapParse,
    /// A page could not be searched for its title and body.
    ContentParse,
    /// Every page of a crawl failed to load.
    NoPageFetched,
    /// A single page has no body, and so yields no document.
    EmptyPage,
    /// The fragment at this position of a document has no embedding.
    Embedding { fragment: usize },
    /// A stored collection that an operation needs does not exist.
    MissingCollection { name: String },
    /// No progress record exists for this job.
    MissingProgress { job: u128 },
}

impl AppError {
    /// The class of the failure.
    pub open spec fn spec_kind(self) -> ErrorKind {
        match self {
            AppError::EmptyUrl => ErrorKind::Validation,
            AppError::MissingBasicText => ErrorKind::Validation,
            AppError::SitemapFetch { .. } => ErrorKind::Fetch,
            AppError::SitemapParse => ErrorKind::Fetch,
            AppError::ContentParse => ErrorKind::Fetch,
            AppError::NoPageFetched => ErrorKind::Fetch,
            AppError::EmptyPage => ErrorKind::Fetch,
            AppError::Embedding { .. } => ErrorKind::Encode,
            AppError::MissingCollection { .. } => ErrorKind::Store,
            AppError::MissingProgress { .. } => ErrorKind::State,
        }
    }

    /// Whether an ingestion loop may go on with its next document after this
    /// failure. A failure of the state is fatal to the worker that met it.
    pub open spec fn spec_recoverable(self) -> bool {
        self.spec_kind() == ErrorKind::Encode || self.spec_kind() == ErrorKind::Fetch
    }

    /// The text that describes the failure.
    pub open spec fn spec_message(self) -> Seq<char> {
        match self {
            AppError::EmptyUrl => "mandatory URL is empty"@,
            AppError::MissingBasicText => "Error adding summary, basic text not found"@,
            AppError::SitemapFetch { reason } => "Failed to fetch sitemap: "@ + reason@,
            AppError::SitemapParse => "Failed to parse loc selector"@,
            AppError::ContentParse => "Failed to parse content selector"@,
            AppError::NoPageFetched => "Failed to fetch any page of the sitemap"@,
            AppError::EmptyPage => "Failed to parse content, expected 1 document, got: 0"@,
            AppError::Embedding { .. } => "Could not embed fragment"@,
            AppError::MissingCollection { name } => "Collection: "@ + name@ + " does not exist"@,
            AppError::MissingProgress { .. } => "Failed to get state"@,
        }
    }

    /// The class of the failure.
    pub fn kind(&self) -> (kind: ErrorKind)
        ensures
            kind == self.spec_kind(),
    {
        match self {
            AppError::EmptyUrl => ErrorKind::Validation,
            AppError::MissingBasicText => ErrorKind::Validation,
            AppError::SitemapFetch { .. } => ErrorKind::Fetch,
            AppError::SitemapParse => ErrorKind::Fetch,
            AppError::ContentParse => ErrorKind::Fetch,
            AppError::NoPageFetched => ErrorKind::Fetch,
            AppError::EmptyPage => ErrorKind::Fetch,
            AppError::Embedding { .. } => ErrorKind::Encode,
            AppError::MissingCollection { .. } => ErrorKind::Store,
            AppError::MissingProgress { .. } => ErrorKind::State,
        }
    }

    /// Whether an ingestion loop may go on with its next document.
    pub fn is_recoverable(&self) -> (recoverable: bool)
        ensures
            recoverable == self.spec_recoverable(),
    {
        match self.kind() {
            ErrorKind::Encode => true,
            ErrorKind::Fetch => true,
            _ => false,
        }
    }

    /// The text that describes the failure.
    pub fn message(&self) -> (message: String)
        ensures
            message@ == self.spec_message(),
    {
        match self {
            AppError::EmptyUrl => String::from_str("mandatory URL is empty"),
            AppError::MissingBasicText => String::from_str(
                "Error adding summary, basic text not found",
            ),
            AppError::SitemapFetch { reason } => {
                let mut message = String::from_str("Failed to fetch sitemap: ");
                message.append(reason.as_str());
                message
            },
            AppError::SitemapParse => String::from_str("Failed to parse loc selector"),
            AppError::ContentParse => String::from_str("Failed to parse content selector"),
            AppError::NoPageFetched => String::from_str("Failed to fetch any page of the sitemap"),
            AppError::EmptyPage => String::from_str(
                "Failed to parse content, expected 1 document, got: 0",
            ),
            AppError::Embedding { .. } => String::from_str("Could not embed fragment"),
            AppError::MissingCollection { name } => {
                let mut message = String::from_str("Collection: ");
                message.append(name.as_str());
                message.append(" does not exist");
                message
            },
            AppError::MissingProgress { .. } => String::from_str("Failed to get state"),
        }
    }
}

} // verus!
