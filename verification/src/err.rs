use vstd::prelude::*;

verus! {

/// Why one crawl step failed.
///
/// Every variant is fatal to the step that raised it and is handed back to
/// the caller of the driver; no variant aborts the crawl as a whole.
#[derive(Debug, Clone, PartialEq, Eq)]
pub enum HTTPError {
    /// DNS, TLS or connection failure, with the underlying cause.
    TransportError(String),
    /// A terminal non-success response, carrying the HTTP status.
    StatusError(u16),
    /// More redirect hops than the fetch client follows.
    RedirectExhausted,
    /// A redirect response without a usable `Location` header.
    MalformedResponse,
    /// The robots policy of the target host forbids the path.
    PolitenessDenied,
    /// A selector handed to the document could not be parsed.
    SelectorError(String),
    /// The body of a fetched page is not valid UTF-8.
    EncodingError(String),
    /// The storage sink failed to persist a batch of records.
    StorageError(String),
}

/// The mathematical image of an `HTTPError`.
pub ghost enum ErrV {
    Transport(Seq<char>),
    Status(u16),
    RedirectExhausted,
    Malformed,
    PolitenessDenied,
    Selector(Seq<char>),
    Encoding(Seq<char>),
    Storage(Seq<char>),
}

impl View for HTTPError {
    type V = ErrV;

    open spec fn view(&self) -> ErrV {
        match self {
            HTTPError::TransportError(s) => ErrV::Transport(s@),
            HTTPError::StatusError(c) => ErrV::Status(*c),
            HTTPError::RedirectExhausted => ErrV::RedirectExhausted,
            HTTPError::MalformedResponse => ErrV::Malformed,
            HTTPError::PolitenessDenied => ErrV::PolitenessDenied,
            HTTPError::SelectorError(s) => ErrV::Selector(s@),
            HTTPError::EncodingError(s) => ErrV::Encoding(s@),
            HTTPError::StorageError(s) => ErrV::Storage(s@),
        }
    }
}

} // verus!
