//! A polite, pluggable web crawler core.
//!
//! Given a frontier of URLs, the driver pulls one URL per step, fetches it
//! over HTTP(S) while honouring the target host's robots policy, follows
//! redirects up to a fixed bound, parses the page, hands it to a pluggable
//! extraction stage, forwards the extracted records to a pluggable sink and
//! feeds newly discovered URLs back into the frontier.
//!
//! The network itself is outside this crate: fetching is modelled as a state
//! machine (`http::GetStep`), and the embedding program performs each
//! requested GET and feeds the outcome back in as an `http::HttpEvent`.

pub mod driver;
pub mod err;
pub mod extract;
pub mod http;
pub mod implem;
pub mod robots;
pub mod url;
pub mod util;

pub use err::HTTPError;
pub use url::Url;
