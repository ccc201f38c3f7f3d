//! What one measurement run is pointed at, and the per-protocol settings of
//! the engine.
use vstd::prelude::*;
use crate::protocol::{host_port_spec, split_host_port};

verus! {

/// The wire protocol spoken by the remote endpoints.
#[derive(Clone, Copy, Debug, PartialEq, Eq, Structural)]
pub enum Protocol {
    /// Command lines over a bare TCP socket; endpoints are `host:port`.
    RawTcp,
    /// HTTP GET for downloads, chunked POST for uploads; endpoints are URLs.
    HttpChunked,
}

/// The tunable constants of one protocol.
#[derive(Clone, Copy, Debug, PartialEq, Eq, Structural)]
pub struct PhaseSettings {
    /// Ticks `0..=ramp_up_ticks` report per-tick deltas.
    pub ramp_up_ticks: usize,
    /// Readings per phase.
    pub ticks: usize,
    pub tick_millis: u64,
    pub probe_samples: usize,
    pub probe_timeout_micros: u64,
}

impl Protocol {
    pub open spec fn settings_spec(self) -> PhaseSettings {
        PhaseSettings {
            ramp_up_ticks: 2,
            ticks: 15,
            tick_millis: 1000,
            probe_samples: 5,
            probe_timeout_micros: 10_000_000,
        }
    }

    pub fn settings(self) -> (r: PhaseSettings)
        ensures
            r == self.settings_spec(),
            r.ramp_up_ticks < r.ticks,
            r.tick_millis > 0,
            r.probe_samples <= crate::latency::MAX_SAMPLES,
    {
        PhaseSettings {
            ramp_up_ticks: 2,
            ticks: 15,
            tick_millis: 1000,
            probe_samples: 5,
            probe_timeout_micros: 10_000_000,
        }
    }
}

/// Host and port of a URL as `url::Url` reads them: the host text and the
/// explicit port or the scheme's default; `None` when the URL does not parse
/// or lacks either.
pub uninterp spec fn url_host_port_of(url: Seq<char>) -> Option<(Seq<char>, u16)>;

/// A URL with its query replaced, as `url::Url` serialises it; `None` when
/// the URL does not parse.
pub uninterp spec fn url_with_query_of(url: Seq<char>, query: Seq<char>) -> Option<Seq<char>>;

/// Relies on `Url::parse`, `Url::host_str` and `Url::port_or_known_default`
/// of the url crate (re-exported by reqwest) to read a URL's host and port.
#[verifier::external_body]
fn url_host_port(url: &str) -> (r: Option<(String, u16)>)
    ensures
        match r {
            Some((h, p)) => url_host_port_of(url@) == Some((h@, p)),
            None => url_host_port_of(url@) is None,
        },
{
    let parsed = reqwest::Url::parse(url).ok()?;
    let host = parsed.host_str()?;
    let port = parsed.port_or_known_default()?;
    Some((host.to_string(), port))
}

/// Relies on `Url::parse` and `Url::set_query` of the url crate
/// (re-exported by reqwest) to put a query on a URL.
#[verifier::external_body]
fn url_with_query(url: &str, query: &str) -> (r: Option<String>)
    ensures
        match r {
            Some(u) => url_with_query_of(url@, query@) == Some(u@),
            None => url_with_query_of(url@, query@) is None,
        },
{
    let mut parsed = reqwest::Url::parse(url).ok()?;
    parsed.set_query(Some(query));
    Some(parsed.to_string())
}

/// The query that asks a chunked-HTTP download endpoint for large chunks.
pub open spec fn chunk_size_query() -> Seq<char> {
    "ckSize=1024"@
}

/// The endpoints of one run. Immutable once the run begins.
#[derive(Clone, Debug)]
pub struct MeasurementTarget {
    pub protocol: Protocol,
    pub name: String,
    pub download_endpoint: String,
    pub upload_endpoint: String,
    pub ipv6: bool,
    pub thread_count: u8,
}

impl MeasurementTarget {
    /// The host and port to resolve and connect to, read from the download
    /// endpoint: `host:port` for raw TCP, a URL for HTTP.
    pub fn endpoint_address(&self) -> (r: Option<(String, u16)>)
        ensures
            self.protocol == Protocol::RawTcp ==> match (r, host_port_spec(self.download_endpoint@)) {
                (Some((h, p)), Some((sh, sp))) => h@ == sh && p == sp,
                (None, None) => true,
                _ => false,
            },
            self.protocol == Protocol::HttpChunked ==> match r {
                Some((h, p)) => url_host_port_of(self.download_endpoint@) == Some((h@, p)),
                None => url_host_port_of(self.download_endpoint@) is None,
            },
    {
        match self.protocol {
            Protocol::RawTcp => split_host_port(self.download_endpoint.as_str()),
            Protocol::HttpChunked => url_host_port(self.download_endpoint.as_str()),
        }
    }

    /// The URL each HTTP download worker fetches (again and again): the
    /// download endpoint with the chunk-size query. `None` for raw TCP, whose
    /// workers send a command line instead, or when the URL does not parse.
    pub fn download_request_url(&self) -> (r: Option<String>)
        ensures
            self.protocol == Protocol::RawTcp ==> r is None,
            self.protocol == Protocol::HttpChunked ==> match r {
                Some(u) => url_with_query_of(self.download_endpoint@, chunk_size_query()) == Some(u@),
                None => url_with_query_of(self.download_endpoint@, chunk_size_query()) is None,
            },
    {
        match self.protocol {
            Protocol::RawTcp => None,
            Protocol::HttpChunked => {
                let q = "ckSize=1024";
                url_with_query(self.download_endpoint.as_str(), q)
            },
        }
    }
}

} // verus!
