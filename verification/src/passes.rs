//! The five passes and the report that holds their results.

use crate::error::ExtractError;
use crate::extract::{found, gather, is_result, names, packets, packets_of, parse};
use crate::json::parsed;
use crate::text::texts;
use serde_json::Value;
use vstd::prelude::*;

verus! {

/// A pass: one layer and the fields probed in it.
#[derive(Clone, Copy, Debug)]
pub enum Pass {
    /// TCP ports: `tcp.port` in the layer `tcp`.
    Tcp,
    /// UDP ports: `udp.port` in the layer `udp`.
    Udp,
    /// IP addresses: `ip.src` and `ip.dst` in the layer `ip`.
    Ip,
    /// MAC addresses: `eth.src` and `eth.dst` in the layer `eth`.
    Mac,
    /// HTTP values: host, full request URI, request method and user agent in
    /// the layer `http`.
    Http,
}

impl Pass {
    /// The name of the layer that the pass probes.
    pub open spec fn layer(self) -> Seq<char> {
        match self {
            Pass::Tcp => "tcp"@,
            Pass::Udp => "udp"@,
            Pass::Ip => "ip"@,
            Pass::Mac => "eth"@,
            Pass::Http => "http"@,
        }
    }

    /// The field keys that the pass probes in its layer.
    pub open spec fn fields(self) -> Seq<Seq<char>> {
        match self {
            Pass::Tcp => seq!["tcp.port"@],
            Pass::Udp => seq!["udp.port"@],
            Pass::Ip => seq!["ip.src"@, "ip.dst"@],
            Pass::Mac => seq!["eth.src"@, "eth.dst"@],
            Pass::Http => seq![
                "http.host"@,
                "http.request.full_uri"@,
                "http.request.method"@,
                "http.user_agent"@,
            ],
        }
    }

    /// Whether `out` is a result of the pass for the packets `packets`.
    pub open spec fn yields(self, packets: Seq<Value>, out: Seq<Seq<char>>) -> bool {
        is_result(out, found(packets, self.layer(), self.fields()))
    }

    /// What the pass has to return for the text of a document: a result for
    /// the packets of the document, or the error that says why there are none.
    pub open spec fn outcome(self, text: Seq<char>, r: Result<Vec<String>, ExtractError>) -> bool {
        match r {
            Ok(out) => parsed(text) matches Some(document) && packets_of(document) matches Some(
                list,
            ) && self.yields(list, texts(out@)),
            Err(ExtractError::InvalidJson(_)) => parsed(text) is None,
            Err(ExtractError::ShapeMismatch) => parsed(text) matches Some(document) && packets_of(
                document,
            ) is None,
        }
    }

    /// Runs the pass over a list of packets.
    pub fn run_packets(self, list: &Vec<Value>) -> (out: Vec<String>)
        ensures
            self.yields(list@, texts(out@)),
    {
        match self {
            Pass::Tcp => {
                let fields: [&str; 1] = ["tcp.port"];
                assert(names(fields@) == self.fields());
                gather(list, "tcp", fields.as_slice())
            },
            Pass::Udp => {
                let fields: [&str; 1] = ["udp.port"];
                assert(names(fields@) == self.fields());
                gather(list, "udp", fields.as_slice())
            },
            Pass::Ip => {
                let fields: [&str; 2] = ["ip.src", "ip.dst"];
                assert(names(fields@) == self.fields());
                gather(list, "ip", fields.as_slice())
            },
            Pass::Mac => {
                let fields: [&str; 2] = ["eth.src", "eth.dst"];
                assert(names(fields@) == self.fields());
                gather(list, "eth", fields.as_slice())
            },
            Pass::Http => {
                let fields: [&str; 4] = [
                    "http.host",
                    "http.request.full_uri",
                    "http.request.method",
                    "http.user_agent",
                ];
                assert(names(fields@) == self.fields());
                gather(list, "http", fields.as_slice())
            },
        }
    }

    /// Runs the pass over a parsed document, which has to be an array of
    /// objects.
    pub fn run(self, document: &Value) -> (r: Result<Vec<String>, ExtractError>)
        ensures
            match r {
                Ok(out) => packets_of(*document) matches Some(list) && self.yields(
                    list,
                    texts(out@),
                ),
                Err(e) => e is ShapeMismatch && packets_of(*document) is None,
            },
    {
        match packets(document) {
            Err(e) => Err(e),
            Ok(list) => Ok(self.run_packets(list)),
        }
    }

    /// Parses the text of a document and runs the pass over it.
    pub fn run_text(self, text: &str) -> (r: Result<Vec<String>, ExtractError>)
        ensures
            self.outcome(text@, r),
    {
        match parse(text) {
            Err(e) => Err(e),
            Ok(document) => self.run(&document),
        }
    }
}

/// The TCP ports of a capture, given as the text of its JSON document.
pub fn tcp(text: &str) -> (r: Result<Vec<String>, ExtractError>)
    ensures
        Pass::Tcp.outcome(text@, r),
{
    Pass::Tcp.run_text(text)
}

/// The UDP ports of a capture, given as the text of its JSON document.
pub fn udp(text: &str) -> (r: Result<Vec<String>, ExtractError>)
    ensures
        Pass::Udp.outcome(text@, r),
{
    Pass::Udp.run_text(text)
}

/// The IP addresses of a capture, sources and destinations alike, given as
/// the text of its JSON document.
pub fn ip_address(text: &str) -> (r: Result<Vec<String>, ExtractError>)
    ensures
        Pass::Ip.outcome(text@, r),
{
    Pass::Ip.run_text(text)
}

/// The MAC addresses of a capture, sources and destinations alike, given as
/// the text of its JSON document.
pub fn mac_address(text: &str) -> (r: Result<Vec<String>, ExtractError>)
    ensures
        Pass::Mac.outcome(text@, r),
{
    Pass::Mac.run_text(text)
}

/// The HTTP hosts, request URIs, request methods and user agents of a
/// capture, given as the text of its JSON document.
pub fn http(text: &str) -> (r: Result<Vec<String>, ExtractError>)
    ensures
        Pass::Http.outcome(text@, r),
{
    Pass::Http.run_text(text)
}

/// The results of the five passes over one capture, in the order in which
/// they are reported.
#[derive(Debug)]
pub struct Report {
    pub tcp_ports: Vec<String>,
    pub udp_ports: Vec<String>,
    pub ip_addresses: Vec<String>,
    pub mac_addresses: Vec<String>,
    pub http_values: Vec<String>,
}

impl Report {
    /// Whether the report holds, for each pass, a result of that pass for the
    /// packets `packets`.
    pub open spec fn covers(&self, packets: Seq<Value>) -> bool {
        &&& Pass::Tcp.yields(packets, texts(self.tcp_ports@))
        &&& Pass::Udp.yields(packets, texts(self.udp_ports@))
        &&& Pass::Ip.yields(packets, texts(self.ip_addresses@))
        &&& Pass::Mac.yields(packets, texts(self.mac_addresses@))
        &&& Pass::Http.yields(packets, texts(self.http_values@))
    }
}

/// Parses the text of a document once and runs the five passes over it.
///
/// There is a report only for a document that is valid JSON with an array of
/// objects at its top level. For any other text the error says which of the
/// two failed, and no pass gives anything.
pub fn analyze(text: &str) -> (r: Result<Report, ExtractError>)
    ensures
        match r {
            Ok(report) => parsed(text@) matches Some(document) && packets_of(document) matches Some(
                list,
            ) && report.covers(list),
            Err(ExtractError::InvalidJson(_)) => parsed(text@) is None,
            Err(ExtractError::ShapeMismatch) => parsed(text@) matches Some(document) && packets_of(
                document,
            ) is None,
        },
{
    let document = match parse(text) {
        Ok(document) => document,
        Err(e) => { return Err(e); },
    };
    let list = match packets(&document) {
        Ok(list) => list,
        Err(e) => { return Err(e); },
    };
    let tcp_ports = Pass::Tcp.run_packets(list);
    let udp_ports = Pass::Udp.run_packets(list);
    let ip_addresses = Pass::Ip.run_packets(list);
    let mac_addresses = Pass::Mac.run_packets(list);
    let http_values = Pass::Http.run_packets(list);
    Ok(Report { tcp_ports, udp_ports, ip_addresses, mac_addresses, http_values })
}

} // verus!
