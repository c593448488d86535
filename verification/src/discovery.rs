use vstd::prelude::*;
use crate::config::{parse_u16, spec_parse_u16, is_decimal_digit, unsigned_digits};
use crate::security::input::{chars_of, trim_chars, trim_spec, append_str};
use crate::numeral::{decimal, push_decimal, lemma_decimal_digits};

verus! {

/// The UDP port of the discovery service when `DISCOVERY_PORT` is not set or
/// is not a port number.
pub const DEFAULT_DISCOVERY_PORT: u16 = 9999;

/// The discovery port from the `DISCOVERY_PORT` setting (`None` when unset).
pub fn discovery_port(value: &Option<String>) -> (port: u16)
    ensures
        port == match value {
            None => DEFAULT_DISCOVERY_PORT,
            Some(v) => match spec_parse_u16(v@) {
                Some(p) => p,
                None => DEFAULT_DISCOVERY_PORT,
            },
        },
{
    match value {
        None => DEFAULT_DISCOVERY_PORT,
        Some(v) => match parse_u16(v.as_str()) {
            Some(p) => p,
            None => DEFAULT_DISCOVERY_PORT,
        },
    }
}

/// The message a client broadcasts to find the server.
pub open spec fn discovery_request() -> Seq<char> {
    "SENTINEL_DISCOVER"@
}

/// Whether a datagram, read as text, asks for the server: the discovery
/// request, with any surrounding white space.
pub fn is_discovery_request(msg: &str) -> (ok: bool)
    ensures
        ok == (trim_spec(msg@) == discovery_request()),
{
    let chars = chars_of(msg);
    let text = trim_chars(&chars);
    text == "SENTINEL_DISCOVER".to_string()
}

/// Law: a numeral reads back as its number. Parsing the decimal numeral of a
/// port gives the port.
pub proof fn lemma_decimal_parses_back(port: u16)
    ensures
        spec_parse_u16(decimal(port as nat)) == Some(port),
{
    lemma_decimal_digits(port as nat);
    let d = decimal(port as nat);
    assert(d[0] != '+') by {
        assert(is_decimal_digit(d[0]));
    }
    assert(unsigned_digits(d) == d);
}

/// The text of the reply to a discovery request for a server on `http_port`.
pub open spec fn spec_discovery_reply(http_port: u16) -> Seq<char> {
    "{\"service\":\"sentinel-cbdc\",\"port\":"@ + decimal(http_port as nat) + ",\"version\":\"5.0\"}"@
}

/// The reply that tells a client where the HTTP API listens.
pub fn discovery_reply(http_port: u16) -> (reply: String)
    ensures
        reply@ == spec_discovery_reply(http_port),
{
    let mut reply = String::new();
    append_str(&mut reply, "{\"service\":\"sentinel-cbdc\",\"port\":");
    push_decimal(&mut reply, http_port as u64);
    append_str(&mut reply, ",\"version\":\"5.0\"}");
    reply
}

} // verus!
