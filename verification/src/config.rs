//! Where the certificate and the key are read from, and the port to listen on.

use vstd::prelude::*;

verus! {

/// The port that is used where none is configured.
pub const DEFAULT_PORT: u16 = 8443;

/// The certificate path that is used where none is configured.
pub open spec fn default_cert() -> Seq<char> {
    "/tls/tls.crt"@
}

/// The key path that is used where none is configured.
pub open spec fn default_key() -> Seq<char> {
    "/tls/tls.key"@
}

/// The number that the standard library reads from `text` as a `u16`, where it
/// reads one.
pub uninterp spec fn parsed_port(text: Seq<char>) -> Option<u16>;

/// `str::parse::<u16>`: the number that `text` spells in decimal, or nothing
/// where `text` is no such number. The outcome depends on the characters of
/// `text` alone.
#[verifier::external_body]
fn parse_port(text: &str) -> (port: Option<u16>)
    ensures
        port == parsed_port(text@),
{
    match text.parse::<u16>() {
        Ok(port) => Some(port),
        Err(_) => None,
    }
}

/// The port to listen on, given what was read from the configured text: the
/// number read, or the default where none was read.
pub fn port_or_default(parsed: Option<u16>) -> (port: u16)
    ensures
        port == match parsed {
            Some(number) => number,
            None => DEFAULT_PORT,
        },
{
    match parsed {
        Some(number) => number,
        None => DEFAULT_PORT,
    }
}

/// The certificate path: the configured one, or `/tls/tls.crt`.
pub fn get_cert(configured: Option<String>) -> (path: String)
    ensures
        path@ == match configured {
            Some(text) => text@,
            None => default_cert(),
        },
{
    match configured {
        Some(text) => text,
        None => "/tls/tls.crt".to_owned(),
    }
}

/// The key path: the configured one, or `/tls/tls.key`.
pub fn get_key(configured: Option<String>) -> (path: String)
    ensures
        path@ == match configured {
            Some(text) => text@,
            None => default_key(),
        },
{
    match configured {
        Some(text) => text,
        None => "/tls/tls.key".to_owned(),
    }
}

/// The port to listen on: the number that the configured text spells, or 8443
/// where nothing is configured or the text is no port number.
pub fn get_port(configured: Option<String>) -> (port: u16)
    ensures
        port == match configured {
            Some(text) => match parsed_port(text@) {
                Some(number) => number,
                None => DEFAULT_PORT,
            },
            None => DEFAULT_PORT,
        },
{
    match configured {
        Some(text) => port_or_default(parse_port(text.as_str())),
        None => DEFAULT_PORT,
    }
}

} // verus!
