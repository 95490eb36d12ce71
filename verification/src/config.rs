//! What the environment of the service says, and what holds where it says
//! nothing.

use vstd::prelude::*;

use crate::error::{text_of, Reply, Status};
use crate::text::{decimal, decimal_text, parse_unsigned, parsed_unsigned};

verus! {

/// How many bytes of audio an upload may have, unless the environment says
/// otherwise: 25 MiB.
pub const DEFAULT_MAX_AUDIO_BYTES: u64 = 25 * 1024 * 1024;

/// The port that the service listens on, unless the environment says
/// otherwise.
pub const DEFAULT_PORT: u16 = 8085;

/// How much longer than its audio an upload request may be.
pub const FORM_OVERHEAD_BYTES: u64 = 1024;

/// A setting, or what holds where it is not set.
pub open spec fn set_or(value: Option<Seq<char>>, default: Seq<char>) -> Seq<char> {
    match value {
        Some(s) => s,
        None => default,
    }
}

/// The number not above `max` that a setting spells, or what holds where it
/// is not set or spells none.
pub open spec fn number_or(value: Option<Seq<char>>, max: nat, default: nat) -> nat {
    match value {
        Some(s) => match parsed_unsigned(s, max) {
            Some(n) => n,
            None => default,
        },
        None => default,
    }
}

fn text_or(value: Option<String>, default: &str) -> (r: String)
    ensures
        r@ == set_or(text_of(value), default@),
{
    match value {
        Some(s) => s,
        None => default.to_string(),
    }
}

/// The directory under which uploads are kept, as the setting
/// `MUSIC_UPLOADS_DIR` says.
pub fn uploads_root(value: Option<String>) -> (r: String)
    ensures
        r@ == set_or(text_of(value), "uploads"@),
{
    text_or(value, "uploads")
}

/// The number that a setting spells, or `default`.
pub fn parse_env_u64(value: Option<String>, default: u64) -> (r: u64)
    ensures
        r == number_or(text_of(value), u64::MAX as nat, default as nat),
{
    match value {
        Some(s) => match parse_unsigned(s.as_str(), u64::MAX) {
            Some(n) => n,
            None => default,
        },
        None => default,
    }
}

/// How many bytes of audio an upload may have, as the setting
/// `MAX_AUDIO_BYTES` says.
pub fn max_audio_bytes(value: Option<String>) -> (r: u64)
    ensures
        r == number_or(text_of(value), u64::MAX as nat, DEFAULT_MAX_AUDIO_BYTES as nat),
{
    parse_env_u64(value, DEFAULT_MAX_AUDIO_BYTES)
}

/// How many bytes a request may have in all.
pub fn request_body_limit(max_audio_bytes: u64) -> (r: usize)
    requires
        max_audio_bytes + FORM_OVERHEAD_BYTES <= u64::MAX,
    ensures
        r == (max_audio_bytes + FORM_OVERHEAD_BYTES) as usize,
{
    (max_audio_bytes + FORM_OVERHEAD_BYTES) as usize
}

/// The host that the service listens on, as the setting `HOST` says.
pub fn listen_host(value: Option<String>) -> (r: String)
    ensures
        r@ == set_or(text_of(value), "0.0.0.0"@),
{
    text_or(value, "0.0.0.0")
}

/// The port that the service listens on, as the setting `PORT` says.
pub fn listen_port(value: Option<String>) -> (r: u16)
    ensures
        r == number_or(text_of(value), u16::MAX as nat, DEFAULT_PORT as nat),
{
    match value {
        Some(s) => match parse_unsigned(s.as_str(), u16::MAX as u64) {
            Some(n) => n as u16,
            None => DEFAULT_PORT,
        },
        None => DEFAULT_PORT,
    }
}

/// The address that a host and a port make.
pub fn listen_address(host: &str, port: u16) -> (r: String)
    ensures
        r@ == host@ + ":"@ + decimal_text(port as nat),
{
    let mut r = host.to_string();
    r.append(":");
    r.append(decimal(port as u64).as_str());
    r
}

/// What is logged, as the setting `RUST_LOG` says.
pub fn log_level(value: Option<String>) -> (r: String)
    ensures
        r@ == set_or(text_of(value), "info"@),
{
    text_or(value, "info")
}

/// What the service says of itself.
#[derive(Debug)]
pub struct Health {
    pub status: String,
}

/// The answer to a question after the service's health.
pub fn health_endpoint() -> (r: Reply<Health>)
    ensures
        r.status == Status::Success,
        r.body.status@ == "ok"@,
{
    Reply { status: Status::Success, body: Health { status: "ok".to_string() } }
}

} // verus!
