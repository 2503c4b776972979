//! The proxy in front of the Cactus inference service: where a request is sent upstream
//! and what status its answer is given.

use vstd::prelude::*;
use crate::text::{concat, push_all};

verus! {

/// The upstream used when none is configured.
pub open spec fn default_base() -> Seq<char> {
    "https://104.198.76.3"@
}

/// The upstream used when none is configured.
pub fn default_upstream_base() -> (r: &'static str)
    ensures
        r@ == default_base(),
{
    "https://104.198.76.3"
}

/// The header that carries the caller's device fingerprint; it is not passed upstream.
pub fn device_fingerprint_header() -> (r: &'static str)
    ensures
        r@ == "x-device-fingerprint"@,
{
    "x-device-fingerprint"
}

/// How the proxy is set up.
#[derive(Clone, Debug)]
pub struct CactusProxyConfig {
    pub api_key: String,
    pub upstream_base: Option<String>,
}

/// The routes the proxy serves.
#[derive(Clone, Copy, Debug, PartialEq, Eq, Structural)]
pub enum ProxyRoute {
    Text,
    Vlm,
    Transcribe,
}

/// The upstream path segment of a route.
pub open spec fn route_segment(route: ProxyRoute) -> Seq<char> {
    match route {
        ProxyRoute::Text => "text"@,
        ProxyRoute::Vlm => "vlm"@,
        ProxyRoute::Transcribe => "transcribe"@,
    }
}

/// The upstream path segment of a route.
pub fn route_path(route: ProxyRoute) -> (r: &'static str)
    ensures
        r@ == route_segment(route),
{
    match route {
        ProxyRoute::Text => "text",
        ProxyRoute::Vlm => "vlm",
        ProxyRoute::Transcribe => "transcribe",
    }
}

/// The upstream a request for `route` goes to: the configured base, or the default one,
/// then `/api/v1/` and the route.
pub fn upstream_url(config: &CactusProxyConfig, route: ProxyRoute) -> (r: String)
    ensures
        r@ == match config.upstream_base {
            Some(b) => b@,
            None => default_base(),
        } + "/api/v1/"@ + route_segment(route),
{
    let base: &str = match &config.upstream_base {
        Some(b) => b.as_str(),
        None => default_upstream_base(),
    };
    let mut url = concat(base, "/api/v1/");
    push_all(&mut url, route_path(route));
    url
}

/// The status the proxy answers with for an upstream status `code`: the code itself
/// where it is a valid HTTP status (three digits, from 100), else Bad Gateway.
pub fn proxied_status(code: u16) -> (r: u16)
    ensures
        r == if 100 <= code < 1000 { code } else { 502 },
{
    if 100 <= code && code < 1000 {
        code
    } else {
        502
    }
}

} // verus!
