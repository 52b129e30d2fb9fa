//! Which messages are logged, and the one-line summary of a request.
use vstd::prelude::*;
use crate::servers::HttpVersion;
use crate::text::push_str;

pub mod loglevels;

verus! {

/// Whether messages of kind `level` are logged under the log mask `current`:
/// some bit of `level` is set in the mask.
pub fn check_loglevel(current: u64, level: u64) -> (res: bool)
    ensures
        res == (current & level != 0),
{
    current & level != 0
}

/// An HTTP request method.
#[derive(Clone, Debug)]
pub enum HttpMethod {
    Get,
    Head,
    Post,
    Put,
    Delete,
    Connect,
    Options,
    Trace,
    Unknown(Option<String>),
}

/// How a method is shown in the request summary (colored by ANSI codes).
pub open spec fn method_label(m: HttpMethod) -> Seq<char> {
    match m {
        HttpMethod::Unknown(Some(s)) => s@,
        HttpMethod::Unknown(None) => "UNKOWN"@,
        HttpMethod::Get => "\x1b[32mGET\x1b[0m"@,
        HttpMethod::Head => "\x1b[32mHEAD\x1b[0m"@,
        HttpMethod::Post => "\x1b[33mPOST\x1b[0m"@,
        HttpMethod::Put => "\x1b[33mPUT\x1b[0m"@,
        HttpMethod::Delete => "\x1b[31mDELETE\x1b[0m"@,
        HttpMethod::Connect => "\x1b[36mCONNECT\x1b[0m"@,
        HttpMethod::Options => "\x1b[35mOPTIONS\x1b[0m"@,
        HttpMethod::Trace => "\x1b[90mTRACE\x1b[0m"@,
    }
}

/// How a version is shown in the request summary (colored by ANSI codes).
pub open spec fn version_label(v: HttpVersion) -> Seq<char> {
    match v {
        HttpVersion::Unknown(Some(s)) => s@,
        HttpVersion::Unknown(None) => "UNKNOWN/0.0"@,
        HttpVersion::Debug => "\x1b[90mDEBUG/0.0\x1b[0m"@,
        HttpVersion::Http09 => "\x1b[31mHTTP/0.9\x1b[0m"@,
        HttpVersion::Http10 => "\x1b[33mHTTP/1.0\x1b[0m"@,
        HttpVersion::Http11 => "\x1b[33mHTTP/1.1\x1b[0m"@,
        HttpVersion::Http2 => "\x1b[32mHTTP/2\x1b[0m"@,
        HttpVersion::Http3 => "\x1b[34mHTTP/3\x1b[0m"@,
    }
}

fn method_text(m: &HttpMethod) -> (res: String)
    ensures
        res@ == method_label(*m),
{
    match m {
        HttpMethod::Unknown(Some(s)) => s.clone(),
        HttpMethod::Unknown(None) => String::from_str("UNKOWN"),
        HttpMethod::Get => String::from_str("\x1b[32mGET\x1b[0m"),
        HttpMethod::Head => String::from_str("\x1b[32mHEAD\x1b[0m"),
        HttpMethod::Post => String::from_str("\x1b[33mPOST\x1b[0m"),
        HttpMethod::Put => String::from_str("\x1b[33mPUT\x1b[0m"),
        HttpMethod::Delete => String::from_str("\x1b[31mDELETE\x1b[0m"),
        HttpMethod::Connect => String::from_str("\x1b[36mCONNECT\x1b[0m"),
        HttpMethod::Options => String::from_str("\x1b[35mOPTIONS\x1b[0m"),
        HttpMethod::Trace => String::from_str("\x1b[90mTRACE\x1b[0m"),
    }
}

fn version_text(v: &HttpVersion) -> (res: String)
    ensures
        res@ == version_label(*v),
{
    match v {
        HttpVersion::Unknown(Some(s)) => s.clone(),
        HttpVersion::Unknown(None) => String::from_str("UNKNOWN/0.0"),
        HttpVersion::Debug => String::from_str("\x1b[90mDEBUG/0.0\x1b[0m"),
        HttpVersion::Http09 => String::from_str("\x1b[31mHTTP/0.9\x1b[0m"),
        HttpVersion::Http10 => String::from_str("\x1b[33mHTTP/1.0\x1b[0m"),
        HttpVersion::Http11 => String::from_str("\x1b[33mHTTP/1.1\x1b[0m"),
        HttpVersion::Http2 => String::from_str("\x1b[32mHTTP/2\x1b[0m"),
        HttpVersion::Http3 => String::from_str("\x1b[34mHTTP/3\x1b[0m"),
    }
}

/// The one-line summary of a request: method, path and version, separated by
/// spaces.
pub fn log_client_simple(method: &HttpMethod, path: &str, version: &HttpVersion) -> (res: String)
    ensures
        res@ == method_label(*method) + " "@ + path@ + " "@ + version_label(*version),
{
    let mut s = method_text(method);
    push_str(&mut s, " ");
    push_str(&mut s, path);
    push_str(&mut s, " ");
    push_str(&mut s, version_text(version).as_str());
    s
}

} // verus!
