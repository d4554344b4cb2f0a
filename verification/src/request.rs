//! A request as plain data: what a transport has to send.

use vstd::prelude::*;
use vstd::string::StringExecFns;

verus! {

/// The header that carries the API key.
pub const ACCESS_KEY: &'static str = "ACCESS-KEY";

/// The header that carries the nonce in decimal.
pub const ACCESS_NONCE: &'static str = "ACCESS-NONCE";

/// The header that carries the signature.
pub const ACCESS_SIGNATURE: &'static str = "ACCESS-SIGNATURE";

/// The HTTP method of a request.
#[derive(Debug, Clone, Copy, PartialEq, Eq, Structural)]
pub enum Method {
    Get,
    Post,
}

/// One request header.
#[derive(Debug, Clone, PartialEq, Eq)]
pub struct Header {
    pub name: String,
    pub value: String,
}

impl View for Header {
    type V = (Seq<char>, Seq<char>);

    open spec fn view(&self) -> (Seq<char>, Seq<char>) {
        (self.name@, self.value@)
    }
}

/// A request that is ready to be sent: nothing in it is left to compute.
#[derive(Debug, Clone, PartialEq, Eq)]
pub struct Request {
    pub method: Method,
    pub url: String,
    pub headers: Vec<Header>,
    pub body: Option<String>,
}

/// A request in mathematical terms.
pub struct RequestView {
    pub method: Method,
    pub url: Seq<char>,
    pub headers: Seq<(Seq<char>, Seq<char>)>,
    pub body: Option<Seq<char>>,
}

impl View for Request {
    type V = RequestView;

    open spec fn view(&self) -> RequestView {
        RequestView {
            method: self.method,
            url: self.url@,
            headers: self.headers@.map_values(|h: Header| h@),
            body: match self.body {
                Some(text) => Some(text@),
                None => None,
            },
        }
    }
}

/// The headers of a private request: the key, the nonce and the signature
/// under their three fixed names, in this order.
pub open spec fn auth_headers_of(key: Seq<char>, nonce: Seq<char>, sig: Seq<char>) -> Seq<
    (Seq<char>, Seq<char>),
> {
    seq![(ACCESS_KEY@, key), (ACCESS_NONCE@, nonce), (ACCESS_SIGNATURE@, sig)]
}

/// Builds the three authentication headers from the key, the nonce in decimal
/// and a signature that was already computed.
pub fn auth_headers(key: &str, nonce: &str, sig: &str) -> (headers: Vec<Header>)
    ensures
        headers@.map_values(|h: Header| h@) == auth_headers_of(key@, nonce@, sig@),
{
    let mut headers: Vec<Header> = Vec::new();
    headers.push(Header { name: String::from_str(ACCESS_KEY), value: String::from_str(key) });
    headers.push(Header { name: String::from_str(ACCESS_NONCE), value: String::from_str(nonce) });
    headers.push(
        Header { name: String::from_str(ACCESS_SIGNATURE), value: String::from_str(sig) },
    );
    assert(headers@.map_values(|h: Header| h@) =~= auth_headers_of(key@, nonce@, sig@));
    headers
}

} // verus!
