//! The requests that nodes and clients send, and what comes back.
//!
//! A request is described here and sent by the caller, who hands back the
//! status of the answer, or the fact that none arrived.

use vstd::prelude::*;
use crate::instance::{InstanceInfo, InstanceInfoView};

verus! {

/// The name of the header that names the format of a body.
pub const CONTENT_TYPE_KEY: &'static str = "content-type";

/// The format of the body of a registration.
pub const CONTENT_TYPE_VALUE: &'static str = "application/json";

/// The status that says that the credentials of a request were refused.
pub const UNAUTHORIZED: u16 = 401;

/// The status that accepts a registration.
pub const NO_CONTENT: u16 = 204;

/// The status that accepts a renewal or a cancellation, or answers a lookup.
pub const OK: u16 = 200;

/// The status that says that there is no such lease, or no such service.
pub const NOT_FOUND: u16 = 404;

/// The method of an HTTP request.
#[derive(Debug, Clone, Copy, PartialEq, Eq, Structural)]
pub enum Method {
    Get,
    Post,
    Put,
    Delete,
}

/// One header of a request.
#[derive(Debug, PartialEq, Eq)]
pub struct Header {
    pub name: String,
    pub value: String,
}

/// What a `Header` holds, as plain mathematical values.
pub struct HeaderView {
    pub name: Seq<char>,
    pub value: Seq<char>,
}

impl View for Header {
    type V = HeaderView;

    open spec fn view(&self) -> HeaderView {
        HeaderView { name: self.name@, value: self.value@ }
    }
}

/// A request to a node: where it goes, the credentials for its basic
/// authentication, its further headers, and the instance that its body
/// describes, if it has a body.
#[derive(Debug, PartialEq, Eq)]
pub struct Request {
    pub method: Method,
    pub url: String,
    pub username: String,
    pub password: String,
    pub headers: Vec<Header>,
    pub body: Option<InstanceInfo>,
}

/// What a `Request` holds, as plain mathematical values.
pub struct RequestView {
    pub method: Method,
    pub url: Seq<char>,
    pub username: Seq<char>,
    pub password: Seq<char>,
    pub headers: Seq<HeaderView>,
    pub body: Option<InstanceInfoView>,
}

impl View for Request {
    type V = RequestView;

    open spec fn view(&self) -> RequestView {
        RequestView {
            method: self.method,
            url: self.url@,
            username: self.username@,
            password: self.password@,
            headers: self.headers@.map_values(|header: Header| header@),
            body: match self.body {
                Some(info) => Some(info@),
                None => None,
            },
        }
    }
}

/// What came of sending a request to a node.
#[derive(Debug, Clone, Copy, PartialEq, Eq, Structural)]
pub enum Reply {
    /// The node answered with this status.
    Status(u16),
    /// The request did not reach the node, or its answer did not arrive.
    TransportError,
}

/// The header that names the format of the body of a registration.
pub open spec fn content_type_header() -> HeaderView {
    HeaderView { name: CONTENT_TYPE_KEY@, value: CONTENT_TYPE_VALUE@ }
}

} // verus!
