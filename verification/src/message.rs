//! The heads of HTTP messages: everything but the body.

use vstd::prelude::*;

use crate::header::{clone_headers, header_contents};
use crate::uri::Uri;

verus! {

/// An HTTP method.
#[derive(Debug, PartialEq, Eq)]
pub enum Method {
    /// `OPTIONS`.
    Options,
    /// `GET`.
    Get,
    /// `POST`.
    Post,
    /// `PUT`.
    Put,
    /// `DELETE`.
    Delete,
    /// `HEAD`.
    Head,
    /// `TRACE`.
    Trace,
    /// `CONNECT`.
    Connect,
    /// `PATCH`.
    Patch,
    /// Any other method.
    Other(String),
}

/// The mathematical content of a [`Method`].
pub enum MethodView {
    /// See [`Method::Options`].
    Options,
    /// See [`Method::Get`].
    Get,
    /// See [`Method::Post`].
    Post,
    /// See [`Method::Put`].
    Put,
    /// See [`Method::Delete`].
    Delete,
    /// See [`Method::Head`].
    Head,
    /// See [`Method::Trace`].
    Trace,
    /// See [`Method::Connect`].
    Connect,
    /// See [`Method::Patch`].
    Patch,
    /// See [`Method::Other`].
    Other(Seq<char>),
}

impl View for Method {
    type V = MethodView;

    open spec fn view(&self) -> MethodView {
        match *self {
            Method::Options => MethodView::Options,
            Method::Get => MethodView::Get,
            Method::Post => MethodView::Post,
            Method::Put => MethodView::Put,
            Method::Delete => MethodView::Delete,
            Method::Head => MethodView::Head,
            Method::Trace => MethodView::Trace,
            Method::Connect => MethodView::Connect,
            Method::Patch => MethodView::Patch,
            Method::Other(name) => MethodView::Other(name@),
        }
    }
}

impl Clone for Method {
    fn clone(&self) -> (r: Method)
        ensures
            r@ == self@,
    {
        match self {
            Method::Options => Method::Options,
            Method::Get => Method::Get,
            Method::Post => Method::Post,
            Method::Put => Method::Put,
            Method::Delete => Method::Delete,
            Method::Head => Method::Head,
            Method::Trace => Method::Trace,
            Method::Connect => Method::Connect,
            Method::Patch => Method::Patch,
            Method::Other(name) => Method::Other(name.clone()),
        }
    }
}

/// The head of a request.
#[derive(Debug)]
pub struct RequestHead {
    /// The method.
    pub method: Method,
    /// The target.
    pub uri: Uri,
    /// The headers.
    pub headers: http::HeaderMap,
}

/// The head of a response.
#[derive(Debug)]
pub struct ResponseHead {
    /// The status code.
    pub status: u16,
    /// The headers.
    pub headers: http::HeaderMap,
}

impl Clone for RequestHead {
    fn clone(&self) -> (r: RequestHead)
        ensures
            r.method@ == self.method@,
            r.uri@ == self.uri@,
            header_contents(r.headers) == header_contents(self.headers),
    {
        RequestHead {
            method: self.method.clone(),
            uri: self.uri.clone(),
            headers: clone_headers(&self.headers),
        }
    }
}

impl Clone for ResponseHead {
    fn clone(&self) -> (r: ResponseHead)
        ensures
            r.status == self.status,
            header_contents(r.headers) == header_contents(self.headers),
    {
        ResponseHead { status: self.status, headers: clone_headers(&self.headers) }
    }
}

} // verus!
