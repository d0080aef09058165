use vstd::prelude::*;

use crate::fetch::{Fetch, State};
use crate::header::Header;
use crate::method::Method;
use crate::request::Request;

verus! {

/// Builder for [`Fetch`].
///
/// Created by [`Fetch::builder()`].
#[derive(Debug, Clone, PartialEq, Eq)]
pub struct FetchBuilder<'a> {
    url: &'a str,
    method: Method,
    headers: Vec<Header<'a>>,
    data: Vec<u8>,
}

impl<'a> FetchBuilder<'a> {
    /// The address that will be fetched.
    pub closed spec fn url(self) -> &'a str {
        self.url
    }

    /// The method that the request will use.
    pub closed spec fn chosen_method(self) -> Method {
        self.method
    }

    /// The headers added so far, in the order in which they were added.
    pub closed spec fn headers(self) -> Seq<Header<'a>> {
        self.headers@
    }

    /// The body that the request will carry.
    pub closed spec fn data(self) -> Vec<u8> {
        self.data
    }

    /// Overwrite HTTP method.  Default is [`Method::Get`].
    pub fn method(self, method: Method) -> (built: Self)
        ensures
            built.chosen_method() == method,
            built.url() == self.url(),
            built.headers() == self.headers(),
            built.data() == self.data(),
    {
        let mut built = self;
        built.method = method;
        built
    }

    /// Send data in the body of the request.  The body is what `data`
    /// converts into, and replaces any body set before.
    pub fn body(self, data: impl Into<Vec<u8>>) -> (built: Self)
        ensures
            call_ensures(Into::<Vec<u8>>::into, (data,), built.data()),
            built.url() == self.url(),
            built.chosen_method() == self.chosen_method(),
            built.headers() == self.headers(),
    {
        let mut built = self;
        built.data = data.into();
        built
    }

    /// Add a header to the HTTP request, behind those added before.
    pub fn header(self, header: Header<'a>) -> (built: Self)
        ensures
            built.headers() == self.headers().push(header),
            built.url() == self.url(),
            built.chosen_method() == self.chosen_method(),
            built.data() == self.data(),
    {
        let mut built = self;
        built.headers.push(header);
        built
    }

    /// Initiate the HTTP request: the fetch begins in `Initiating` and
    /// holds the request as it was built.
    pub fn fetch(self) -> (fetch: Fetch<'a>)
        ensures
            fetch.state() == State::Initiating,
            fetch.request().url == self.url(),
            fetch.request().method == self.chosen_method(),
            fetch.request().headers@ == self.headers(),
            fetch.request().body == self.data(),
    {
        Fetch::new(self.url, self.method, self.headers, self.data)
    }

    /// A builder for a `GET` of `url` with no headers and no body.
    pub fn new(url: &'a str) -> (built: Self)
        ensures
            built.url() == url,
            built.chosen_method() == Method::Get,
            built.headers() == Seq::<Header<'a>>::empty(),
            built.data()@ == Seq::<u8>::empty(),
    {
        FetchBuilder { url, method: Method::Get, headers: Vec::new(), data: Vec::new() }
    }
}

} // verus!
