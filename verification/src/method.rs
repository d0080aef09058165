use vstd::prelude::*;

verus! {

/// Method for fetching
#[derive(Debug, Copy, Clone, PartialEq, Eq, Structural)]
pub enum Method {
    /// GET: Retrieve data
    Get,
    /// HEAD: GET without response body
    Head,
    /// POST: Add new data (may have additional side-effects)
    Post,
    /// PUT: Set existing data (no additional side-effects)
    Put,
    /// DELETE: Delete data
    Delete,
}

impl Method {
    /// The method's name as it is written in a request.
    pub open spec fn name(self) -> Seq<char> {
        match self {
            Method::Get => "GET"@,
            Method::Head => "HEAD"@,
            Method::Post => "POST"@,
            Method::Put => "PUT"@,
            Method::Delete => "DELETE"@,
        }
    }

    /// The method's name as it is written in a request.
    pub fn as_str(&self) -> (name: &'static str)
        ensures
            name@ == self.name(),
    {
        match self {
            Method::Get => "GET",
            Method::Head => "HEAD",
            Method::Post => "POST",
            Method::Put => "PUT",
            Method::Delete => "DELETE",
        }
    }
}

} // verus!
