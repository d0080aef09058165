use std::borrow::Cow;
use vstd::prelude::*;
use vstd::string::StringExecFns;

verus! {

/// HTTP header
///
/// Does not include
/// [Forbidden header names](https://developer.mozilla.org/en-US/docs/Glossary/Forbidden_header_name).
#[derive(Debug, PartialEq, Eq)]
pub enum Header<'a> {
    /// [`Content-Type`](https://developer.mozilla.org/en-US/docs/Web/HTTP/Headers/Content-Type)
    ContentType(Cow<'a, str>),
    /// [`Content-Encoding`](https://developer.mozilla.org/en-US/docs/Web/HTTP/Headers/Content-Encoding)
    ContentEncoding(Cow<'a, str>),
    /// [`Content-Language`](https://developer.mozilla.org/en-US/docs/Web/HTTP/Headers/Content-Language)
    ContentLanguage(Cow<'a, str>),
    /// [`Content-Location`](https://developer.mozilla.org/en-US/docs/Web/HTTP/Headers/Content-Location)
    ContentLocation(Cow<'a, str>),
    /// `User-Agent`
    UserAgent(Cow<'a, str>),
    /// `Accept`
    Accept(Cow<'a, str>),
    /// `Accept-Language`
    AcceptLanguage(Cow<'a, str>),
    /// `Connection`
    Connection(Cow<'a, str>),
    /// `Upgrade-Insecure-Requests`
    UpgradeInsecureRequests(Cow<'a, str>),
    /// `If-Modified-Since`
    IfModifiedSince(Cow<'a, str>),
    /// `If-None-Match`
    IfNoneMatch(Cow<'a, str>),
    /// `Cache-Control`
    CacheControl(Cow<'a, str>),
}

/// A copy of a value: borrowed from where `value` borrows, or owning a copy
/// of what `value` owns.
fn copy_of<'a>(value: &Cow<'a, str>) -> (copy: Cow<'a, str>)
    ensures
        copy@ == value@,
{
    match value {
        Cow::Borrowed(borrowed) => Cow::Borrowed(borrowed),
        Cow::Owned(owned) => Cow::Owned(owned.clone()),
    }
}

impl<'a> Clone for Header<'a> {
    /// A header of the same name with the same value.
    fn clone(&self) -> (copy: Self)
        ensures
            copy.name() == self.name(),
            copy.value() == self.value(),
    {
        match self {
            Header::ContentType(v) => Header::ContentType(copy_of(v)),
            Header::ContentEncoding(v) => Header::ContentEncoding(copy_of(v)),
            Header::ContentLanguage(v) => Header::ContentLanguage(copy_of(v)),
            Header::ContentLocation(v) => Header::ContentLocation(copy_of(v)),
            Header::UserAgent(v) => Header::UserAgent(copy_of(v)),
            Header::Accept(v) => Header::Accept(copy_of(v)),
            Header::AcceptLanguage(v) => Header::AcceptLanguage(copy_of(v)),
            Header::Connection(v) => Header::Connection(copy_of(v)),
            Header::UpgradeInsecureRequests(v) => Header::UpgradeInsecureRequests(copy_of(v)),
            Header::IfModifiedSince(v) => Header::IfModifiedSince(copy_of(v)),
            Header::IfNoneMatch(v) => Header::IfNoneMatch(copy_of(v)),
            Header::CacheControl(v) => Header::CacheControl(copy_of(v)),
        }
    }
}

/// The text that a `Cow` holds, borrowed or owned.
fn text<'b>(value: &'b Cow<'_, str>) -> (s: &'b str)
    ensures
        s@ == value@,
{
    match value {
        Cow::Borrowed(borrowed) => borrowed,
        Cow::Owned(owned) => owned.as_str(),
    }
}

impl Header<'_> {
    /// The header's name as it is written in a request.
    pub open spec fn name(self) -> Seq<char> {
        match self {
            Header::ContentType(_) => "Content-Type"@,
            Header::ContentEncoding(_) => "Content-Encoding"@,
            Header::ContentLanguage(_) => "Content-Language"@,
            Header::ContentLocation(_) => "Content-Location"@,
            Header::UserAgent(_) => "User-Agent"@,
            Header::Accept(_) => "Accept"@,
            Header::AcceptLanguage(_) => "Accept-Language"@,
            Header::Connection(_) => "Connection"@,
            Header::UpgradeInsecureRequests(_) => "Upgrade-Insecure-Requests"@,
            Header::IfModifiedSince(_) => "If-Modified-Since"@,
            Header::IfNoneMatch(_) => "If-None-Match"@,
            Header::CacheControl(_) => "Cache-Control"@,
        }
    }

    /// The value that the header carries.
    pub open spec fn value(self) -> Seq<char> {
        match self {
            Header::ContentType(v) => v@,
            Header::ContentEncoding(v) => v@,
            Header::ContentLanguage(v) => v@,
            Header::ContentLocation(v) => v@,
            Header::UserAgent(v) => v@,
            Header::Accept(v) => v@,
            Header::AcceptLanguage(v) => v@,
            Header::Connection(v) => v@,
            Header::UpgradeInsecureRequests(v) => v@,
            Header::IfModifiedSince(v) => v@,
            Header::IfNoneMatch(v) => v@,
            Header::CacheControl(v) => v@,
        }
    }

    /// Write the header's name at the end of `output`.
    pub fn push_name(&self, output: &mut String)
        ensures
            final(output)@ == old(output)@ + self.name(),
    {
        match self {
            Header::ContentType(_) => output.append("Content-Type"),
            Header::ContentEncoding(_) => output.append("Content-Encoding"),
            Header::ContentLanguage(_) => output.append("Content-Language"),
            Header::ContentLocation(_) => output.append("Content-Location"),
            Header::UserAgent(_) => output.append("User-Agent"),
            Header::Accept(_) => output.append("Accept"),
            Header::AcceptLanguage(_) => output.append("Accept-Language"),
            Header::Connection(_) => output.append("Connection"),
            Header::UpgradeInsecureRequests(_) => output.append("Upgrade-Insecure-Requests"),
            Header::IfModifiedSince(_) => output.append("If-Modified-Since"),
            Header::IfNoneMatch(_) => output.append("If-None-Match"),
            Header::CacheControl(_) => output.append("Cache-Control"),
        }
    }

    /// Write the header's value at the end of `output`.
    pub fn push_value(&self, output: &mut String)
        ensures
            final(output)@ == old(output)@ + self.value(),
    {
        match self {
            Header::ContentType(v) => output.append(text(v)),
            Header::ContentEncoding(v) => output.append(text(v)),
            Header::ContentLanguage(v) => output.append(text(v)),
            Header::ContentLocation(v) => output.append(text(v)),
            Header::UserAgent(v) => output.append(text(v)),
            Header::Accept(v) => output.append(text(v)),
            Header::AcceptLanguage(v) => output.append(text(v)),
            Header::Connection(v) => output.append(text(v)),
            Header::UpgradeInsecureRequests(v) => output.append(text(v)),
            Header::IfModifiedSince(v) => output.append(text(v)),
            Header::IfNoneMatch(v) => output.append(text(v)),
            Header::CacheControl(v) => output.append(text(v)),
        }
    }
}

} // verus!
