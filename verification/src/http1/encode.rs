//! The request as the bytes that go over the stream.

use vstd::prelude::*;
use vstd::slice::slice_subrange;
use vstd::string::StringExecFns;
use vstd::utf8::encode_utf8;

use crate::header::Header;
use crate::http1::text::{
    ascii, ascii_bytes, find, first_at, has_prefix, position, push_bytes, starts_with,
};
use crate::method::Method;
use crate::request::Request;

verus! {

/// The slash that begins a path
pub const SLASH: u8 = 47;

/// Where a request goes: the host to connect to, and the path to ask for.
#[derive(Debug, Clone, PartialEq, Eq)]
pub struct Target {
    /// The name of the host
    pub host: Vec<u8>,
    /// The path on the host, which begins with a slash
    pub path: Vec<u8>,
}

/// Whether `s` holds no space, no control character and nothing beyond
/// ASCII: what may stand in a request line.
pub open spec fn is_plain(s: Seq<u8>) -> bool {
    forall|i: int| 0 <= i < s.len() ==> 32 < #[trigger] s[i] < 127
}

/// An address without its scheme, where the scheme is `https://`; any
/// other address as it is.
pub open spec fn without_scheme(url: Seq<u8>) -> Seq<u8> {
    if starts_with(url, ascii("https://"@)) {
        url.skip(8)
    } else {
        url
    }
}

/// The host that an address names: what stands before the first slash
/// behind the scheme, or all of it where there is no slash.
pub open spec fn host_of(url: Seq<u8>) -> Seq<u8> {
    let rest = without_scheme(url);
    match position(rest, SLASH) {
        Some(slash) => rest.take(slash),
        None => rest,
    }
}

/// The path that an address names: what stands from the first slash
/// behind the scheme on, or a lone slash where there is none.
pub open spec fn path_of(url: Seq<u8>) -> Seq<u8> {
    let rest = without_scheme(url);
    match position(rest, SLASH) {
        Some(slash) => rest.skip(slash),
        None => seq![SLASH],
    }
}

/// Whether an address can be asked for: it names a host, and holds
/// nothing behind its scheme that may not stand in a request line.
pub open spec fn is_askable(url: Seq<u8>) -> bool {
    host_of(url).len() > 0 && is_plain(without_scheme(url))
}

/// Whether `s` holds only what may stand in a request line.
fn plain(s: &[u8]) -> (yes: bool)
    ensures
        yes == is_plain(s@),
{
    let n = s.len();
    let mut i: usize = 0;
    while i < n
        invariant
            n == s.len(),
            i <= n,
            forall|j: int| 0 <= j < i ==> 32 < #[trigger] s@[j] < 127,
        decreases n - i,
    {
        if s[i] <= 32 || s[i] >= 127 {
            return false;
        }
        i = i + 1;
    }
    true
}

/// Where the request for `url` goes, if `url` can be asked for.
pub fn target(url: &str) -> (target: Option<Target>)
    ensures
        target is Some <==> is_askable(encode_utf8(url@)),
        target matches Some(t) ==> t.host@ == host_of(encode_utf8(url@)) && t.path@ == path_of(
            encode_utf8(url@),
        ),
{
    proof {
        reveal_strlit("https://");
    }
    let bytes = url.as_bytes();
    let rest = if has_prefix(bytes, ascii_bytes("https://")) {
        slice_subrange(bytes, 8, bytes.len())
    } else {
        bytes
    };
    assert(rest@ == without_scheme(bytes@));
    if !plain(rest) {
        return None;
    }
    let mut host: Vec<u8> = Vec::new();
    let mut path: Vec<u8> = Vec::new();
    match find(rest, SLASH) {
        Some(slash) => {
            assert(first_at(rest@, SLASH, slash as int));
            push_bytes(&mut host, slice_subrange(rest, 0, slash));
            push_bytes(&mut path, slice_subrange(rest, slash, rest.len()));
        },
        None => {
            push_bytes(&mut host, rest);
            path.push(SLASH);
        },
    }
    assert(host@ =~= host_of(bytes@));
    assert(path@ =~= path_of(bytes@));
    if host.len() == 0 {
        return None;
    }
    Some(Target { host, path })
}

/// One decimal digit as text.
pub open spec fn digit_text(digit: nat) -> Seq<char> {
    if digit == 0 {
        "0"@
    } else if digit == 1 {
        "1"@
    } else if digit == 2 {
        "2"@
    } else if digit == 3 {
        "3"@
    } else if digit == 4 {
        "4"@
    } else if digit == 5 {
        "5"@
    } else if digit == 6 {
        "6"@
    } else if digit == 7 {
        "7"@
    } else if digit == 8 {
        "8"@
    } else {
        "9"@
    }
}

/// A number as decimal text, without leading zeros.
pub open spec fn decimal_text(number: nat) -> Seq<char>
    decreases number,
{
    if number < 10 {
        digit_text(number)
    } else {
        decimal_text(number / 10) + digit_text(number % 10)
    }
}

/// The line of one header: its name, a colon and a space, its value and a
/// line break.
pub open spec fn field_text(header: Header<'_>) -> Seq<char> {
    header.name() + ": "@ + header.value() + "\r\n"@
}

/// The lines of the headers, in their order.
pub open spec fn fields_text(headers: Seq<Header<'_>>) -> Seq<char>
    decreases headers.len(),
{
    if headers.len() == 0 {
        Seq::empty()
    } else {
        fields_text(headers.drop_last()) + field_text(headers.last())
    }
}

/// The line that declares the length of a body; nothing where there is no
/// body.
pub open spec fn length_text(length: nat) -> Seq<char> {
    if length == 0 {
        Seq::empty()
    } else {
        "Content-Length: "@ + decimal_text(length) + "\r\n"@
    }
}

/// What follows the path in the head of a request: the rest of the request
/// line, the declared headers in their order, the length of the body where
/// there is one, and the blank line that ends the head.
pub open spec fn head_text(headers: Seq<Header<'_>>, length: nat) -> Seq<char> {
    " HTTP/1.0\r\n"@ + fields_text(headers) + length_text(length) + "\r\n"@
}

/// A request as the bytes that go over the stream: the method, a space,
/// the path, the rest of the head, and then the body.
pub open spec fn request_bytes(
    method: Method,
    path: Seq<u8>,
    headers: Seq<Header<'_>>,
    body: Seq<u8>,
) -> Seq<u8> {
    encode_utf8(method.name() + " "@) + path + encode_utf8(head_text(headers, body.len())) + body
}

/// One decimal digit as text.
fn digit_str(digit: usize) -> (text: &'static str)
    requires
        digit < 10,
    ensures
        text@ == digit_text(digit as nat),
{
    match digit {
        0 => "0",
        1 => "1",
        2 => "2",
        3 => "3",
        4 => "4",
        5 => "5",
        6 => "6",
        7 => "7",
        8 => "8",
        _ => "9",
    }
}

/// Write `number` in decimal at the end of `output`.
pub fn push_decimal(output: &mut String, number: usize)
    ensures
        final(output)@ == old(output)@ + decimal_text(number as nat),
    decreases number,
{
    if number >= 10 {
        push_decimal(output, number / 10);
        output.append(digit_str(number % 10));
        assert(old(output)@ + decimal_text(number as nat / 10) + digit_text(number as nat % 10)
            =~= old(output)@ + decimal_text(number as nat));
    } else {
        output.append(digit_str(number));
    }
}

/// Write the lines of `headers` at the end of `output`.
pub fn push_fields(output: &mut String, headers: &Vec<Header<'_>>)
    ensures
        final(output)@ == old(output)@ + fields_text(headers@),
{
    let n = headers.len();
    let mut i: usize = 0;
    assert(old(output)@ + fields_text(headers@.take(0)) =~= old(output)@);
    while i < n
        invariant
            n == headers.len(),
            i <= n,
            output@ == old(output)@ + fields_text(headers@.take(i as int)),
        decreases n - i,
    {
        let ghost before = output@;
        headers[i].push_name(output);
        output.append(": ");
        headers[i].push_value(output);
        output.append("\r\n");
        proof {
            let upto = headers@.take(i + 1);
            assert(upto.drop_last() =~= headers@.take(i as int));
            assert(upto.last() == headers@[i as int]);
            assert(output@ =~= before + field_text(headers@[i as int]));
            assert(before + field_text(headers@[i as int]) =~= old(output)@ + fields_text(upto));
        }
        i = i + 1;
    }
    assert(headers@.take(n as int) =~= headers@);
}

/// The bytes of `request` for the path `path`.
pub fn encode(request: &Request<'_>, path: &Vec<u8>) -> (bytes: Vec<u8>)
    ensures
        bytes@ == request_bytes(request.method, path@, request.headers@, request.body@),
{
    let mut line = String::new();
    line.append(request.method.as_str());
    line.append(" ");
    assert(line@ =~= request.method.name() + " "@);
    let mut head = String::new();
    head.append(" HTTP/1.0\r\n");
    push_fields(&mut head, &request.headers);
    if request.body.len() > 0 {
        head.append("Content-Length: ");
        push_decimal(&mut head, request.body.len());
        head.append("\r\n");
    }
    head.append("\r\n");
    assert(head@ =~= head_text(request.headers@, request.body@.len()));
    let mut bytes: Vec<u8> = Vec::new();
    push_bytes(&mut bytes, line.as_str().as_bytes());
    push_bytes(&mut bytes, path.as_slice());
    push_bytes(&mut bytes, head.as_str().as_bytes());
    push_bytes(&mut bytes, request.body.as_slice());
    assert(bytes@ =~= request_bytes(request.method, path@, request.headers@, request.body@));
    bytes
}

} // verus!
