use vstd::prelude::*;

verus! {

/// Error while fetching
#[derive(Debug, Copy, Clone, Eq, PartialEq, Structural)]
pub enum Error {
    /// Network error: the connection could not be made, or broke off
    Network,
    /// The peer's answer is not a well-formed HTTP/1.x response
    Protocol,
    /// 400: Bad Request: Client error
    Request,
    /// 401: Unauthorized: Authentication error
    Auth,
    /// 403: Forbidden: Permission error
    Permission,
    /// 404: Not Found
    Missing,
    /// 405: Method not allowed
    Method,
    /// 406: Not acceptable
    Unacceptable,
    /// 407: Proxy Authentication
    Proxy,
    /// 408: Request timeout
    Timeout,
    /// 409: Conflict
    Conflict,
    /// 410: Content deleted
    Gone,
    /// 411: Length required
    Length,
    /// 412: Client's header preconditions failed
    Header,
    /// 413: Payload Too Large
    Limit,
    /// 414: URI too long
    Uri,
    /// 415: Unsupported media type
    Type,
    /// 416: Range not satisfiable
    Range,
    /// 417: Expectation
    Expectation,
    /// 418: I'm a teapot
    Teapot,
    /// 421: Misdirected Request
    Response,
    /// 422: Unprocessable Entity
    Unprocessable,
    /// 425: Too early
    Early,
    /// 426: Upgrade Required
    Version,
    /// 428: Precondition Required
    Precondition,
    /// 429: Too Many Requests (Rate limited)
    Rate,
    /// 431: Request Header Fields Too Large
    Oversized,
    /// 451: Unavailable For Legal Reasons
    Illegal,
    /// 500: Internal server error
    Server,
    /// 501: Not implemented
    Unimplemented,
    /// 502: Bad gateway
    Gateway,
    /// 503: Service Unavailable
    Unavailable,
    /// 504: Gateway Timeout
    Time,
    /// 505: HTTP Version Not Supported
    Http,
    /// 506: Variant Also Negotiates
    Variant,
    /// 507: Insufficient Storage
    Storage,
    /// 508: (Infinite) Loop detected
    Loop,
    /// 510: Not extended
    Extensions,
    /// 511: Network auth required
    Net,
    /// None of the other ones
    Unknown,
}

impl Error {
    /// The status code that a kind of failure stands for, if it stands for
    /// one.  `Network`, `Protocol` and `Unknown` stand for none.
    pub open spec fn status(self) -> Option<u16> {
        match self {
            Error::Network => None,
            Error::Protocol => None,
            Error::Request => Some(400u16),
            Error::Auth => Some(401u16),
            Error::Permission => Some(403u16),
            Error::Missing => Some(404u16),
            Error::Method => Some(405u16),
            Error::Unacceptable => Some(406u16),
            Error::Proxy => Some(407u16),
            Error::Timeout => Some(408u16),
            Error::Conflict => Some(409u16),
            Error::Gone => Some(410u16),
            Error::Length => Some(411u16),
            Error::Header => Some(412u16),
            Error::Limit => Some(413u16),
            Error::Uri => Some(414u16),
            Error::Type => Some(415u16),
            Error::Range => Some(416u16),
            Error::Expectation => Some(417u16),
            Error::Teapot => Some(418u16),
            Error::Response => Some(421u16),
            Error::Unprocessable => Some(422u16),
            Error::Early => Some(425u16),
            Error::Version => Some(426u16),
            Error::Precondition => Some(428u16),
            Error::Rate => Some(429u16),
            Error::Oversized => Some(431u16),
            Error::Illegal => Some(451u16),
            Error::Server => Some(500u16),
            Error::Unimplemented => Some(501u16),
            Error::Gateway => Some(502u16),
            Error::Unavailable => Some(503u16),
            Error::Time => Some(504u16),
            Error::Http => Some(505u16),
            Error::Variant => Some(506u16),
            Error::Storage => Some(507u16),
            Error::Loop => Some(508u16),
            Error::Extensions => Some(510u16),
            Error::Net => Some(511u16),
            Error::Unknown => None,
        }
    }

    /// The kind of failure that an HTTP status code stands for: the kind
    /// listed for that code, and `Unknown` for every code that has none.
    pub open spec fn of_status(http_code: u16) -> Error {
        match http_code {
            400u16 => Error::Request,
            401u16 => Error::Auth,
            403u16 => Error::Permission,
            404u16 => Error::Missing,
            405u16 => Error::Method,
            406u16 => Error::Unacceptable,
            407u16 => Error::Proxy,
            408u16 => Error::Timeout,
            409u16 => Error::Conflict,
            410u16 => Error::Gone,
            411u16 => Error::Length,
            412u16 => Error::Header,
            413u16 => Error::Limit,
            414u16 => Error::Uri,
            415u16 => Error::Type,
            416u16 => Error::Range,
            417u16 => Error::Expectation,
            418u16 => Error::Teapot,
            421u16 => Error::Response,
            422u16 => Error::Unprocessable,
            425u16 => Error::Early,
            426u16 => Error::Version,
            428u16 => Error::Precondition,
            429u16 => Error::Rate,
            431u16 => Error::Oversized,
            451u16 => Error::Illegal,
            500u16 => Error::Server,
            501u16 => Error::Unimplemented,
            502u16 => Error::Gateway,
            503u16 => Error::Unavailable,
            504u16 => Error::Time,
            505u16 => Error::Http,
            506u16 => Error::Variant,
            507u16 => Error::Storage,
            508u16 => Error::Loop,
            510u16 => Error::Extensions,
            511u16 => Error::Net,
            _ => Error::Unknown,
        }
    }

    /// Whether a status code reports success, which is what the codes from
    /// 200 to 299 do.
    pub open spec fn is_success(http_code: u16) -> bool {
        200 <= http_code <= 299
    }

    /// The kind of failure that an HTTP status code stands for.
    pub fn new(http_code: u16) -> (kind: Error)
        ensures
            kind == Error::of_status(http_code),
    {
        match http_code {
            400 => Error::Request,
            401 => Error::Auth,
            403 => Error::Permission,
            404 => Error::Missing,
            405 => Error::Method,
            406 => Error::Unacceptable,
            407 => Error::Proxy,
            408 => Error::Timeout,
            409 => Error::Conflict,
            410 => Error::Gone,
            411 => Error::Length,
            412 => Error::Header,
            413 => Error::Limit,
            414 => Error::Uri,
            415 => Error::Type,
            416 => Error::Range,
            417 => Error::Expectation,
            418 => Error::Teapot,
            421 => Error::Response,
            422 => Error::Unprocessable,
            425 => Error::Early,
            426 => Error::Version,
            428 => Error::Precondition,
            429 => Error::Rate,
            431 => Error::Oversized,
            451 => Error::Illegal,
            500 => Error::Server,
            501 => Error::Unimplemented,
            502 => Error::Gateway,
            503 => Error::Unavailable,
            504 => Error::Time,
            505 => Error::Http,
            506 => Error::Variant,
            507 => Error::Storage,
            508 => Error::Loop,
            510 => Error::Extensions,
            511 => Error::Net,
            _ => Error::Unknown,
        }
    }

    /// Whether a status code reports success.
    pub fn succeeded(http_code: u16) -> (yes: bool)
        ensures
            yes == Error::is_success(http_code),
    {
        200 <= http_code && http_code <= 299
    }

    /// Every kind that stands for a status code is the kind of that code,
    /// and a code has a kind other than `Unknown` only if the kind stands
    /// for that code.
    pub proof fn lemma_status_round_trip(kind: Error, http_code: u16)
        ensures
            kind.status() == Some(http_code) ==> Error::of_status(http_code) == kind,
            Error::of_status(http_code) == kind && kind != Error::Unknown ==> kind.status()
                == Some(http_code),
    {
    }

    /// No status code has the kind `Network` or `Protocol`, and no code that
    /// reports success has a kind other than `Unknown`.
    pub proof fn lemma_status_never_transport(http_code: u16)
        ensures
            Error::of_status(http_code) != Error::Network,
            Error::of_status(http_code) != Error::Protocol,
            Error::is_success(http_code) ==> Error::of_status(http_code) == Error::Unknown,
    {
    }
}

} // verus!
