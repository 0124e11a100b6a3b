use vstd::prelude::*;
use vstd::string::*;

verus! {

/// The request was received; more is to come.
#[derive(Debug, Clone, Copy, PartialEq, Eq, Structural)]
pub enum Informational {
    Continue,
    SwitchingProtocols,
    Processing,
    EarlyHints,
}

/// The request was served.
#[derive(Debug, Clone, Copy, PartialEq, Eq, Structural)]
pub enum Success {
    Okay,
    Created,
    Accepted,
    NonAuthoritativeInformation,
    NoContent,
    ResetContent,
    PartialContent,
    MultiStatus,
    AlreadyReported,
    ImUsed,
}

/// The client has to go elsewhere.
#[derive(Debug, Clone, Copy, PartialEq, Eq, Structural)]
pub enum Redirection {
    MultipleChoices,
    MovedPermanently,
    Found,
    SeeOther,
    NotModified,
    UseProxy,
    TemporaryRedirect,
    PermanentRedirect,
}

/// The request is at fault.
#[derive(Debug, Clone, Copy, PartialEq, Eq, Structural)]
pub enum ClientError {
    BadRequest,
    Unauthorised,
    PaymentRequired,
    Forbidden,
    NotFound,
    MethodNotAllowed,
    NotAcceptable,
    ProxyAuthenticationRequired,
    RequestTimeout,
    Conflict,
    Gone,
    LengthRequired,
    PreconditionFailed,
    PayloadTooLarge,
    UriTooLong,
    UnsupportedMediaType,
    RangeNotSatisfiable,
    ExceptionFailed,
    ImATeapot,
    MisdirectedRequest,
    UnprocessableEntity,
    Locked,
    FailedDependency,
    TooEarly,
    UpgradeRequired,
    PreconditionRequired,
    TooManyRequests,
    RequestHeaderFieldsTooLarge,
    UnavailableForLegalReasons,
    ClientClosedRequest,
}

/// The server is at fault.
#[derive(Debug, Clone, Copy, PartialEq, Eq, Structural)]
pub enum ServerError {
    InternalServerError,
    NotImplemented,
    BadGateway,
    ServiceUnavailable,
    GatewayTimeout,
    HttpVersionNotSupported,
    VariantAlsoNegotiates,
    InsufficientStorage,
    LoopDetected,
    NotExtended,
    NetworkAuthenticationRequired,
    NetworkConnectionTimeoutError,
}

/// A status that says that a request was not served.
#[derive(Debug, Clone, Copy, PartialEq, Eq, Structural)]
pub enum Error {
    Client(ClientError),
    Server(ServerError),
}

/// A status that says that a request was dealt with.
#[derive(Debug, Clone, Copy, PartialEq, Eq, Structural)]
pub enum Complete {
    Informational(Informational),
    Success(Success),
    Redirection(Redirection),
}

/// An HTTP status.
#[derive(Debug, Clone, Copy, PartialEq, Eq, Structural)]
pub enum Code {
    Informational(Informational),
    Success(Success),
    Redirection(Redirection),
    ClientError(ClientError),
    ServerError(ServerError),
}

impl Informational {
    /// The number of the status.
    pub open spec fn spec_code(self) -> u16 {
        match self {
            Informational::Continue => 100,
            Informational::SwitchingProtocols => 101,
            Informational::Processing => 102,
            Informational::EarlyHints => 103,
        }
    }

    pub fn code(self) -> (code: u16)
        ensures
            code == self.spec_code(),
            code == 100 <==> self is Continue,
            code == 101 <==> self is SwitchingProtocols,
            code == 102 <==> self is Processing,
            code == 103 <==> self is EarlyHints,
    {
        match self {
            Informational::Continue => 100,
            Informational::SwitchingProtocols => 101,
            Informational::Processing => 102,
            Informational::EarlyHints => 103,
        }
    }

    /// The words that go with the status.
    pub open spec fn spec_reason_phrase(self) -> &'static str {
        match self {
            Informational::Continue => "Continue",
            Informational::SwitchingProtocols => "Switching Protocols",
            Informational::Processing => "Processing",
            Informational::EarlyHints => "Early Hints",
        }
    }

    pub fn reason_phrase(self) -> (phrase: &'static str)
        ensures
            phrase@ == self.spec_reason_phrase()@,
            self is Continue ==> phrase@ == "Continue"@,
            self is SwitchingProtocols ==> phrase@ == "Switching Protocols"@,
            self is Processing ==> phrase@ == "Processing"@,
            self is EarlyHints ==> phrase@ == "Early Hints"@,
    {
        match self {
            Informational::Continue => "Continue",
            Informational::SwitchingProtocols => "Switching Protocols",
            Informational::Processing => "Processing",
            Informational::EarlyHints => "Early Hints",
        }
    }
}

impl Success {
    /// The number of the status.
    pub open spec fn spec_code(self) -> u16 {
        match self {
            Success::Okay => 200,
            Success::Created => 201,
            Success::Accepted => 202,
            Success::NonAuthoritativeInformation => 203,
            Success::NoContent => 204,
            Success::ResetContent => 205,
            Success::PartialContent => 206,
            Success::MultiStatus => 207,
            Success::AlreadyReported => 208,
            Success::ImUsed => 226,
        }
    }

    pub fn code(self) -> (code: u16)
        ensures
            code == self.spec_code(),
            code == 200 <==> self is Okay,
            code == 201 <==> self is Created,
            code == 202 <==> self is Accepted,
            code == 203 <==> self is NonAuthoritativeInformation,
            code == 204 <==> self is NoContent,
            code == 205 <==> self is ResetContent,
            code == 206 <==> self is PartialContent,
            code == 207 <==> self is MultiStatus,
            code == 208 <==> self is AlreadyReported,
            code == 226 <==> self is ImUsed,
    {
        match self {
            Success::Okay => 200,
            Success::Created => 201,
            Success::Accepted => 202,
            Success::NonAuthoritativeInformation => 203,
            Success::NoContent => 204,
            Success::ResetContent => 205,
            Success::PartialContent => 206,
            Success::MultiStatus => 207,
            Success::AlreadyReported => 208,
            Success::ImUsed => 226,
        }
    }

    /// The words that go with the status.
    pub open spec fn spec_reason_phrase(self) -> &'static str {
        match self {
            Success::Okay => "OK",
            Success::Created => "Created",
            Success::Accepted => "Accepted",
            Success::NonAuthoritativeInformation => "Non-Authoritative Information",
            Success::NoContent => "No Content",
            Success::ResetContent => "Reset Content",
            Success::PartialContent => "Partial Content",
            Success::MultiStatus => "Multi-Status",
            Success::AlreadyReported => "Already Reported",
            Success::ImUsed => "IM Used",
        }
    }

    pub fn reason_phrase(self) -> (phrase: &'static str)
        ensures
            phrase@ == self.spec_reason_phrase()@,
            self is Okay ==> phrase@ == "OK"@,
            self is Created ==> phrase@ == "Created"@,
            self is Accepted ==> phrase@ == "Accepted"@,
            self is NonAuthoritativeInformation ==> phrase@ == "Non-Authoritative Information"@,
            self is NoContent ==> phrase@ == "No Content"@,
            self is ResetContent ==> phrase@ == "Reset Content"@,
            self is PartialContent ==> phrase@ == "Partial Content"@,
            self is MultiStatus ==> phrase@ == "Multi-Status"@,
            self is AlreadyReported ==> phrase@ == "Already Reported"@,
            self is ImUsed ==> phrase@ == "IM Used"@,
    {
        match self {
            Success::Okay => "OK",
            Success::Created => "Created",
            Success::Accepted => "Accepted",
            Success::NonAuthoritativeInformation => "Non-Authoritative Information",
            Success::NoContent => "No Content",
            Success::ResetContent => "Reset Content",
            Success::PartialContent => "Partial Content",
            Success::MultiStatus => "Multi-Status",
            Success::AlreadyReported => "Already Reported",
            Success::ImUsed => "IM Used",
        }
    }
}

impl Redirection {
    /// The number of the status.
    pub open spec fn spec_code(self) -> u16 {
        match self {
            Redirection::MultipleChoices => 300,
            Redirection::MovedPermanently => 301,
            Redirection::Found => 302,
            Redirection::SeeOther => 303,
            Redirection::NotModified => 304,
            Redirection::UseProxy => 305,
            Redirection::TemporaryRedirect => 307,
            Redirection::PermanentRedirect => 308,
        }
    }

    pub fn code(self) -> (code: u16)
        ensures
            code == self.spec_code(),
            code == 300 <==> self is MultipleChoices,
            code == 301 <==> self is MovedPermanently,
            code == 302 <==> self is Found,
            code == 303 <==> self is SeeOther,
            code == 304 <==> self is NotModified,
            code == 305 <==> self is UseProxy,
            code == 307 <==> self is TemporaryRedirect,
            code == 308 <==> self is PermanentRedirect,
    {
        match self {
            Redirection::MultipleChoices => 300,
            Redirection::MovedPermanently => 301,
            Redirection::Found => 302,
            Redirection::SeeOther => 303,
            Redirection::NotModified => 304,
            Redirection::UseProxy => 305,
            Redirection::TemporaryRedirect => 307,
            Redirection::PermanentRedirect => 308,
        }
    }

    /// The words that go with the status.
    pub open spec fn spec_reason_phrase(self) -> &'static str {
        match self {
            Redirection::MultipleChoices => "Multiple Choices",
            Redirection::MovedPermanently => "Moved Permanently",
            Redirection::Found => "Found",
            Redirection::SeeOther => "See Other",
            Redirection::NotModified => "Not Modified",
            Redirection::UseProxy => "Use Proxy",
            Redirection::TemporaryRedirect => "Temporary Redirect",
            Redirection::PermanentRedirect => "Permanent Redirect",
        }
    }

    pub fn reason_phrase(self) -> (phrase: &'static str)
        ensures
            phrase@ == self.spec_reason_phrase()@,
            self is MultipleChoices ==> phrase@ == "Multiple Choices"@,
            self is MovedPermanently ==> phrase@ == "Moved Permanently"@,
            self is Found ==> phrase@ == "Found"@,
            self is SeeOther ==> phrase@ == "See Other"@,
            self is NotModified ==> phrase@ == "Not Modified"@,
            self is UseProxy ==> phrase@ == "Use Proxy"@,
            self is TemporaryRedirect ==> phrase@ == "Temporary Redirect"@,
            self is PermanentRedirect ==> phrase@ == "Permanent Redirect"@,
    {
        match self {
            Redirection::MultipleChoices => "Multiple Choices",
            Redirection::MovedPermanently => "Moved Permanently",
            Redirection::Found => "Found",
            Redirection::SeeOther => "See Other",
            Redirection::NotModified => "Not Modified",
            Redirection::UseProxy => "Use Proxy",
            Redirection::TemporaryRedirect => "Temporary Redirect",
            Redirection::PermanentRedirect => "Permanent Redirect",
        }
    }
}

impl ClientError {
    /// The number of the status.
    pub open spec fn spec_code(self) -> u16 {
        match self {
            ClientError::BadRequest => 400,
            ClientError::Unauthorised => 401,
            ClientError::PaymentRequired => 402,
            ClientError::Forbidden => 403,
            ClientError::NotFound => 404,
            ClientError::MethodNotAllowed => 405,
            ClientError::NotAcceptable => 406,
            ClientError::ProxyAuthenticationRequired => 407,
            ClientError::RequestTimeout => 408,
            ClientError::Conflict => 409,
            ClientError::Gone => 410,
            ClientError::LengthRequired => 411,
            ClientError::PreconditionFailed => 412,
            ClientError::PayloadTooLarge => 413,
            ClientError::UriTooLong => 414,
            ClientError::UnsupportedMediaType => 415,
            ClientError::RangeNotSatisfiable => 416,
            ClientError::ExceptionFailed => 417,
            ClientError::ImATeapot => 418,
            ClientError::MisdirectedRequest => 421,
            ClientError::UnprocessableEntity => 422,
            ClientError::Locked => 423,
            ClientError::FailedDependency => 424,
            ClientError::TooEarly => 425,
            ClientError::UpgradeRequired => 426,
            ClientError::PreconditionRequired => 428,
            ClientError::TooManyRequests => 429,
            ClientError::RequestHeaderFieldsTooLarge => 431,
            ClientError::UnavailableForLegalReasons => 451,
            ClientError::ClientClosedRequest => 499,
        }
    }

    pub fn code(self) -> (code: u16)
        ensures
            code == self.spec_code(),
            code == 400 <==> self is BadRequest,
            code == 401 <==> self is Unauthorised,
            code == 402 <==> self is PaymentRequired,
            code == 403 <==> self is Forbidden,
            code == 404 <==> self is NotFound,
            code == 405 <==> self is MethodNotAllowed,
            code == 406 <==> self is NotAcceptable,
            code == 407 <==> self is ProxyAuthenticationRequired,
            code == 408 <==> self is RequestTimeout,
            code == 409 <==> self is Conflict,
            code == 410 <==> self is Gone,
            code == 411 <==> self is LengthRequired,
            code == 412 <==> self is PreconditionFailed,
            code == 413 <==> self is PayloadTooLarge,
            code == 414 <==> self is UriTooLong,
            code == 415 <==> self is UnsupportedMediaType,
            code == 416 <==> self is RangeNotSatisfiable,
            code == 417 <==> self is ExceptionFailed,
            code == 418 <==> self is ImATeapot,
            code == 421 <==> self is MisdirectedRequest,
            code == 422 <==> self is UnprocessableEntity,
            code == 423 <==> self is Locked,
            code == 424 <==> self is FailedDependency,
            code == 425 <==> self is TooEarly,
            code == 426 <==> self is UpgradeRequired,
            code == 428 <==> self is PreconditionRequired,
            code == 429 <==> self is TooManyRequests,
            code == 431 <==> self is RequestHeaderFieldsTooLarge,
            code == 451 <==> self is UnavailableForLegalReasons,
            code == 499 <==> self is ClientClosedRequest,
    {
        match self {
            ClientError::BadRequest => 400,
            ClientError::Unauthorised => 401,
            ClientError::PaymentRequired => 402,
            ClientError::Forbidden => 403,
            ClientError::NotFound => 404,
            ClientError::MethodNotAllowed => 405,
            ClientError::NotAcceptable => 406,
            ClientError::ProxyAuthenticationRequired => 407,
            ClientError::RequestTimeout => 408,
            ClientError::Conflict => 409,
            ClientError::Gone => 410,
            ClientError::LengthRequired => 411,
            ClientError::PreconditionFailed => 412,
            ClientError::PayloadTooLarge => 413,
            ClientError::UriTooLong => 414,
            ClientError::UnsupportedMediaType => 415,
            ClientError::RangeNotSatisfiable => 416,
            ClientError::ExceptionFailed => 417,
            ClientError::ImATeapot => 418,
            ClientError::MisdirectedRequest => 421,
            ClientError::UnprocessableEntity => 422,
            ClientError::Locked => 423,
            ClientError::FailedDependency => 424,
            ClientError::TooEarly => 425,
            ClientError::UpgradeRequired => 426,
            ClientError::PreconditionRequired => 428,
            ClientError::TooManyRequests => 429,
            ClientError::RequestHeaderFieldsTooLarge => 431,
            ClientError::UnavailableForLegalReasons => 451,
            ClientError::ClientClosedRequest => 499,
        }
    }

    /// The words that go with the status.
    pub open spec fn spec_reason_phrase(self) -> &'static str {
        match self {
            ClientError::BadRequest => "Bad Request",
            ClientError::Unauthorised => "Unauthorized",
            ClientError::PaymentRequired => "Payment Required",
            ClientError::Forbidden => "Forbidden",
            ClientError::NotFound => "Not Found",
            ClientError::MethodNotAllowed => "Method Not Allowed",
            ClientError::NotAcceptable => "Not Acceptable",
            ClientError::ProxyAuthenticationRequired => "Proxy Authentication Required",
            ClientError::RequestTimeout => "Request Timeout",
            ClientError::Conflict => "Conflict",
            ClientError::Gone => "Gone",
            ClientError::LengthRequired => "Length Required",
            ClientError::PreconditionFailed => "Precondition Failed",
            ClientError::PayloadTooLarge => "Payload Too Large",
            ClientError::UriTooLong => "URI Too Long",
            ClientError::UnsupportedMediaType => "Unsupported Media Type",
            ClientError::RangeNotSatisfiable => "Range Not Satisfiable",
            ClientError::ExceptionFailed => "Expectation Failed",
            ClientError::ImATeapot => "I'm a teapot",
            ClientError::MisdirectedRequest => "Misdirected Request",
            ClientError::UnprocessableEntity => "Unprocessable Entity",
            ClientError::Locked => "Locked",
            ClientError::FailedDependency => "Failed Dependency",
            ClientError::TooEarly => "Too Early",
            ClientError::UpgradeRequired => "Upgrade Required",
            ClientError::PreconditionRequired => "Precondition Required",
            ClientError::TooManyRequests => "Too Many Requests",
            ClientError::RequestHeaderFieldsTooLarge => "Request Header Fields Too Large",
            ClientError::UnavailableForLegalReasons => "Unavailable For Legal Reasons",
            ClientError::ClientClosedRequest => "Client Closed Request",
        }
    }

    pub fn reason_phrase(self) -> (phrase: &'static str)
        ensures
            phrase@ == self.spec_reason_phrase()@,
            self is BadRequest ==> phrase@ == "Bad Request"@,
            self is Unauthorised ==> phrase@ == "Unauthorized"@,
            self is PaymentRequired ==> phrase@ == "Payment Required"@,
            self is Forbidden ==> phrase@ == "Forbidden"@,
            self is NotFound ==> phrase@ == "Not Found"@,
            self is MethodNotAllowed ==> phrase@ == "Method Not Allowed"@,
            self is NotAcceptable ==> phrase@ == "Not Acceptable"@,
            self is ProxyAuthenticationRequired ==> phrase@ == "Proxy Authentication Required"@,
            self is RequestTimeout ==> phrase@ == "Request Timeout"@,
            self is Conflict ==> phrase@ == "Conflict"@,
            self is Gone ==> phrase@ == "Gone"@,
            self is LengthRequired ==> phrase@ == "Length Required"@,
            self is PreconditionFailed ==> phrase@ == "Precondition Failed"@,
            self is PayloadTooLarge ==> phrase@ == "Payload Too Large"@,
            self is UriTooLong ==> phrase@ == "URI Too Long"@,
            self is UnsupportedMediaType ==> phrase@ == "Unsupported Media Type"@,
            self is RangeNotSatisfiable ==> phrase@ == "Range Not Satisfiable"@,
            self is ExceptionFailed ==> phrase@ == "Expectation Failed"@,
            self is ImATeapot ==> phrase@ == "I'm a teapot"@,
            self is MisdirectedRequest ==> phrase@ == "Misdirected Request"@,
            self is UnprocessableEntity ==> phrase@ == "Unprocessable Entity"@,
            self is Locked ==> phrase@ == "Locked"@,
            self is FailedDependency ==> phrase@ == "Failed Dependency"@,
            self is TooEarly ==> phrase@ == "Too Early"@,
            self is UpgradeRequired ==> phrase@ == "Upgrade Required"@,
            self is PreconditionRequired ==> phrase@ == "Precondition Required"@,
            self is TooManyRequests ==> phrase@ == "Too Many Requests"@,
            self is RequestHeaderFieldsTooLarge ==> phrase@ == "Request Header Fields Too Large"@,
            self is UnavailableForLegalReasons ==> phrase@ == "Unavailable For Legal Reasons"@,
            self is ClientClosedRequest ==> phrase@ == "Client Closed Request"@,
    {
        match self {
            ClientError::BadRequest => "Bad Request",
            ClientError::Unauthorised => "Unauthorized",
            ClientError::PaymentRequired => "Payment Required",
            ClientError::Forbidden => "Forbidden",
            ClientError::NotFound => "Not Found",
            ClientError::MethodNotAllowed => "Method Not Allowed",
            ClientError::NotAcceptable => "Not Acceptable",
            ClientError::ProxyAuthenticationRequired => "Proxy Authentication Required",
            ClientError::RequestTimeout => "Request Timeout",
            ClientError::Conflict => "Conflict",
            ClientError::Gone => "Gone",
            ClientError::LengthRequired => "Length Required",
            ClientError::PreconditionFailed => "Precondition Failed",
            ClientError::PayloadTooLarge => "Payload Too Large",
            ClientError::UriTooLong => "URI Too Long",
            ClientError::UnsupportedMediaType => "Unsupported Media Type",
            ClientError::RangeNotSatisfiable => "Range Not Satisfiable",
            ClientError::ExceptionFailed => "Expectation Failed",
            ClientError::ImATeapot => "I'm a teapot",
            ClientError::MisdirectedRequest => "Misdirected Request",
            ClientError::UnprocessableEntity => "Unprocessable Entity",
            ClientError::Locked => "Locked",
            ClientError::FailedDependency => "Failed Dependency",
            ClientError::TooEarly => "Too Early",
            ClientError::UpgradeRequired => "Upgrade Required",
            ClientError::PreconditionRequired => "Precondition Required",
            ClientError::TooManyRequests => "Too Many Requests",
            ClientError::RequestHeaderFieldsTooLarge => "Request Header Fields Too Large",
            ClientError::UnavailableForLegalReasons => "Unavailable For Legal Reasons",
            ClientError::ClientClosedRequest => "Client Closed Request",
        }
    }
}

impl ServerError {
    /// The number of the status.
    pub open spec fn spec_code(self) -> u16 {
        match self {
            ServerError::InternalServerError => 500,
            ServerError::NotImplemented => 501,
            ServerError::BadGateway => 502,
            ServerError::ServiceUnavailable => 503,
            ServerError::GatewayTimeout => 504,
            ServerError::HttpVersionNotSupported => 505,
            ServerError::VariantAlsoNegotiates => 506,
            ServerError::InsufficientStorage => 507,
            ServerError::LoopDetected => 508,
            ServerError::NotExtended => 510,
            ServerError::NetworkAuthenticationRequired => 511,
            ServerError::NetworkConnectionTimeoutError => 599,
        }
    }

    pub fn code(self) -> (code: u16)
        ensures
            code == self.spec_code(),
            code == 500 <==> self is InternalServerError,
            code == 501 <==> self is NotImplemented,
            code == 502 <==> self is BadGateway,
            code == 503 <==> self is ServiceUnavailable,
            code == 504 <==> self is GatewayTimeout,
            code == 505 <==> self is HttpVersionNotSupported,
            code == 506 <==> self is VariantAlsoNegotiates,
            code == 507 <==> self is InsufficientStorage,
            code == 508 <==> self is LoopDetected,
            code == 510 <==> self is NotExtended,
            code == 511 <==> self is NetworkAuthenticationRequired,
            code == 599 <==> self is NetworkConnectionTimeoutError,
    {
        match self {
            ServerError::InternalServerError => 500,
            ServerError::NotImplemented => 501,
            ServerError::BadGateway => 502,
            ServerError::ServiceUnavailable => 503,
            ServerError::GatewayTimeout => 504,
            ServerError::HttpVersionNotSupported => 505,
            ServerError::VariantAlsoNegotiates => 506,
            ServerError::InsufficientStorage => 507,
            ServerError::LoopDetected => 508,
            ServerError::NotExtended => 510,
            ServerError::NetworkAuthenticationRequired => 511,
            ServerError::NetworkConnectionTimeoutError => 599,
        }
    }

    /// The words that go with the status.
    pub open spec fn spec_reason_phrase(self) -> &'static str {
        match self {
            ServerError::InternalServerError => "Internal Server Error",
            ServerError::NotImplemented => "Not Implemented",
            ServerError::BadGateway => "Bad Gateway",
            ServerError::ServiceUnavailable => "Service Unavailable",
            ServerError::GatewayTimeout => "Gateway Timeout",
            ServerError::HttpVersionNotSupported => "HTTP Version Not Supported",
            ServerError::VariantAlsoNegotiates => "Variant Also Negotiates",
            ServerError::InsufficientStorage => "Insufficient Storage",
            ServerError::LoopDetected => "Loop Detected",
            ServerError::NotExtended => "Not Extended",
            ServerError::NetworkAuthenticationRequired => "Network Authentication Required",
            ServerError::NetworkConnectionTimeoutError => "Network Connection Timeout Error",
        }
    }

    pub fn reason_phrase(self) -> (phrase: &'static str)
        ensures
            phrase@ == self.spec_reason_phrase()@,
            self is InternalServerError ==> phrase@ == "Internal Server Error"@,
            self is NotImplemented ==> phrase@ == "Not Implemented"@,
            self is BadGateway ==> phrase@ == "Bad Gateway"@,
            self is ServiceUnavailable ==> phrase@ == "Service Unavailable"@,
            self is GatewayTimeout ==> phrase@ == "Gateway Timeout"@,
            self is HttpVersionNotSupported ==> phrase@ == "HTTP Version Not Supported"@,
            self is VariantAlsoNegotiates ==> phrase@ == "Variant Also Negotiates"@,
            self is InsufficientStorage ==> phrase@ == "Insufficient Storage"@,
            self is LoopDetected ==> phrase@ == "Loop Detected"@,
            self is NotExtended ==> phrase@ == "Not Extended"@,
            self is NetworkAuthenticationRequired ==> phrase@ == "Network Authentication Required"@,
            self is NetworkConnectionTimeoutError ==> phrase@ == "Network Connection Timeout Error"@,
    {
        match self {
            ServerError::InternalServerError => "Internal Server Error",
            ServerError::NotImplemented => "Not Implemented",
            ServerError::BadGateway => "Bad Gateway",
            ServerError::ServiceUnavailable => "Service Unavailable",
            ServerError::GatewayTimeout => "Gateway Timeout",
            ServerError::HttpVersionNotSupported => "HTTP Version Not Supported",
            ServerError::VariantAlsoNegotiates => "Variant Also Negotiates",
            ServerError::InsufficientStorage => "Insufficient Storage",
            ServerError::LoopDetected => "Loop Detected",
            ServerError::NotExtended => "Not Extended",
            ServerError::NetworkAuthenticationRequired => "Network Authentication Required",
            ServerError::NetworkConnectionTimeoutError => "Network Connection Timeout Error",
        }
    }
}

impl Error {
    pub open spec fn spec_code(self) -> u16 {
        match self {
            Error::Client(s) => s.spec_code(),
            Error::Server(s) => s.spec_code(),
        }
    }

    /// The number of the status.
    pub fn code(&self) -> (code: u16)
        ensures
            code == self.spec_code(),
            code == 400 <==> *self == Error::Client(ClientError::BadRequest),
            code == 401 <==> *self == Error::Client(ClientError::Unauthorised),
            code == 402 <==> *self == Error::Client(ClientError::PaymentRequired),
            code == 403 <==> *self == Error::Client(ClientError::Forbidden),
            code == 404 <==> *self == Error::Client(ClientError::NotFound),
            code == 405 <==> *self == Error::Client(ClientError::MethodNotAllowed),
            code == 406 <==> *self == Error::Client(ClientError::NotAcceptable),
            code == 407 <==> *self == Error::Client(ClientError::ProxyAuthenticationRequired),
            code == 408 <==> *self == Error::Client(ClientError::RequestTimeout),
            code == 409 <==> *self == Error::Client(ClientError::Conflict),
            code == 410 <==> *self == Error::Client(ClientError::Gone),
            code == 411 <==> *self == Error::Client(ClientError::LengthRequired),
            code == 412 <==> *self == Error::Client(ClientError::PreconditionFailed),
            code == 413 <==> *self == Error::Client(ClientError::PayloadTooLarge),
            code == 414 <==> *self == Error::Client(ClientError::UriTooLong),
            code == 415 <==> *self == Error::Client(ClientError::UnsupportedMediaType),
            code == 416 <==> *self == Error::Client(ClientError::RangeNotSatisfiable),
            code == 417 <==> *self == Error::Client(ClientError::ExceptionFailed),
            code == 418 <==> *self == Error::Client(ClientError::ImATeapot),
            code == 421 <==> *self == Error::Client(ClientError::MisdirectedRequest),
            code == 422 <==> *self == Error::Client(ClientError::UnprocessableEntity),
            code == 423 <==> *self == Error::Client(ClientError::Locked),
            code == 424 <==> *self == Error::Client(ClientError::FailedDependency),
            code == 425 <==> *self == Error::Client(ClientError::TooEarly),
            code == 426 <==> *self == Error::Client(ClientError::UpgradeRequired),
            code == 428 <==> *self == Error::Client(ClientError::PreconditionRequired),
            code == 429 <==> *self == Error::Client(ClientError::TooManyRequests),
            code == 431 <==> *self == Error::Client(ClientError::RequestHeaderFieldsTooLarge),
            code == 451 <==> *self == Error::Client(ClientError::UnavailableForLegalReasons),
            code == 499 <==> *self == Error::Client(ClientError::ClientClosedRequest),
            code == 500 <==> *self == Error::Server(ServerError::InternalServerError),
            code == 501 <==> *self == Error::Server(ServerError::NotImplemented),
            code == 502 <==> *self == Error::Server(ServerError::BadGateway),
            code == 503 <==> *self == Error::Server(ServerError::ServiceUnavailable),
            code == 504 <==> *self == Error::Server(ServerError::GatewayTimeout),
            code == 505 <==> *self == Error::Server(ServerError::HttpVersionNotSupported),
            code == 506 <==> *self == Error::Server(ServerError::VariantAlsoNegotiates),
            code == 507 <==> *self == Error::Server(ServerError::InsufficientStorage),
            code == 508 <==> *self == Error::Server(ServerError::LoopDetected),
            code == 510 <==> *self == Error::Server(ServerError::NotExtended),
            code == 511 <==> *self == Error::Server(ServerError::NetworkAuthenticationRequired),
            code == 599 <==> *self == Error::Server(ServerError::NetworkConnectionTimeoutError),
    {
        match self {
            Error::Client(s) => s.code(),
            Error::Server(s) => s.code(),
        }
    }

    pub open spec fn spec_reason_phrase(self) -> &'static str {
        match self {
            Error::Client(s) => s.spec_reason_phrase(),
            Error::Server(s) => s.spec_reason_phrase(),
        }
    }

    /// The words that go with the status.
    pub fn reason_phrase(&self) -> (phrase: &'static str)
        ensures
            phrase@ == self.spec_reason_phrase()@,
            *self == Error::Client(ClientError::BadRequest) ==> phrase@ == "Bad Request"@,
            *self == Error::Client(ClientError::Unauthorised) ==> phrase@ == "Unauthorized"@,
            *self == Error::Client(ClientError::PaymentRequired) ==> phrase@ == "Payment Required"@,
            *self == Error::Client(ClientError::Forbidden) ==> phrase@ == "Forbidden"@,
            *self == Error::Client(ClientError::NotFound) ==> phrase@ == "Not Found"@,
            *self == Error::Client(ClientError::MethodNotAllowed) ==> phrase@ == "Method Not Allowed"@,
            *self == Error::Client(ClientError::NotAcceptable) ==> phrase@ == "Not Acceptable"@,
            *self == Error::Client(ClientError::ProxyAuthenticationRequired) ==> phrase@ == "Proxy Authentication Required"@,
            *self == Error::Client(ClientError::RequestTimeout) ==> phrase@ == "Request Timeout"@,
            *self == Error::Client(ClientError::Conflict) ==> phrase@ == "Conflict"@,
            *self == Error::Client(ClientError::Gone) ==> phrase@ == "Gone"@,
            *self == Error::Client(ClientError::LengthRequired) ==> phrase@ == "Length Required"@,
            *self == Error::Client(ClientError::PreconditionFailed) ==> phrase@ == "Precondition Failed"@,
            *self == Error::Client(ClientError::PayloadTooLarge) ==> phrase@ == "Payload Too Large"@,
            *self == Error::Client(ClientError::UriTooLong) ==> phrase@ == "URI Too Long"@,
            *self == Error::Client(ClientError::UnsupportedMediaType) ==> phrase@ == "Unsupported Media Type"@,
            *self == Error::Client(ClientError::RangeNotSatisfiable) ==> phrase@ == "Range Not Satisfiable"@,
            *self == Error::Client(ClientError::ExceptionFailed) ==> phrase@ == "Expectation Failed"@,
            *self == Error::Client(ClientError::ImATeapot) ==> phrase@ == "I'm a teapot"@,
            *self == Error::Client(ClientError::MisdirectedRequest) ==> phrase@ == "Misdirected Request"@,
            *self == Error::Client(ClientError::UnprocessableEntity) ==> phrase@ == "Unprocessable Entity"@,
            *self == Error::Client(ClientError::Locked) ==> phrase@ == "Locked"@,
            *self == Error::Client(ClientError::FailedDependency) ==> phrase@ == "Failed Dependency"@,
            *self == Error::Client(ClientError::TooEarly) ==> phrase@ == "Too Early"@,
            *self == Error::Client(ClientError::UpgradeRequired) ==> phrase@ == "Upgrade Required"@,
            *self == Error::Client(ClientError::PreconditionRequired) ==> phrase@ == "Precondition Required"@,
            *self == Error::Client(ClientError::TooManyRequests) ==> phrase@ == "Too Many Requests"@,
            *self == Error::Client(ClientError::RequestHeaderFieldsTooLarge) ==> phrase@ == "Request Header Fields Too Large"@,
            *self == Error::Client(ClientError::UnavailableForLegalReasons) ==> phrase@ == "Unavailable For Legal Reasons"@,
            *self == Error::Client(ClientError::ClientClosedRequest) ==> phrase@ == "Client Closed Request"@,
            *self == Error::Server(ServerError::InternalServerError) ==> phrase@ == "Internal Server Error"@,
            *self == Error::Server(ServerError::NotImplemented) ==> phrase@ == "Not Implemented"@,
            *self == Error::Server(ServerError::BadGateway) ==> phrase@ == "Bad Gateway"@,
            *self == Error::Server(ServerError::ServiceUnavailable) ==> phrase@ == "Service Unavailable"@,
            *self == Error::Server(ServerError::GatewayTimeout) ==> phrase@ == "Gateway Timeout"@,
            *self == Error::Server(ServerError::HttpVersionNotSupported) ==> phrase@ == "HTTP Version Not Supported"@,
            *self == Error::Server(ServerError::VariantAlsoNegotiates) ==> phrase@ == "Variant Also Negotiates"@,
            *self == Error::Server(ServerError::InsufficientStorage) ==> phrase@ == "Insufficient Storage"@,
            *self == Error::Server(ServerError::LoopDetected) ==> phrase@ == "Loop Detected"@,
            *self == Error::Server(ServerError::NotExtended) ==> phrase@ == "Not Extended"@,
            *self == Error::Server(ServerError::NetworkAuthenticationRequired) ==> phrase@ == "Network Authentication Required"@,
            *self == Error::Server(ServerError::NetworkConnectionTimeoutError) ==> phrase@ == "Network Connection Timeout Error"@,
    {
        match self {
            Error::Client(s) => Code::ClientError(*s).reason_phrase(),
            Error::Server(s) => Code::ServerError(*s).reason_phrase(),
        }
    }
}

impl Code {
    pub open spec fn spec_code(self) -> u16 {
        match self {
            Code::Informational(s) => s.spec_code(),
            Code::Success(s) => s.spec_code(),
            Code::Redirection(s) => s.spec_code(),
            Code::ClientError(s) => s.spec_code(),
            Code::ServerError(s) => s.spec_code(),
        }
    }

    /// The number of the status.
    pub fn code(&self) -> (code: u16)
        ensures
            code == self.spec_code(),
            code == 100 <==> *self == Code::Informational(Informational::Continue),
            code == 101 <==> *self == Code::Informational(Informational::SwitchingProtocols),
            code == 102 <==> *self == Code::Informational(Informational::Processing),
            code == 103 <==> *self == Code::Informational(Informational::EarlyHints),
            code == 200 <==> *self == Code::Success(Success::Okay),
            code == 201 <==> *self == Code::Success(Success::Created),
            code == 202 <==> *self == Code::Success(Success::Accepted),
            code == 203 <==> *self == Code::Success(Success::NonAuthoritativeInformation),
            code == 204 <==> *self == Code::Success(Success::NoContent),
            code == 205 <==> *self == Code::Success(Success::ResetContent),
            code == 206 <==> *self == Code::Success(Success::PartialContent),
            code == 207 <==> *self == Code::Success(Success::MultiStatus),
            code == 208 <==> *self == Code::Success(Success::AlreadyReported),
            code == 226 <==> *self == Code::Success(Success::ImUsed),
            code == 300 <==> *self == Code::Redirection(Redirection::MultipleChoices),
            code == 301 <==> *self == Code::Redirection(Redirection::MovedPermanently),
            code == 302 <==> *self == Code::Redirection(Redirection::Found),
            code == 303 <==> *self == Code::Redirection(Redirection::SeeOther),
            code == 304 <==> *self == Code::Redirection(Redirection::NotModified),
            code == 305 <==> *self == Code::Redirection(Redirection::UseProxy),
            code == 307 <==> *self == Code::Redirection(Redirection::TemporaryRedirect),
            code == 308 <==> *self == Code::Redirection(Redirection::PermanentRedirect),
            code == 400 <==> *self == Code::ClientError(ClientError::BadRequest),
            code == 401 <==> *self == Code::ClientError(ClientError::Unauthorised),
            code == 402 <==> *self == Code::ClientError(ClientError::PaymentRequired),
            code == 403 <==> *self == Code::ClientError(ClientError::Forbidden),
            code == 404 <==> *self == Code::ClientError(ClientError::NotFound),
            code == 405 <==> *self == Code::ClientError(ClientError::MethodNotAllowed),
            code == 406 <==> *self == Code::ClientError(ClientError::NotAcceptable),
            code == 407 <==> *self == Code::ClientError(ClientError::ProxyAuthenticationRequired),
            code == 408 <==> *self == Code::ClientError(ClientError::RequestTimeout),
            code == 409 <==> *self == Code::ClientError(ClientError::Conflict),
            code == 410 <==> *self == Code::ClientError(ClientError::Gone),
            code == 411 <==> *self == Code::ClientError(ClientError::LengthRequired),
            code == 412 <==> *self == Code::ClientError(ClientError::PreconditionFailed),
            code == 413 <==> *self == Code::ClientError(ClientError::PayloadTooLarge),
            code == 414 <==> *self == Code::ClientError(ClientError::UriTooLong),
            code == 415 <==> *self == Code::ClientError(ClientError::UnsupportedMediaType),
            code == 416 <==> *self == Code::ClientError(ClientError::RangeNotSatisfiable),
            code == 417 <==> *self == Code::ClientError(ClientError::ExceptionFailed),
            code == 418 <==> *self == Code::ClientError(ClientError::ImATeapot),
            code == 421 <==> *self == Code::ClientError(ClientError::MisdirectedRequest),
            code == 422 <==> *self == Code::ClientError(ClientError::UnprocessableEntity),
            code == 423 <==> *self == Code::ClientError(ClientError::Locked),
            code == 424 <==> *self == Code::ClientError(ClientError::FailedDependency),
            code == 425 <==> *self == Code::ClientError(ClientError::TooEarly),
            code == 426 <==> *self == Code::ClientError(ClientError::UpgradeRequired),
            code == 428 <==> *self == Code::ClientError(ClientError::PreconditionRequired),
            code == 429 <==> *self == Code::ClientError(ClientError::TooManyRequests),
            code == 431 <==> *self == Code::ClientError(ClientError::RequestHeaderFieldsTooLarge),
            code == 451 <==> *self == Code::ClientError(ClientError::UnavailableForLegalReasons),
            code == 499 <==> *self == Code::ClientError(ClientError::ClientClosedRequest),
            code == 500 <==> *self == Code::ServerError(ServerError::InternalServerError),
            code == 501 <==> *self == Code::ServerError(ServerError::NotImplemented),
            code == 502 <==> *self == Code::ServerError(ServerError::BadGateway),
            code == 503 <==> *self == Code::ServerError(ServerError::ServiceUnavailable),
            code == 504 <==> *self == Code::ServerError(ServerError::GatewayTimeout),
            code == 505 <==> *self == Code::ServerError(ServerError::HttpVersionNotSupported),
            code == 506 <==> *self == Code::ServerError(ServerError::VariantAlsoNegotiates),
            code == 507 <==> *self == Code::ServerError(ServerError::InsufficientStorage),
            code == 508 <==> *self == Code::ServerError(ServerError::LoopDetected),
            code == 510 <==> *self == Code::ServerError(ServerError::NotExtended),
            code == 511 <==> *self == Code::ServerError(ServerError::NetworkAuthenticationRequired),
            code == 599 <==> *self == Code::ServerError(ServerError::NetworkConnectionTimeoutError),
    {
        match self {
            Code::Informational(s) => s.code(),
            Code::Success(s) => s.code(),
            Code::Redirection(s) => s.code(),
            Code::ClientError(s) => s.code(),
            Code::ServerError(s) => s.code(),
        }
    }

    pub open spec fn spec_as_error(self) -> Option<Error> {
        match self {
            Code::ClientError(s) => Some(Error::Client(s)),
            Code::ServerError(s) => Some(Error::Server(s)),
            _ => None,
        }
    }

    /// The status as an error, if it is one.
    pub fn as_error(&self) -> (error: Option<Error>)
        ensures
            error == self.spec_as_error(),
            error is Some <==> self is ClientError || self is ServerError,
            self matches Code::ClientError(s) ==> error == Some(Error::Client(*s)),
            self matches Code::ServerError(s) ==> error == Some(Error::Server(*s)),
    {
        match self {
            Code::ClientError(s) => Some(Error::Client(*s)),
            Code::ServerError(s) => Some(Error::Server(*s)),
            _ => None,
        }
    }

    /// Whether the status says that the request was not served.
    pub fn is_error(&self) -> (error: bool)
        ensures
            error <==> self is ClientError || self is ServerError,
    {
        matches!(self, Code::ClientError(_) | Code::ServerError(_))
    }

    /// Whether the status says that the request was served.
    pub fn is_success(&self) -> (success: bool)
        ensures
            success <==> self is Success,
    {
        matches!(self, Code::Success(_))
    }

    pub open spec fn spec_reason_phrase(self) -> &'static str {
        match self {
            Code::Informational(s) => s.spec_reason_phrase(),
            Code::Success(s) => s.spec_reason_phrase(),
            Code::Redirection(s) => s.spec_reason_phrase(),
            Code::ClientError(s) => s.spec_reason_phrase(),
            Code::ServerError(s) => s.spec_reason_phrase(),
        }
    }

    /// The words that go with the status.
    pub fn reason_phrase(&self) -> (phrase: &'static str)
        ensures
            phrase@ == self.spec_reason_phrase()@,
            *self == Code::Informational(Informational::Continue) ==> phrase@ == "Continue"@,
            *self == Code::Informational(Informational::SwitchingProtocols) ==> phrase@ == "Switching Protocols"@,
            *self == Code::Informational(Informational::Processing) ==> phrase@ == "Processing"@,
            *self == Code::Informational(Informational::EarlyHints) ==> phrase@ == "Early Hints"@,
            *self == Code::Success(Success::Okay) ==> phrase@ == "OK"@,
            *self == Code::Success(Success::Created) ==> phrase@ == "Created"@,
            *self == Code::Success(Success::Accepted) ==> phrase@ == "Accepted"@,
            *self == Code::Success(Success::NonAuthoritativeInformation) ==> phrase@ == "Non-Authoritative Information"@,
            *self == Code::Success(Success::NoContent) ==> phrase@ == "No Content"@,
            *self == Code::Success(Success::ResetContent) ==> phrase@ == "Reset Content"@,
            *self == Code::Success(Success::PartialContent) ==> phrase@ == "Partial Content"@,
            *self == Code::Success(Success::MultiStatus) ==> phrase@ == "Multi-Status"@,
            *self == Code::Success(Success::AlreadyReported) ==> phrase@ == "Already Reported"@,
            *self == Code::Success(Success::ImUsed) ==> phrase@ == "IM Used"@,
            *self == Code::Redirection(Redirection::MultipleChoices) ==> phrase@ == "Multiple Choices"@,
            *self == Code::Redirection(Redirection::MovedPermanently) ==> phrase@ == "Moved Permanently"@,
            *self == Code::Redirection(Redirection::Found) ==> phrase@ == "Found"@,
            *self == Code::Redirection(Redirection::SeeOther) ==> phrase@ == "See Other"@,
            *self == Code::Redirection(Redirection::NotModified) ==> phrase@ == "Not Modified"@,
            *self == Code::Redirection(Redirection::UseProxy) ==> phrase@ == "Use Proxy"@,
            *self == Code::Redirection(Redirection::TemporaryRedirect) ==> phrase@ == "Temporary Redirect"@,
            *self == Code::Redirection(Redirection::PermanentRedirect) ==> phrase@ == "Permanent Redirect"@,
            *self == Code::ClientError(ClientError::BadRequest) ==> phrase@ == "Bad Request"@,
            *self == Code::ClientError(ClientError::Unauthorised) ==> phrase@ == "Unauthorized"@,
            *self == Code::ClientError(ClientError::PaymentRequired) ==> phrase@ == "Payment Required"@,
            *self == Code::ClientError(ClientError::Forbidden) ==> phrase@ == "Forbidden"@,
            *self == Code::ClientError(ClientError::NotFound) ==> phrase@ == "Not Found"@,
            *self == Code::ClientError(ClientError::MethodNotAllowed) ==> phrase@ == "Method Not Allowed"@,
            *self == Code::ClientError(ClientError::NotAcceptable) ==> phrase@ == "Not Acceptable"@,
            *self == Code::ClientError(ClientError::ProxyAuthenticationRequired) ==> phrase@ == "Proxy Authentication Required"@,
            *self == Code::ClientError(ClientError::RequestTimeout) ==> phrase@ == "Request Timeout"@,
            *self == Code::ClientError(ClientError::Conflict) ==> phrase@ == "Conflict"@,
            *self == Code::ClientError(ClientError::Gone) ==> phrase@ == "Gone"@,
            *self == Code::ClientError(ClientError::LengthRequired) ==> phrase@ == "Length Required"@,
            *self == Code::ClientError(ClientError::PreconditionFailed) ==> phrase@ == "Precondition Failed"@,
            *self == Code::ClientError(ClientError::PayloadTooLarge) ==> phrase@ == "Payload Too Large"@,
            *self == Code::ClientError(ClientError::UriTooLong) ==> phrase@ == "URI Too Long"@,
            *self == Code::ClientError(ClientError::UnsupportedMediaType) ==> phrase@ == "Unsupported Media Type"@,
            *self == Code::ClientError(ClientError::RangeNotSatisfiable) ==> phrase@ == "Range Not Satisfiable"@,
            *self == Code::ClientError(ClientError::ExceptionFailed) ==> phrase@ == "Expectation Failed"@,
            *self == Code::ClientError(ClientError::ImATeapot) ==> phrase@ == "I'm a teapot"@,
            *self == Code::ClientError(ClientError::MisdirectedRequest) ==> phrase@ == "Misdirected Request"@,
            *self == Code::ClientError(ClientError::UnprocessableEntity) ==> phrase@ == "Unprocessable Entity"@,
            *self == Code::ClientError(ClientError::Locked) ==> phrase@ == "Locked"@,
            *self == Code::ClientError(ClientError::FailedDependency) ==> phrase@ == "Failed Dependency"@,
            *self == Code::ClientError(ClientError::TooEarly) ==> phrase@ == "Too Early"@,
            *self == Code::ClientError(ClientError::UpgradeRequired) ==> phrase@ == "Upgrade Required"@,
            *self == Code::ClientError(ClientError::PreconditionRequired) ==> phrase@ == "Precondition Required"@,
            *self == Code::ClientError(ClientError::TooManyRequests) ==> phrase@ == "Too Many Requests"@,
            *self == Code::ClientError(ClientError::RequestHeaderFieldsTooLarge) ==> phrase@ == "Request Header Fields Too Large"@,
            *self == Code::ClientError(ClientError::UnavailableForLegalReasons) ==> phrase@ == "Unavailable For Legal Reasons"@,
            *self == Code::ClientError(ClientError::ClientClosedRequest) ==> phrase@ == "Client Closed Request"@,
            *self == Code::ServerError(ServerError::InternalServerError) ==> phrase@ == "Internal Server Error"@,
            *self == Code::ServerError(ServerError::NotImplemented) ==> phrase@ == "Not Implemented"@,
            *self == Code::ServerError(ServerError::BadGateway) ==> phrase@ == "Bad Gateway"@,
            *self == Code::ServerError(ServerError::ServiceUnavailable) ==> phrase@ == "Service Unavailable"@,
            *self == Code::ServerError(ServerError::GatewayTimeout) ==> phrase@ == "Gateway Timeout"@,
            *self == Code::ServerError(ServerError::HttpVersionNotSupported) ==> phrase@ == "HTTP Version Not Supported"@,
            *self == Code::ServerError(ServerError::VariantAlsoNegotiates) ==> phrase@ == "Variant Also Negotiates"@,
            *self == Code::ServerError(ServerError::InsufficientStorage) ==> phrase@ == "Insufficient Storage"@,
            *self == Code::ServerError(ServerError::LoopDetected) ==> phrase@ == "Loop Detected"@,
            *self == Code::ServerError(ServerError::NotExtended) ==> phrase@ == "Not Extended"@,
            *self == Code::ServerError(ServerError::NetworkAuthenticationRequired) ==> phrase@ == "Network Authentication Required"@,
            *self == Code::ServerError(ServerError::NetworkConnectionTimeoutError) ==> phrase@ == "Network Connection Timeout Error"@,
    {
        match self {
            Code::Informational(s) => s.reason_phrase(),
            Code::Success(s) => s.reason_phrase(),
            Code::Redirection(s) => s.reason_phrase(),
            Code::ClientError(s) => s.reason_phrase(),
            Code::ServerError(s) => s.reason_phrase(),
        }
    }

    /// The status of a number, if there is one.
    pub fn try_from(value: u16) -> (code: Result<Code, ()>)
        ensures
            match code {
                Ok(c) => c.spec_code() == value,
                Err(_) => forall|c: Code| #[trigger] c.spec_code() != value,
            },
            value == 100 <==> code == Ok::<Code, ()>(Code::Informational(Informational::Continue)),
            value == 101 <==> code == Ok::<Code, ()>(Code::Informational(Informational::SwitchingProtocols)),
            value == 102 <==> code == Ok::<Code, ()>(Code::Informational(Informational::Processing)),
            value == 103 <==> code == Ok::<Code, ()>(Code::Informational(Informational::EarlyHints)),
            value == 200 <==> code == Ok::<Code, ()>(Code::Success(Success::Okay)),
            value == 201 <==> code == Ok::<Code, ()>(Code::Success(Success::Created)),
            value == 202 <==> code == Ok::<Code, ()>(Code::Success(Success::Accepted)),
            value == 203 <==> code == Ok::<Code, ()>(Code::Success(Success::NonAuthoritativeInformation)),
            value == 204 <==> code == Ok::<Code, ()>(Code::Success(Success::NoContent)),
            value == 205 <==> code == Ok::<Code, ()>(Code::Success(Success::ResetContent)),
            value == 206 <==> code == Ok::<Code, ()>(Code::Success(Success::PartialContent)),
            value == 207 <==> code == Ok::<Code, ()>(Code::Success(Success::MultiStatus)),
            value == 208 <==> code == Ok::<Code, ()>(Code::Success(Success::AlreadyReported)),
            value == 226 <==> code == Ok::<Code, ()>(Code::Success(Success::ImUsed)),
            value == 300 <==> code == Ok::<Code, ()>(Code::Redirection(Redirection::MultipleChoices)),
            value == 301 <==> code == Ok::<Code, ()>(Code::Redirection(Redirection::MovedPermanently)),
            value == 302 <==> code == Ok::<Code, ()>(Code::Redirection(Redirection::Found)),
            value == 303 <==> code == Ok::<Code, ()>(Code::Redirection(Redirection::SeeOther)),
            value == 304 <==> code == Ok::<Code, ()>(Code::Redirection(Redirection::NotModified)),
            value == 305 <==> code == Ok::<Code, ()>(Code::Redirection(Redirection::UseProxy)),
            value == 307 <==> code == Ok::<Code, ()>(Code::Redirection(Redirection::TemporaryRedirect)),
            value == 308 <==> code == Ok::<Code, ()>(Code::Redirection(Redirection::PermanentRedirect)),
            value == 400 <==> code == Ok::<Code, ()>(Code::ClientError(ClientError::BadRequest)),
            value == 401 <==> code == Ok::<Code, ()>(Code::ClientError(ClientError::Unauthorised)),
            value == 402 <==> code == Ok::<Code, ()>(Code::ClientError(ClientError::PaymentRequired)),
            value == 403 <==> code == Ok::<Code, ()>(Code::ClientError(ClientError::Forbidden)),
            value == 404 <==> code == Ok::<Code, ()>(Code::ClientError(ClientError::NotFound)),
            value == 405 <==> code == Ok::<Code, ()>(Code::ClientError(ClientError::MethodNotAllowed)),
            value == 406 <==> code == Ok::<Code, ()>(Code::ClientError(ClientError::NotAcceptable)),
            value == 407 <==> code == Ok::<Code, ()>(Code::ClientError(ClientError::ProxyAuthenticationRequired)),
            value == 408 <==> code == Ok::<Code, ()>(Code::ClientError(ClientError::RequestTimeout)),
            value == 409 <==> code == Ok::<Code, ()>(Code::ClientError(ClientError::Conflict)),
            value == 410 <==> code == Ok::<Code, ()>(Code::ClientError(ClientError::Gone)),
            value == 411 <==> code == Ok::<Code, ()>(Code::ClientError(ClientError::LengthRequired)),
            value == 412 <==> code == Ok::<Code, ()>(Code::ClientError(ClientError::PreconditionFailed)),
            value == 413 <==> code == Ok::<Code, ()>(Code::ClientError(ClientError::PayloadTooLarge)),
            value == 414 <==> code == Ok::<Code, ()>(Code::ClientError(ClientError::UriTooLong)),
            value == 415 <==> code == Ok::<Code, ()>(Code::ClientError(ClientError::UnsupportedMediaType)),
            value == 416 <==> code == Ok::<Code, ()>(Code::ClientError(ClientError::RangeNotSatisfiable)),
            value == 417 <==> code == Ok::<Code, ()>(Code::ClientError(ClientError::ExceptionFailed)),
            value == 418 <==> code == Ok::<Code, ()>(Code::ClientError(ClientError::ImATeapot)),
            value == 421 <==> code == Ok::<Code, ()>(Code::ClientError(ClientError::MisdirectedRequest)),
            value == 422 <==> code == Ok::<Code, ()>(Code::ClientError(ClientError::UnprocessableEntity)),
            value == 423 <==> code == Ok::<Code, ()>(Code::ClientError(ClientError::Locked)),
            value == 424 <==> code == Ok::<Code, ()>(Code::ClientError(ClientError::FailedDependency)),
            value == 425 <==> code == Ok::<Code, ()>(Code::ClientError(ClientError::TooEarly)),
            value == 426 <==> code == Ok::<Code, ()>(Code::ClientError(ClientError::UpgradeRequired)),
            value == 428 <==> code == Ok::<Code, ()>(Code::ClientError(ClientError::PreconditionRequired)),
            value == 429 <==> code == Ok::<Code, ()>(Code::ClientError(ClientError::TooManyRequests)),
            value == 431 <==> code == Ok::<Code, ()>(Code::ClientError(ClientError::RequestHeaderFieldsTooLarge)),
            value == 451 <==> code == Ok::<Code, ()>(Code::ClientError(ClientError::UnavailableForLegalReasons)),
            value == 499 <==> code == Ok::<Code, ()>(Code::ClientError(ClientError::ClientClosedRequest)),
            value == 500 <==> code == Ok::<Code, ()>(Code::ServerError(ServerError::InternalServerError)),
            value == 501 <==> code == Ok::<Code, ()>(Code::ServerError(ServerError::NotImplemented)),
            value == 502 <==> code == Ok::<Code, ()>(Code::ServerError(ServerError::BadGateway)),
            value == 503 <==> code == Ok::<Code, ()>(Code::ServerError(ServerError::ServiceUnavailable)),
            value == 504 <==> code == Ok::<Code, ()>(Code::ServerError(ServerError::GatewayTimeout)),
            value == 505 <==> code == Ok::<Code, ()>(Code::ServerError(ServerError::HttpVersionNotSupported)),
            value == 506 <==> code == Ok::<Code, ()>(Code::ServerError(ServerError::VariantAlsoNegotiates)),
            value == 507 <==> code == Ok::<Code, ()>(Code::ServerError(ServerError::InsufficientStorage)),
            value == 508 <==> code == Ok::<Code, ()>(Code::ServerError(ServerError::LoopDetected)),
            value == 510 <==> code == Ok::<Code, ()>(Code::ServerError(ServerError::NotExtended)),
            value == 511 <==> code == Ok::<Code, ()>(Code::ServerError(ServerError::NetworkAuthenticationRequired)),
            value == 599 <==> code == Ok::<Code, ()>(Code::ServerError(ServerError::NetworkConnectionTimeoutError)),
    {
        match value {
            100 => Ok(Code::Informational(Informational::Continue)),
            101 => Ok(Code::Informational(Informational::SwitchingProtocols)),
            102 => Ok(Code::Informational(Informational::Processing)),
            103 => Ok(Code::Informational(Informational::EarlyHints)),
            200 => Ok(Code::Success(Success::Okay)),
            201 => Ok(Code::Success(Success::Created)),
            202 => Ok(Code::Success(Success::Accepted)),
            203 => Ok(Code::Success(Success::NonAuthoritativeInformation)),
            204 => Ok(Code::Success(Success::NoContent)),
            205 => Ok(Code::Success(Success::ResetContent)),
            206 => Ok(Code::Success(Success::PartialContent)),
            207 => Ok(Code::Success(Success::MultiStatus)),
            208 => Ok(Code::Success(Success::AlreadyReported)),
            226 => Ok(Code::Success(Success::ImUsed)),
            300 => Ok(Code::Redirection(Redirection::MultipleChoices)),
            301 => Ok(Code::Redirection(Redirection::MovedPermanently)),
            302 => Ok(Code::Redirection(Redirection::Found)),
            303 => Ok(Code::Redirection(Redirection::SeeOther)),
            304 => Ok(Code::Redirection(Redirection::NotModified)),
            305 => Ok(Code::Redirection(Redirection::UseProxy)),
            307 => Ok(Code::Redirection(Redirection::TemporaryRedirect)),
            308 => Ok(Code::Redirection(Redirection::PermanentRedirect)),
            400 => Ok(Code::ClientError(ClientError::BadRequest)),
            401 => Ok(Code::ClientError(ClientError::Unauthorised)),
            402 => Ok(Code::ClientError(ClientError::PaymentRequired)),
            403 => Ok(Code::ClientError(ClientError::Forbidden)),
            404 => Ok(Code::ClientError(ClientError::NotFound)),
            405 => Ok(Code::ClientError(ClientError::MethodNotAllowed)),
            406 => Ok(Code::ClientError(ClientError::NotAcceptable)),
            407 => Ok(Code::ClientError(ClientError::ProxyAuthenticationRequired)),
            408 => Ok(Code::ClientError(ClientError::RequestTimeout)),
            409 => Ok(Code::ClientError(ClientError::Conflict)),
            410 => Ok(Code::ClientError(ClientError::Gone)),
            411 => Ok(Code::ClientError(ClientError::LengthRequired)),
            412 => Ok(Code::ClientError(ClientError::PreconditionFailed)),
            413 => Ok(Code::ClientError(ClientError::PayloadTooLarge)),
            414 => Ok(Code::ClientError(ClientError::UriTooLong)),
            415 => Ok(Code::ClientError(ClientError::UnsupportedMediaType)),
            416 => Ok(Code::ClientError(ClientError::RangeNotSatisfiable)),
            417 => Ok(Code::ClientError(ClientError::ExceptionFailed)),
            418 => Ok(Code::ClientError(ClientError::ImATeapot)),
            421 => Ok(Code::ClientError(ClientError::MisdirectedRequest)),
            422 => Ok(Code::ClientError(ClientError::UnprocessableEntity)),
            423 => Ok(Code::ClientError(ClientError::Locked)),
            424 => Ok(Code::ClientError(ClientError::FailedDependency)),
            425 => Ok(Code::ClientError(ClientError::TooEarly)),
            426 => Ok(Code::ClientError(ClientError::UpgradeRequired)),
            428 => Ok(Code::ClientError(ClientError::PreconditionRequired)),
            429 => Ok(Code::ClientError(ClientError::TooManyRequests)),
            431 => Ok(Code::ClientError(ClientError::RequestHeaderFieldsTooLarge)),
            451 => Ok(Code::ClientError(ClientError::UnavailableForLegalReasons)),
            499 => Ok(Code::ClientError(ClientError::ClientClosedRequest)),
            500 => Ok(Code::ServerError(ServerError::InternalServerError)),
            501 => Ok(Code::ServerError(ServerError::NotImplemented)),
            502 => Ok(Code::ServerError(ServerError::BadGateway)),
            503 => Ok(Code::ServerError(ServerError::ServiceUnavailable)),
            504 => Ok(Code::ServerError(ServerError::GatewayTimeout)),
            505 => Ok(Code::ServerError(ServerError::HttpVersionNotSupported)),
            506 => Ok(Code::ServerError(ServerError::VariantAlsoNegotiates)),
            507 => Ok(Code::ServerError(ServerError::InsufficientStorage)),
            508 => Ok(Code::ServerError(ServerError::LoopDetected)),
            510 => Ok(Code::ServerError(ServerError::NotExtended)),
            511 => Ok(Code::ServerError(ServerError::NetworkAuthenticationRequired)),
            599 => Ok(Code::ServerError(ServerError::NetworkConnectionTimeoutError)),
            _ => Err(()),
        }
    }
}

/// Different statuses have different numbers, so that a number says which status it is.
pub proof fn law_codes_are_distinct(a: Code, b: Code)
    requires
        a.spec_code() == b.spec_code(),
    ensures
        a == b,
{
}

/// Which number each status has.
pub proof fn law_numbers(code: Code)
    ensures
        code.spec_code() == 100 <==> code == Code::Informational(Informational::Continue),
        code.spec_code() == 101 <==> code == Code::Informational(Informational::SwitchingProtocols),
        code.spec_code() == 102 <==> code == Code::Informational(Informational::Processing),
        code.spec_code() == 103 <==> code == Code::Informational(Informational::EarlyHints),
        code.spec_code() == 200 <==> code == Code::Success(Success::Okay),
        code.spec_code() == 201 <==> code == Code::Success(Success::Created),
        code.spec_code() == 202 <==> code == Code::Success(Success::Accepted),
        code.spec_code() == 203 <==> code == Code::Success(Success::NonAuthoritativeInformation),
        code.spec_code() == 204 <==> code == Code::Success(Success::NoContent),
        code.spec_code() == 205 <==> code == Code::Success(Success::ResetContent),
        code.spec_code() == 206 <==> code == Code::Success(Success::PartialContent),
        code.spec_code() == 207 <==> code == Code::Success(Success::MultiStatus),
        code.spec_code() == 208 <==> code == Code::Success(Success::AlreadyReported),
        code.spec_code() == 226 <==> code == Code::Success(Success::ImUsed),
        code.spec_code() == 300 <==> code == Code::Redirection(Redirection::MultipleChoices),
        code.spec_code() == 301 <==> code == Code::Redirection(Redirection::MovedPermanently),
        code.spec_code() == 302 <==> code == Code::Redirection(Redirection::Found),
        code.spec_code() == 303 <==> code == Code::Redirection(Redirection::SeeOther),
        code.spec_code() == 304 <==> code == Code::Redirection(Redirection::NotModified),
        code.spec_code() == 305 <==> code == Code::Redirection(Redirection::UseProxy),
        code.spec_code() == 307 <==> code == Code::Redirection(Redirection::TemporaryRedirect),
        code.spec_code() == 308 <==> code == Code::Redirection(Redirection::PermanentRedirect),
        code.spec_code() == 400 <==> code == Code::ClientError(ClientError::BadRequest),
        code.spec_code() == 401 <==> code == Code::ClientError(ClientError::Unauthorised),
        code.spec_code() == 402 <==> code == Code::ClientError(ClientError::PaymentRequired),
        code.spec_code() == 403 <==> code == Code::ClientError(ClientError::Forbidden),
        code.spec_code() == 404 <==> code == Code::ClientError(ClientError::NotFound),
        code.spec_code() == 405 <==> code == Code::ClientError(ClientError::MethodNotAllowed),
        code.spec_code() == 406 <==> code == Code::ClientError(ClientError::NotAcceptable),
        code.spec_code() == 407 <==> code == Code::ClientError(ClientError::ProxyAuthenticationRequired),
        code.spec_code() == 408 <==> code == Code::ClientError(ClientError::RequestTimeout),
        code.spec_code() == 409 <==> code == Code::ClientError(ClientError::Conflict),
        code.spec_code() == 410 <==> code == Code::ClientError(ClientError::Gone),
        code.spec_code() == 411 <==> code == Code::ClientError(ClientError::LengthRequired),
        code.spec_code() == 412 <==> code == Code::ClientError(ClientError::PreconditionFailed),
        code.spec_code() == 413 <==> code == Code::ClientError(ClientError::PayloadTooLarge),
        code.spec_code() == 414 <==> code == Code::ClientError(ClientError::UriTooLong),
        code.spec_code() == 415 <==> code == Code::ClientError(ClientError::UnsupportedMediaType),
        code.spec_code() == 416 <==> code == Code::ClientError(ClientError::RangeNotSatisfiable),
        code.spec_code() == 417 <==> code == Code::ClientError(ClientError::ExceptionFailed),
        code.spec_code() == 418 <==> code == Code::ClientError(ClientError::ImATeapot),
        code.spec_code() == 421 <==> code == Code::ClientError(ClientError::MisdirectedRequest),
        code.spec_code() == 422 <==> code == Code::ClientError(ClientError::UnprocessableEntity),
        code.spec_code() == 423 <==> code == Code::ClientError(ClientError::Locked),
        code.spec_code() == 424 <==> code == Code::ClientError(ClientError::FailedDependency),
        code.spec_code() == 425 <==> code == Code::ClientError(ClientError::TooEarly),
        code.spec_code() == 426 <==> code == Code::ClientError(ClientError::UpgradeRequired),
        code.spec_code() == 428 <==> code == Code::ClientError(ClientError::PreconditionRequired),
        code.spec_code() == 429 <==> code == Code::ClientError(ClientError::TooManyRequests),
        code.spec_code() == 431 <==> code == Code::ClientError(ClientError::RequestHeaderFieldsTooLarge),
        code.spec_code() == 451 <==> code == Code::ClientError(ClientError::UnavailableForLegalReasons),
        code.spec_code() == 499 <==> code == Code::ClientError(ClientError::ClientClosedRequest),
        code.spec_code() == 500 <==> code == Code::ServerError(ServerError::InternalServerError),
        code.spec_code() == 501 <==> code == Code::ServerError(ServerError::NotImplemented),
        code.spec_code() == 502 <==> code == Code::ServerError(ServerError::BadGateway),
        code.spec_code() == 503 <==> code == Code::ServerError(ServerError::ServiceUnavailable),
        code.spec_code() == 504 <==> code == Code::ServerError(ServerError::GatewayTimeout),
        code.spec_code() == 505 <==> code == Code::ServerError(ServerError::HttpVersionNotSupported),
        code.spec_code() == 506 <==> code == Code::ServerError(ServerError::VariantAlsoNegotiates),
        code.spec_code() == 507 <==> code == Code::ServerError(ServerError::InsufficientStorage),
        code.spec_code() == 508 <==> code == Code::ServerError(ServerError::LoopDetected),
        code.spec_code() == 510 <==> code == Code::ServerError(ServerError::NotExtended),
        code.spec_code() == 511 <==> code == Code::ServerError(ServerError::NetworkAuthenticationRequired),
        code.spec_code() == 599 <==> code == Code::ServerError(ServerError::NetworkConnectionTimeoutError),
{
}

/// Which words go with each number.
pub proof fn law_phrases(code: Code)
    ensures
        code.spec_code() == 100 ==> code.spec_reason_phrase()@ == "Continue"@,
        code.spec_code() == 101 ==> code.spec_reason_phrase()@ == "Switching Protocols"@,
        code.spec_code() == 102 ==> code.spec_reason_phrase()@ == "Processing"@,
        code.spec_code() == 103 ==> code.spec_reason_phrase()@ == "Early Hints"@,
        code.spec_code() == 200 ==> code.spec_reason_phrase()@ == "OK"@,
        code.spec_code() == 201 ==> code.spec_reason_phrase()@ == "Created"@,
        code.spec_code() == 202 ==> code.spec_reason_phrase()@ == "Accepted"@,
        code.spec_code() == 203 ==> code.spec_reason_phrase()@ == "Non-Authoritative Information"@,
        code.spec_code() == 204 ==> code.spec_reason_phrase()@ == "No Content"@,
        code.spec_code() == 205 ==> code.spec_reason_phrase()@ == "Reset Content"@,
        code.spec_code() == 206 ==> code.spec_reason_phrase()@ == "Partial Content"@,
        code.spec_code() == 207 ==> code.spec_reason_phrase()@ == "Multi-Status"@,
        code.spec_code() == 208 ==> code.spec_reason_phrase()@ == "Already Reported"@,
        code.spec_code() == 226 ==> code.spec_reason_phrase()@ == "IM Used"@,
        code.spec_code() == 300 ==> code.spec_reason_phrase()@ == "Multiple Choices"@,
        code.spec_code() == 301 ==> code.spec_reason_phrase()@ == "Moved Permanently"@,
        code.spec_code() == 302 ==> code.spec_reason_phrase()@ == "Found"@,
        code.spec_code() == 303 ==> code.spec_reason_phrase()@ == "See Other"@,
        code.spec_code() == 304 ==> code.spec_reason_phrase()@ == "Not Modified"@,
        code.spec_code() == 305 ==> code.spec_reason_phrase()@ == "Use Proxy"@,
        code.spec_code() == 307 ==> code.spec_reason_phrase()@ == "Temporary Redirect"@,
        code.spec_code() == 308 ==> code.spec_reason_phrase()@ == "Permanent Redirect"@,
        code.spec_code() == 400 ==> code.spec_reason_phrase()@ == "Bad Request"@,
        code.spec_code() == 401 ==> code.spec_reason_phrase()@ == "Unauthorized"@,
        code.spec_code() == 402 ==> code.spec_reason_phrase()@ == "Payment Required"@,
        code.spec_code() == 403 ==> code.spec_reason_phrase()@ == "Forbidden"@,
        code.spec_code() == 404 ==> code.spec_reason_phrase()@ == "Not Found"@,
        code.spec_code() == 405 ==> code.spec_reason_phrase()@ == "Method Not Allowed"@,
        code.spec_code() == 406 ==> code.spec_reason_phrase()@ == "Not Acceptable"@,
        code.spec_code() == 407 ==> code.spec_reason_phrase()@ == "Proxy Authentication Required"@,
        code.spec_code() == 408 ==> code.spec_reason_phrase()@ == "Request Timeout"@,
        code.spec_code() == 409 ==> code.spec_reason_phrase()@ == "Conflict"@,
        code.spec_code() == 410 ==> code.spec_reason_phrase()@ == "Gone"@,
        code.spec_code() == 411 ==> code.spec_reason_phrase()@ == "Length Required"@,
        code.spec_code() == 412 ==> code.spec_reason_phrase()@ == "Precondition Failed"@,
        code.spec_code() == 413 ==> code.spec_reason_phrase()@ == "Payload Too Large"@,
        code.spec_code() == 414 ==> code.spec_reason_phrase()@ == "URI Too Long"@,
        code.spec_code() == 415 ==> code.spec_reason_phrase()@ == "Unsupported Media Type"@,
        code.spec_code() == 416 ==> code.spec_reason_phrase()@ == "Range Not Satisfiable"@,
        code.spec_code() == 417 ==> code.spec_reason_phrase()@ == "Expectation Failed"@,
        code.spec_code() == 418 ==> code.spec_reason_phrase()@ == "I'm a teapot"@,
        code.spec_code() == 421 ==> code.spec_reason_phrase()@ == "Misdirected Request"@,
        code.spec_code() == 422 ==> code.spec_reason_phrase()@ == "Unprocessable Entity"@,
        code.spec_code() == 423 ==> code.spec_reason_phrase()@ == "Locked"@,
        code.spec_code() == 424 ==> code.spec_reason_phrase()@ == "Failed Dependency"@,
        code.spec_code() == 425 ==> code.spec_reason_phrase()@ == "Too Early"@,
        code.spec_code() == 426 ==> code.spec_reason_phrase()@ == "Upgrade Required"@,
        code.spec_code() == 428 ==> code.spec_reason_phrase()@ == "Precondition Required"@,
        code.spec_code() == 429 ==> code.spec_reason_phrase()@ == "Too Many Requests"@,
        code.spec_code() == 431 ==> code.spec_reason_phrase()@ == "Request Header Fields Too Large"@,
        code.spec_code() == 451 ==> code.spec_reason_phrase()@ == "Unavailable For Legal Reasons"@,
        code.spec_code() == 499 ==> code.spec_reason_phrase()@ == "Client Closed Request"@,
        code.spec_code() == 500 ==> code.spec_reason_phrase()@ == "Internal Server Error"@,
        code.spec_code() == 501 ==> code.spec_reason_phrase()@ == "Not Implemented"@,
        code.spec_code() == 502 ==> code.spec_reason_phrase()@ == "Bad Gateway"@,
        code.spec_code() == 503 ==> code.spec_reason_phrase()@ == "Service Unavailable"@,
        code.spec_code() == 504 ==> code.spec_reason_phrase()@ == "Gateway Timeout"@,
        code.spec_code() == 505 ==> code.spec_reason_phrase()@ == "HTTP Version Not Supported"@,
        code.spec_code() == 506 ==> code.spec_reason_phrase()@ == "Variant Also Negotiates"@,
        code.spec_code() == 507 ==> code.spec_reason_phrase()@ == "Insufficient Storage"@,
        code.spec_code() == 508 ==> code.spec_reason_phrase()@ == "Loop Detected"@,
        code.spec_code() == 510 ==> code.spec_reason_phrase()@ == "Not Extended"@,
        code.spec_code() == 511 ==> code.spec_reason_phrase()@ == "Network Authentication Required"@,
        code.spec_code() == 599 ==> code.spec_reason_phrase()@ == "Network Connection Timeout Error"@,
{
}

/// A number made of the length of a phrase and of its first, middle and last letter.
spec fn phrase_mark(phrase: Seq<char>) -> int {
    let len = phrase.len() as int;
    len * 1_000_000_000 + (phrase[0] as int) * 1_000_000 + (phrase[len / 2] as int) * 1_000 + (phrase[len - 1] as int)
}

/// The number of the status whose phrase has this mark.
spec fn marked_code(mark: int) -> int {
    if mark == 8_067_105_101 {
        100
    } else if mark == 19_083_032_115 {
        101
    } else if mark == 10_080_115_103 {
        102
    } else if mark == 11_069_032_115 {
        103
    } else if mark == 2_079_075_075 {
        200
    } else if mark == 7_067_097_100 {
        201
    } else if mark == 8_065_112_100 {
        202
    } else if mark == 29_078_105_110 {
        203
    } else if mark == 10_078_110_116 {
        204
    } else if mark == 13_082_067_116 {
        205
    } else if mark == 15_080_032_116 {
        206
    } else if mark == 12_077_083_115 {
        207
    } else if mark == 16_065_082_100 {
        208
    } else if mark == 7_073_085_100 {
        226
    } else if mark == 16_077_032_115 {
        300
    } else if mark == 17_077_114_121 {
        301
    } else if mark == 5_070_117_100 {
        302
    } else if mark == 9_083_079_114 {
        303
    } else if mark == 12_078_100_100 {
        304
    } else if mark == 9_085_080_121 {
        305
    } else if mark == 18_084_032_116 {
        307
    } else if mark == 18_080_032_116 {
        308
    } else if mark == 11_066_101_116 {
        400
    } else if mark == 12_085_111_100 {
        401
    } else if mark == 16_080_082_100 {
        402
    } else if mark == 9_070_105_110 {
        403
    } else if mark == 9_078_070_100 {
        404
    } else if mark == 18_077_116_100 {
        405
    } else if mark == 14_078_101_101 {
        406
    } else if mark == 29_080_099_100 {
        407
    } else if mark == 15_082_032_116 {
        408
    } else if mark == 8_067_108_116 {
        409
    } else if mark == 4_071_110_101 {
        410
    } else if mark == 15_076_082_100 {
        411
    } else if mark == 19_080_105_100 {
        412
    } else if mark == 17_080_084_101 {
        413
    } else if mark == 12_085_111_103 {
        414
    } else if mark == 22_085_032_101 {
        415
    } else if mark == 21_082_083_101 {
        416
    } else if mark == 18_069_111_100 {
        417
    } else if mark == 12_073_116_116 {
        418
    } else if mark == 19_077_101_116 {
        421
    } else if mark == 20_085_098_121 {
        422
    } else if mark == 6_076_107_100 {
        423
    } else if mark == 17_070_101_121 {
        424
    } else if mark == 9_084_069_121 {
        425
    } else if mark == 16_085_082_100 {
        426
    } else if mark == 21_080_111_100 {
        428
    } else if mark == 17_084_032_115 {
        429
    } else if mark == 31_082_070_101 {
        431
    } else if mark == 29_085_114_115 {
        451
    } else if mark == 21_067_115_116 {
        499
    } else if mark == 21_073_101_114 {
        500
    } else if mark == 15_078_108_100 {
        501
    } else if mark == 11_066_097_121 {
        502
    } else if mark == 19_083_110_101 {
        503
    } else if mark == 15_071_032_116 {
        504
    } else if mark == 26_072_078_100 {
        505
    } else if mark == 23_086_111_115 {
        506
    } else if mark == 20_073_110_101 {
        507
    } else if mark == 13_076_101_100 {
        508
    } else if mark == 12_078_116_100 {
        510
    } else if mark == 31_078_105_100 {
        511
    } else if mark == 32_078_111_114 {
        599
    } else {
        0
    }
}

proof fn phrase_tells_code(code: Code)
    ensures
        marked_code(phrase_mark(code.spec_reason_phrase()@)) == code.spec_code(),
{
    match code {
        Code::Informational(Informational::Continue) => {
            reveal_strlit("Continue");
        },
        Code::Informational(Informational::SwitchingProtocols) => {
            reveal_strlit("Switching Protocols");
        },
        Code::Informational(Informational::Processing) => {
            reveal_strlit("Processing");
        },
        Code::Informational(Informational::EarlyHints) => {
            reveal_strlit("Early Hints");
        },
        Code::Success(Success::Okay) => {
            reveal_strlit("OK");
        },
        Code::Success(Success::Created) => {
            reveal_strlit("Created");
        },
        Code::Success(Success::Accepted) => {
            reveal_strlit("Accepted");
        },
        Code::Success(Success::NonAuthoritativeInformation) => {
            reveal_strlit("Non-Authoritative Information");
        },
        Code::Success(Success::NoContent) => {
            reveal_strlit("No Content");
        },
        Code::Success(Success::ResetContent) => {
            reveal_strlit("Reset Content");
        },
        Code::Success(Success::PartialContent) => {
            reveal_strlit("Partial Content");
        },
        Code::Success(Success::MultiStatus) => {
            reveal_strlit("Multi-Status");
        },
        Code::Success(Success::AlreadyReported) => {
            reveal_strlit("Already Reported");
        },
        Code::Success(Success::ImUsed) => {
            reveal_strlit("IM Used");
        },
        Code::Redirection(Redirection::MultipleChoices) => {
            reveal_strlit("Multiple Choices");
        },
        Code::Redirection(Redirection::MovedPermanently) => {
            reveal_strlit("Moved Permanently");
        },
        Code::Redirection(Redirection::Found) => {
            reveal_strlit("Found");
        },
        Code::Redirection(Redirection::SeeOther) => {
            reveal_strlit("See Other");
        },
        Code::Redirection(Redirection::NotModified) => {
            reveal_strlit("Not Modified");
        },
        Code::Redirection(Redirection::UseProxy) => {
            reveal_strlit("Use Proxy");
        },
        Code::Redirection(Redirection::TemporaryRedirect) => {
            reveal_strlit("Temporary Redirect");
        },
        Code::Redirection(Redirection::PermanentRedirect) => {
            reveal_strlit("Permanent Redirect");
        },
        Code::ClientError(ClientError::BadRequest) => {
            reveal_strlit("Bad Request");
        },
        Code::ClientError(ClientError::Unauthorised) => {
            reveal_strlit("Unauthorized");
        },
        Code::ClientError(ClientError::PaymentRequired) => {
            reveal_strlit("Payment Required");
        },
        Code::ClientError(ClientError::Forbidden) => {
            reveal_strlit("Forbidden");
        },
        Code::ClientError(ClientError::NotFound) => {
            reveal_strlit("Not Found");
        },
        Code::ClientError(ClientError::MethodNotAllowed) => {
            reveal_strlit("Method Not Allowed");
        },
        Code::ClientError(ClientError::NotAcceptable) => {
            reveal_strlit("Not Acceptable");
        },
        Code::ClientError(ClientError::ProxyAuthenticationRequired) => {
            reveal_strlit("Proxy Authentication Required");
        },
        Code::ClientError(ClientError::RequestTimeout) => {
            reveal_strlit("Request Timeout");
        },
        Code::ClientError(ClientError::Conflict) => {
            reveal_strlit("Conflict");
        },
        Code::ClientError(ClientError::Gone) => {
            reveal_strlit("Gone");
        },
        Code::ClientError(ClientError::LengthRequired) => {
            reveal_strlit("Length Required");
        },
        Code::ClientError(ClientError::PreconditionFailed) => {
            reveal_strlit("Precondition Failed");
        },
        Code::ClientError(ClientError::PayloadTooLarge) => {
            reveal_strlit("Payload Too Large");
        },
        Code::ClientError(ClientError::UriTooLong) => {
            reveal_strlit("URI Too Long");
        },
        Code::ClientError(ClientError::UnsupportedMediaType) => {
            reveal_strlit("Unsupported Media Type");
        },
        Code::ClientError(ClientError::RangeNotSatisfiable) => {
            reveal_strlit("Range Not Satisfiable");
        },
        Code::ClientError(ClientError::ExceptionFailed) => {
            reveal_strlit("Expectation Failed");
        },
        Code::ClientError(ClientError::ImATeapot) => {
            reveal_strlit("I'm a teapot");
        },
        Code::ClientError(ClientError::MisdirectedRequest) => {
            reveal_strlit("Misdirected Request");
        },
        Code::ClientError(ClientError::UnprocessableEntity) => {
            reveal_strlit("Unprocessable Entity");
        },
        Code::ClientError(ClientError::Locked) => {
            reveal_strlit("Locked");
        },
        Code::ClientError(ClientError::FailedDependency) => {
            reveal_strlit("Failed Dependency");
        },
        Code::ClientError(ClientError::TooEarly) => {
            reveal_strlit("Too Early");
        },
        Code::ClientError(ClientError::UpgradeRequired) => {
            reveal_strlit("Upgrade Required");
        },
        Code::ClientError(ClientError::PreconditionRequired) => {
            reveal_strlit("Precondition Required");
        },
        Code::ClientError(ClientError::TooManyRequests) => {
            reveal_strlit("Too Many Requests");
        },
        Code::ClientError(ClientError::RequestHeaderFieldsTooLarge) => {
            reveal_strlit("Request Header Fields Too Large");
        },
        Code::ClientError(ClientError::UnavailableForLegalReasons) => {
            reveal_strlit("Unavailable For Legal Reasons");
        },
        Code::ClientError(ClientError::ClientClosedRequest) => {
            reveal_strlit("Client Closed Request");
        },
        Code::ServerError(ServerError::InternalServerError) => {
            reveal_strlit("Internal Server Error");
        },
        Code::ServerError(ServerError::NotImplemented) => {
            reveal_strlit("Not Implemented");
        },
        Code::ServerError(ServerError::BadGateway) => {
            reveal_strlit("Bad Gateway");
        },
        Code::ServerError(ServerError::ServiceUnavailable) => {
            reveal_strlit("Service Unavailable");
        },
        Code::ServerError(ServerError::GatewayTimeout) => {
            reveal_strlit("Gateway Timeout");
        },
        Code::ServerError(ServerError::HttpVersionNotSupported) => {
            reveal_strlit("HTTP Version Not Supported");
        },
        Code::ServerError(ServerError::VariantAlsoNegotiates) => {
            reveal_strlit("Variant Also Negotiates");
        },
        Code::ServerError(ServerError::InsufficientStorage) => {
            reveal_strlit("Insufficient Storage");
        },
        Code::ServerError(ServerError::LoopDetected) => {
            reveal_strlit("Loop Detected");
        },
        Code::ServerError(ServerError::NotExtended) => {
            reveal_strlit("Not Extended");
        },
        Code::ServerError(ServerError::NetworkAuthenticationRequired) => {
            reveal_strlit("Network Authentication Required");
        },
        Code::ServerError(ServerError::NetworkConnectionTimeoutError) => {
            reveal_strlit("Network Connection Timeout Error");
        },
    }
}

/// Each status has a phrase of its own, so that a phrase says which status it is.
pub proof fn law_phrases_are_distinct(a: Code, b: Code)
    requires
        a.spec_reason_phrase()@ == b.spec_reason_phrase()@,
    ensures
        a == b,
{
    phrase_tells_code(a);
    phrase_tells_code(b);
    law_codes_are_distinct(a, b);
}

/// The hundreds of its number say what a status is: 1 that more is to come, 2 that the request was
/// served, 3 that the client has to go elsewhere, 4 that the request is at fault, 5 that the server
/// is.
pub proof fn law_hundreds_tell_the_kind(code: Code)
    ensures
        code is Informational <==> code.spec_code() / 100 == 1,
        code is Success <==> code.spec_code() / 100 == 2,
        code is Redirection <==> code.spec_code() / 100 == 3,
        code is ClientError <==> code.spec_code() / 100 == 4,
        code is ServerError <==> code.spec_code() / 100 == 5,
{
}

/// A status is an error if and only if it can be had as one, and is then the same as an error: it has
/// the same number and the same words.
pub proof fn law_error_is_the_same_status(code: Code)
    ensures
        code.spec_as_error() is Some <==> code is ClientError || code is ServerError,
        code.spec_as_error() matches Some(error) ==> {
            &&& error.spec_code() == code.spec_code()
            &&& error.spec_reason_phrase() == code.spec_reason_phrase()
            &&& error.spec_code() >= 400
        },
{
}

/// What a failed request is answered.
pub struct HttpError {
    pub status: Error,
    pub message: Option<String>,
}

/// The decimal digit `d`.
pub open spec fn digit_char(d: int) -> char {
    (('0' as int) + d) as char
}

fn digit(d: u16) -> (text: &'static str)
    requires
        d < 10,
    ensures
        text@ == seq![digit_char(d as int)],
{
    proof {
        reveal_strlit("0");
        reveal_strlit("1");
        reveal_strlit("2");
        reveal_strlit("3");
        reveal_strlit("4");
        reveal_strlit("5");
        reveal_strlit("6");
        reveal_strlit("7");
        reveal_strlit("8");
        reveal_strlit("9");
    }
    match d {
        0 => "0",
        1 => "1",
        2 => "2",
        3 => "3",
        4 => "4",
        5 => "5",
        6 => "6",
        7 => "7",
        8 => "8",
        _ => "9",
    }
}

/// A number of three digits.
pub open spec fn three_digits(n: int) -> Seq<char> {
    seq![digit_char(n / 100), digit_char(n / 10 % 10), digit_char(n % 10)]
}

impl HttpError {
    /// The number and the words of the status, and in brackets the message, if there is one.
    pub open spec fn spec_text(&self) -> Seq<char> {
        let head = "HTTP "@ + three_digits(self.status.spec_code() as int) + ": "@
            + self.status.spec_reason_phrase()@;
        match self.message {
            Some(message) => head + " ("@ + message@ + ")"@,
            None => head,
        }
    }

    /// What to tell of the error.
    pub fn text(&self) -> (text: String)
        ensures
            text@ == self.spec_text(),
            self.message is None ==> text@ == "HTTP "@ + text@.subrange(5, 8) + ": "@
                + self.status.spec_reason_phrase()@,
            self.message matches Some(message) ==> text@ == "HTTP "@ + text@.subrange(5, 8) + ": "@
                + self.status.spec_reason_phrase()@ + " ("@ + message@ + ")"@,
            forall|k: int| #![trigger text@[k]] 5 <= k < 8 ==> '0' <= text@[k] <= '9',
            100 * (text@[5] as int - 48) + 10 * (text@[6] as int - 48) + (text@[7] as int - 48)
                == self.status.spec_code(),
    {
        proof {
            reveal_strlit("HTTP ");
        }
        let code: u16 = self.status.code();
        assert(100 <= code < 1000) by {
            law_hundreds_tell_the_kind(
                match self.status {
                    Error::Client(s) => Code::ClientError(s),
                    Error::Server(s) => Code::ServerError(s),
                },
            );
        }
        let mut text = String::from_str("HTTP ");
        text.append(digit(code / 100));
        text.append(digit(code / 10 % 10));
        text.append(digit(code % 10));
        text.append(": ");
        text.append(self.status.reason_phrase());
        assert(text@ =~= "HTTP "@ + three_digits(code as int) + ": "@ + self.status.spec_reason_phrase()@);
        if let Some(message) = &self.message {
            text.append(" (");
            text.append(message.as_str());
            text.append(")");
        }
        text
    }
}

} // verus!
