use vstd::prelude::*;

verus! {

#[verifier::external_type_specification]
#[verifier::external_body]
pub struct ExIoError(std::io::Error);

#[verifier::external_type_specification]
#[verifier::external_body]
pub struct ExUtf8Error(std::str::Utf8Error);

/// Relies on io::Error's Display impl: the error's description.
#[verifier::external_body]
fn io_error_text(e: &std::io::Error) -> String {
    e.to_string()
}

/// Relies on Utf8Error's Display impl: the error's description.
#[verifier::external_body]
fn utf8_error_text(e: &std::str::Utf8Error) -> String {
    e.to_string()
}

/// What can go wrong while reading a request.
pub enum Error {
    InvalidRequest,
    InvalidProtocol,
    InvalidMethod,
    IO(String),
    Utf8(String),
}

/// The text an error is shown with, after "Error: ".
pub open spec fn error_text(e: Error) -> Seq<char> {
    match e {
        Error::InvalidRequest => "Invalid Request"@,
        Error::InvalidProtocol => "Invalid Protocol"@,
        Error::InvalidMethod => "Invalid Method"@,
        Error::IO(msg) => msg@,
        Error::Utf8(msg) => msg@,
    }
}

impl Error {
    /// The error as it is shown: "Error: " followed by its text.
    pub fn message(&self) -> (r: String)
        ensures
            r@ == "Error: "@ + error_text(*self),
    {
        proof {
            reveal_strlit("Invalid Request");
            reveal_strlit("Invalid Protocol");
            reveal_strlit("Invalid Method");
        }
        let mut r = String::from_str("Error: ");
        match self {
            Error::InvalidRequest => r.append("Invalid Request"),
            Error::InvalidProtocol => r.append("Invalid Protocol"),
            Error::InvalidMethod => r.append("Invalid Method"),
            Error::IO(msg) => r.append(msg.as_str()),
            Error::Utf8(msg) => r.append(msg.as_str()),
        }
        r
    }
}

impl From<std::io::Error> for Error {
    fn from(error: std::io::Error) -> (r: Self)
        ensures
            r is IO,
    {
        Error::IO(io_error_text(&error))
    }
}

impl vstd::std_specs::convert::FromSpecImpl<std::io::Error> for Error {
    open spec fn obeys_from_spec() -> bool {
        false
    }

    open spec fn from_spec(v: std::io::Error) -> Error {
        arbitrary()
    }
}

impl From<std::str::Utf8Error> for Error {
    fn from(error: std::str::Utf8Error) -> (r: Self)
        ensures
            r is Utf8,
    {
        Error::Utf8(utf8_error_text(&error))
    }
}

impl vstd::std_specs::convert::FromSpecImpl<std::str::Utf8Error> for Error {
    open spec fn obeys_from_spec() -> bool {
        false
    }

    open spec fn from_spec(v: std::str::Utf8Error) -> Error {
        arbitrary()
    }
}

/// The statuses a response can have.
pub enum HttpStatus {
    OK,
    NotFound,
    BadRequest,
}

impl HttpStatus {
    /// The numeric status code.
    pub fn code(&self) -> (r: u16)
        ensures
            r == match self {
                HttpStatus::OK => 200u16,
                HttpStatus::NotFound => 404u16,
                HttpStatus::BadRequest => 400u16,
            },
    {
        match self {
            HttpStatus::OK => 200,
            HttpStatus::NotFound => 404,
            HttpStatus::BadRequest => 400,
        }
    }

    /// The status line text, such as "404 Not Found".
    pub fn text(&self) -> (r: &'static str)
        ensures
            r@ == match self {
                HttpStatus::OK => "200 OK"@,
                HttpStatus::NotFound => "404 Not Found"@,
                HttpStatus::BadRequest => "400 Bad Request"@,
            },
    {
        proof {
            reveal_strlit("200 OK");
            reveal_strlit("404 Not Found");
            reveal_strlit("400 Bad Request");
        }
        match self {
            HttpStatus::OK => "200 OK",
            HttpStatus::NotFound => "404 Not Found",
            HttpStatus::BadRequest => "400 Bad Request",
        }
    }
}

} // verus!
