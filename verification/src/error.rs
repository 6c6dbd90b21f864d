//! Errors that the server reports while reading a request or writing a response.
use vstd::prelude::*;

verus! {

#[verifier::external_type_specification]
#[verifier::external_body]
pub struct ExIoError(std::io::Error);

/// What went wrong while a request was read or a response was made.
#[derive(Debug)]
pub enum ServerError {
    /// A status code that has no reason phrase was given for a response.
    InvalidStatusCode(u16),
    /// The request body could not be decompressed.
    DecompressionError(std::io::Error),
    /// The request body was compressed in an encoding the server does not take.
    UnsupportedEncoding,
    /// The request did not follow the grammar.
    InvalidRequest,
    /// The request asked for an HTTP version other than 1.1.
    VersionNotSupported,
    /// The request body could not be read as form data.
    MalformedPayload,
    /// The request body has a media type the server does not take.
    UnsupportedMediaType,
    /// The request body is longer than the configured limit.
    BodyTooLarge,
    /// A CGI program failed or answered with something that is not a response.
    BadGateway,
}

/// The status code that answers a failed request, as the connection handler sends it.
pub open spec fn spec_error_status(e: ServerError) -> u16 {
    match e {
        ServerError::DecompressionError(_) | ServerError::UnsupportedEncoding => 406,
        ServerError::InvalidRequest | ServerError::MalformedPayload => 400,
        ServerError::UnsupportedMediaType => 415,
        ServerError::BodyTooLarge => 413,
        ServerError::VersionNotSupported => 505,
        _ => 500,
    }
}

impl ServerError {
    /// The status code of the response that answers this error.
    pub fn status(&self) -> (r: u16)
        ensures
            r == spec_error_status(*self),
    {
        match self {
            ServerError::DecompressionError(_) | ServerError::UnsupportedEncoding => 406,
            ServerError::InvalidRequest | ServerError::MalformedPayload => 400,
            ServerError::UnsupportedMediaType => 415,
            ServerError::BodyTooLarge => 413,
            ServerError::VersionNotSupported => 505,
            _ => 500,
        }
    }
}

} // verus!
