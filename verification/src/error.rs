//! The errors of the transport.

use vstd::prelude::*;
use vstd::std_specs::convert::FromSpecImpl;
use vstd::string::StringExecFns;
use openssl::error::ErrorStack;

verus! {

/// Declares `openssl::error::ErrorStack`, the errors that OpenSSL reports.
#[verifier::external_type_specification]
#[verifier::external_body]
pub struct ExErrorStack(openssl::error::ErrorStack);

/// Declares `std::io::Error`, the errors that a socket reports.
#[verifier::external_type_specification]
#[verifier::external_body]
pub struct ExIoError(std::io::Error);

/// Why an operation on a stream or a listener failed.
#[derive(Debug)]
pub enum Error {
    /// The handshake is not complete yet: wait, then try again.
    NotReady,
    /// Encryption or decryption failed, or the peer sent a key or a
    /// ciphertext that cannot be one. The connection is lost.
    EncryptionError(ErrorStack),
    /// The transport failed. The connection is lost.
    TcpError(std::io::Error),
    /// The peer closed the connection.
    ConnectionClosed,
    /// A frame declares, or would need, more bytes than `MAX_FRAME_SIZE`.
    SizeLimitExceeded,
}

/// Formats an `ErrorStack` with its `Display`. The text is OpenSSL's:
/// nothing is claimed of it.
#[verifier::external_body]
fn error_stack_text(openssl_err: &ErrorStack) -> String {
    format!("{}", openssl_err)
}

/// Formats a `std::io::Error` with its `Display`. The text is the operating
/// system's: nothing is claimed of it.
#[verifier::external_body]
fn io_error_text(io_err: &std::io::Error) -> String {
    format!("{}", io_err)
}

/// Whether `text` begins with `prefix`.
pub open spec fn starts_with(text: Seq<char>, prefix: Seq<char>) -> bool {
    text.len() >= prefix.len() && text.take(prefix.len() as int) == prefix
}

impl Error {
    /// A line that names the error and, where another library reported it,
    /// says behind the name what that library said.
    pub fn describe(&self) -> (text: String)
        ensures
            *self == Error::NotReady ==> text@ == "Error::NotReady"@,
            *self == Error::ConnectionClosed ==> text@ == "Error::ConnectionClosed"@,
            *self == Error::SizeLimitExceeded ==> text@ == "Error::SizeLimitExceeded"@,
            *self is EncryptionError ==> starts_with(text@, "Error::EncryptionError: "@),
            *self is TcpError ==> starts_with(text@, "Error::TcpError: "@),
    {
        match self {
            Error::NotReady => "Error::NotReady".to_owned(),
            Error::EncryptionError(openssl_err) => {
                let said = error_stack_text(openssl_err);
                let text = "Error::EncryptionError: ".to_owned().concat(said.as_str());
                assert(text@.take("Error::EncryptionError: "@.len() as int)
                    =~= "Error::EncryptionError: "@);
                text
            },
            Error::TcpError(io_err) => {
                let said = io_error_text(io_err);
                let text = "Error::TcpError: ".to_owned().concat(said.as_str());
                assert(text@.take("Error::TcpError: "@.len() as int) =~= "Error::TcpError: "@);
                text
            },
            Error::ConnectionClosed => "Error::ConnectionClosed".to_owned(),
            Error::SizeLimitExceeded => "Error::SizeLimitExceeded".to_owned(),
        }
    }
}

impl From<std::io::Error> for Error {
    fn from(io_err: std::io::Error) -> (e: Error) {
        Error::TcpError(io_err)
    }
}

impl FromSpecImpl<std::io::Error> for Error {
    open spec fn obeys_from_spec() -> bool {
        true
    }

    open spec fn from_spec(io_err: std::io::Error) -> Error {
        Error::TcpError(io_err)
    }
}

impl From<ErrorStack> for Error {
    fn from(openssl_err: ErrorStack) -> (e: Error) {
        Error::EncryptionError(openssl_err)
    }
}

impl FromSpecImpl<ErrorStack> for Error {
    open spec fn obeys_from_spec() -> bool {
        true
    }

    open spec fn from_spec(openssl_err: ErrorStack) -> Error {
        Error::EncryptionError(openssl_err)
    }
}

} // verus!
