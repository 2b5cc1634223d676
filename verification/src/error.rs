//! Error types shared by the whole library.

use vstd::prelude::*;
use vstd::string::*;

verus! {

/// What can go wrong during one status exchange with a server.
#[derive(Debug, Clone, PartialEq, Eq)]
pub enum ProtocolError {
    /// The address could not be parsed or resolved to an endpoint.
    AddressResolutionFailed(String),
    /// The TCP connection was not established within the bound.
    ConnectionFailed(String),
    /// A read or write failed or timed out on an established connection.
    IoError(String),
    /// A VarInt still had its continuation bit set in its fifth byte.
    VarIntTooLarge,
    /// The data ended before a VarInt was complete.
    UnexpectedEndOfData,
    /// A string declared more bytes than the data holds.
    TruncatedString,
    /// The status document did not have the expected shape.
    MalformedStatusPayload(String),
}

/// A `ProtocolError` as a mathematical value: the kind and its text.
pub enum ProtocolErrorView {
    AddressResolutionFailed(Seq<char>),
    ConnectionFailed(Seq<char>),
    IoError(Seq<char>),
    VarIntTooLarge,
    UnexpectedEndOfData,
    TruncatedString,
    MalformedStatusPayload(Seq<char>),
}

impl View for ProtocolError {
    type V = ProtocolErrorView;

    open spec fn view(&self) -> ProtocolErrorView {
        match self {
            ProtocolError::AddressResolutionFailed(m) => ProtocolErrorView::AddressResolutionFailed(
                m@,
            ),
            ProtocolError::ConnectionFailed(m) => ProtocolErrorView::ConnectionFailed(m@),
            ProtocolError::IoError(m) => ProtocolErrorView::IoError(m@),
            ProtocolError::VarIntTooLarge => ProtocolErrorView::VarIntTooLarge,
            ProtocolError::UnexpectedEndOfData => ProtocolErrorView::UnexpectedEndOfData,
            ProtocolError::TruncatedString => ProtocolErrorView::TruncatedString,
            ProtocolError::MalformedStatusPayload(m) => ProtocolErrorView::MalformedStatusPayload(
                m@,
            ),
        }
    }
}

/// Main error type of the library.
#[derive(Debug, Clone, PartialEq, Eq)]
pub enum OxideVaultError {
    /// Configuration errors (missing settings, invalid values)
    Config(String),
    /// Database operation errors
    Database(String),
    /// Minecraft server protocol errors
    ServerProtocol(String),
    /// Mojang API errors
    MojangApi(String),
    /// Network/HTTP errors
    Network(String),
    /// Discord bot errors
    Discord(String),
    /// Validation errors (invalid usernames, etc.)
    Validation(String),
    /// Generic I/O errors, by the text of the underlying error
    Io(String),
    /// Invalid input errors
    InvalidInput(String),
}

/// An `OxideVaultError` as a mathematical value: the kind and its text.
pub enum ErrorView {
    Config(Seq<char>),
    Database(Seq<char>),
    ServerProtocol(Seq<char>),
    MojangApi(Seq<char>),
    Network(Seq<char>),
    Discord(Seq<char>),
    Validation(Seq<char>),
    Io(Seq<char>),
    InvalidInput(Seq<char>),
}

impl ErrorView {
    /// The text that the error carries.
    pub open spec fn detail(self) -> Seq<char> {
        match self {
            ErrorView::Config(m) => m,
            ErrorView::Database(m) => m,
            ErrorView::ServerProtocol(m) => m,
            ErrorView::MojangApi(m) => m,
            ErrorView::Network(m) => m,
            ErrorView::Discord(m) => m,
            ErrorView::Validation(m) => m,
            ErrorView::Io(m) => m,
            ErrorView::InvalidInput(m) => m,
        }
    }

    /// The words that introduce an error of this kind.
    pub open spec fn label(self) -> Seq<char> {
        match self {
            ErrorView::Config(_) => "Configuration error: "@,
            ErrorView::Database(_) => "Database error: "@,
            ErrorView::ServerProtocol(_) => "Server protocol error: "@,
            ErrorView::MojangApi(_) => "Mojang API error: "@,
            ErrorView::Network(_) => "Network error: "@,
            ErrorView::Discord(_) => "Discord error: "@,
            ErrorView::Validation(_) => "Validation error: "@,
            ErrorView::Io(_) => "I/O error: "@,
            ErrorView::InvalidInput(_) => "Invalid input: "@,
        }
    }

    /// The error as shown to a person: the label of its kind, then its text.
    pub open spec fn display(self) -> Seq<char> {
        self.label() + self.detail()
    }
}

impl View for OxideVaultError {
    type V = ErrorView;

    open spec fn view(&self) -> ErrorView {
        match self {
            OxideVaultError::Config(m) => ErrorView::Config(m@),
            OxideVaultError::Database(m) => ErrorView::Database(m@),
            OxideVaultError::ServerProtocol(m) => ErrorView::ServerProtocol(m@),
            OxideVaultError::MojangApi(m) => ErrorView::MojangApi(m@),
            OxideVaultError::Network(m) => ErrorView::Network(m@),
            OxideVaultError::Discord(m) => ErrorView::Discord(m@),
            OxideVaultError::Validation(m) => ErrorView::Validation(m@),
            OxideVaultError::Io(m) => ErrorView::Io(m@),
            OxideVaultError::InvalidInput(m) => ErrorView::InvalidInput(m@),
        }
    }
}

/// How a protocol error reads as an error of the library: failures to
/// resolve, to connect and to parse the status are protocol errors with
/// their text; everything else is an I/O error.
pub open spec fn protocol_error_as_error(e: ProtocolErrorView) -> ErrorView {
    match e {
        ProtocolErrorView::AddressResolutionFailed(m) => ErrorView::ServerProtocol(m),
        ProtocolErrorView::ConnectionFailed(m) => ErrorView::ServerProtocol(m),
        ProtocolErrorView::MalformedStatusPayload(m) => ErrorView::ServerProtocol(m),
        ProtocolErrorView::IoError(m) => ErrorView::Io(m),
        ProtocolErrorView::VarIntTooLarge => ErrorView::Io("VarInt is too big"@),
        ProtocolErrorView::UnexpectedEndOfData => ErrorView::Io(
            "Unexpected end of data while reading VarInt"@,
        ),
        ProtocolErrorView::TruncatedString => ErrorView::Io("String length exceeds data size"@),
    }
}

impl OxideVaultError {
    /// The error as shown to a person.
    pub fn to_string(&self) -> (r: String)
        ensures
            r@ == self@.display(),
    {
        match self {
            OxideVaultError::Config(m) => String::from_str("Configuration error: ").concat(
                m.as_str(),
            ),
            OxideVaultError::Database(m) => String::from_str("Database error: ").concat(m.as_str()),
            OxideVaultError::ServerProtocol(m) => String::from_str(
                "Server protocol error: ",
            ).concat(m.as_str()),
            OxideVaultError::MojangApi(m) => String::from_str("Mojang API error: ").concat(
                m.as_str(),
            ),
            OxideVaultError::Network(m) => String::from_str("Network error: ").concat(m.as_str()),
            OxideVaultError::Discord(m) => String::from_str("Discord error: ").concat(m.as_str()),
            OxideVaultError::Validation(m) => String::from_str("Validation error: ").concat(
                m.as_str(),
            ),
            OxideVaultError::Io(m) => String::from_str("I/O error: ").concat(m.as_str()),
            OxideVaultError::InvalidInput(m) => String::from_str("Invalid input: ").concat(
                m.as_str(),
            ),
        }
    }

    /// Takes a protocol error into the library's error type.
    pub fn from_protocol(e: ProtocolError) -> (r: OxideVaultError)
        ensures
            r@ == protocol_error_as_error(e@),
    {
        match e {
            ProtocolError::AddressResolutionFailed(m) => OxideVaultError::ServerProtocol(m),
            ProtocolError::ConnectionFailed(m) => OxideVaultError::ServerProtocol(m),
            ProtocolError::MalformedStatusPayload(m) => OxideVaultError::ServerProtocol(m),
            ProtocolError::IoError(m) => OxideVaultError::Io(m),
            ProtocolError::VarIntTooLarge => OxideVaultError::Io(
                String::from_str("VarInt is too big"),
            ),
            ProtocolError::UnexpectedEndOfData => OxideVaultError::Io(
                String::from_str("Unexpected end of data while reading VarInt"),
            ),
            ProtocolError::TruncatedString => OxideVaultError::Io(
                String::from_str("String length exceeds data size"),
            ),
        }
    }
}

/// Result type of the library's operations.
pub type Result<T> = std::result::Result<T, OxideVaultError>;

} // verus!
