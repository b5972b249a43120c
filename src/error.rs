use vstd::prelude::*;

verus! {

/// Errors raised while decoding one message or setting the bridge up.
#[derive(Debug, Clone, PartialEq, Eq)]
pub enum VitalError {
    /// The payload carried a zlib header but could not be inflated.
    Decompression(String),
    /// The repaired text is not valid JSON, or not a valid wire snapshot.
    JsonParse(String),
    /// The decompressed payload is not valid UTF-8 text.
    Encoding(String),
    /// Failure of the local file system or of a socket.
    Io(String),
    /// Failure while talking the Engine.IO/Socket.IO protocol.
    SocketIo(String),
    /// Failure of the Bluetooth output.
    Bluetooth(String),
    /// A configuration value is invalid.
    Config(String),
    /// A decoded message could not be processed.
    Processing(String),
    /// The logger could not be set up, or a log level is unknown.
    Logger(String),
}

/// Result type used across the bridge.
pub type Result<T> = core::result::Result<T, VitalError>;

/// The human-readable title of each error kind.
pub open spec fn error_title(e: VitalError) -> Seq<char> {
    match e {
        VitalError::Decompression(_) => "Decompression error: "@,
        VitalError::JsonParse(_) => "JSON parsing error: "@,
        VitalError::Encoding(_) => "Encoding error: "@,
        VitalError::Io(_) => "IO error: "@,
        VitalError::SocketIo(_) => "Socket.IO error: "@,
        VitalError::Bluetooth(_) => "Bluetooth error: "@,
        VitalError::Config(_) => "Configuration error: "@,
        VitalError::Processing(_) => "Data processing error: "@,
        VitalError::Logger(_) => "Logger error: "@,
    }
}

/// The detail text that an error carries.
pub open spec fn error_detail(e: VitalError) -> Seq<char> {
    match e {
        VitalError::Decompression(s) => s@,
        VitalError::JsonParse(s) => s@,
        VitalError::Encoding(s) => s@,
        VitalError::Io(s) => s@,
        VitalError::SocketIo(s) => s@,
        VitalError::Bluetooth(s) => s@,
        VitalError::Config(s) => s@,
        VitalError::Processing(s) => s@,
        VitalError::Logger(s) => s@,
    }
}

impl VitalError {
    /// The message shown for this error: its kind's title, then its detail.
    pub fn message(&self) -> (r: String)
        ensures
            r@ == error_title(*self) + error_detail(*self),
    {
        let (title, detail): (&str, &String) = match self {
            VitalError::Decompression(s) => ("Decompression error: ", s),
            VitalError::JsonParse(s) => ("JSON parsing error: ", s),
            VitalError::Encoding(s) => ("Encoding error: ", s),
            VitalError::Io(s) => ("IO error: ", s),
            VitalError::SocketIo(s) => ("Socket.IO error: ", s),
            VitalError::Bluetooth(s) => ("Bluetooth error: ", s),
            VitalError::Config(s) => ("Configuration error: ", s),
            VitalError::Processing(s) => ("Data processing error: ", s),
            VitalError::Logger(s) => ("Logger error: ", s),
        };
        let mut r = String::from_str(title);
        r.append(detail.as_str());
        r
    }
}

} // verus!
