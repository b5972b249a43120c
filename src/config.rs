use crate::text::{append_decimal, decimal, str_eq, to_upper, upper_of};
use vstd::prelude::*;

verus! {

#[verifier::external_type_specification]
#[verifier::external_body]
pub struct ExUuid(uuid::Uuid);

pub open spec fn is_hex_digit(c: char) -> bool {
    ('0' <= c && c <= '9') || ('a' <= c && c <= 'f') || ('A' <= c && c <= 'F')
}

/// 36 characters: hex digits in either case, hyphens at 8, 13, 18 and 23.
pub open spec fn is_hyphenated_uuid(s: Seq<char>) -> bool {
    &&& s.len() == 36
    &&& forall|i: int|
        0 <= i < 36 ==> if i == 8 || i == 13 || i == 18 || i == 23 {
            #[trigger] s[i] == '-'
        } else {
            is_hex_digit(s[i])
        }
}

/// `p` is `urn:uuid:` with its letters in either case.
pub open spec fn is_urn_prefix(p: Seq<char>) -> bool {
    &&& p.len() == 9
    &&& (p[0] == 'u' || p[0] == 'U') && (p[1] == 'r' || p[1] == 'R') && (p[2] == 'n' || p[2]
        == 'N') && p[3] == ':'
    &&& (p[4] == 'u' || p[4] == 'U') && (p[5] == 'u' || p[5] == 'U') && (p[6] == 'i' || p[6]
        == 'I') && (p[7] == 'd' || p[7] == 'D') && p[8] == ':'
}

/// The texts that `uuid::Uuid::parse_str` accepts: 32 hex digits, the
/// hyphenated form, the hyphenated form in braces, or the hyphenated form
/// after `urn:uuid:`. (Each of these is ASCII, so its length in characters
/// is its length in bytes, which is what the parser counts.)
pub open spec fn uuid_text_valid(s: Seq<char>) -> bool {
    ||| s.len() == 32 && forall|i: int| 0 <= i < 32 ==> is_hex_digit(#[trigger] s[i])
    ||| is_hyphenated_uuid(s)
    ||| s.len() == 38 && s[0] == '{' && s[37] == '}' && is_hyphenated_uuid(s.subrange(1, 37))
    ||| s.len() == 45 && is_urn_prefix(s.take(9)) && is_hyphenated_uuid(s.skip(9))
}

/// Relies on `uuid::Uuid::parse_str` (its `try_parse`, `parse_hyphenated`
/// and `decode_hex32`): succeeds exactly on the forms above; the error is
/// rendered with its `Display`.
#[verifier::external_body]
pub(crate) fn parse_uuid(s: &str) -> (r: Result<uuid::Uuid, String>)
    ensures
        r is Ok <==> uuid_text_valid(s@),
{
    uuid::Uuid::parse_str(s).map_err(|e| e.to_string())
}

/// The log levels that a configuration may name, in upper case.
pub open spec fn is_config_level(upper: Seq<char>) -> bool {
    upper == "SUCCESS"@ || upper == "INFO"@ || upper == "WARNING"@ || upper == "ERROR"@ || upper
        == "DEBUG"@
}

/// Whether an upper-cased level name is one that a configuration may name.
pub fn is_config_level_name(upper: &str) -> (r: bool)
    ensures
        r == is_config_level(upper@),
{
    str_eq(upper, "SUCCESS") || str_eq(upper, "INFO") || str_eq(upper, "WARNING") || str_eq(
        upper,
        "ERROR",
    ) || str_eq(upper, "DEBUG")
}

/// Settings of the bridge: listening address, outputs, debug dump, logging.
#[derive(Clone, Debug)]
pub struct Config {
    /// Path to an environment file with more settings.
    pub config_file: Option<String>,
    pub socketio_host: String,
    pub socketio_port: u16,
    pub output_console_enabled: bool,
    pub output_console_verbose: bool,
    pub output_console_colorized: bool,
    pub output_ble_enabled: bool,
    pub output_ble_device_name: String,
    pub output_ble_service_uuid: String,
    pub debug_enabled: bool,
    pub debug_output_path: String,
    /// SUCCESS, INFO, WARNING, ERROR or DEBUG, in any case.
    pub log_level: String,
    pub log_dir: String,
}

/// When a configuration is refused: a zero port, a BLE service UUID that
/// does not parse while BLE is on, or an unknown log level.
pub open spec fn config_invalid(c: Config) -> bool {
    c.socketio_port == 0 || (c.output_ble_enabled && !uuid_text_valid(c.output_ble_service_uuid@))
        || !is_config_level(upper_of(c.log_level@))
}

impl Default for Config {
    fn default() -> (r: Config)
        ensures
            r.config_file is None,
            r.socketio_host@ == "127.0.0.1"@,
            r.socketio_port == 3000,
            r.output_console_enabled,
            !r.output_console_verbose,
            r.output_console_colorized,
            !r.output_ble_enabled,
            r.output_ble_device_name@ == "VRConnect"@,
            r.output_ble_service_uuid@ == "12345678-1234-5678-1234-567812345678"@,
            !r.debug_enabled,
            r.debug_output_path@ == "./logs/debug.log"@,
            r.log_level@ == "INFO"@,
            r.log_dir@ == "./logs"@,
    {
        Config {
            config_file: None,
            socketio_host: String::from_str("127.0.0.1"),
            socketio_port: 3000,
            output_console_enabled: true,
            output_console_verbose: false,
            output_console_colorized: true,
            output_ble_enabled: false,
            output_ble_device_name: String::from_str("VRConnect"),
            output_ble_service_uuid: String::from_str("12345678-1234-5678-1234-567812345678"),
            debug_enabled: false,
            debug_output_path: String::from_str("./logs/debug.log"),
            log_level: String::from_str("INFO"),
            log_dir: String::from_str("./logs"),
        }
    }
}

impl Config {
    /// Merges settings read from a file into these: the settings given on
    /// the command line win, and they were read after the file, so this
    /// configuration is kept as it is.
    pub fn merge_with(self, _file_config: Config) -> (r: Config)
        ensures
            r == self,
    {
        self
    }

    /// Checks the settings; the error names the first that is wrong.
    pub fn validate(&self) -> (r: Result<(), String>)
        ensures
            r is Err <==> config_invalid(*self),
            self.socketio_port == 0 ==> (r matches Err(m) && m@ == "Socket.IO port cannot be 0"@),
    {
        if self.socketio_port == 0 {
            return Err(String::from_str("Socket.IO port cannot be 0"));
        }
        if self.output_ble_enabled && parse_uuid(self.output_ble_service_uuid.as_str()).is_err() {
            let mut m = String::from_str("Invalid BLE service UUID: ");
            m.append(self.output_ble_service_uuid.as_str());
            return Err(m);
        }
        let upper = to_upper(self.log_level.as_str());
        if !is_config_level_name(upper.as_str()) {
            let mut m = String::from_str("Invalid log level: ");
            m.append(self.log_level.as_str());
            return Err(m);
        }
        Ok(())
    }

    /// The URL of the Socket.IO endpoint: `http://<host>:<port>`.
    pub fn socket_url(&self) -> (r: String)
        ensures
            r@ == "http://"@ + self.socketio_host@ + ":"@ + decimal(self.socketio_port as nat),
    {
        let mut r = String::from_str("http://");
        r.append(self.socketio_host.as_str());
        r.append(":");
        append_decimal(&mut r, self.socketio_port as u64);
        r
    }
}

} // verus!
