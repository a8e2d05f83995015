//! The client's own settings: its credentials for the remote service and
//! the port of its redirect URI.

use vstd::prelude::*;
use vstd::string::*;
use crate::text::{
    byte_len,
    chars_of,
    decimal,
    parse_decimal,
    parse_u64,
    push_decimal,
    string_of,
    trim,
    trim_bounds,
};

verus! {

/// The name of the file that holds the client's settings.
pub const CLIENT_CONFIG_FILE: &'static str = "client.yml";

/// The port of the redirect URI where none is configured.
pub const DEFAULT_PORT: u16 = 8888;

/// The length of a client id and of a client secret.
pub const CLIENT_KEY_LEN: usize = 32;

/// How many unusable keys the setup dialogue takes before it gives up.
pub const MAX_KEY_ATTEMPTS: u8 = 5;

/// `std::path::PathBuf`, carried along as it is: nothing is said of what a
/// path holds.
#[verifier::external_type_specification]
#[verifier::external_body]
pub struct ExPathBuf(std::path::PathBuf);

/// The client's settings.
#[derive(Clone, Debug)]
pub struct ClientConfig {
    pub client_id: String,
    pub client_secret: String,
    pub device_id: Option<String>,
    pub port: Option<u16>,
}

/// Where the client's settings are kept.
pub struct ClientConfigPaths {
    pub config_file_path: std::path::PathBuf,
}

/// The client's settings as a mathematical value.
pub struct ClientConfigView {
    pub client_id: Seq<char>,
    pub client_secret: Seq<char>,
    pub device_id: Option<Seq<char>>,
    pub port: Option<u16>,
}

impl View for ClientConfig {
    type V = ClientConfigView;

    open spec fn view(&self) -> ClientConfigView {
        ClientConfigView {
            client_id: self.client_id@,
            client_secret: self.client_secret@,
            device_id: match self.device_id {
                Some(id) => Some(id@),
                None => None,
            },
            port: self.port,
        }
    }
}

/// Settings with no credentials, no device and no port.
pub open spec fn empty_config() -> ClientConfigView {
    ClientConfigView {
        client_id: Seq::empty(),
        client_secret: Seq::empty(),
        device_id: None,
        port: None,
    }
}

/// The redirect URI for a port: the callback path on the loopback
/// interface.
pub open spec fn redirect_uri_for(port: u16) -> Seq<char> {
    "http://127.0.0.1:"@ + decimal(port as nat) + "/callback"@
}

/// The port of these settings: the configured one, or the default.
pub open spec fn port_of(config: ClientConfigView) -> u16 {
    match config.port {
        Some(port) => port,
        None => DEFAULT_PORT,
    }
}

impl Default for ClientConfig {
    fn default() -> (config: ClientConfig)
        ensures
            config@ == empty_config(),
    {
        ClientConfig::new()
    }
}

impl PartialEq for ClientConfig {
    fn eq(&self, other: &ClientConfig) -> (equal: bool) {
        let same_device = match &self.device_id {
            Some(a) => match &other.device_id {
                Some(b) => *a == *b,
                None => false,
            },
            None => other.device_id.is_none(),
        };
        let same_port = match self.port {
            Some(a) => match other.port {
                Some(b) => a == b,
                None => false,
            },
            None => other.port.is_none(),
        };
        let same_id = self.client_id == other.client_id;
        let same_secret = self.client_secret == other.client_secret;
        same_id && same_secret && same_device && same_port
    }
}

impl vstd::std_specs::cmp::PartialEqSpecImpl for ClientConfig {
    open spec fn obeys_eq_spec() -> bool {
        true
    }

    open spec fn eq_spec(&self, other: &ClientConfig) -> bool {
        self@ == other@
    }
}

/// Whether `c` is a hexadecimal digit, in either case.
pub open spec fn is_hex_digit(c: char) -> bool {
    ||| '0' <= c <= '9'
    ||| 'a' <= c <= 'f'
    ||| 'A' <= c <= 'F'
}

/// What is wrong with a client key, if anything: it is empty, or not 32
/// bytes long, or holds something else than hexadecimal digits. The first
/// of these that applies is reported.
pub open spec fn client_key_error(key: Seq<char>) -> Option<Seq<char>> {
    if key.len() == 0 {
        Some("Key cannot be empty"@)
    } else if byte_len(key) != CLIENT_KEY_LEN {
        Some("Invalid length: "@ + decimal(byte_len(key)) + " (must be "@ + decimal(
            CLIENT_KEY_LEN as nat,
        ) + ")"@)
    } else if !(forall|i: int| 0 <= i < key.len() ==> is_hex_digit(#[trigger] key[i])) {
        Some("Invalid character found (must be hex digits only)"@)
    } else {
        None
    }
}

/// The port that an answer of the setup dialogue stands for: the number
/// that it holds between white space, or the default where it holds none
/// that fits a port.
pub open spec fn port_from_answer(answer: Seq<char>) -> u16 {
    match parse_u64(trim(answer)) {
        Some(port) => if port <= u16::MAX {
            port as u16
        } else {
            DEFAULT_PORT
        },
        None => DEFAULT_PORT,
    }
}

/// Reads the port from an answer of the setup dialogue.
pub fn parse_port(answer: &str) -> (port: u16)
    ensures
        port == port_from_answer(answer@),
{
    let chars = chars_of(answer);
    assert(chars@.subrange(0, chars@.len() as int) =~= chars@);
    let (from, to) = trim_bounds(&chars, 0, chars.len());
    match parse_decimal(&chars, from, to) {
        Some(port) => if port <= u16::MAX as u64 {
            port as u16
        } else {
            DEFAULT_PORT
        },
        None => DEFAULT_PORT,
    }
}

impl ClientConfig {
    /// Settings with no credentials, no device and no port.
    pub fn new() -> (config: ClientConfig)
        ensures
            config@ == empty_config(),
    {
        ClientConfig {
            client_id: String::new(),
            client_secret: String::new(),
            device_id: None,
            port: None,
        }
    }

    /// The URI that the authorization service redirects to.
    pub fn get_redirect_uri(&self) -> (uri: String)
        ensures
            uri@ == redirect_uri_for(port_of(self@)),
    {
        let mut uri = String::from_str("http://127.0.0.1:");
        push_decimal(&mut uri, self.get_port() as u64);
        uri.append("/callback");
        uri
    }

    /// The port of the redirect URI.
    pub fn get_port(&self) -> (port: u16)
        ensures
            port == port_of(self@),
    {
        match self.port {
            Some(port) => port,
            None => DEFAULT_PORT,
        }
    }

    /// Checks a client id or client secret: 32 hexadecimal digits.
    pub fn validate_client_key(key: &str) -> (checked: Result<(), String>)
        ensures
            match checked {
                Ok(_) => client_key_error(key@) is None,
                Err(message) => client_key_error(key@) == Some(message@),
            },
    {
        if key.is_empty() {
            return Err(String::from_str("Key cannot be empty"));
        }
        if key.len() != CLIENT_KEY_LEN {
            let mut message = String::from_str("Invalid length: ");
            push_decimal(&mut message, key.len() as u64);
            message.append(" (must be ");
            push_decimal(&mut message, CLIENT_KEY_LEN as u64);
            message.append(")");
            return Err(message);
        }
        let chars = chars_of(key);
        let mut i: usize = 0;
        while i < chars.len()
            invariant
                i <= chars.len(),
                chars@ == key@,
                key@.len() > 0,
                byte_len(key@) == CLIENT_KEY_LEN,
                forall|j: int| 0 <= j < i ==> is_hex_digit(#[trigger] chars@[j]),
            decreases chars.len() - i,
        {
            let c = chars[i];
            let hex = ('0' <= c && c <= '9') || ('a' <= c && c <= 'f') || ('A' <= c && c <= 'F');
            if !hex {
                return Err(String::from_str("Invalid character found (must be hex digits only)"));
            }
            i += 1;
        }
        Ok(())
    }

    /// Takes over the settings that were read from the settings file. They
    /// are taken over even where they are refused: settings without a client
    /// id or without a client secret.
    pub fn adopt(&mut self, loaded: ClientConfig) -> (adopted: Result<(), String>)
        ensures
            final(self)@ == loaded@,
            match adopted {
                Ok(_) => loaded@.client_id.len() > 0 && loaded@.client_secret.len() > 0,
                Err(message) => (loaded@.client_id.len() == 0 || loaded@.client_secret.len() == 0)
                    && message@ == "client_id or client_secret is empty in config file"@,
            },
    {
        self.client_id = loaded.client_id;
        self.client_secret = loaded.client_secret;
        self.device_id = loaded.device_id;
        self.port = loaded.port;
        if self.client_id.as_str().is_empty() || self.client_secret.as_str().is_empty() {
            return Err(String::from_str("client_id or client_secret is empty in config file"));
        }
        Ok(())
    }

    /// The settings that the setup dialogue ends with: the two keys as they
    /// were accepted, no device, and the port that was answered.
    pub fn from_setup(client_id: String, client_secret: String, port_answer: &str) -> (config:
        ClientConfig)
        ensures
            config@ == (ClientConfigView {
                client_id: client_id@,
                client_secret: client_secret@,
                device_id: None,
                port: Some(port_from_answer(port_answer@)),
            }),
    {
        ClientConfig {
            client_id,
            client_secret,
            device_id: None,
            port: Some(parse_port(port_answer)),
        }
    }
}

/// How the setup dialogue goes on after a line was entered for a key.
#[derive(Debug)]
pub enum KeyPromptStep {
    /// The key is good.
    Accepted(String),
    /// The key is refused for the reason given; ask again.
    Refused { reason: String },
    /// The key is refused for the reason given, and so were too many before
    /// it: the dialogue ends with `message`.
    GaveUp { reason: String, message: String },
}

/// The part of the setup dialogue that asks for one key.
#[derive(Clone, Copy, Debug, PartialEq, Eq, Structural)]
pub struct KeyPrompt {
    /// How many keys have been refused so far.
    pub refused: u8,
}

impl KeyPrompt {
    /// A dialogue in which nothing was entered yet.
    pub fn new() -> (prompt: KeyPrompt)
        ensures
            prompt.refused == 0,
    {
        KeyPrompt { refused: 0 }
    }

    /// Takes the line that was entered. The key is the line without the
    /// white space around it. A good key is accepted; a bad one is counted,
    /// and the fifth bad one ends the dialogue.
    pub fn submit(&mut self, line: &str) -> (step: KeyPromptStep)
        ensures
            match client_key_error(trim(line@)) {
                None => {
                    &&& final(self).refused == old(self).refused
                    &&& step matches KeyPromptStep::Accepted(key)
                    &&& key@ == trim(line@)
                },
                Some(why) => if old(self).refused + 1 >= MAX_KEY_ATTEMPTS {
                    &&& final(self).refused == old(self).refused
                    &&& step matches KeyPromptStep::GaveUp { reason, message }
                    &&& reason@ == why
                    &&& message@ == "Maximum retries ("@ + decimal(MAX_KEY_ATTEMPTS as nat)
                        + ") exceeded"@
                } else {
                    &&& final(self).refused == old(self).refused + 1
                    &&& step matches KeyPromptStep::Refused { reason }
                    &&& reason@ == why
                },
            },
    {
        let chars = chars_of(line);
        assert(chars@.subrange(0, chars@.len() as int) =~= chars@);
        let (from, to) = trim_bounds(&chars, 0, chars.len());
        let key = string_of(&chars, from, to);
        match ClientConfig::validate_client_key(key.as_str()) {
            Ok(_) => KeyPromptStep::Accepted(key),
            Err(reason) => {
                if self.refused >= MAX_KEY_ATTEMPTS - 1 {
                    let mut message = String::from_str("Maximum retries (");
                    push_decimal(&mut message, MAX_KEY_ATTEMPTS as u64);
                    message.append(") exceeded");
                    KeyPromptStep::GaveUp { reason, message }
                } else {
                    self.refused = self.refused + 1;
                    KeyPromptStep::Refused { reason }
                }
            },
        }
    }
}

} // verus!
