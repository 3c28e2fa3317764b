//! The bridge protocol: discovery and pairing response decoding, the
//! network identity (address + credential), and the request lines that
//! the transport layer sends.
//!
//! The transport layer performs the HTTPS calls and turns each response
//! body into a [`JsonValue`]; everything that decides — which entry is
//! taken, which error is raised, when pairing may be retried — lives
//! here.

use vstd::prelude::*;

use crate::json::{spec_get, JsonValue};

verus! {

/// Errors of the bridge protocol.
///
/// `Request` is a transport failure, `Parsing` a malformed response
/// body, `InvalidData` a well-formed body of an unexpected shape, and
/// `LinkButtonNotPressed` the one retryable condition: the caller may
/// prompt for the physical link button and invoke pairing again.
#[derive(Debug, Clone)]
pub enum HueError {
    Request,
    Parsing,
    LinkButtonNotPressed,
    InvalidData { msg: String },
    ClientCreate,
}

impl HueError {
    /// Whether the caller may retry the failed operation: only the
    /// missing link-button press is retryable, after prompting for the
    /// physical button.  Every other error propagates.
    pub fn is_retryable(&self) -> (r: bool)
        ensures
            r <==> *self is LinkButtonNotPressed,
    {
        matches!(self, HueError::LinkButtonNotPressed)
    }

    /// A short description of the error.
    pub fn message(&self) -> (r: String)
        ensures
            match self {
                HueError::Request => r@ == "error sending request"@,
                HueError::Parsing => r@ == "error parsing response"@,
                HueError::LinkButtonNotPressed => r@ == "link button has not been pressed"@,
                HueError::InvalidData { msg } => r@ == msg@,
                HueError::ClientCreate => r@ == "unable to create http client"@,
            },
    {
        match self {
            HueError::Request => String::from_str("error sending request"),
            HueError::Parsing => String::from_str("error parsing response"),
            HueError::LinkButtonNotPressed => String::from_str("link button has not been pressed"),
            HueError::InvalidData { msg } => msg.clone(),
            HueError::ClientCreate => String::from_str("unable to create http client"),
        }
    }
}

/// The network identity of a paired bridge: its address and the
/// application key issued at pairing.  Immutable once constructed; a
/// new credential requires pairing again.
#[derive(Debug, Clone)]
pub struct HueBridge {
    pub bridge_ip: String,
    pub username: String,
}

/// The address in the first entry of a discovery response, when the
/// response is an array whose first element is an object with a string
/// member `internalipaddress`.
pub open spec fn spec_discover_ip(v: JsonValue) -> Option<Seq<char>> {
    match v {
        JsonValue::Arr(items) => {
            if items@.len() > 0 {
                match spec_get(items@[0], "internalipaddress"@) {
                    Some(JsonValue::Str(s)) => Some(s@),
                    _ => None,
                }
            } else {
                None
            }
        },
        _ => None,
    }
}

/// The credential in the first entry of a pairing response, when that
/// entry carries an object member `success` with a string member
/// `username`.
pub open spec fn spec_pair_username(v: JsonValue) -> Option<Seq<char>> {
    match v {
        JsonValue::Arr(items) => {
            if items@.len() > 0 {
                match spec_get(items@[0], "success"@) {
                    Some(s) => match spec_get(s, "username"@) {
                        Some(JsonValue::Str(u)) => Some(u@),
                        _ => None,
                    },
                    _ => None,
                }
            } else {
                None
            }
        },
        _ => None,
    }
}

/// Whether the first entry of a pairing response reports protocol
/// error 101, the bridge's "link button not pressed" condition.
pub open spec fn spec_link_button_error(v: JsonValue) -> bool {
    match v {
        JsonValue::Arr(items) => items@.len() > 0 && match spec_get(items@[0], "error"@) {
            Some(e) => spec_get(e, "type"@) == Some(JsonValue::Num(1_010_000_000i64)),
            _ => false,
        },
        _ => false,
    }
}

/// A character that may stand unescaped inside a JSON string: the
/// hyphen, a decimal digit, or a lowercase hex letter.
pub open spec fn is_plain_key_char(c: char) -> bool {
    let u = c as u32;
    u == 45 || (48 <= u && u <= 57) || (97 <= u && u <= 102)
}

/// Relies on `uuid::Uuid::new_v4` and its `Display` impl: a freshly
/// generated random identifier, rendered in the hyphenated form of 36
/// characters, each a lowercase hex digit or a hyphen.
#[verifier::external_body]
fn fresh_device_id() -> (r: String)
    ensures
        r@.len() == 36,
        forall|i: int| 0 <= i < r@.len() ==> is_plain_key_char(#[trigger] r@[i]),
{
    uuid::Uuid::new_v4().to_string()
}

/// The well-known public discovery endpoint.
pub fn discovery_url() -> (r: String)
    ensures
        r@ == "https://discovery.meethue.com/"@,
{
    String::from_str("https://discovery.meethue.com/")
}

/// The registration endpoint of the bridge at the given address.
pub fn pair_url(bridge_ip: &str) -> (r: String)
    ensures
        r@ == "https://"@ + bridge_ip@ + "/api"@,
{
    let mut s: String = String::from_str("https://");
    s.append(bridge_ip);
    s.append("/api");
    proof {
        assert(s@ =~= "https://"@ + bridge_ip@ + "/api"@);
    }
    s
}

/// The body of a registration request carrying the given client
/// identifier, which must consist of plain characters (no quote,
/// backslash or control character).
pub fn pair_request_body(device_id: &str) -> (r: String)
    requires
        forall|i: int| 0 <= i < device_id@.len() ==> is_plain_key_char(#[trigger] device_id@[i]),
    ensures
        r@ == "{\"devicetype\":\""@ + device_id@ + "\"}"@,
{
    let mut s: String = String::from_str("{\"devicetype\":\"");
    s.append(device_id);
    s.append("\"}");
    proof {
        assert(s@ =~= "{\"devicetype\":\""@ + device_id@ + "\"}"@);
    }
    s
}

/// The body of a registration request around a freshly generated
/// client identifier.
pub fn pair_request() -> (r: String)
    ensures
        exists|id: Seq<char>|
            r@ == "{\"devicetype\":\""@ + id + "\"}"@ && id.len() == 36,
{
    let device_id: String = fresh_device_id();
    let r: String = pair_request_body(device_id.as_str());
    proof {
        assert(r@ == "{\"devicetype\":\""@ + device_id@ + "\"}"@ && device_id@.len() == 36);
    }
    r
}

impl HueBridge {
    /// Pair a credential with the address it came from.
    pub fn new(username: String, bridge_ip: String) -> (res: HueBridge)
        ensures
            res.username == username,
            res.bridge_ip == bridge_ip,
    {
        HueBridge { bridge_ip, username }
    }

    /// The lights resource of this bridge.
    pub fn lights_url(&self) -> (r: String)
        ensures
            r@ == "https://"@ + self.bridge_ip@ + "/clip/v2/resource/light"@,
    {
        let mut s: String = String::from_str("https://");
        s.append(self.bridge_ip.as_str());
        s.append("/clip/v2/resource/light");
        proof {
            assert(s@ =~= "https://"@ + self.bridge_ip@ + "/clip/v2/resource/light"@);
        }
        s
    }

    /// The header that authenticates every call after pairing: the
    /// credential travels in a request header, never in the URL or body.
    pub fn auth_header(&self) -> (h: (String, String))
        ensures
            h.0@ == "hue-application-key"@,
            h.1@ == self.username@,
    {
        (String::from_str("hue-application-key"), self.username.clone())
    }

    /// Decode a discovery response: an array of bridge descriptions, of
    /// which the first is taken.
    ///
    /// Returns the address exactly when [`spec_discover_ip`] gives one;
    /// otherwise `Parsing` for a body that is not an array, and
    /// `InvalidData` for an array without a usable first entry.
    pub fn discover(v: &JsonValue) -> (res: Result<String, HueError>)
        ensures
            match res {
                Ok(ip) => spec_discover_ip(*v) == Some(ip@),
                Err(e) => {
                    &&& spec_discover_ip(*v) is None
                    &&& e is Parsing <==> !(*v is Arr)
                    &&& (e matches HueError::InvalidData { .. }) <==> *v is Arr
                },
            },
    {
        match v {
            JsonValue::Arr(items) => {
                if items.len() == 0 {
                    return Err(
                        HueError::InvalidData {
                            msg: String::from_str("didn't find any bridges"),
                        },
                    );
                }
                match items[0].get("internalipaddress") {
                    Some(JsonValue::Str(s)) => Ok(s.clone()),
                    _ => Err(
                        HueError::InvalidData {
                            msg: String::from_str("couldn't parse bridge ip address"),
                        },
                    ),
                }
            },
            _ => Err(HueError::Parsing),
        }
    }

    /// Decode a pairing response for the given address: an array whose
    /// first entry either carries `success.username` (the credential),
    /// or reports error 101 (link button not pressed, retryable), or is
    /// anything else (invalid).
    pub fn pair(bridge_ip: String, v: &JsonValue) -> (res: Result<HueBridge, HueError>)
        ensures
            match res {
                Ok(b) => {
                    &&& spec_pair_username(*v) == Some(b.username@)
                    &&& b.bridge_ip == bridge_ip
                },
                Err(e) => {
                    &&& spec_pair_username(*v) is None
                    &&& e is Parsing <==> !(*v is Arr)
                    &&& e is LinkButtonNotPressed <==> spec_link_button_error(*v)
                    &&& (e matches HueError::InvalidData { .. }) <==> (*v is Arr
                        && !spec_link_button_error(*v))
                },
            },
    {
        match v {
            JsonValue::Arr(items) => {
                if items.len() == 0 {
                    return Err(
                        HueError::InvalidData {
                            msg: String::from_str("failed to parse pair result"),
                        },
                    );
                }
                let first = &items[0];
                let username: Option<String> = match first.get("success") {
                    Some(s) => match s.get("username") {
                        Some(JsonValue::Str(u)) => Some(u.clone()),
                        _ => None,
                    },
                    _ => None,
                };
                match username {
                    Some(u) => Ok(HueBridge { bridge_ip, username: u }),
                    None => {
                        let link_button: bool = match first.get("error") {
                            Some(e) => match e.get("type") {
                                Some(JsonValue::Num(code)) => *code == 1_010_000_000i64,
                                _ => false,
                            },
                            _ => false,
                        };
                        if link_button {
                            Err(HueError::LinkButtonNotPressed)
                        } else {
                            Err(
                                HueError::InvalidData {
                                    msg: String::from_str("unknown error occured"),
                                },
                            )
                        }
                    },
                }
            },
            _ => Err(HueError::Parsing),
        }
    }
}

} // verus!
