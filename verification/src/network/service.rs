//! Requests, responses and the limits they are held to.

use vstd::prelude::*;

use crate::json;
use crate::json::{Json, JsonView};
use crate::row::Row;
use crate::text;

verus! {

/// Why a request failed.
#[derive(Debug, PartialEq, Eq)]
pub enum NetworkError {
    /// The other side could not be reached, or the exchange broke off.
    RequestError(String),
    /// Any other failure.
    Other(String),
}

impl NetworkError {
    /// What this error says.
    pub open spec fn rendering(&self) -> Seq<char> {
        match self {
            NetworkError::RequestError(m) => "request error: "@ + m@,
            NetworkError::Other(m) => m@,
        }
    }

    /// What this error says.
    pub fn to_string(&self) -> (r: String)
        ensures
            r@ == self.rendering(),
    {
        match self {
            NetworkError::RequestError(m) => text::join2("request error: ", m.as_str()),
            NetworkError::Other(m) => m.clone(),
        }
    }
}

/// A request to the outside world.
#[derive(Debug, Clone, PartialEq, Eq)]
pub struct Request {
    pub method: String,
    /// The absolute URL.
    pub url: String,
    /// Names and values, in any order.
    pub headers: Vec<(String, String)>,
    pub body: Option<Vec<u8>>,
}

/// The response to a request.
#[derive(Debug, Clone, PartialEq, Eq)]
pub struct Response {
    pub status_code: u16,
    /// Names, each with all its values, in any order.
    pub headers: Vec<(String, Vec<String>)>,
    pub body: Vec<u8>,
}

/// A response without its body, which arrives on its own.
#[derive(Debug, Clone, PartialEq, Eq)]
pub struct ResponseHead {
    pub status_code: u16,
    pub headers: Vec<(String, Vec<String>)>,
}

/// The key of [`NetworkLimits::max_response_bytes`].
pub const MAX_RESPONSE_BYTES_KEY: &'static str = "WAFER_RUN__NETWORK__MAX_RESPONSE_BYTES";

/// The key of [`NetworkLimits::connect_timeout`].
pub const CONNECT_TIMEOUT_SECS_KEY: &'static str = "WAFER_RUN__NETWORK__CONNECT_TIMEOUT_SECS";

/// The key of [`NetworkLimits::read_timeout`].
pub const READ_TIMEOUT_SECS_KEY: &'static str = "WAFER_RUN__NETWORK__READ_TIMEOUT_SECS";

/// The key of [`NetworkLimits::request_timeout`].
pub const REQUEST_TIMEOUT_SECS_KEY: &'static str = "WAFER_RUN__NETWORK__REQUEST_TIMEOUT_SECS";

/// The key of [`NetworkLimits::stream_timeout`].
pub const STREAM_TIMEOUT_SECS_KEY: &'static str = "WAFER_RUN__NETWORK__STREAM_TIMEOUT_SECS";

/// The largest response body without another setting: 50 MiB.
pub const DEFAULT_MAX_RESPONSE_BYTES: usize = 52_428_800;

/// The longest wait for a connection without another setting, in seconds.
pub const DEFAULT_CONNECT_TIMEOUT: u64 = 10;

/// The longest silence without another setting, in seconds.
pub const DEFAULT_READ_TIMEOUT: u64 = 30;

/// The longest exchange without another setting, in seconds.
pub const DEFAULT_REQUEST_TIMEOUT: u64 = 30;

/// How large a response may be, and how long it may take. Times are in seconds.
#[derive(Debug, Clone, Copy, PartialEq, Eq)]
pub struct NetworkLimits {
    /// The largest response body, in bytes.
    pub max_response_bytes: usize,
    /// The longest wait for a connection.
    pub connect_timeout: u64,
    /// The longest that a connection may go without a byte.
    pub read_timeout: u64,
    /// The longest that a buffered exchange may take as a whole.
    pub request_timeout: u64,
    /// The longest that a streamed exchange may take as a whole; as long as its
    /// body takes where there is none.
    pub stream_timeout: Option<u64>,
}

/// The limits without any setting.
pub open spec fn default_limits() -> NetworkLimits {
    NetworkLimits {
        max_response_bytes: DEFAULT_MAX_RESPONSE_BYTES,
        connect_timeout: DEFAULT_CONNECT_TIMEOUT,
        read_timeout: DEFAULT_READ_TIMEOUT,
        request_timeout: DEFAULT_REQUEST_TIMEOUT,
        stream_timeout: None,
    }
}

impl Default for NetworkLimits {
    fn default() -> (r: Self)
        ensures
            r == default_limits(),
    {
        NetworkLimits {
            max_response_bytes: DEFAULT_MAX_RESPONSE_BYTES,
            connect_timeout: DEFAULT_CONNECT_TIMEOUT,
            read_timeout: DEFAULT_READ_TIMEOUT,
            request_timeout: DEFAULT_REQUEST_TIMEOUT,
            stream_timeout: None,
        }
    }
}

/// The positive integer that a value stands for: a number, or a text that
/// writes one.
pub open spec fn positive_of(j: JsonView) -> Option<u64> {
    match j {
        JsonView::Str(s) => if text::is_u64_text(s) && text::digits_value(text::unsigned_digits(s))
            > 0 {
            Some(text::digits_value(text::unsigned_digits(s)) as u64)
        } else {
            None
        },
        JsonView::Int(i) => if i > 0 {
            Some(i as u64)
        } else {
            None
        },
        JsonView::Real(n) => match n.unsigned {
            Some(v) => if v > 0 {
                Some(v)
            } else {
                None
            },
            None => None,
        },
        _ => None,
    }
}

/// A value as it is told back: a text in quotes, anything else as JSON.
pub open spec fn shown(j: JsonView) -> Seq<char> {
    match j {
        JsonView::Str(s) => text::debug_rendering(s),
        _ => json::compact(j),
    }
}

/// The key is not set: it is absent, null, or empty where that counts so.
pub open spec fn is_unset(
    config: Map<Seq<char>, JsonView>,
    key: Seq<char>,
    empty_is_unset: bool,
) -> bool {
    !config.dom().contains(key) || config[key] is Null || (empty_is_unset && config[key]
        == JsonView::Str(Seq::empty()))
}

/// What is said of a value that is no positive integer.
pub open spec fn invalid_value(key: Seq<char>, j: JsonView) -> Seq<char> {
    key + "="@ + shown(j)
        + " is invalid: expected a positive integer (unset it to use the default)"@
}

/// The positive integer that `config` sets for `key`.
pub open spec fn setting(
    config: Map<Seq<char>, JsonView>,
    key: Seq<char>,
    empty_is_unset: bool,
) -> Result<Option<u64>, Seq<char>> {
    if is_unset(config, key, empty_is_unset) {
        Ok(None)
    } else {
        match positive_of(config[key]) {
            Some(v) => Ok(Some(v)),
            None => Err(invalid_value(key, config[key])),
        }
    }
}

fn positive(config: &Row, key: &str, empty_is_unset: bool) -> (r: Result<Option<u64>, NetworkError>)
    ensures
        match setting(config@, key@, empty_is_unset) {
            Ok(v) => r == Ok::<Option<u64>, NetworkError>(v),
            Err(m) => r matches Err(NetworkError::Other(s)) && s@ == m,
        },
{
    proof {
        reveal_with_fuel(json::json_view, 2);
    }
    let value = match config.get(key) {
        None => {
            return Ok(None);
        },
        Some(v) => v,
    };
    let told: String = match value {
        Json::Null => {
            return Ok(None);
        },
        Json::Str(raw) => {
            if empty_is_unset && text::same(raw.as_str(), "") {
                proof {
                    reveal_strlit("");
                    assert(raw@ =~= Seq::empty());
                }
                return Ok(None);
            }
            proof {
                reveal_strlit("");
                assert(raw@ == Seq::<char>::empty() ==> raw@ =~= ""@);
            }
            if let Some(v) = text::parse_u64(raw.as_str()) {
                if v > 0 {
                    return Ok(Some(v));
                }
            }
            text::debug_text(raw.as_str())
        },
        Json::Int(i) => {
            if *i > 0 {
                return Ok(Some(*i as u64));
            }
            value.to_text()
        },
        Json::Real(n) => {
            if let Some(v) = n.unsigned {
                if v > 0 {
                    return Ok(Some(v));
                }
            }
            value.to_text()
        },
        other => other.to_text(),
    };
    Err(
        NetworkError::Other(
            text::join4(
                key,
                "=",
                told.as_str(),
                " is invalid: expected a positive integer (unset it to use the default)",
            ),
        ),
    )
}

/// A setting, or what stands in for it.
pub open spec fn or_default(v: Option<u64>, default: u64) -> u64 {
    match v {
        Some(n) => n,
        None => default,
    }
}

/// The first error among the settings, in the order in which they are read.
pub open spec fn limits_refusal(config: Map<Seq<char>, JsonView>) -> Option<Seq<char>> {
    let bytes = setting(config, MAX_RESPONSE_BYTES_KEY@, false);
    let connect = setting(config, CONNECT_TIMEOUT_SECS_KEY@, false);
    let read = setting(config, READ_TIMEOUT_SECS_KEY@, false);
    let request = setting(config, REQUEST_TIMEOUT_SECS_KEY@, false);
    let stream = setting(config, STREAM_TIMEOUT_SECS_KEY@, true);
    if bytes is Err {
        Some(bytes->Err_0)
    } else if bytes->Ok_0 is Some && bytes->Ok_0->0 > usize::MAX {
        Some(
            MAX_RESPONSE_BYTES_KEY@ + "="@ + text::decimal(bytes->Ok_0->0 as int)
                + " is invalid: larger than this platform's address space"@,
        )
    } else if connect is Err {
        Some(connect->Err_0)
    } else if read is Err {
        Some(read->Err_0)
    } else if request is Err {
        Some(request->Err_0)
    } else if stream is Err {
        Some(stream->Err_0)
    } else {
        None
    }
}

/// `limits` are the limits that `config` sets, with the defaults for those it
/// does not set.
pub open spec fn limits_of(config: Map<Seq<char>, JsonView>, limits: NetworkLimits) -> bool {
    let bytes = setting(config, MAX_RESPONSE_BYTES_KEY@, false)->Ok_0;
    &&& limits.max_response_bytes == match bytes {
        Some(n) => n as int,
        None => DEFAULT_MAX_RESPONSE_BYTES as int,
    }
    &&& limits.connect_timeout == or_default(
        setting(config, CONNECT_TIMEOUT_SECS_KEY@, false)->Ok_0,
        DEFAULT_CONNECT_TIMEOUT,
    )
    &&& limits.read_timeout == or_default(
        setting(config, READ_TIMEOUT_SECS_KEY@, false)->Ok_0,
        DEFAULT_READ_TIMEOUT,
    )
    &&& limits.request_timeout == or_default(
        setting(config, REQUEST_TIMEOUT_SECS_KEY@, false)->Ok_0,
        DEFAULT_REQUEST_TIMEOUT,
    )
    &&& limits.stream_timeout == setting(config, STREAM_TIMEOUT_SECS_KEY@, true)->Ok_0
}

fn seconds(config: &Row, key: &str, default: u64) -> (r: Result<u64, NetworkError>)
    ensures
        match setting(config@, key@, false) {
            Ok(v) => r == Ok::<u64, NetworkError>(or_default(v, default)),
            Err(m) => r matches Err(NetworkError::Other(s)) && s@ == m,
        },
{
    match positive(config, key, false) {
        Ok(Some(n)) => Ok(n),
        Ok(None) => Ok(default),
        Err(e) => Err(e),
    }
}

impl NetworkLimits {
    /// Reads the limits from the block's configuration. A key that is not set
    /// has its default. One that is set to anything but a positive integer is
    /// an error that names the key and the value; it never falls back.
    pub fn from_config(config: &Row) -> (r: Result<NetworkLimits, NetworkError>)
        ensures
            match r {
                Ok(limits) => limits_refusal(config@) is None && limits_of(config@, limits),
                Err(e) => limits_refusal(config@) is Some && (e matches NetworkError::Other(m)
                    && m@ == limits_refusal(config@)->0),
            },
    {
        let max_response_bytes: usize = match positive(config, MAX_RESPONSE_BYTES_KEY, false) {
            Err(e) => {
                return Err(e);
            },
            Ok(None) => DEFAULT_MAX_RESPONSE_BYTES,
            Ok(Some(v)) => {
                if v > usize::MAX as u64 {
                    return Err(
                        NetworkError::Other(
                            text::join4(
                                MAX_RESPONSE_BYTES_KEY,
                                "=",
                                text::u64_text(v).as_str(),
                                " is invalid: larger than this platform's address space",
                            ),
                        ),
                    );
                }
                v as usize
            },
        };
        let connect_timeout: u64 = match seconds(
            config,
            CONNECT_TIMEOUT_SECS_KEY,
            DEFAULT_CONNECT_TIMEOUT,
        ) {
            Ok(n) => n,
            Err(e) => {
                return Err(e);
            },
        };
        let read_timeout: u64 = match seconds(config, READ_TIMEOUT_SECS_KEY, DEFAULT_READ_TIMEOUT) {
            Ok(n) => n,
            Err(e) => {
                return Err(e);
            },
        };
        let request_timeout: u64 = match seconds(
            config,
            REQUEST_TIMEOUT_SECS_KEY,
            DEFAULT_REQUEST_TIMEOUT,
        ) {
            Ok(n) => n,
            Err(e) => {
                return Err(e);
            },
        };
        match positive(config, STREAM_TIMEOUT_SECS_KEY, true) {
            Ok(stream_timeout) => Ok(
                NetworkLimits {
                    max_response_bytes,
                    connect_timeout,
                    read_timeout,
                    request_timeout,
                    stream_timeout,
                },
            ),
            Err(e) => Err(e),
        }
    }
}

/// Limits that were read are positive: none of them refuses everything.
pub proof fn read_limits_are_positive(config: Map<Seq<char>, JsonView>, limits: NetworkLimits)
    requires
        limits_refusal(config) is None,
        limits_of(config, limits),
    ensures
        limits.max_response_bytes > 0,
        limits.connect_timeout > 0,
        limits.read_timeout > 0,
        limits.request_timeout > 0,
        limits.stream_timeout is Some ==> limits.stream_timeout->0 > 0,
{
    lemma_setting_positive(config, MAX_RESPONSE_BYTES_KEY@, false);
    lemma_setting_positive(config, CONNECT_TIMEOUT_SECS_KEY@, false);
    lemma_setting_positive(config, READ_TIMEOUT_SECS_KEY@, false);
    lemma_setting_positive(config, REQUEST_TIMEOUT_SECS_KEY@, false);
    lemma_setting_positive(config, STREAM_TIMEOUT_SECS_KEY@, true);
}

proof fn lemma_setting_positive(config: Map<Seq<char>, JsonView>, key: Seq<char>, empty: bool)
    ensures
        setting(config, key, empty) is Ok && setting(config, key, empty)->Ok_0 is Some ==> setting(
            config,
            key,
            empty,
        )->Ok_0->0 > 0,
{
}

/// Every limit is read from its own key: where that is set to a positive
/// number, it is that number, whatever the others are set to, and where it is
/// not set it is the default.
pub proof fn limits_are_read_from_their_own_keys(
    config: Map<Seq<char>, JsonView>,
    limits: NetworkLimits,
    n: i64,
)
    requires
        limits_refusal(config) is None,
        limits_of(config, limits),
        n > 0,
    ensures
        holds(config, MAX_RESPONSE_BYTES_KEY@, n) ==> limits.max_response_bytes == n,
        holds(config, CONNECT_TIMEOUT_SECS_KEY@, n) ==> limits.connect_timeout == n,
        holds(config, READ_TIMEOUT_SECS_KEY@, n) ==> limits.read_timeout == n,
        holds(config, REQUEST_TIMEOUT_SECS_KEY@, n) ==> limits.request_timeout == n,
        holds(config, STREAM_TIMEOUT_SECS_KEY@, n) ==> limits.stream_timeout == Some(n as u64),
        !config.dom().contains(MAX_RESPONSE_BYTES_KEY@) ==> limits.max_response_bytes == 50 * 1024
            * 1024,
        !config.dom().contains(CONNECT_TIMEOUT_SECS_KEY@) ==> limits.connect_timeout == 10,
        !config.dom().contains(READ_TIMEOUT_SECS_KEY@) ==> limits.read_timeout == 30,
        !config.dom().contains(REQUEST_TIMEOUT_SECS_KEY@) ==> limits.request_timeout == 30,
        !config.dom().contains(STREAM_TIMEOUT_SECS_KEY@) ==> limits.stream_timeout is None,
{
}

/// A key is set to a number, as one or as its digits.
pub open spec fn holds(config: Map<Seq<char>, JsonView>, key: Seq<char>, n: i64) -> bool {
    config.dom().contains(key) && (config[key] == JsonView::Int(n) || (
    config[key] matches JsonView::Str(s) && s.len() > 0 && text::is_u64_text(s)
        && text::digits_value(text::unsigned_digits(s)) == n))
}

/// A limit that is set to anything but a positive number refuses the whole
/// configuration; it never falls back to its default.
pub proof fn a_wrong_limit_is_never_passed_over(
    config: Map<Seq<char>, JsonView>,
    key: Seq<char>,
)
    requires
        key == MAX_RESPONSE_BYTES_KEY@ || key == CONNECT_TIMEOUT_SECS_KEY@ || key
            == READ_TIMEOUT_SECS_KEY@ || key == REQUEST_TIMEOUT_SECS_KEY@ || key
            == STREAM_TIMEOUT_SECS_KEY@,
        config.dom().contains(key),
        match config[key] {
            JsonView::Int(i) => i <= 0,
            JsonView::Bool(_) => true,
            JsonView::Array(_) => true,
            JsonView::Object(_) => true,
            JsonView::Str(s) => s.len() > 0 && !text::is_u64_text(s),
            _ => false,
        },
    ensures
        limits_refusal(config) is Some,
{
}

} // verus!
