//! Handling a config message: the key is read, the caller authorized on it,
//! and the store asked.

use vstd::prelude::*;

use crate::error::{ErrorCode, WaferError};
use crate::handler_util;
use crate::handler_util::{malformed, misfit, Body, Next, ResourceAccess};
use crate::text;

verus! {

/// What a message asks for.
#[derive(Debug)]
pub enum ConfigRequest {
    Get { key: String },
    Put { key: String, value: String },
}

/// What to ask for.
#[derive(Debug)]
pub enum ConfigAsk {
    /// Is the caller authorized on the key?
    Authorize { key: String, access: ResourceAccess },
    Get { key: String },
    Put { key: String, value: String },
}

/// What is waited for.
#[derive(Debug)]
pub enum ConfigWaiting {
    Authorizing(ConfigRequest),
    Getting { key: String },
    Setting,
}

/// What was answered.
#[derive(Debug)]
pub enum ConfigTold {
    Authorized(Result<(), WaferError>),
    Value(Option<String>),
    Stored,
}

/// What a message is answered with.
#[derive(Debug, PartialEq, Eq)]
pub enum ConfigResponse {
    Value { value: String },
    Empty,
}

/// The key a request names, and what is to be done with it.
pub open spec fn config_target(request: ConfigRequest) -> (Seq<char>, ResourceAccess) {
    match request {
        ConfigRequest::Get { key } => (key@, ResourceAccess::Read),
        ConfigRequest::Put { key, .. } => (key@, ResourceAccess::Write),
    }
}

/// How a message starts: with the caller's authorization on the key.
pub open spec fn config_starts(
    kind: Seq<char>,
    body: Body<ConfigRequest>,
    r: Next<ConfigAsk, ConfigWaiting, ConfigResponse>,
) -> bool {
    match body {
        Body::Unknown => r matches Next::Refuse(e) && e.says(
            ErrorCode::Unimplemented,
            "unknown config operation: "@ + kind,
        ),
        Body::Malformed { op, why } => r matches Next::Refuse(e)
            && handler_util::refuses_malformed(e, op@, why@),
        Body::Request(request) => r matches Next::Ask(ConfigAsk::Authorize { key, access }, w) && (
        key@, access) == config_target(request) && w == ConfigWaiting::Authorizing(request),
    }
}

/// Starts to handle a config message.
pub fn handle_message(kind: &str, body: Body<ConfigRequest>) -> (r: Next<
    ConfigAsk,
    ConfigWaiting,
    ConfigResponse,
>)
    ensures
        config_starts(kind@, body, r),
{
    match body {
        Body::Unknown => Next::Refuse(
            WaferError::new(
                ErrorCode::Unimplemented,
                text::join2("unknown config operation: ", kind),
            ),
        ),
        Body::Malformed { op, why } => Next::Refuse(malformed(op.as_str(), why.as_str())),
        Body::Request(request) => {
            let ask = match &request {
                ConfigRequest::Get { key } => ConfigAsk::Authorize {
                    key: key.clone(),
                    access: ResourceAccess::Read,
                },
                ConfigRequest::Put { key, .. } => ConfigAsk::Authorize {
                    key: key.clone(),
                    access: ResourceAccess::Write,
                },
            };
            Next::Ask(ask, ConfigWaiting::Authorizing(request))
        },
    }
}

/// What an answer leads to.
pub open spec fn config_goes_on(
    waiting: ConfigWaiting,
    told: ConfigTold,
    r: Next<ConfigAsk, ConfigWaiting, ConfigResponse>,
) -> bool {
    match (waiting, told) {
        (ConfigWaiting::Authorizing(_), ConfigTold::Authorized(Err(e))) => r == Next::<
            ConfigAsk,
            ConfigWaiting,
            ConfigResponse,
        >::Refuse(e),
        (
            ConfigWaiting::Authorizing(ConfigRequest::Get { key }),
            ConfigTold::Authorized(Ok(_)),
        ) => {
            &&& r matches Next::Ask(ConfigAsk::Get { key: asked }, w)
            &&& asked@ == key@
            &&& w == (ConfigWaiting::Getting { key })
        },
        (
            ConfigWaiting::Authorizing(ConfigRequest::Put { key, value }),
            ConfigTold::Authorized(Ok(_)),
        ) => r == Next::<ConfigAsk, ConfigWaiting, ConfigResponse>::Ask(
            ConfigAsk::Put { key, value },
            ConfigWaiting::Setting,
        ),
        (ConfigWaiting::Getting { .. }, ConfigTold::Value(Some(value))) => r == Next::<
            ConfigAsk,
            ConfigWaiting,
            ConfigResponse,
        >::Respond(ConfigResponse::Value { value }),
        (ConfigWaiting::Getting { key }, ConfigTold::Value(None)) => r matches Next::Refuse(e)
            && e.says(ErrorCode::NotFound, "config key not found: "@ + key@),
        (ConfigWaiting::Setting, ConfigTold::Stored) => r == Next::<
            ConfigAsk,
            ConfigWaiting,
            ConfigResponse,
        >::Respond(ConfigResponse::Empty),
        _ => r matches Next::Refuse(e) && handler_util::is_misfit(e),
    }
}

impl ConfigWaiting {
    /// Goes on with the answer to what was asked.
    pub fn resume(self, told: ConfigTold) -> (r: Next<ConfigAsk, ConfigWaiting, ConfigResponse>)
        ensures
            config_goes_on(self, told, r),
    {
        match (self, told) {
            (ConfigWaiting::Authorizing(_), ConfigTold::Authorized(Err(e))) => Next::Refuse(e),
            (
                ConfigWaiting::Authorizing(ConfigRequest::Get { key }),
                ConfigTold::Authorized(Ok(_)),
            ) => Next::Ask(ConfigAsk::Get { key: key.clone() }, ConfigWaiting::Getting { key }),
            (
                ConfigWaiting::Authorizing(ConfigRequest::Put { key, value }),
                ConfigTold::Authorized(Ok(_)),
            ) => Next::Ask(ConfigAsk::Put { key, value }, ConfigWaiting::Setting),
            (ConfigWaiting::Getting { .. }, ConfigTold::Value(Some(value))) => Next::Respond(
                ConfigResponse::Value { value },
            ),
            (ConfigWaiting::Getting { key }, ConfigTold::Value(None)) => Next::Refuse(
                WaferError::new(
                    ErrorCode::NotFound,
                    text::join2("config key not found: ", key.as_str()),
                ),
            ),
            (ConfigWaiting::Setting, ConfigTold::Stored) => Next::Respond(ConfigResponse::Empty),
            _ => Next::Refuse(misfit()),
        }
    }
}

/// The store is touched only for a caller who is authorized, and only at the
/// key the caller was authorized on.
pub proof fn only_the_authorized_key_is_touched(
    request: ConfigRequest,
    told: ConfigTold,
    r: Next<ConfigAsk, ConfigWaiting, ConfigResponse>,
)
    requires
        config_goes_on(ConfigWaiting::Authorizing(request), told, r),
    ensures
        r is Ask ==> told is Authorized && told->Authorized_0 is Ok && match r->Ask_0 {
            ConfigAsk::Get { key } => config_target(request) == (key@, ResourceAccess::Read),
            ConfigAsk::Put { key, .. } => config_target(request) == (key@, ResourceAccess::Write),
            ConfigAsk::Authorize { .. } => false,
        },
{
}

/// A request to read asks for leave to read, one to store for leave to write,
/// each on its own key.
pub proof fn leave_is_asked_for_the_key_itself(
    kind: Seq<char>,
    request: ConfigRequest,
    r: Next<ConfigAsk, ConfigWaiting, ConfigResponse>,
)
    requires
        config_starts(kind, Body::Request(request), r),
    ensures
        r matches Next::Ask(ConfigAsk::Authorize { key, access }, w) && match request {
            ConfigRequest::Get { key: k } => key@ == k@ && access == ResourceAccess::Read,
            ConfigRequest::Put { key: k, .. } => key@ == k@ && access == ResourceAccess::Write,
        },
{
}

/// An authorized read asks the store for its key and answers with the very
/// value that is stored there, or that there is none; an authorized write hands
/// its own key and value to the store.
pub proof fn a_read_gives_what_is_stored(
    request: ConfigRequest,
    second: Next<ConfigAsk, ConfigWaiting, ConfigResponse>,
    stored: Option<String>,
    third: Next<ConfigAsk, ConfigWaiting, ConfigResponse>,
)
    requires
        config_goes_on(
            ConfigWaiting::Authorizing(request),
            ConfigTold::Authorized(Ok(())),
            second,
        ),
        second is Ask,
        config_goes_on(
            second->Ask_1,
            match request {
                ConfigRequest::Get { .. } => ConfigTold::Value(stored),
                ConfigRequest::Put { .. } => ConfigTold::Stored,
            },
            third,
        ),
    ensures
        match request {
            ConfigRequest::Get { key: k } => {
                &&& second->Ask_0 matches ConfigAsk::Get { key }
                &&& key@ == k@
                &&& stored matches Some(v) ==> third == Next::<
                    ConfigAsk,
                    ConfigWaiting,
                    ConfigResponse,
                >::Respond(ConfigResponse::Value { value: v })
                &&& stored is None ==> third is Refuse && third->Refuse_0.code
                    == ErrorCode::NotFound
            },
            ConfigRequest::Put { key: k, value: v } => {
                &&& second->Ask_0 matches ConfigAsk::Put { key, value }
                &&& key@ == k@
                &&& value@ == v@
                &&& third is Respond
                &&& third->Respond_0 is Empty
            },
        },
{
}

} // verus!
