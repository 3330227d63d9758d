//! Session configuration shared by controller and runner.

use vstd::prelude::*;

use crate::net::error::NetError;
use crate::proto::id::{
    is_code, is_session_text, normalized, session_bytes, PairingCode, SessionId,
};
use crate::text;

verus! {

/// How the controller reaches the runner.
#[derive(Debug, Clone, PartialEq, Eq)]
pub enum Transport {
    /// Dial a relay that pairs the two peers by session id.
    Relay {
        /// Relay WebSocket URL.
        url: String,
    },
    /// Dial the runner directly.
    Direct {
        /// Host and port of the runner's listener.
        addr: String,
    },
}

/// Where to reach the peer, which session to join, and the pairing secret.
#[derive(Clone)]
pub struct SessionConfig {
    /// How to reach the runner.
    pub transport: Transport,
    /// Session shared by the two peers.
    pub session: SessionId,
    /// Pairing code shared out-of-band.
    pub pairing: PairingCode,
}

/// The environment variables that configure a session.
#[derive(Debug, Clone, PartialEq, Eq)]
pub struct EnvVars {
    /// `ARC_DIRECT`.
    pub direct: Option<String>,
    /// `ARC_RELAY_URL`.
    pub relay_url: Option<String>,
    /// `ARC_SESSION`.
    pub session: Option<String>,
    /// `ARC_PAIRING`.
    pub pairing: Option<String>,
}

/// The value if it is there and not empty.
pub open spec fn filled(value: Option<String>) -> Option<String> {
    match value {
        Some(v) => if v@.len() > 0 {
            Some(v)
        } else {
            None
        },
        None => None,
    }
}

/// The argument if there is one, else the environment's value; an empty one does
/// not count, and an empty argument hides the environment.
pub open spec fn either(arg: Option<String>, env: Option<String>) -> Option<String> {
    filled(
        if arg is Some {
            arg
        } else {
            env
        },
    )
}

/// Drops an empty value.
pub fn non_empty(value: Option<String>) -> (r: Option<String>)
    ensures
        r == filled(value),
{
    match value {
        Some(v) => if v.as_str().is_empty() {
            None
        } else {
            Some(v)
        },
        None => None,
    }
}

/// Picks the argument, else the environment's value; missing is an error that
/// says what, and under which variable.
pub fn arg_or_env(arg: Option<String>, env: Option<String>, key: &str, what: &str) -> (r: Result<
    String,
    NetError,
>)
    ensures
        match r {
            Ok(v) => either(arg, env) == Some(v),
            Err(e) => either(arg, env) is None && (e matches NetError::Config(m) && m@
                == "missing "@ + what@ + " (arg or "@ + key@ + ")"@),
        },
{
    let picked = if arg.is_some() {
        arg
    } else {
        env
    };
    match non_empty(picked) {
        Some(v) => Ok(v),
        None => {
            let mut m = text::join3("missing ", what, " (arg or ");
            m.append(key);
            m.append(")");
            Err(NetError::Config(m))
        },
    }
}

/// How the runner is reached: an explicit relay URL wins, then the direct
/// address, then the relay URL of the environment.
pub open spec fn transport_of(positional: Option<String>, env: EnvVars) -> Option<Transport> {
    if filled(positional) is Some {
        Some(Transport::Relay { url: filled(positional)->0 })
    } else if filled(env.direct) is Some {
        Some(Transport::Direct { addr: filled(env.direct)->0 })
    } else if filled(env.relay_url) is Some {
        Some(Transport::Relay { url: filled(env.relay_url)->0 })
    } else {
        None
    }
}

fn resolve_transport(positional: Option<String>, direct: Option<String>, relay_url: Option<String>) -> (r:
    Result<Transport, NetError>)
    ensures
        ({
            let env = EnvVars { direct, relay_url, session: None, pairing: None };
            match r {
                Ok(t) => transport_of(positional, env) == Some(t),
                Err(e) => transport_of(positional, env) is None && (e matches NetError::Config(m)
                    && m@ == "missing endpoint (ARC_RELAY_URL or ARC_DIRECT)"@),
            }
        }),
{
    if let Some(url) = non_empty(positional) {
        return Ok(Transport::Relay { url });
    }
    if let Some(addr) = non_empty(direct) {
        return Ok(Transport::Direct { addr });
    }
    match non_empty(relay_url) {
        Some(url) => Ok(Transport::Relay { url }),
        None => Err(
            NetError::Config("missing endpoint (ARC_RELAY_URL or ARC_DIRECT)".to_owned()),
        ),
    }
}

/// What is wrong with a configuration, by the text of the error, looking at one
/// value after the other; nothing if it is complete.
pub open spec fn config_error(
    transport: Option<Transport>,
    session: Option<String>,
    pairing: Option<String>,
) -> Option<Seq<char>> {
    if session is None {
        Some("missing session id (arg or ARC_SESSION)"@)
    } else if pairing is None {
        Some("missing pairing code (arg or ARC_PAIRING)"@)
    } else if transport is None {
        Some("missing endpoint (ARC_RELAY_URL or ARC_DIRECT)"@)
    } else if !is_session_text(session->0@) {
        Some("session id must be 32 hex chars"@)
    } else if !is_code(normalized(pairing->0@)) {
        Some("pairing code must be XXXX-XXXX"@)
    } else {
        None
    }
}

/// Whether `r` is the configuration made of these values, or the error that they
/// call for.
pub open spec fn configured(
    transport: Option<Transport>,
    session: Option<String>,
    pairing: Option<String>,
    r: Result<SessionConfig, NetError>,
) -> bool {
    match r {
        Ok(config) => {
            &&& config_error(transport, session, pairing) is None
            &&& Some(config.transport) == transport
            &&& config.session@ == session_bytes(session->0@)
            &&& config.pairing@ == normalized(pairing->0@)
        },
        Err(e) => e matches NetError::Config(m) && config_error(transport, session, pairing)
            == Some(m@),
    }
}

impl SessionConfig {
    /// Reads the configuration from positional arguments (relay URL, session,
    /// pairing code), falling back to environment variables.
    pub fn from_args_and_env(
        endpoint: Option<String>,
        session: Option<String>,
        pairing: Option<String>,
        env: EnvVars,
    ) -> (r: Result<Self, NetError>)
        ensures
            configured(
                transport_of(endpoint, env),
                either(session, env.session),
                either(pairing, env.pairing),
                r,
            ),
    {
        proof {
            reveal_texts();
        }
        let session_raw = match arg_or_env(session, env.session, "ARC_SESSION", "session id") {
            Ok(v) => v,
            Err(e) => {
                return Err(e);
            },
        };
        let pairing_raw = match arg_or_env(pairing, env.pairing, "ARC_PAIRING", "pairing code") {
            Ok(v) => v,
            Err(e) => {
                return Err(e);
            },
        };
        let transport = match resolve_transport(endpoint, env.direct, env.relay_url) {
            Ok(t) => t,
            Err(e) => {
                return Err(e);
            },
        };
        SessionConfig::build(transport, session_raw, pairing_raw)
    }

    /// Reads the configuration from the environment only.
    pub fn from_env(env: EnvVars) -> (r: Result<Self, NetError>)
        ensures
            configured(
                transport_of(None, env),
                filled(env.session),
                filled(env.pairing),
                r,
            ),
    {
        SessionConfig::from_args_and_env(None, None, None, env)
    }

    fn build(transport: Transport, session_raw: String, pairing_raw: String) -> (r: Result<
        Self,
        NetError,
    >)
        ensures
            configured(Some(transport), Some(session_raw), Some(pairing_raw), r),
    {
        let session = match SessionId::from_str(session_raw.as_str()) {
            Ok(s) => s,
            Err(_) => {
                return Err(NetError::Config("session id must be 32 hex chars".to_owned()));
            },
        };
        let pairing = match PairingCode::parse(pairing_raw.as_str()) {
            Ok(p) => p,
            Err(_) => {
                return Err(NetError::Config("pairing code must be XXXX-XXXX".to_owned()));
            },
        };
        Ok(SessionConfig { transport, session, pairing })
    }
}

proof fn reveal_texts()
    ensures
        "missing "@ + "session id"@ + " (arg or "@ + "ARC_SESSION"@ + ")"@
            == "missing session id (arg or ARC_SESSION)"@,
        "missing "@ + "pairing code"@ + " (arg or "@ + "ARC_PAIRING"@ + ")"@
            == "missing pairing code (arg or ARC_PAIRING)"@,
{
    reveal_strlit("missing ");
    reveal_strlit("session id");
    reveal_strlit("pairing code");
    reveal_strlit(" (arg or ");
    reveal_strlit("ARC_SESSION");
    reveal_strlit("ARC_PAIRING");
    reveal_strlit(")");
    reveal_strlit("missing session id (arg or ARC_SESSION)");
    reveal_strlit("missing pairing code (arg or ARC_PAIRING)");
    assert("missing "@ + "session id"@ + " (arg or "@ + "ARC_SESSION"@ + ")"@
        =~= "missing session id (arg or ARC_SESSION)"@);
    assert("missing "@ + "pairing code"@ + " (arg or "@ + "ARC_PAIRING"@ + ")"@
        =~= "missing pairing code (arg or ARC_PAIRING)"@);
}

/// An argument decides over the environment, and an empty one over nothing: it is
/// missing then, as a value that neither gives.
pub proof fn law_argument_before_environment(
    arg: Option<String>,
    env: Option<String>,
    key: &str,
    what: &str,
    r: Result<String, NetError>,
)
    requires
        arg_or_env.ensures((arg, env, key, what), r),
    ensures
        arg matches Some(a) ==> (a@.len() > 0 ==> r == Ok::<String, NetError>(a)) && (a@.len() == 0
            ==> r is Err),
        arg is None && (env matches Some(e) && e@.len() > 0) ==> r == Ok::<String, NetError>(env->0),
        arg is None && (env matches Some(e) ==> e@.len() == 0) ==> r is Err,
{
}

/// A relay named as an argument is used before a direct address of the environment,
/// and that before a relay of the environment; an empty one does not count. The
/// session and the code are the ones that were given, as they read.
pub proof fn law_endpoint_order(
    endpoint: Option<String>,
    session: Option<String>,
    pairing: Option<String>,
    env: EnvVars,
    r: Result<SessionConfig, NetError>,
    only: Result<SessionConfig, NetError>,
    none: Result<SessionConfig, NetError>,
)
    requires
        SessionConfig::from_args_and_env.ensures((endpoint, session, pairing, env), r),
        SessionConfig::from_env.ensures((env,), only),
        SessionConfig::from_args_and_env.ensures(
            (None::<String>, None::<String>, None::<String>, env),
            none,
        ),
    ensures
        r matches Ok(config) ==> match endpoint {
            Some(url) if url@.len() > 0 => config.transport == (Transport::Relay { url }),
            _ => match env.direct {
                Some(addr) if addr@.len() > 0 => config.transport == (Transport::Direct { addr }),
                _ => env.relay_url matches Some(url) && url@.len() > 0 && config.transport == (
                Transport::Relay { url }),
            },
        },
        only is Ok <==> none is Ok,
        only matches Ok(a) ==> (none matches Ok(b) && a.transport == b.transport && a.session@
            == b.session@ && a.pairing@ == b.pairing@),
{
}

/// A configuration is had exactly if an endpoint is given, and a session and a code
/// that read as such; it holds what they read as.
pub proof fn law_configuration_is_what_was_given(
    endpoint: String,
    session: String,
    pairing: String,
    env: EnvVars,
    id_text: &str,
    code_text: &str,
    id: Result<SessionId, crate::proto::error::ProtoError>,
    code: Result<PairingCode, crate::proto::error::ProtoError>,
    r: Result<SessionConfig, NetError>,
)
    requires
        endpoint@.len() > 0 && session@.len() > 0 && pairing@.len() > 0,
        id_text@ == session@,
        code_text@ == pairing@,
        SessionId::from_str.ensures((id_text,), id),
        PairingCode::parse.ensures((code_text,), code),
        SessionConfig::from_args_and_env.ensures(
            (Some(endpoint), Some(session), Some(pairing), env),
            r,
        ),
    ensures
        r is Ok <==> id is Ok && code is Ok,
        r matches Ok(config) ==> config.session@ == id->Ok_0@ && config.pairing@ == code->Ok_0@
            && config.transport == (Transport::Relay { url: endpoint }),
{
}

/// A setting that is there but empty counts as missing; any other is kept.
pub proof fn law_empty_settings_are_missing(value: Option<String>, r: Option<String>)
    requires
        non_empty.ensures((value,), r),
    ensures
        value is None ==> r is None,
        value matches Some(v) ==> (r is None <==> v@.len() == 0) && (v@.len() > 0 ==> r == value),
{
}

} // verus!
