//! Which runner an invocation talks to: per value, an explicit flag wins over the
//! selected target of the config file, which wins over the environment.

use vstd::prelude::*;

use crate::net::config::{filled, non_empty, EnvVars, SessionConfig, Transport};
use crate::proto::id::{
    is_code, is_session_text, normalized, session_bytes, PairingCode, SessionId,
};
use crate::text;

verus! {

/// A named target of the config file.
#[derive(Debug, Clone, PartialEq, Eq)]
pub struct TargetCfg {
    /// Relay URL.
    pub relay: Option<String>,
    /// Address of a directly reachable runner.
    pub direct: Option<String>,
    /// Session id.
    pub session: Option<String>,
    /// Pairing code.
    pub pairing: Option<String>,
    /// The transport itself authenticates the caller, so no code is needed.
    pub trust_tailnet: Option<bool>,
}

/// The config file: a default target name and the named targets.
#[derive(Debug, Clone, PartialEq, Eq)]
pub struct ConfigFile {
    /// Name of the target that is used when none is asked for.
    pub default: Option<String>,
    /// The targets by name.
    pub targets: Vec<(String, TargetCfg)>,
}

/// The flags that name a runner.
#[derive(Debug, Clone, PartialEq, Eq)]
pub struct Flags {
    /// Named target.
    pub target: Option<String>,
    /// Relay URL.
    pub relay: Option<String>,
    /// Address of a directly reachable runner.
    pub direct: Option<String>,
    /// Session id.
    pub session: Option<String>,
    /// Pairing code.
    pub pairing: Option<String>,
}

/// The position of the first target of that name, or the number of targets.
pub open spec fn target_index(targets: Seq<(String, TargetCfg)>, name: Seq<char>, from: int) -> int
    decreases targets.len() - from,
{
    if from >= targets.len() || targets[from].0@ == name {
        from
    } else {
        target_index(targets, name, from + 1)
    }
}

/// Which target is meant: the one asked for, else the default.
pub open spec fn wanted(flags: Flags, file: ConfigFile) -> Option<String> {
    if flags.target is Some {
        flags.target
    } else {
        file.default
    }
}

/// The selected target, none if none is meant, or why it cannot be had.
pub open spec fn selected(flags: Flags, file: Option<ConfigFile>) -> Result<
    Option<TargetCfg>,
    Seq<char>,
> {
    match file {
        None => match flags.target {
            Some(name) => Err("--target '"@ + name@ + "' given but no config file found"@),
            None => Ok(None),
        },
        Some(f) => match wanted(flags, f) {
            Some(name) => {
                let at = target_index(f.targets@, name@, 0);
                if at < f.targets@.len() {
                    Ok(Some(f.targets@[at].1))
                } else {
                    Err("no target '"@ + name@ + "' in config file"@)
                }
            },
            None => Ok(None),
        },
    }
}

fn find_target<'a>(targets: &'a Vec<(String, TargetCfg)>, name: &str) -> (r: Option<
    &'a TargetCfg,
>)
    ensures
        ({
            let at = target_index(targets@, name@, 0);
            match r {
                Some(t) => at < targets@.len() && *t == targets@[at].1,
                None => at >= targets@.len(),
            }
        }),
{
    let mut i: usize = 0;
    while i < targets.len()
        invariant
            i <= targets@.len(),
            target_index(targets@, name@, 0) == target_index(targets@, name@, i as int),
        decreases targets@.len() - i,
    {
        if text::same(targets[i].0.as_str(), name) {
            return Some(&targets[i].1);
        }
        i = i + 1;
    }
    None
}

/// Picks the active target.
pub fn select_target<'a>(flags: &Flags, file: &'a Option<ConfigFile>) -> (r: Result<
    Option<&'a TargetCfg>,
    String,
>)
    ensures
        match r {
            Ok(Some(t)) => selected(*flags, *file) == Ok::<Option<TargetCfg>, Seq<char>>(Some(*t)),
            Ok(None) => selected(*flags, *file) == Ok::<Option<TargetCfg>, Seq<char>>(None),
            Err(e) => selected(*flags, *file) == Err::<Option<TargetCfg>, Seq<char>>(e@),
        },
{
    match file {
        None => match &flags.target {
            Some(name) => Err(
                text::join3("--target '", name.as_str(), "' given but no config file found"),
            ),
            None => Ok(None),
        },
        Some(f) => {
            let name = match &flags.target {
                Some(n) => Some(n),
                None => match &f.default {
                    Some(n) => Some(n),
                    None => None,
                },
            };
            match name {
                Some(n) => match find_target(&f.targets, n.as_str()) {
                    Some(t) => Ok(Some(t)),
                    None => Err(text::join3("no target '", n.as_str(), "' in config file")),
                },
                None => Ok(None),
            }
        },
    }
}

/// The flag if there is one, else the target's value, else the environment's; an
/// empty one does not count, and hides those after it.
pub open spec fn pick3(
    flag: Option<String>,
    target: Option<String>,
    env: Option<String>,
) -> Option<String> {
    filled(
        if flag is Some {
            flag
        } else if target is Some {
            target
        } else {
            env
        },
    )
}

fn copy_text(value: &Option<String>) -> (r: Option<String>)
    ensures
        r == *value,
{
    match value {
        Some(v) => Some(v.clone()),
        None => None,
    }
}

fn pick(flag: &Option<String>, target: &Option<String>, env: &Option<String>) -> (r: Option<
    String,
>)
    ensures
        r == pick3(*flag, *target, *env),
{
    if flag.is_some() {
        non_empty(copy_text(flag))
    } else if target.is_some() {
        non_empty(copy_text(target))
    } else {
        non_empty(copy_text(env))
    }
}

/// A target that says nothing.
pub open spec fn blank_target() -> TargetCfg {
    TargetCfg { relay: None, direct: None, session: None, pairing: None, trust_tailnet: None }
}

/// How the runner is reached.
pub open spec fn chosen_transport(flags: Flags, target: TargetCfg, env: EnvVars) -> Option<
    Transport,
> {
    match pick3(flags.direct, target.direct, env.direct) {
        Some(addr) => Some(Transport::Direct { addr }),
        None => match pick3(flags.relay, target.relay, env.relay_url) {
            Some(url) => Some(Transport::Relay { url }),
            None => None,
        },
    }
}

/// The session id as text: a direct link needs none and uses zeros.
pub open spec fn chosen_session(flags: Flags, target: TargetCfg, env: EnvVars) -> Option<
    Seq<char>,
> {
    match pick3(flags.session, target.session, env.session) {
        Some(s) => Some(s@),
        None => if chosen_transport(flags, target, env) matches Some(Transport::Direct { .. }) {
            Some(Seq::new(32, |i: int| '0'))
        } else {
            None
        },
    }
}

/// The pairing code as text: a direct link to a target that trusts its network
/// needs none and uses the fixed one.
pub open spec fn chosen_pairing(flags: Flags, target: TargetCfg, env: EnvVars) -> Option<
    Seq<char>,
> {
    match pick3(flags.pairing, target.pairing, env.pairing) {
        Some(p) => Some(p@),
        None => if target.trust_tailnet == Some(true) && chosen_transport(
            flags,
            target,
            env,
        ) matches Some(Transport::Direct { .. }) {
            Some("TNET-0000"@)
        } else {
            None
        },
    }
}

/// What is wrong with the values, looking at one after the other.
pub open spec fn value_error(flags: Flags, target: TargetCfg, env: EnvVars) -> Option<Seq<char>> {
    if chosen_transport(flags, target, env) is None {
        Some("endpoint: set --direct/--relay, a config target, or ARC_DIRECT/ARC_RELAY_URL"@)
    } else if chosen_session(flags, target, env) is None {
        Some("session: set --session, a config target, or ARC_SESSION (relay mode)"@)
    } else if !is_session_text(chosen_session(flags, target, env)->0) {
        Some("session must be 32 hex chars"@)
    } else if chosen_pairing(flags, target, env) is None {
        Some("pairing: set --pairing, a config target, or ARC_PAIRING"@)
    } else if !is_code(normalized(chosen_pairing(flags, target, env)->0)) {
        Some("pairing must be XXXX-XXXX"@)
    } else {
        None
    }
}

/// Whether `r` is the configuration that flags, config file and environment come
/// to, or the first thing that is wrong with them.
pub open spec fn resolves(
    flags: Flags,
    file: Option<ConfigFile>,
    env: EnvVars,
    r: Result<SessionConfig, String>,
) -> bool {
    match selected(flags, file) {
        Err(e) => r matches Err(m) && m@ == e,
        Ok(choice) => {
            let target = match choice {
                Some(t) => t,
                None => blank_target(),
            };
            match r {
                Ok(config) => {
                    &&& value_error(flags, target, env) is None
                    &&& Some(config.transport) == chosen_transport(flags, target, env)
                    &&& config.session@ == session_bytes(chosen_session(flags, target, env)->0)
                    &&& config.pairing@ == normalized(chosen_pairing(flags, target, env)->0)
                },
                Err(m) => value_error(flags, target, env) == Some(m@),
            }
        },
    }
}

fn resolve_values(flags: &Flags, target: &TargetCfg, env: &EnvVars) -> (r: Result<
    SessionConfig,
    String,
>)
    ensures
        match r {
            Ok(config) => {
                &&& value_error(*flags, *target, *env) is None
                &&& Some(config.transport) == chosen_transport(*flags, *target, *env)
                &&& config.session@ == session_bytes(chosen_session(*flags, *target, *env)->0)
                &&& config.pairing@ == normalized(chosen_pairing(*flags, *target, *env)->0)
            },
            Err(m) => value_error(*flags, *target, *env) == Some(m@),
        },
{
    let direct = pick(&flags.direct, &target.direct, &env.direct);
    let is_direct = direct.is_some();
    let transport = match direct {
        Some(addr) => Transport::Direct { addr },
        None => match pick(&flags.relay, &target.relay, &env.relay_url) {
            Some(url) => Transport::Relay { url },
            None => {
                return Err(
                    "endpoint: set --direct/--relay, a config target, or ARC_DIRECT/ARC_RELAY_URL".to_owned(),
                );
            },
        },
    };
    proof {
        reveal_strlit("00000000000000000000000000000000");
        assert("00000000000000000000000000000000"@ =~= Seq::new(32, |i: int| '0'));
    }
    let session_raw = match pick(&flags.session, &target.session, &env.session) {
        Some(s) => s,
        None => {
            if is_direct {
                "00000000000000000000000000000000".to_owned()
            } else {
                return Err(
                    "session: set --session, a config target, or ARC_SESSION (relay mode)".to_owned(),
                );
            }
        },
    };
    let session = match SessionId::from_str(session_raw.as_str()) {
        Ok(s) => s,
        Err(_) => {
            return Err("session must be 32 hex chars".to_owned());
        },
    };
    let trust = match target.trust_tailnet {
        Some(t) => t,
        None => false,
    };
    let pairing = match pick(&flags.pairing, &target.pairing, &env.pairing) {
        Some(raw) => match PairingCode::parse(raw.as_str()) {
            Ok(p) => p,
            Err(_) => {
                return Err("pairing must be XXXX-XXXX".to_owned());
            },
        },
        None => {
            if trust && is_direct {
                proof {
                    crate::proto::id::law_tailnet_auto_is_valid();
                    crate::proto::id::law_code_parses_to_itself("TNET-0000"@);
                }
                PairingCode::tailnet_auto()
            } else {
                return Err("pairing: set --pairing, a config target, or ARC_PAIRING".to_owned());
            }
        },
    };
    Ok(SessionConfig { transport, session, pairing })
}

/// Works out the configuration from flags, config file and environment.
pub fn resolve_config(flags: &Flags, file: &Option<ConfigFile>, env: &EnvVars) -> (r: Result<
    SessionConfig,
    String,
>)
    ensures
        resolves(*flags, *file, *env, r),
{
    match select_target(flags, file) {
        Err(e) => Err(e),
        Ok(Some(target)) => resolve_values(flags, target, env),
        Ok(None) => {
            let target = TargetCfg {
                relay: None,
                direct: None,
                session: None,
                pairing: None,
                trust_tailnet: None,
            };
            resolve_values(flags, &target, env)
        },
    }
}

/// A flag that is given and not empty decides, whatever target and environment
/// say; without one, so does the target.
pub proof fn law_flag_wins(flag: Option<String>, target: Option<String>, env: Option<String>)
    ensures
        flag matches Some(f) && f@.len() > 0 ==> pick3(flag, target, env) == flag,
        flag is None && (target matches Some(t) && t@.len() > 0) ==> pick3(flag, target, env)
            == target,
{
}

/// What is heeded of a value that a flag, a target and a variable may each give: the
/// first of them that is there, unless it is empty.
pub open spec fn heeded(
    flag: Option<String>,
    target: Option<String>,
    env: Option<String>,
) -> Option<String> {
    match (flag, target, env) {
        (Some(f), _, _) if f@.len() > 0 => Some(f),
        (Some(_), _, _) => None,
        (None, Some(t), _) if t@.len() > 0 => Some(t),
        (None, Some(_), _) => None,
        (None, None, Some(e)) if e@.len() > 0 => Some(e),
        _ => None,
    }
}

/// The target that a flag names is used, or else the default one; the first of that
/// name counts, and there has to be one. Without either, no target is used.
pub proof fn law_named_target_is_used(
    flags: &Flags,
    file: &Option<ConfigFile>,
    r: Result<Option<&TargetCfg>, String>,
    k: int,
)
    requires
        select_target.ensures((flags, file), r),
    ensures
        file is None ==> (flags.target is Some ==> r is Err) && (flags.target is None ==> (
        r matches Ok(t) && t is None)),
        file matches Some(f) ==> {
            let name = match flags.target {
                Some(n) => Some(n@),
                None => match f.default {
                    Some(n) => Some(n@),
                    None => None,
                },
            };
            &&& name is None ==> (r matches Ok(t) && t is None)
            &&& name is Some && 0 <= k < f.targets@.len() && f.targets@[k].0@ == name->0 && (forall|
                j: int,
            |
                0 <= j < k ==> (#[trigger] f.targets@[j]).0@ != name->0) ==> (r matches Ok(Some(t))
                && *t == f.targets@[k].1)
            &&& name is Some && (forall|j: int|
                0 <= j < f.targets@.len() ==> (#[trigger] f.targets@[j]).0@ != name->0) ==> r is Err
        },
{
    if let Some(f) = *file {
        if let Some(name) = wanted(*flags, f) {
            lemma_target_index(f.targets@, name@, 0);
        }
    }
}

proof fn lemma_target_index(targets: Seq<(String, TargetCfg)>, name: Seq<char>, from: int)
    requires
        0 <= from <= targets.len(),
    ensures
        ({
            let at = target_index(targets, name, from);
            &&& from <= at <= targets.len()
            &&& at < targets.len() ==> targets[at].0@ == name
            &&& forall|j: int| from <= j < at ==> (#[trigger] targets[j]).0@ != name
        }),
    decreases targets.len() - from,
{
    if from < targets.len() && targets[from].0@ != name {
        lemma_target_index(targets, name, from + 1);
    }
}

/// Each value comes from the flag, or else from the target, or else from the
/// environment. A direct address is preferred to a relay, and one of them is needed.
/// The session is what was given, and has to be one; a direct link does without. So
/// is the pairing code; a direct link to a target that trusts its network does
/// without.
pub proof fn law_values_by_precedence(
    flags: &Flags,
    file: &Option<ConfigFile>,
    env: &EnvVars,
    choice: Option<&TargetCfg>,
    target: TargetCfg,
    session: Result<SessionId, crate::proto::error::ProtoError>,
    pairing: Result<PairingCode, crate::proto::error::ProtoError>,
    r: Result<SessionConfig, String>,
)
    requires
        select_target.ensures((flags, file), Ok::<Option<&TargetCfg>, String>(choice)),
        choice matches Some(t) ==> target == *t,
        choice is None ==> target == (TargetCfg {
            relay: None,
            direct: None,
            session: None,
            pairing: None,
            trust_tailnet: None,
        }),
        resolve_config.ensures((flags, file, env), r),
        heeded(flags.session, target.session, env.session) matches Some(s) ==> exists|text: &str|
            text@ == s@ && #[trigger] call_ensures(SessionId::from_str, (text,), session),
        heeded(flags.pairing, target.pairing, env.pairing) matches Some(p) ==> exists|text: &str|
            text@ == p@ && #[trigger] call_ensures(PairingCode::parse, (text,), pairing),
    ensures
        ({
            let direct = heeded(flags.direct, target.direct, env.direct);
            let relay = heeded(flags.relay, target.relay, env.relay_url);
            let id = heeded(flags.session, target.session, env.session);
            let code = heeded(flags.pairing, target.pairing, env.pairing);
            &&& direct is None && relay is None ==> r is Err
            &&& direct is None && id is None ==> r is Err
            &&& id is Some && session is Err ==> r is Err
            &&& code is Some && pairing is Err ==> r is Err
            &&& code is None && !(direct is Some && target.trust_tailnet == Some(true)) ==> r is Err
            &&& (direct is Some || relay is Some) && (if id is Some {
                session is Ok
            } else {
                direct is Some
            }) && (if code is Some {
                pairing is Ok
            } else {
                direct is Some && target.trust_tailnet == Some(true)
            }) ==> r is Ok
            &&& r matches Ok(config) ==> {
                &&& direct matches Some(addr) ==> config.transport == (Transport::Direct { addr })
                &&& direct is None ==> config.transport == (Transport::Relay { url: relay->0 })
                &&& id is Some ==> config.session@ == session->Ok_0@
                &&& id is None ==> config.session@ == Seq::new(16, |i: int| 0u8)
                &&& code is Some ==> config.pairing@ == pairing->Ok_0@
                &&& code is None ==> config.pairing@ == "TNET-0000"@
            }
        }),
{
    let zeros = Seq::new(32, |i: int| '0');
    assert(is_session_text(zeros));
    assert(session_bytes(zeros) =~= Seq::new(16, |i: int| 0u8));
    crate::proto::id::law_tailnet_auto_is_valid();
    crate::proto::id::law_code_parses_to_itself("TNET-0000"@);
    assert(selected(*flags, *file) == Ok::<Option<TargetCfg>, Seq<char>>(
        match choice {
            Some(t) => Some(*t),
            None => None,
        },
    ));
}

} // verus!
