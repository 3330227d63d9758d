//! Credentials and installation of a runner, and who may call it.

use vstd::prelude::*;

use crate::net::config::{filled, non_empty, SessionConfig, Transport};
use crate::number;
use crate::proto::error::ProtoError;
use crate::proto::id::{
    is_code, is_session_text, normalized, session_bytes, PairingCode, SessionId,
};
use crate::text;

verus! {

/// Port that a directly reachable runner listens on unless told otherwise.
pub const DEFAULT_PORT: u16 = 8787;

/// The runner's stored configuration. Every field is optional, so a partial one
/// is accepted.
#[derive(Debug, Clone, PartialEq, Eq)]
pub struct RunnerConfig {
    /// Session id; only a relay needs it.
    pub session: Option<String>,
    /// Pairing code.
    pub pairing: Option<String>,
    /// Address to listen on for direct links.
    pub listen: Option<String>,
    /// Relay URL.
    pub relay: Option<String>,
    /// Callers are authenticated by their network identity instead of a code.
    pub trust_tailnet: Option<bool>,
    /// Logins that may call; absent or empty means any peer of the network.
    pub allow_logins: Option<Vec<String>>,
}

impl Default for RunnerConfig {
    fn default() -> (r: Self)
        ensures
            r == (RunnerConfig {
                session: None,
                pairing: None,
                listen: None,
                relay: None,
                trust_tailnet: None,
                allow_logins: None,
            }),
    {
        RunnerConfig {
            session: None,
            pairing: None,
            listen: None,
            relay: None,
            trust_tailnet: None,
            allow_logins: None,
        }
    }
}

/// The view of an optional text.
pub open spec fn view_of(value: Option<String>) -> Option<Seq<char>> {
    match value {
        Some(v) => Some(v@),
        None => None,
    }
}

/// The argument at a position, if there is one.
pub open spec fn arg_at(args: Seq<Seq<char>>, i: int) -> Option<Seq<char>> {
    if 0 <= i < args.len() {
        Some(args[i])
    } else {
        None
    }
}

pub(crate) fn arg(args: &Vec<String>, i: usize) -> (r: Option<String>)
    ensures
        view_of(r) == arg_at(text::texts(args@), i as int),
{
    if i < args.len() {
        assert(text::texts(args@)[i as int] == args@[i as int]@);
        Some(args[i].clone())
    } else {
        None
    }
}

/// What an installation was asked for.
pub struct InstallArgs {
    /// Address to listen on.
    pub listen: Option<String>,
    /// Relay URL.
    pub relay: Option<String>,
    /// Authenticate callers by network identity.
    pub trust: bool,
    /// Make new credentials.
    pub repair: bool,
    /// Work out address and owner from the local network node.
    pub tailscale: bool,
    /// Let any peer of the network in.
    pub allow_any: bool,
    /// Only show what would happen.
    pub dry_run: bool,
    /// Port to listen on.
    pub port: u16,
    /// Logins that may call.
    pub allow: Vec<String>,
}

/// The contents of [`InstallArgs`].
pub struct InstallView {
    pub listen: Option<Seq<char>>,
    pub relay: Option<Seq<char>>,
    pub trust: bool,
    pub repair: bool,
    pub tailscale: bool,
    pub allow_any: bool,
    pub dry_run: bool,
    pub port: u16,
    pub allow: Seq<Seq<char>>,
}

impl View for InstallArgs {
    type V = InstallView;

    open spec fn view(&self) -> InstallView {
        InstallView {
            listen: view_of(self.listen),
            relay: view_of(self.relay),
            trust: self.trust,
            repair: self.repair,
            tailscale: self.tailscale,
            allow_any: self.allow_any,
            dry_run: self.dry_run,
            port: self.port,
            allow: text::texts(self.allow@),
        }
    }
}

/// What an installation is asked for before any argument is looked at.
pub open spec fn no_args() -> InstallView {
    InstallView {
        listen: None,
        relay: None,
        trust: false,
        repair: false,
        tailscale: false,
        allow_any: false,
        dry_run: false,
        port: DEFAULT_PORT,
        allow: Seq::empty(),
    }
}

/// Takes in one argument, and the one after it where it has a value: what is asked
/// for then, and how many arguments that took; or why it is refused.
pub open spec fn install_arg(args: Seq<Seq<char>>, i: int, acc: InstallView) -> Result<
    (InstallView, int),
    Seq<char>,
> {
    let value = arg_at(args, i + 1);
    if args[i] == "--listen"@ {
        Ok((InstallView { listen: value, ..acc }, 2int))
    } else if args[i] == "--relay"@ {
        Ok((InstallView { relay: value, ..acc }, 2int))
    } else if args[i] == "--trust-tailnet"@ {
        Ok((InstallView { trust: true, ..acc }, 1int))
    } else if args[i] == "--tailscale"@ {
        Ok((InstallView { tailscale: true, ..acc }, 1int))
    } else if args[i] == "--port"@ {
        if value is Some && number::parsed(value->0, 65535) is Some {
            Ok((InstallView { port: number::parsed(value->0, 65535)->0 as u16, ..acc }, 2int))
        } else {
            Err("--port needs a port number"@)
        }
    } else if args[i] == "--allow"@ {
        match value {
            Some(login) => Ok((InstallView { allow: acc.allow.push(login), ..acc }, 2int)),
            None => Ok((acc, 2int)),
        }
    } else if args[i] == "--allow-any"@ {
        Ok((InstallView { allow_any: true, ..acc }, 1int))
    } else if args[i] == "--repair"@ {
        Ok((InstallView { repair: true, ..acc }, 1int))
    } else if args[i] == "--dry-run"@ {
        Ok((InstallView { dry_run: true, ..acc }, 1int))
    } else {
        Err("unknown `install` argument: "@ + args[i])
    }
}

/// What the arguments from position `i` on ask for, on top of `acc`.
pub open spec fn install_args(args: Seq<Seq<char>>, i: int, acc: InstallView) -> Result<
    InstallView,
    Seq<char>,
>
    decreases args.len() + 1 - i,
{
    if i >= args.len() {
        Ok(acc)
    } else {
        match install_arg(args, i, acc) {
            Ok((next, taken)) => if 1 <= taken <= 2 {
                install_args(args, i + taken, next)
            } else {
                Ok(next)
            },
            Err(e) => Err(e),
        }
    }
}

/// Reads the arguments of an installation.
pub fn parse_install(args: &Vec<String>) -> (r: Result<InstallArgs, String>)
    ensures
        match r {
            Ok(a) => install_args(text::texts(args@), 0, no_args()) == Ok::<
                InstallView,
                Seq<char>,
            >(a@),
            Err(e) => install_args(text::texts(args@), 0, no_args()) == Err::<
                InstallView,
                Seq<char>,
            >(e@),
        },
{
    let ghost all = text::texts(args@);
    let count: usize = args.len();
    let mut acc = InstallArgs {
        listen: None,
        relay: None,
        trust: false,
        repair: false,
        tailscale: false,
        allow_any: false,
        dry_run: false,
        port: DEFAULT_PORT,
        allow: Vec::new(),
    };
    let mut i: usize = 0;
    assert(text::texts(acc.allow@) =~= Seq::<Seq<char>>::empty());
    while i < count
        invariant
            count == args@.len(),
            all == text::texts(args@),
            install_args(all, 0, no_args()) == install_args(all, i as int, acc@),
        decreases count - i,
    {
        let name = args[i].as_str();
        assert(all[i as int] == name@);
        let ghost before = acc@;
        let next: usize = i + 1;
        let mut taken: usize = 1;
        if text::same(name, "--listen") {
            acc.listen = arg(args, next);
            taken = 2;
        } else if text::same(name, "--relay") {
            acc.relay = arg(args, next);
            taken = 2;
        } else if text::same(name, "--trust-tailnet") {
            acc.trust = true;
        } else if text::same(name, "--tailscale") {
            acc.tailscale = true;
        } else if text::same(name, "--port") {
            let port: Option<u64> = match arg(args, next) {
                Some(p) => number::parse_unsigned(&text::chars_of(p.as_str()), 65535),
                None => None,
            };
            match port {
                Some(p) => {
                    acc.port = p as u16;
                },
                None => {
                    return Err("--port needs a port number".to_owned());
                },
            }
            taken = 2;
        } else if text::same(name, "--allow") {
            if let Some(login) = arg(args, next) {
                let ghost logins = acc.allow@;
                acc.allow.push(login);
                assert(text::texts(acc.allow@) =~= text::texts(logins).push(login@));
            }
            taken = 2;
        } else if text::same(name, "--allow-any") {
            acc.allow_any = true;
        } else if text::same(name, "--repair") {
            acc.repair = true;
        } else if text::same(name, "--dry-run") {
            acc.dry_run = true;
        } else {
            return Err(text::join2("unknown `install` argument: ", name));
        }
        assert(install_arg(all, i as int, before) == Ok::<(InstallView, int), Seq<char>>(
            (acc@, taken as int),
        ));
        if taken > count - i {
            i = count;
            assert(install_args(all, (count + 1) as int, acc@) == install_args(
                all,
                count as int,
                acc@,
            ));
        } else {
            i = i + taken;
        }
    }
    Ok(acc)
}

/// What an installation has to find out about the local network node.
#[derive(Debug, Clone, Copy, PartialEq, Eq, Structural)]
pub struct Lookups {
    /// Its address.
    pub ip: bool,
    /// Its owner's login.
    pub owner: bool,
}

/// What has to be found out.
pub open spec fn lookups(args: InstallView) -> Lookups {
    Lookups {
        ip: args.tailscale && args.relay is None && args.listen is None,
        owner: args.tailscale && args.relay is None && args.allow.len() == 0 && !args.allow_any,
    }
}

/// Decides what has to be found out about the local network node.
pub fn install_lookups(args: &InstallArgs) -> (r: Lookups)
    ensures
        r == lookups(args@),
{
    let direct = args.tailscale && args.relay.is_none();
    Lookups {
        ip: direct && args.listen.is_none(),
        owner: direct && args.allow.len() == 0 && !args.allow_any,
    }
}

/// An installation with everything worked out.
pub struct InstallPlan {
    /// Address to listen on.
    pub listen: Option<String>,
    /// Relay URL.
    pub relay: Option<String>,
    /// Authenticate callers by network identity.
    pub trust: bool,
    /// Logins that may call.
    pub allow: Vec<String>,
    /// What is said of the owner that access was restricted to.
    pub notice: Option<String>,
}

/// Why an installation cannot go ahead, given what was found out; nothing if it
/// can.
pub open spec fn install_error(
    args: InstallView,
    ip: Option<Seq<char>>,
    owner: Option<Seq<char>>,
) -> Option<Seq<char>> {
    if args.tailscale && args.relay is Some {
        Some("--tailscale is direct mode (no relay); drop --relay"@)
    } else if lookups(args).ip && ip is None {
        Some("could not read this node's Tailscale IP (`tailscale ip -4`); is Tailscale up?"@)
    } else if lookups(args).owner && owner is None {
        Some(
            "could not detect this node's Tailscale owner (`tailscale status --json`); pass --allow <login> or --allow-any"@,
        )
    } else if !args.tailscale && args.listen is None && args.relay is None {
        Some("pass --tailscale, or --listen <host:port> (direct), or --relay <ws-url>"@)
    } else {
        None
    }
}

/// Whether `r` is the installation that arguments and findings come to, or why it
/// cannot go ahead.
pub open spec fn plans(
    args: InstallView,
    ip: Option<Seq<char>>,
    owner: Option<Seq<char>>,
    r: Result<InstallPlan, String>,
) -> bool {
    match r {
        Ok(plan) => {
            &&& install_error(args, ip, owner) is None
            &&& view_of(plan.listen) == (if lookups(args).ip {
                Some(ip->0 + ":"@ + number::decimal(args.port as nat))
            } else {
                args.listen
            })
            &&& view_of(plan.relay) == args.relay
            &&& plan.trust == (args.trust || args.tailscale)
            &&& text::texts(plan.allow@) == (if lookups(args).owner {
                seq![owner->0]
            } else {
                args.allow
            })
            &&& view_of(plan.notice) == (if lookups(args).owner {
                Some(
                    "Restricting access to this node's Tailscale owner: "@ + owner->0
                        + "\n  (--allow <login> to add others; --allow-any for any tailnet peer)\n"@,
                )
            } else {
                None
            })
        },
        Err(e) => install_error(args, ip, owner) == Some(e@),
    }
}

/// Works out an installation.
pub fn run_install(args: InstallArgs, ip: Option<String>, owner: Option<String>) -> (r: Result<
    InstallPlan,
    String,
>)
    ensures
        plans(args@, view_of(ip), view_of(owner), r),
{
    let need = install_lookups(&args);
    if args.tailscale && args.relay.is_some() {
        return Err("--tailscale is direct mode (no relay); drop --relay".to_owned());
    }
    let listen = if need.ip {
        match ip {
            Some(addr) => Some(
                text::join3(addr.as_str(), ":", number::decimal_text(args.port as u64).as_str()),
            ),
            None => {
                return Err(
                    "could not read this node's Tailscale IP (`tailscale ip -4`); is Tailscale up?".to_owned(),
                );
            },
        }
    } else {
        args.listen
    };
    let mut allow = args.allow;
    let mut notice: Option<String> = None;
    if need.owner {
        match owner {
            Some(login) => {
                notice = Some(
                    text::join3(
                        "Restricting access to this node's Tailscale owner: ",
                        login.as_str(),
                        "\n  (--allow <login> to add others; --allow-any for any tailnet peer)\n",
                    ),
                );
                allow.push(login);
                assert(text::texts(allow@) =~= seq![login@]);
            },
            None => {
                return Err(
                    "could not detect this node's Tailscale owner (`tailscale status --json`); pass --allow <login> or --allow-any".to_owned(),
                );
            },
        }
    }
    if listen.is_none() && args.relay.is_none() {
        return Err(
            "pass --tailscale, or --listen <host:port> (direct), or --relay <ws-url>".to_owned(),
        );
    }
    Ok(
        InstallPlan {
            listen,
            relay: args.relay,
            trust: args.trust || args.tailscale,
            allow,
            notice,
        },
    )
}

/// An installation that works itself out from the local network node trusts the
/// network's identities and, unless told to let anyone in, restricts access.
pub proof fn law_tailscale_restricts(
    args: InstallView,
    ip: Option<Seq<char>>,
    owner: Option<Seq<char>>,
    r: Result<InstallPlan, String>,
)
    requires
        plans(args, ip, owner, r),
        r is Ok,
        args.tailscale,
    ensures
        (r->Ok_0).trust,
        (r->Ok_0).listen is Some,
        (r->Ok_0).relay is None,
        !args.allow_any ==> (r->Ok_0).allow@.len() > 0,
{
    let plan = r->Ok_0;
    assert(text::texts(plan.allow@).len() == plan.allow@.len());
    assert(view_of(plan.relay) is None);
    assert(view_of(plan.listen) is Some);
}

/// Whether an installation makes new credentials: it is asked to, or there are
/// none.
pub fn mints(repair: bool, config_exists: bool) -> (r: bool)
    ensures
        r == (repair || !config_exists),
{
    repair || !config_exists
}

fn copy(value: &Option<String>) -> (r: Option<String>)
    ensures
        r == *value,
{
    match value {
        Some(v) => Some(v.clone()),
        None => None,
    }
}

fn copy_all(items: &Vec<String>) -> (r: Vec<String>)
    ensures
        text::texts(r@) == text::texts(items@),
{
    let mut out: Vec<String> = Vec::new();
    let mut i: usize = 0;
    assert(text::texts(out@) =~= text::texts(items@).take(0));
    while i < items.len()
        invariant
            i <= items@.len(),
            text::texts(out@) == text::texts(items@).take(i as int),
        decreases items@.len() - i,
    {
        let ghost before = out@;
        let item = items[i].clone();
        out.push(item);
        i = i + 1;
        assert(text::texts(out@) =~= text::texts(before).push(item@));
        assert(text::texts(items@).take(i as int) =~= text::texts(items@).take(i - 1).push(
            text::texts(items@)[i - 1],
        ));
    }
    assert(text::texts(items@).take(i as int) =~= text::texts(items@));
    out
}

/// The configuration that an installation stores with new credentials. Where
/// callers are authenticated by identity there is no code.
pub open spec fn is_minted(
    config: RunnerConfig,
    plan: InstallPlan,
    session: Seq<u8>,
    pairing: Option<Seq<char>>,
) -> bool {
    &&& config.session matches Some(s) && s@ == number::hex(session)
    &&& view_of(config.pairing) == pairing
    &&& config.listen == plan.listen
    &&& config.relay == plan.relay
    &&& config.trust_tailnet == (if plan.trust {
        Some(true)
    } else {
        None
    })
    &&& match config.allow_logins {
        Some(logins) => plan.allow@.len() > 0 && text::texts(logins@) == text::texts(plan.allow@),
        None => plan.allow@.len() == 0,
    }
}

/// A pairing code as a text.
pub open spec fn code_text(pairing: Option<PairingCode>) -> Option<Seq<char>> {
    match pairing {
        Some(code) => Some(code@),
        None => None,
    }
}

/// Makes the configuration that an installation stores with new credentials.
pub fn minted_config(plan: &InstallPlan, session: &SessionId, pairing: &Option<PairingCode>) -> (r:
    RunnerConfig)
    ensures
        is_minted(r, *plan, session@, code_text(*pairing)),
{
    RunnerConfig {
        session: Some(session.to_string()),
        pairing: match pairing {
            Some(code) => Some(code.to_string()),
            None => None,
        },
        listen: copy(&plan.listen),
        relay: copy(&plan.relay),
        trust_tailnet: if plan.trust {
            Some(true)
        } else {
            None
        },
        allow_logins: if plan.allow.len() > 0 {
            Some(copy_all(&plan.allow))
        } else {
            None
        },
    }
}

/// Stored credentials are taken over: the session must be valid, the code counts
/// only if it is.
pub open spec fn keeps(
    existing: Option<RunnerConfig>,
    r: Result<(SessionId, Option<PairingCode>), String>,
) -> bool {
    match existing {
        None => r matches Err(e) && e@ == "existing runner.toml is unreadable; pass --repair"@,
        Some(config) => if config.session matches Some(s) && is_session_text(s@) {
            r matches Ok((session, pairing)) && session@ == session_bytes(config.session->0@)
                && match pairing {
                Some(code) => config.pairing is Some && is_code(normalized(config.pairing->0@))
                    && code@ == normalized(config.pairing->0@),
                None => config.pairing is None || !is_code(normalized(config.pairing->0@)),
            }
        } else {
            r matches Err(e) && e@ == "existing runner.toml has no valid session; pass --repair"@
        },
    }
}

/// Takes over the stored credentials.
pub fn kept_credentials(existing: &Option<RunnerConfig>) -> (r: Result<
    (SessionId, Option<PairingCode>),
    String,
>)
    ensures
        keeps(*existing, r),
{
    match existing {
        None => Err("existing runner.toml is unreadable; pass --repair".to_owned()),
        Some(config) => {
            let session = match &config.session {
                Some(s) => match SessionId::from_str(s.as_str()) {
                    Ok(id) => Some(id),
                    Err(_) => None,
                },
                None => None,
            };
            let pairing = match &config.pairing {
                Some(p) => match PairingCode::parse(p.as_str()) {
                    Ok(code) => Some(code),
                    Err(_) => None,
                },
                None => None,
            };
            match session {
                Some(id) => Ok((id, pairing)),
                None => Err(
                    "existing runner.toml has no valid session; pass --repair".to_owned(),
                ),
            }
        },
    }
}

/// The credentials of an installation.
pub struct Credentials {
    /// The session.
    pub session: SessionId,
    /// The pairing code; none where callers are authenticated by identity.
    pub pairing: Option<PairingCode>,
    /// The configuration to store; none if the stored one stays.
    pub store: Option<RunnerConfig>,
}

/// Comes by the credentials of an installation. New ones are made if asked for or
/// if nothing is stored, and then they are stored; only the random source can fail
/// that. Otherwise the stored ones are kept.
pub fn credentials(
    plan: &InstallPlan,
    repair: bool,
    config_exists: bool,
    existing: &Option<RunnerConfig>,
) -> (r: Result<Credentials, String>)
    ensures
        r matches Ok(c) ==> (c.store is Some == (repair || !config_exists)),
        repair || !config_exists ==> match r {
            Ok(c) => c.pairing is None == plan.trust && is_minted(
                c.store->0,
                *plan,
                c.session@,
                code_text(c.pairing),
            ),
            Err(e) => exists|failure: ProtoError|
                failure is Rng && e@ == #[trigger] failure.message(),
        },
        !repair && config_exists ==> keeps(
            *existing,
            match r {
                Ok(c) => Ok((c.session, c.pairing)),
                Err(e) => Err(e),
            },
        ),
{
    if !mints(repair, config_exists) {
        return match kept_credentials(existing) {
            Ok((session, pairing)) => Ok(Credentials { session, pairing, store: None }),
            Err(e) => Err(e),
        };
    }
    let session = match SessionId::generate() {
        Ok(session) => session,
        Err(e) => {
            return Err(e.to_string());
        },
    };
    let pairing = if plan.trust {
        None
    } else {
        match PairingCode::generate() {
            Ok(code) => Some(code),
            Err(e) => {
                return Err(e.to_string());
            },
        }
    };
    let store = Some(minted_config(plan, &session, &pairing));
    Ok(Credentials { session, pairing, store })
}

/// What is said when stored credentials are kept.
pub fn kept_notice(config_path: &str) -> (r: String)
    ensures
        r@ == "Keeping existing credentials ("@ + config_path@
            + "); pass --repair to regenerate.\n"@,
{
    text::join3(
        "Keeping existing credentials (",
        config_path,
        "); pass --repair to regenerate.\n",
    )
}

/// What an installation would do, line by line.
pub open spec fn dry_run_lines(
    plan: InstallPlan,
    exe: Seq<char>,
    config_path: Seq<char>,
) -> Seq<Seq<char>> {
    let mode = match plan.listen {
        Some(addr) => seq!["  mode    : direct, listen "@ + addr@],
        None => match plan.relay {
            Some(url) => seq!["  mode    : relay "@ + url@],
            None => Seq::empty(),
        },
    };
    seq!["install --dry-run (no changes made):"@] + mode + seq![
        "  trust   : "@ + (if plan.trust {
            "true"@
        } else {
            "false"@
        }),
        "  allow   : "@ + (if plan.allow@.len() == 0 {
            "<any tailnet peer>"@
        } else {
            text::joined(text::texts(plan.allow@), ", "@)
        }),
        "  task    : would register 'arc-runner' running "@ + exe,
        "  config  : "@ + config_path,
    ]
}

/// Shows what an installation would do.
pub fn install_preview(plan: &InstallPlan, exe: &str, config_path: &str) -> (out: Vec<String>)
    ensures
        text::texts(out@) == dry_run_lines(*plan, exe@, config_path@),
{
    let mut out: Vec<String> = Vec::new();
    out.push("install --dry-run (no changes made):".to_owned());
    match &plan.listen {
        Some(addr) => {
            out.push(text::join2("  mode    : direct, listen ", addr.as_str()));
        },
        None => match &plan.relay {
            Some(url) => {
                out.push(text::join2("  mode    : relay ", url.as_str()));
            },
            None => {},
        },
    }
    out.push(
        text::join2(
            "  trust   : ",
            if plan.trust {
                "true"
            } else {
                "false"
            },
        ),
    );
    let allowed = if plan.allow.len() == 0 {
        "<any tailnet peer>".to_owned()
    } else {
        text::join(&plan.allow, ", ")
    };
    out.push(text::join2("  allow   : ", allowed.as_str()));
    out.push(text::join2("  task    : would register 'arc-runner' running ", exe));
    out.push(text::join2("  config  : ", config_path));
    assert(text::texts(out@) =~= dry_run_lines(*plan, exe@, config_path@));
    out
}

/// A quoted setting of the controller's config file.
pub open spec fn setting(name: Seq<char>, value: Seq<char>) -> Seq<char> {
    "  "@ + name + " = \""@ + value + "\""@
}

fn setting_text(name: &str, value: &str) -> (r: String)
    ensures
        r@ == setting(name@, value@),
{
    let mut out = text::join3("  ", name, " = \"");
    out.append(value);
    out.append("\"");
    out
}

/// The target block for the controller's config file, line by line: a direct
/// address wins over a relay, which needs the session; identity needs no code.
pub open spec fn target_lines(
    listen: Option<String>,
    relay: Option<String>,
    trust: bool,
    session: Seq<char>,
    pairing: Option<Seq<char>>,
) -> Seq<Seq<char>> {
    let endpoint = match listen {
        Some(addr) => seq![setting("direct "@, addr@)],
        None => match relay {
            Some(url) => seq![setting("relay  "@, url@), setting("session"@, session)],
            None => seq!["  # set direct or relay"@],
        },
    };
    let secret = if trust {
        seq!["  trust_tailnet = true"@]
    } else {
        match pairing {
            Some(code) => seq![setting("pairing"@, code)],
            None => Seq::empty(),
        }
    };
    seq![
        "On the controller, add to ~/.config/arc/config.toml:"@,
        Seq::<char>::empty(),
        "  [targets.win]"@,
    ] + endpoint + secret + seq![Seq::<char>::empty(), "then: arc -t win shell --cmd ver"@]
}

/// Writes the target block for the controller's config file.
pub fn print_controller_target(
    listen: &Option<String>,
    relay: &Option<String>,
    trust: bool,
    session: &SessionId,
    pairing: &Option<PairingCode>,
) -> (out: Vec<String>)
    ensures
        text::texts(out@) == target_lines(
            *listen,
            *relay,
            trust,
            number::hex(session@),
            match pairing {
                Some(code) => Some(code@),
                None => None,
            },
        ),
{
    let id = session.to_string();
    let mut out: Vec<String> = Vec::new();
    out.push("On the controller, add to ~/.config/arc/config.toml:".to_owned());
    out.push(String::new());
    out.push("  [targets.win]".to_owned());
    match listen {
        Some(addr) => {
            out.push(setting_text("direct ", addr.as_str()));
        },
        None => match relay {
            Some(url) => {
                out.push(setting_text("relay  ", url.as_str()));
                out.push(setting_text("session", id.as_str()));
            },
            None => {
                out.push("  # set direct or relay".to_owned());
            },
        },
    }
    if trust {
        out.push("  trust_tailnet = true".to_owned());
    } else {
        match pairing {
            Some(code) => {
                out.push(setting_text("pairing", code.as_str()));
            },
            None => {},
        }
    }
    out.push(String::new());
    out.push("then: arc -t win shell --cmd ver".to_owned());
    assert(text::texts(out@) =~= target_lines(
        *listen,
        *relay,
        trust,
        number::hex(session@),
        match pairing {
            Some(code) => Some(code@),
            None => None,
        },
    ));
    out
}

/// What a pairing was asked to record.
pub struct PairArgs {
    /// Address to listen on.
    pub listen: Option<String>,
    /// Relay URL.
    pub relay: Option<String>,
}

/// What the arguments of a pairing from position `i` on record.
pub open spec fn pair_args(
    args: Seq<Seq<char>>,
    i: int,
    listen: Option<Seq<char>>,
    relay: Option<Seq<char>>,
) -> Result<(Option<Seq<char>>, Option<Seq<char>>), Seq<char>>
    decreases args.len() + 1 - i,
{
    if i >= args.len() {
        Ok((listen, relay))
    } else if args[i] == "--listen"@ {
        pair_args(args, i + 2, arg_at(args, i + 1), relay)
    } else if args[i] == "--relay"@ {
        pair_args(args, i + 2, listen, arg_at(args, i + 1))
    } else {
        Err("unknown `pair` argument: "@ + args[i])
    }
}

/// Reads the arguments of a pairing.
pub fn run_pair(args: &Vec<String>) -> (r: Result<PairArgs, String>)
    ensures
        match r {
            Ok(a) => pair_args(text::texts(args@), 0, None, None) == Ok::<
                (Option<Seq<char>>, Option<Seq<char>>),
                Seq<char>,
            >((view_of(a.listen), view_of(a.relay))),
            Err(e) => pair_args(text::texts(args@), 0, None, None) == Err::<
                (Option<Seq<char>>, Option<Seq<char>>),
                Seq<char>,
            >(e@),
        },
{
    let ghost all = text::texts(args@);
    let count: usize = args.len();
    let mut listen: Option<String> = None;
    let mut relay: Option<String> = None;
    let mut i: usize = 0;
    while i < count
        invariant
            count == args@.len(),
            all == text::texts(args@),
            pair_args(all, 0, None, None) == pair_args(
                all,
                i as int,
                view_of(listen),
                view_of(relay),
            ),
        decreases count - i,
    {
        let name = args[i].as_str();
        assert(all[i as int] == name@);
        if text::same(name, "--listen") {
            listen = arg(args, i + 1);
        } else if text::same(name, "--relay") {
            relay = arg(args, i + 1);
        } else {
            return Err(text::join2("unknown `pair` argument: ", name));
        }
        if i + 1 < count {
            i = i + 2;
        } else {
            assert(pair_args(all, i + 2, view_of(listen), view_of(relay)) == pair_args(
                all,
                count as int,
                view_of(listen),
                view_of(relay),
            ));
            i = count;
        }
    }
    Ok(PairArgs { listen, relay })
}

/// The configuration that a pairing stores.
pub fn paired_config(session: &SessionId, pairing: &PairingCode, args: &PairArgs) -> (r: RunnerConfig)
    ensures
        r.session matches Some(s) && s@ == number::hex(session@),
        r.pairing matches Some(p) && p@ == pairing@,
        r.listen == args.listen,
        r.relay == args.relay,
        r.trust_tailnet is None,
        r.allow_logins is None,
{
    RunnerConfig {
        session: Some(session.to_string()),
        pairing: Some(pairing.to_string()),
        listen: copy(&args.listen),
        relay: copy(&args.relay),
        trust_tailnet: None,
        allow_logins: None,
    }
}

/// What is printed of a pairing, line by line.
pub open spec fn pair_lines(
    path: Seq<char>,
    session: Seq<char>,
    pairing: Seq<char>,
    args: PairArgs,
) -> Seq<Seq<char>> {
    let endpoint = match args.listen {
        Some(addr) => seq![setting("direct "@, addr@)],
        None => match args.relay {
            Some(url) => seq![setting("relay  "@, url@), setting("session"@, session)],
            None => seq![
                "  # direct = \"<this-host-tailscale-ip>:8787\"  # if started with --listen"@,
                "  # relay  = \"wss://<relay-host>/v1/relay\""@,
                setting("session"@, session),
            ],
        },
    };
    seq![
        "Paired. Credentials saved to "@ + path,
        Seq::<char>::empty(),
        "  Session: "@ + session,
        "  Pairing: "@ + pairing,
        Seq::<char>::empty(),
        "On the controller, add to ~/.config/arc/config.toml:"@,
        Seq::<char>::empty(),
        "  [targets.win]"@,
    ] + endpoint + seq![
        setting("pairing"@, pairing),
        Seq::<char>::empty(),
        "then: arc -t win shell --cmd ver"@,
    ]
}

/// Reports a pairing.
pub fn pair_report(path: &str, session: &SessionId, pairing: &PairingCode, args: &PairArgs) -> (out:
    Vec<String>)
    ensures
        text::texts(out@) == pair_lines(path@, number::hex(session@), pairing@, *args),
{
    let id = session.to_string();
    let mut out: Vec<String> = Vec::new();
    out.push(text::join2("Paired. Credentials saved to ", path));
    out.push(String::new());
    out.push(text::join2("  Session: ", id.as_str()));
    out.push(text::join2("  Pairing: ", pairing.as_str()));
    out.push(String::new());
    out.push("On the controller, add to ~/.config/arc/config.toml:".to_owned());
    out.push(String::new());
    out.push("  [targets.win]".to_owned());
    match &args.listen {
        Some(addr) => {
            out.push(setting_text("direct ", addr.as_str()));
        },
        None => match &args.relay {
            Some(url) => {
                out.push(setting_text("relay  ", url.as_str()));
                out.push(setting_text("session", id.as_str()));
            },
            None => {
                out.push(
                    "  # direct = \"<this-host-tailscale-ip>:8787\"  # if started with --listen".to_owned(),
                );
                out.push("  # relay  = \"wss://<relay-host>/v1/relay\"".to_owned());
                out.push(setting_text("session", id.as_str()));
            },
        },
    }
    out.push(setting_text("pairing", pairing.as_str()));
    out.push(String::new());
    out.push("then: arc -t win shell --cmd ver".to_owned());
    assert(text::texts(out@) =~= pair_lines(path@, number::hex(session@), pairing@, *args));
    out
}

/// The arguments that register the autostart task for a program.
pub fn register_task(exe: &str) -> (out: Vec<String>)
    ensures
        text::texts(out@) == seq![
            "/create"@,
            "/tn"@,
            "arc-runner"@,
            "/tr"@,
            "\""@ + exe@ + "\""@,
            "/sc"@,
            "onlogon"@,
            "/rl"@,
            "LIMITED"@,
            "/f"@,
        ],
{
    let mut out: Vec<String> = Vec::new();
    out.push("/create".to_owned());
    out.push("/tn".to_owned());
    out.push("arc-runner".to_owned());
    out.push("/tr".to_owned());
    out.push(text::join3("\"", exe, "\""));
    out.push("/sc".to_owned());
    out.push("onlogon".to_owned());
    out.push("/rl".to_owned());
    out.push("LIMITED".to_owned());
    out.push("/f".to_owned());
    assert(text::texts(out@) =~= seq![
        "/create"@,
        "/tn"@,
        "arc-runner"@,
        "/tr"@,
        "\""@ + exe@ + "\""@,
        "/sc"@,
        "onlogon"@,
        "/rl"@,
        "LIMITED"@,
        "/f"@,
    ]);
    out
}

/// What follows the registration of the autostart task: without it the installation
/// failed, with it the task is started and the controller's side is shown.
pub fn installed(created: bool, plan: &InstallPlan, credentials: &Credentials) -> (r: Result<
    Vec<String>,
    String,
>)
    ensures
        match r {
            Ok(lines) => created && text::texts(lines@) == seq![
                "Installed: scheduled task 'arc-runner' runs at logon (started now).\n"@,
            ] + target_lines(
                plan.listen,
                plan.relay,
                plan.trust,
                number::hex(credentials.session@),
                code_text(credentials.pairing),
            ),
            Err(e) => !created && e@ == "schtasks /create failed"@,
        },
{
    if !created {
        return Err("schtasks /create failed".to_owned());
    }
    let mut lines: Vec<String> = vec![
        "Installed: scheduled task 'arc-runner' runs at logon (started now).\n".to_owned(),
    ];
    let mut target = print_controller_target(
        &plan.listen,
        &plan.relay,
        plan.trust,
        &credentials.session,
        &credentials.pairing,
    );
    let ghost first = lines@;
    let ghost rest = target@;
    lines.append(&mut target);
    assert(text::texts(lines@) =~= text::texts(first) + text::texts(rest));
    assert(text::texts(first) =~= seq![
        "Installed: scheduled task 'arc-runner' runs at logon (started now).\n"@,
    ]);
    Ok(lines)
}

/// The unsigned number at two keys, one inside the other, of a JSON document.
pub uninterp spec fn json_number(doc: Seq<u8>, outer: Seq<char>, inner: Seq<char>) -> Option<u64>;

/// The text at two keys, one inside the other, of a JSON document.
pub uninterp spec fn json_text(doc: Seq<u8>, outer: Seq<char>, inner: Seq<char>) -> Option<Seq<char>>;

/// The text at three keys, one inside the other, of a JSON document.
pub uninterp spec fn json_deep_text(
    doc: Seq<u8>,
    outer: Seq<char>,
    middle: Seq<char>,
    inner: Seq<char>,
) -> Option<Seq<char>>;

/// `serde_json::from_slice`, then indexing by the keys and `Value::as_u64`: the
/// number there; none if the document is not JSON, a key is missing, or the value
/// is no unsigned number.
#[verifier::external_body]
fn read_number(doc: &[u8], outer: &str, inner: &str) -> (r: Option<u64>)
    ensures
        r == json_number(doc@, outer@, inner@),
{
    let value: serde_json::Value = serde_json::from_slice(doc).ok()?;
    value[outer][inner].as_u64()
}

/// `serde_json::from_slice`, then indexing by the keys and `Value::as_str`: the
/// text there; none if the document is not JSON, a key is missing, or the value is
/// no text.
#[verifier::external_body]
fn read_text(doc: &[u8], outer: &str, inner: &str) -> (r: Option<String>)
    ensures
        match r {
            Some(s) => json_text(doc@, outer@, inner@) == Some(s@),
            None => json_text(doc@, outer@, inner@) is None,
        },
{
    let value: serde_json::Value = serde_json::from_slice(doc).ok()?;
    value[outer][inner].as_str().map(str::to_owned)
}

/// As [`read_text`], with one more key.
#[verifier::external_body]
fn read_deep_text(doc: &[u8], outer: &str, middle: &str, inner: &str) -> (r: Option<String>)
    ensures
        match r {
            Some(s) => json_deep_text(doc@, outer@, middle@, inner@) == Some(s@),
            None => json_deep_text(doc@, outer@, middle@, inner@) is None,
        },
{
    let value: serde_json::Value = serde_json::from_slice(doc).ok()?;
    value[outer][middle][inner].as_str().map(str::to_owned)
}

/// The login that owns the local network node, out of the node's status: the
/// profile under the node's own user id. What is not UTF-8 in the status is replaced
/// first.
pub open spec fn owner_of(status: Seq<u8>) -> Option<Seq<char>> {
    owner_in(vstd::utf8::encode_utf8(text::lossy_text(status)))
}

/// The login that owns the local network node, out of the node's status in UTF-8.
pub open spec fn owner_in(status: Seq<u8>) -> Option<Seq<char>> {
    match json_number(status, "Self"@, "UserID"@) {
        Some(uid) => json_deep_text(
            status,
            "User"@,
            number::decimal(uid as nat),
            "LoginName"@,
        ),
        None => None,
    }
}

/// Reads the owner out of the node's status.
pub fn tailscale_owner_login(status: &[u8]) -> (r: Option<String>)
    ensures
        view_of(r) == owner_of(status@),
{
    let decoded = text::lossy(status);
    let doc = decoded.as_str().as_bytes();
    match read_number(doc, "Self", "UserID") {
        Some(uid) => {
            let key = number::decimal_text(uid);
            read_deep_text(doc, "User", key.as_str(), "LoginName")
        },
        None => None,
    }
}

/// Reads the caller's login out of what is known of its address.
pub fn whois_login(output: &[u8]) -> (r: Option<String>)
    ensures
        view_of(r) == json_text(output@, "UserProfile"@, "LoginName"@),
{
    read_text(output, "UserProfile", "LoginName")
}

/// The address of the local network node: the first line, trimmed, unless empty.
pub open spec fn first_address(output: Seq<char>) -> Option<Seq<char>> {
    let lines = text::lines(output);
    if lines.len() > 0 && text::trim(lines[0]).len() > 0 {
        Some(text::trim(lines[0]))
    } else {
        None
    }
}

/// Reads the address of the local network node.
pub fn tailscale_ip(output: &str) -> (r: Option<String>)
    ensures
        view_of(r) == first_address(output@),
{
    let lines = text::lines_of(output);
    if lines.len() > 0 {
        assert(text::lines(output@)[0] == lines@[0]@);
        let line = text::trimmed(&lines[0]);
        if line.len() > 0 {
            return Some(text::string_of(&line));
        }
    }
    None
}

/// Where the network's command-line tool is looked for: by name, then where it is
/// installed.
pub fn tailscale_candidates(program_files: &Option<String>) -> (out: Vec<String>)
    ensures
        text::texts(out@) == (match program_files {
            Some(dir) => seq!["tailscale"@, dir@ + "\\Tailscale\\tailscale.exe"@],
            None => seq!["tailscale"@],
        }),
{
    let mut out: Vec<String> = Vec::new();
    out.push("tailscale".to_owned());
    match program_files {
        Some(dir) => {
            out.push(text::join2(dir.as_str(), "\\Tailscale\\tailscale.exe"));
            assert(text::texts(out@) =~= seq![
                "tailscale"@,
                dir@ + "\\Tailscale\\tailscale.exe"@,
            ]);
        },
        None => {
            assert(text::texts(out@) =~= seq!["tailscale"@]);
        },
    }
    out
}

/// Whether a caller may connect: its login is known, and allowed where there is a
/// list.
pub open spec fn may_connect(login: Option<Seq<char>>, allow: Seq<Seq<char>>) -> bool {
    login is Some && (allow.len() == 0 || allow.contains(login->0))
}

/// Decides whether a caller may connect.
pub fn authorize_tailnet(login: &Option<String>, allow_logins: &Vec<String>) -> (r: bool)
    ensures
        r == may_connect(view_of(*login), text::texts(allow_logins@)),
{
    match login {
        Some(name) => {
            let ghost all = text::texts(allow_logins@);
            if allow_logins.len() == 0 {
                return true;
            }
            let mut i: usize = 0;
            while i < allow_logins.len()
                invariant
                    i <= allow_logins@.len(),
                    view_of(*login) == Some(name@),
                    all == text::texts(allow_logins@),
                    forall|k: int| 0 <= k < i ==> #[trigger] all[k] != name@,
                decreases allow_logins@.len() - i,
            {
                assert(all[i as int] == allow_logins@[i as int]@);
                if text::same(allow_logins[i].as_str(), name.as_str()) {
                    return true;
                }
                i = i + 1;
            }
            false
        },
        None => false,
    }
}

/// The address that follows the first `--listen`.
pub open spec fn listen_flag(args: Seq<Seq<char>>, i: int) -> Option<Option<Seq<char>>>
    decreases args.len() - i,
{
    if i >= args.len() {
        None
    } else if args[i] == "--listen"@ {
        Some(arg_at(args, i + 1))
    } else {
        listen_flag(args, i + 1)
    }
}

/// The address to listen on: a flag decides even without a value; else the
/// environment, unless empty.
pub open spec fn listening(args: Seq<Seq<char>>, env: Option<Seq<char>>) -> Option<Seq<char>> {
    match listen_flag(args, 0) {
        Some(value) => value,
        None => match env {
            Some(addr) => if addr.len() > 0 {
                Some(addr)
            } else {
                None
            },
            None => None,
        },
    }
}

/// Works out the address to listen on.
pub fn listen_addr(args: &Vec<String>, env: Option<String>) -> (r: Option<String>)
    ensures
        view_of(r) == listening(text::texts(args@), view_of(env)),
{
    let ghost all = text::texts(args@);
    let mut i: usize = 0;
    while i < args.len()
        invariant
            i <= args@.len(),
            all == text::texts(args@),
            listen_flag(all, 0) == listen_flag(all, i as int),
        decreases args@.len() - i,
    {
        assert(all[i as int] == args@[i as int]@);
        if text::same(args[i].as_str(), "--listen") {
            return arg(args, i + 1);
        }
        i = i + 1;
    }
    non_empty(env)
}

/// The pairing code as text: the environment's unless empty, else the stored one.
pub open spec fn stored_or_env(env: Option<String>, file: Option<RunnerConfig>) -> Option<
    Seq<char>,
> {
    match filled(env) {
        Some(p) => Some(p@),
        None => match file {
            Some(f) => view_of(f.pairing),
            None => None,
        },
    }
}

/// Works out the pairing code of a directly reachable runner.
pub fn resolve_pairing(env: Option<String>, file: &Option<RunnerConfig>) -> (r: Result<
    PairingCode,
    String,
>)
    ensures
        match stored_or_env(env, *file) {
            None => r matches Err(e) && e@
                == "no pairing code (set ARC_PAIRING or run `arc-runner pair`)"@,
            Some(raw) => if is_code(normalized(raw)) {
                r matches Ok(code) && code@ == normalized(raw)
            } else {
                r matches Err(e) && e@ == "pairing code must be XXXX-XXXX"@
            },
        },
{
    let raw = match non_empty(env) {
        Some(p) => Some(p),
        None => match file {
            Some(f) => copy(&f.pairing),
            None => None,
        },
    };
    match raw {
        Some(p) => match PairingCode::parse(p.as_str()) {
            Ok(code) => Ok(code),
            Err(_) => Err("pairing code must be XXXX-XXXX".to_owned()),
        },
        None => Err("no pairing code (set ARC_PAIRING or run `arc-runner pair`)".to_owned()),
    }
}

/// What is wrong with a stored relay configuration, by the text of the error.
pub open spec fn relay_error(file: Option<RunnerConfig>) -> Option<Seq<char>> {
    match file {
        None => Some("no relay config (set ARC_* or run `arc-runner pair`)"@),
        Some(f) => if f.relay is None {
            Some("runner.toml has no relay url"@)
        } else if f.session is None {
            Some("runner.toml has no session"@)
        } else if !is_session_text(f.session->0@) {
            Some("invalid session id"@)
        } else if f.pairing is None {
            Some("runner.toml has no pairing"@)
        } else if !is_code(normalized(f.pairing->0@)) {
            Some("invalid pairing code"@)
        } else {
            None
        },
    }
}

/// Works out a relay configuration: the one from arguments and environment if it
/// is complete, else the stored one.
pub fn resolve_relay_config(given: Option<SessionConfig>, file: &Option<RunnerConfig>) -> (r: Result<
    SessionConfig,
    String,
>)
    ensures
        match given {
            Some(config) => r == Ok::<SessionConfig, String>(config),
            None => match r {
                Ok(config) => {
                    &&& relay_error(*file) is None
                    &&& config.transport == (Transport::Relay { url: (file->0).relay->0 })
                    &&& config.session@ == session_bytes((file->0).session->0@)
                    &&& config.pairing@ == normalized((file->0).pairing->0@)
                },
                Err(e) => relay_error(*file) == Some(e@),
            },
        },
{
    if let Some(config) = given {
        return Ok(config);
    }
    match file {
        None => Err("no relay config (set ARC_* or run `arc-runner pair`)".to_owned()),
        Some(f) => {
            let url = match &f.relay {
                Some(u) => u.clone(),
                None => {
                    return Err("runner.toml has no relay url".to_owned());
                },
            };
            let session = match &f.session {
                Some(s) => match SessionId::from_str(s.as_str()) {
                    Ok(id) => id,
                    Err(e) => {
                        return Err(e.to_string());
                    },
                },
                None => {
                    return Err("runner.toml has no session".to_owned());
                },
            };
            let pairing = match &f.pairing {
                Some(p) => match PairingCode::parse(p.as_str()) {
                    Ok(code) => code,
                    Err(e) => {
                        return Err(e.to_string());
                    },
                },
                None => {
                    return Err("runner.toml has no pairing".to_owned());
                },
            };
            Ok(SessionConfig { transport: Transport::Relay { url }, session, pairing })
        },
    }
}

/// What the first argument of a runner asks for.
#[derive(Debug, Clone, Copy, PartialEq, Eq, Structural)]
pub enum RunnerMode {
    /// Make and store credentials.
    Pair,
    /// Install.
    Install,
    /// Uninstall.
    Uninstall,
    /// Upgrade.
    Upgrade,
    /// Print the version.
    Version,
    /// Serve.
    Serve,
}

/// What the first argument asks for.
pub open spec fn mode_of(first: Option<Seq<char>>) -> RunnerMode {
    if first == Some("pair"@) {
        RunnerMode::Pair
    } else if first == Some("install"@) {
        RunnerMode::Install
    } else if first == Some("uninstall"@) {
        RunnerMode::Uninstall
    } else if first == Some("upgrade"@) {
        RunnerMode::Upgrade
    } else if first == Some("--version"@) || first == Some("-V"@) || first == Some("version"@) {
        RunnerMode::Version
    } else {
        RunnerMode::Serve
    }
}

/// Decides what a runner was started for.
pub fn runner_mode(args: &Vec<String>) -> (r: RunnerMode)
    ensures
        r == mode_of(arg_at(text::texts(args@), 0)),
{
    if args.len() == 0 {
        return RunnerMode::Serve;
    }
    assert(text::texts(args@)[0] == args@[0]@);
    let first = args[0].as_str();
    if text::same(first, "pair") {
        RunnerMode::Pair
    } else if text::same(first, "install") {
        RunnerMode::Install
    } else if text::same(first, "uninstall") {
        RunnerMode::Uninstall
    } else if text::same(first, "upgrade") {
        RunnerMode::Upgrade
    } else if text::same(first, "--version") || text::same(first, "-V") || text::same(
        first,
        "version",
    ) {
        RunnerMode::Version
    } else {
        RunnerMode::Serve
    }
}

/// Where the stored configuration is: an explicit place, else the directory for
/// application data, else the home directory.
pub fn config_path(
    explicit: Option<String>,
    app_data: Option<String>,
    home: Option<String>,
) -> (r: Option<String>)
    ensures
        view_of(r) == (match explicit {
            Some(p) => Some(p@),
            None => match app_data {
                Some(dir) => Some(dir@ + "/arc/runner.toml"@),
                None => match home {
                    Some(dir) => Some(dir@ + "/.config/arc/runner.toml"@),
                    None => None,
                },
            },
        }),
{
    match explicit {
        Some(p) => Some(p),
        None => match app_data {
            Some(dir) => Some(text::join2(dir.as_str(), "/arc/runner.toml")),
            None => match home {
                Some(dir) => Some(text::join2(dir.as_str(), "/.config/arc/runner.toml")),
                None => None,
            },
        },
    }
}

/// What is reported of an uninstallation: whether there was a task to remove.
pub fn run_uninstall(deleted: bool) -> (r: String)
    ensures
        r@ == if deleted {
            "Uninstalled: scheduled task 'arc-runner' removed."@
        } else {
            "No scheduled task 'arc-runner' to remove."@
        },
{
    if deleted {
        "Uninstalled: scheduled task 'arc-runner' removed.".to_string()
    } else {
        "No scheduled task 'arc-runner' to remove.".to_string()
    }
}

/// What two readings of the same arguments, on top of different ones, have in common:
/// a setting is either the same in both, or in both what it was before.
spec fn agree(a: InstallView, b: InstallView, x: InstallView, y: InstallView) -> bool {
    &&& x.listen == y.listen || (x.listen == a.listen && y.listen == b.listen)
    &&& x.relay == y.relay || (x.relay == a.relay && y.relay == b.relay)
    &&& x.port == y.port || (x.port == a.port && y.port == b.port)
    &&& a.trust ==> x.trust
    &&& b.trust ==> y.trust
    &&& x.trust == y.trust || (x.trust == a.trust && y.trust == b.trust)
    &&& a.repair ==> x.repair
    &&& b.repair ==> y.repair
    &&& x.repair == y.repair || (x.repair == a.repair && y.repair == b.repair)
    &&& a.tailscale ==> x.tailscale
    &&& b.tailscale ==> y.tailscale
    &&& x.tailscale == y.tailscale || (x.tailscale == a.tailscale && y.tailscale == b.tailscale)
    &&& a.allow_any ==> x.allow_any
    &&& b.allow_any ==> y.allow_any
    &&& x.allow_any == y.allow_any || (x.allow_any == a.allow_any && y.allow_any == b.allow_any)
    &&& a.dry_run ==> x.dry_run
    &&& b.dry_run ==> y.dry_run
    &&& x.dry_run == y.dry_run || (x.dry_run == a.dry_run && y.dry_run == b.dry_run)
    &&& grew(a.allow, b.allow, x.allow, y.allow)
}

/// Whether both lists have become longer by the same.
spec fn grew(
    a: Seq<Seq<char>>,
    b: Seq<Seq<char>>,
    x: Seq<Seq<char>>,
    y: Seq<Seq<char>>,
) -> bool {
    &&& a.len() <= x.len() && x.take(a.len() as int) == a
    &&& b.len() <= y.len() && y.take(b.len() as int) == b
    &&& x.skip(a.len() as int) == y.skip(b.len() as int)
}

proof fn lemma_grew(
    a: Seq<Seq<char>>,
    b: Seq<Seq<char>>,
    c: Seq<Seq<char>>,
    x: Seq<Seq<char>>,
    y: Seq<Seq<char>>,
)
    requires
        grew(a + c, b + c, x, y),
    ensures
        grew(a, b, x, y),
{
    let (k, l) = (a.len() as int, b.len() as int);
    let (e, f) = ((a + c).len() as int, (b + c).len() as int);
    assert(x.take(k) =~= x.take(e).take(k));
    assert((a + c).take(k) =~= a);
    assert(y.take(l) =~= y.take(f).take(l));
    assert((b + c).take(l) =~= b);
    assert(x =~= x.take(e) + x.skip(e));
    assert(y =~= y.take(f) + y.skip(f));
    assert(x.skip(k) =~= c + x.skip(e));
    assert(y.skip(l) =~= c + y.skip(f));
}

#[verifier::rlimit(40)]
proof fn lemma_agree_step(
    args: Seq<Seq<char>>,
    i: int,
    a: InstallView,
    b: InstallView,
    x: InstallView,
    y: InstallView,
)
    requires
        install_arg(args, i, a) is Ok,
        install_arg(args, i, b) is Ok,
        agree((install_arg(args, i, a)->Ok_0).0, (install_arg(args, i, b)->Ok_0).0, x, y),
    ensures
        agree(a, b, x, y),
{
    let (a2, b2) = ((install_arg(args, i, a)->Ok_0).0, (install_arg(args, i, b)->Ok_0).0);
    let value = arg_at(args, i + 1);
    let more = if a2.allow.len() > a.allow.len() {
        seq![value->0]
    } else {
        Seq::empty()
    };
    assert(a2.allow =~= a.allow + more);
    assert(b2.allow =~= b.allow + more);
    lemma_grew(a.allow, b.allow, more, x.allow, y.allow);
}

#[verifier::rlimit(40)]
proof fn lemma_agree(args: Seq<Seq<char>>, i: int, a: InstallView, b: InstallView)
    requires
        0 <= i,
    ensures
        install_args(args, i, a) is Ok <==> install_args(args, i, b) is Ok,
        install_args(args, i, a) is Ok ==> agree(
            a,
            b,
            install_args(args, i, a)->Ok_0,
            install_args(args, i, b)->Ok_0,
        ),
    decreases args.len() + 1 - i,
{
    if i >= args.len() {
        assert(a.allow.take(a.allow.len() as int) =~= a.allow);
        assert(b.allow.take(b.allow.len() as int) =~= b.allow);
        assert(a.allow.skip(a.allow.len() as int) =~= b.allow.skip(b.allow.len() as int));
    } else {
        let (p, q) = (install_arg(args, i, a), install_arg(args, i, b));
        if p is Ok {
            let (a2, n) = p->Ok_0;
            let (b2, m) = q->Ok_0;
            assert(n == m && 1 <= n <= 2);
            lemma_agree(args, i + n, a2, b2);
            if install_args(args, i, a) is Ok {
                let (x, y) = (install_args(args, i, a)->Ok_0, install_args(args, i, b)->Ok_0);
                lemma_agree_step(args, i, a, b, x, y);
            }
        }
    }
}

proof fn lemma_shifted(front: Seq<Seq<char>>, rest: Seq<Seq<char>>, i: int, acc: InstallView)
    requires
        0 <= i,
    ensures
        install_args(front + rest, front.len() + i, acc) == install_args(rest, i, acc),
    decreases rest.len() + 1 - i,
{
    let all = front + rest;
    let k = front.len() + i;
    if i < rest.len() {
        assert(all[k] == rest[i]);
        assert(arg_at(all, k + 1) == arg_at(rest, i + 1));
        let step = install_arg(rest, i, acc);
        assert(install_arg(all, k, acc) == step);
        if let Ok((next, taken)) = step {
            lemma_shifted(front, rest, i + taken, next);
            assert(front.len() + (i + taken) == k + taken);
        }
    }
}

proof fn lemma_untouched(args: Seq<Seq<char>>, i: int, acc: InstallView)
    requires
        0 <= i,
        install_args(args, i, acc) is Ok,
    ensures
        ({
            let r = install_args(args, i, acc)->Ok_0;
            &&& !args.contains("--listen"@) ==> r.listen == acc.listen
            &&& !args.contains("--relay"@) ==> r.relay == acc.relay
            &&& !args.contains("--port"@) ==> r.port == acc.port
        }),
    decreases args.len() + 1 - i,
{
    if i < args.len() {
        assert(args.contains(args[i]));
        let step = install_arg(args, i, acc);
        if let Ok((next, taken)) = step {
            lemma_untouched(args, i + taken, next);
        }
    }
}

proof fn lemma_flag_names()
    ensures
        "--listen"@ != "--relay"@ && "--listen"@ != "--port"@ && "--relay"@ != "--port"@,
        "--allow"@ != "--allow-any"@ && "--allow"@ != "--listen"@ && "--allow"@ != "--relay"@,
        "--allow"@ != "--port"@ && "--allow"@ != "--repair"@ && "--allow"@ != "--dry-run"@,
        "--allow"@ != "--tailscale"@ && "--allow"@ != "--trust-tailnet"@,
{
    reveal_strlit("--listen");
    reveal_strlit("--relay");
    reveal_strlit("--port");
    reveal_strlit("--allow");
    reveal_strlit("--allow-any");
    reveal_strlit("--repair");
    reveal_strlit("--dry-run");
    reveal_strlit("--tailscale");
    reveal_strlit("--trust-tailnet");
    assert("--listen"@[2] == 'l' && "--relay"@[2] == 'r' && "--port"@[2] == 'p');
    assert("--allow"@[2] == 'a' && "--repair"@[2] == 'r' && "--dry-run"@[2] == 'd');
    assert("--tailscale"@[2] == 't' && "--trust-tailnet"@[2] == 't');
    assert("--allow"@.len() == 7 && "--allow-any"@.len() == 11);
}

proof fn lemma_switch_names()
    ensures
        "--trust-tailnet"@ != "--listen"@ && "--trust-tailnet"@ != "--relay"@,
        "--tailscale"@ != "--listen"@ && "--tailscale"@ != "--relay"@ && "--tailscale"@
            != "--trust-tailnet"@,
        "--allow-any"@ != "--listen"@ && "--allow-any"@ != "--relay"@ && "--allow-any"@
            != "--trust-tailnet"@ && "--allow-any"@ != "--tailscale"@ && "--allow-any"@
            != "--port"@ && "--allow-any"@ != "--allow"@,
        "--repair"@ != "--listen"@ && "--repair"@ != "--relay"@ && "--repair"@
            != "--trust-tailnet"@ && "--repair"@ != "--tailscale"@ && "--repair"@ != "--port"@
            && "--repair"@ != "--allow"@ && "--repair"@ != "--allow-any"@,
        "--dry-run"@ != "--listen"@ && "--dry-run"@ != "--relay"@ && "--dry-run"@
            != "--trust-tailnet"@ && "--dry-run"@ != "--tailscale"@ && "--dry-run"@ != "--port"@
            && "--dry-run"@ != "--allow"@ && "--dry-run"@ != "--allow-any"@ && "--dry-run"@
            != "--repair"@,
        "--port"@ != "--trust-tailnet"@ && "--port"@ != "--tailscale"@ && "--port"@ != "--listen"@
            && "--port"@ != "--relay"@,
{
    reveal_strlit("--listen");
    reveal_strlit("--relay");
    reveal_strlit("--port");
    reveal_strlit("--allow");
    reveal_strlit("--allow-any");
    reveal_strlit("--repair");
    reveal_strlit("--dry-run");
    reveal_strlit("--tailscale");
    reveal_strlit("--trust-tailnet");
    assert("--listen"@[2] == 'l' && "--relay"@[2] == 'r' && "--port"@[2] == 'p');
    assert("--allow"@[2] == 'a' && "--allow-any"@[2] == 'a' && "--repair"@[2] == 'r');
    assert("--dry-run"@[2] == 'd' && "--tailscale"@[2] == 't' && "--trust-tailnet"@[2] == 't');
    assert("--tailscale"@[3] == 'a' && "--trust-tailnet"@[3] == 'r');
    assert("--relay"@.len() == 7 && "--repair"@.len() == 8);
    assert("--allow"@.len() == 7 && "--allow-any"@.len() == 11);
}

/// A switch before other arguments is set, and changes nothing else that they ask for.
pub proof fn law_install_switches(
    args: &Vec<String>,
    more: &Vec<String>,
    name: Seq<char>,
    r: Result<InstallArgs, String>,
    s: Result<InstallArgs, String>,
)
    requires
        text::texts(more@) == seq![name] + text::texts(args@),
        name == "--trust-tailnet"@ || name == "--tailscale"@ || name == "--allow-any"@ || name
            == "--repair"@ || name == "--dry-run"@,
        parse_install.ensures((args,), r),
        parse_install.ensures((more,), s),
    ensures
        r is Ok <==> s is Ok,
        r is Ok ==> {
            let (a, b) = ((r->Ok_0)@, (s->Ok_0)@);
            &&& b.listen == a.listen && b.relay == a.relay && b.port == a.port && b.allow == a.allow
            &&& b.trust <==> a.trust || name == "--trust-tailnet"@
            &&& b.tailscale <==> a.tailscale || name == "--tailscale"@
            &&& b.allow_any <==> a.allow_any || name == "--allow-any"@
            &&& b.repair <==> a.repair || name == "--repair"@
            &&& b.dry_run <==> a.dry_run || name == "--dry-run"@
        },
{
    lemma_switch_names();
    lemma_flag_names();
    let rest = text::texts(args@);
    let all = text::texts(more@);
    assert(all[0] == name);
    let (next, taken) = install_arg(all, 0, no_args())->Ok_0;
    assert(taken == 1);
    lemma_shifted(seq![name], rest, 0, next);
    lemma_agree(rest, 0, next, no_args());
    if r is Ok {
        let (a, b) = ((r->Ok_0)@, (s->Ok_0)@);
        assert(b.allow =~= b.allow.skip(0));
        assert(a.allow =~= a.allow.skip(0));
    }
}

/// A setting before other arguments is what it was given, unless they give it anew,
/// and changes nothing else; a login that is allowed is the first of those that are.
pub proof fn law_install_settings(
    args: &Vec<String>,
    more: &Vec<String>,
    name: Seq<char>,
    value: &[char],
    port: Option<u64>,
    r: Result<InstallArgs, String>,
    s: Result<InstallArgs, String>,
)
    requires
        text::texts(more@) == seq![name, value@] + text::texts(args@),
        name == "--listen"@ || name == "--relay"@ || name == "--port"@ || name == "--allow"@,
        number::parse_unsigned.ensures((value, 65535u64), port),
        parse_install.ensures((args,), r),
        parse_install.ensures((more,), s),
    ensures
        name == "--port"@ && port is None ==> s is Err,
        name != "--port"@ || port is Some ==> (s is Ok <==> r is Ok),
        r is Ok && s is Ok ==> {
            let (a, b) = ((r->Ok_0)@, (s->Ok_0)@);
            let given = text::texts(args@);
            &&& b.trust == a.trust && b.tailscale == a.tailscale && b.allow_any == a.allow_any
                && b.repair == a.repair && b.dry_run == a.dry_run
            &&& name == "--listen"@ && !given.contains("--listen"@) ==> b.listen == Some(value@)
            &&& name != "--listen"@ || a.listen is Some ==> b.listen == a.listen
            &&& name == "--relay"@ && !given.contains("--relay"@) ==> b.relay == Some(value@)
            &&& name != "--relay"@ || a.relay is Some ==> b.relay == a.relay
            &&& name == "--port"@ && !given.contains("--port"@) ==> b.port == port->0 && a.port
                == 8787
            &&& name != "--port"@ ==> b.port == a.port
            &&& b.allow == (if name == "--allow"@ {
                seq![value@] + a.allow
            } else {
                a.allow
            })
        },
{
    lemma_switch_names();
    lemma_flag_names();
    let rest = text::texts(args@);
    let all = text::texts(more@);
    assert(all[0] == name && all[1] == value@);
    assert(arg_at(all, 1) == Some(value@));
    let step = install_arg(all, 0, no_args());
    if step is Ok {
        let (next, taken) = step->Ok_0;
        assert(taken == 2);
        lemma_shifted(seq![name, value@], rest, 0, next);
        lemma_agree(rest, 0, next, no_args());
        if r is Ok {
            lemma_untouched(rest, 0, next);
            lemma_untouched(rest, 0, no_args());
            let (a, b) = ((r->Ok_0)@, (s->Ok_0)@);
            assert(a.allow =~= a.allow.skip(0));
            assert(b.allow =~= b.allow.take(next.allow.len() as int) + b.allow.skip(
                next.allow.len() as int,
            ));
            assert(Seq::<Seq<char>>::empty() + a.allow =~= a.allow);
            assert(no_args().allow.push(value@) =~= seq![value@]);
        }
    }
}

/// The node is asked for its address only if none was given, and for its owner only if
/// neither logins nor anyone are let in; both only where the network is used directly.
pub proof fn law_node_is_asked_what_is_missing(args: &InstallArgs, r: Lookups)
    requires
        install_lookups.ensures((args,), r),
    ensures
        r.ip <==> args.tailscale && args.relay is None && args.listen is None,
        r.owner <==> args.tailscale && args.relay is None && args.allow@.len() == 0
            && !args.allow_any,
{
    assert(text::texts(args.allow@).len() == args.allow@.len());
}

/// An installation listens where it is told to, or at the node's own address and the
/// port that was asked for; lets in the logins that were named, or the node's owner, or
/// anyone; and needs an endpoint, not two.
pub proof fn law_installation_is_worked_out(
    args: InstallArgs,
    ip: Option<String>,
    owner: Option<String>,
    r: Result<InstallPlan, String>,
)
    requires
        run_install.ensures((args, ip, owner), r),
    ensures
        args.tailscale && args.relay is Some ==> r is Err,
        !args.tailscale && args.listen is None && args.relay is None ==> r is Err,
        !args.tailscale && (args.listen is Some || args.relay is Some) ==> r is Ok,
        args.tailscale && args.relay is None && (args.listen is Some || ip is Some) && (
        args.allow@.len() > 0 || args.allow_any || owner is Some) ==> r is Ok,
        r matches Ok(plan) ==> {
            &&& plan.trust <==> args.trust || args.tailscale
            &&& args.listen matches Some(addr) ==> (plan.listen matches Some(l) && l@ == addr@)
            &&& args.listen is None && args.tailscale ==> ip is Some && (plan.listen matches Some(l)
                && l@ == ip->0@ + ":"@ + number::decimal(args.port as nat))
            &&& args.listen is None && !args.tailscale ==> plan.listen is None
            &&& args.relay matches Some(url) ==> (plan.relay matches Some(u) && u@ == url@)
            &&& args.relay is None ==> plan.relay is None
            &&& args.allow@.len() > 0 || args.allow_any || !args.tailscale ==> text::texts(
                plan.allow@,
            ) == text::texts(args.allow@)
            &&& args.allow@.len() == 0 && !args.allow_any && args.tailscale ==> owner is Some
                && text::texts(plan.allow@) == seq![owner->0@]
        },
{
    assert(text::texts(args.allow@).len() == args.allow@.len());
    if let Ok(plan) = r {
        assert(view_of(plan.listen) is Some <==> plan.listen is Some);
        assert(view_of(plan.relay) is Some <==> plan.relay is Some);
    }
}

/// New credentials are stored as they are: the session, the code where callers are not
/// known by their network, the endpoint, and who may call.
pub proof fn law_new_credentials_are_stored(
    plan: &InstallPlan,
    repair: bool,
    config_exists: bool,
    existing: &Option<RunnerConfig>,
    r: Result<Credentials, String>,
)
    requires
        credentials.ensures((plan, repair, config_exists, existing), r),
    ensures
        r matches Ok(c) ==> (c.store is Some <==> repair || !config_exists),
        r matches Ok(c) ==> (c.store matches Some(config) ==> {
            &&& config.session matches Some(s) && s@ == number::hex(c.session@)
            &&& config.listen == plan.listen && config.relay == plan.relay
            &&& plan.trust ==> config.trust_tailnet == Some(true) && config.pairing is None
                && c.pairing is None
            &&& !plan.trust ==> config.trust_tailnet is None && (config.pairing matches Some(p) && (
            c.pairing matches Some(code) && p@ == code@))
            &&& plan.allow@.len() == 0 ==> config.allow_logins is None
            &&& plan.allow@.len() > 0 ==> (config.allow_logins matches Some(l) && text::texts(l@)
                == text::texts(plan.allow@))
        }),
{
    if let Ok(c) = r {
        if let Some(config) = c.store {
            assert(view_of(config.pairing) is Some <==> config.pairing is Some);
        }
    }
}

/// Credentials that are kept are the stored ones: a session that reads as one is
/// needed, and a code counts if it reads as one.
pub proof fn law_stored_credentials_are_kept(
    config: RunnerConfig,
    id_text: &str,
    code_text: &str,
    id: Result<SessionId, ProtoError>,
    code: Result<PairingCode, ProtoError>,
    r: Result<(SessionId, Option<PairingCode>), String>,
    none: Result<(SessionId, Option<PairingCode>), String>,
)
    requires
        config.session matches Some(s) ==> id_text@ == s@,
        config.pairing matches Some(p) ==> code_text@ == p@,
        call_ensures(SessionId::from_str, (id_text,), id),
        call_ensures(PairingCode::parse, (code_text,), code),
        kept_credentials.ensures((&Some(config),), r),
        kept_credentials.ensures((&None::<RunnerConfig>,), none),
    ensures
        none is Err,
        r is Ok <==> config.session is Some && id is Ok,
        r matches Ok(kept) ==> {
            &&& kept.0@ == id->Ok_0@
            &&& kept.1 is Some <==> config.pairing is Some && code is Ok
            &&& kept.1 matches Some(c) ==> c@ == code->Ok_0@
        },
{
}

/// A caller may connect exactly if its login is known, and is one of those that are
/// allowed, or none are named.
pub proof fn law_only_allowed_logins_connect(
    login: &Option<String>,
    allow: &Vec<String>,
    r: bool,
)
    requires
        authorize_tailnet.ensures((login, allow), r),
    ensures
        *login is None ==> !r,
        *login is Some && allow@.len() == 0 ==> r,
        *login is Some && allow@.len() > 0 ==> (r <==> exists|i: int|
            0 <= i < allow@.len() && (#[trigger] allow@[i])@ == (*login)->0@),
{
    let all = text::texts(allow@);
    assert(all.len() == allow@.len());
    if *login is Some && allow@.len() > 0 {
        let name = (*login)->0@;
        if all.contains(name) {
            let i = choose|i: int| 0 <= i < all.len() && all[i] == name;
            assert(allow@[i]@ == name);
        }
        if exists|i: int| 0 <= i < allow@.len() && (#[trigger] allow@[i])@ == name {
            let i = choose|i: int| 0 <= i < allow@.len() && (#[trigger] allow@[i])@ == name;
            assert(all[i] == name);
        }
    }
}

/// The address after the first `--listen` is listened on, whatever the environment
/// says; without that flag the environment's, unless it is empty.
pub proof fn law_listen_flag_decides(
    args: &Vec<String>,
    env: Option<String>,
    k: int,
    r: Option<String>,
)
    requires
        listen_addr.ensures((args, env), r),
    ensures
        0 <= k < args@.len() && args@[k]@ == "--listen"@ && (forall|j: int|
            0 <= j < k ==> (#[trigger] args@[j])@ != "--listen"@) ==> (k + 1 < args@.len() ==> (
        r matches Some(a) && a@ == args@[k + 1]@)) && (k + 1 >= args@.len() ==> r is None),
        (forall|j: int| 0 <= j < args@.len() ==> (#[trigger] args@[j])@ != "--listen"@) ==> (
        env matches Some(e) && e@.len() > 0 ==> (r matches Some(a) && a@ == (env->0)@)) && (!(
        env matches Some(e) && e@.len() > 0) ==> r is None),
{
    let all = text::texts(args@);
    lemma_listen_flag(all, 0);
    assert forall|j: int| 0 <= j < args@.len() implies #[trigger] all[j] == args@[j]@ by {}
    assert(view_of(r) is Some <==> r is Some);
    if 0 <= k < args@.len() && args@[k]@ == "--listen"@ && (forall|j: int|
        0 <= j < k ==> (#[trigger] args@[j])@ != "--listen"@) {
        lemma_listen_found(all, 0, k);
        if k + 1 < args@.len() {
            assert(all[k + 1] == args@[k + 1]@);
        }
    }
    if forall|j: int| 0 <= j < args@.len() ==> (#[trigger] args@[j])@ != "--listen"@ {
        if listen_flag(all, 0) is Some {
            let j = choose|j: int| 0 <= j < all.len() && #[trigger] all[j] == "--listen"@;
            assert(args@[j]@ == "--listen"@);
        }
    }
}

proof fn lemma_listen_flag(args: Seq<Seq<char>>, i: int)
    requires
        0 <= i,
    ensures
        listen_flag(args, i) is Some ==> exists|j: int|
            i <= j < args.len() && #[trigger] args[j] == "--listen"@,
    decreases args.len() - i,
{
    if i < args.len() && args[i] != "--listen"@ {
        lemma_listen_flag(args, i + 1);
    }
}

proof fn lemma_listen_found(args: Seq<Seq<char>>, i: int, k: int)
    requires
        0 <= i <= k < args.len(),
        args[k] == "--listen"@,
        forall|j: int| i <= j < k ==> #[trigger] args[j] != "--listen"@,
    ensures
        listen_flag(args, i) == Some(arg_at(args, k + 1)),
    decreases k - i,
{
    if i < k {
        lemma_listen_found(args, i + 1, k);
    }
}

/// A relay configuration that is given is used as it is; else the stored one, if it is
/// complete and reads as such.
pub proof fn law_given_relay_before_stored(
    config: RunnerConfig,
    id_text: &str,
    code_text: &str,
    id: Result<SessionId, ProtoError>,
    code: Result<PairingCode, ProtoError>,
    given: SessionConfig,
    g: Result<SessionConfig, String>,
    r: Result<SessionConfig, String>,
)
    requires
        config.session matches Some(s) ==> id_text@ == s@,
        config.pairing matches Some(p) ==> code_text@ == p@,
        call_ensures(SessionId::from_str, (id_text,), id),
        call_ensures(PairingCode::parse, (code_text,), code),
        resolve_relay_config.ensures((Some(given), &Some(config)), g),
        resolve_relay_config.ensures((None::<SessionConfig>, &Some(config)), r),
    ensures
        g == Ok::<SessionConfig, String>(given),
        r is Ok <==> config.relay is Some && config.session is Some && id is Ok && config.pairing
            is Some && code is Ok,
        r matches Ok(c) ==> c.transport == (Transport::Relay { url: config.relay->0 }) && c.session@
            == id->Ok_0@ && c.pairing@ == code->Ok_0@,
{
}

/// The code of the environment is used before the stored one, unless it is empty, and
/// has to read as a code.
pub proof fn law_environment_code_before_stored(
    env: Option<String>,
    file: &Option<RunnerConfig>,
    text: &str,
    code: Result<PairingCode, ProtoError>,
    r: Result<PairingCode, String>,
)
    requires
        env matches Some(e) && e@.len() > 0 ==> text@ == (env->0)@,
        !(env matches Some(e) && e@.len() > 0) ==> (*file matches Some(f) ==> (
        f.pairing matches Some(p) ==> text@ == p@)),
        call_ensures(PairingCode::parse, (text,), code),
        resolve_pairing.ensures((env, file), r),
    ensures
        ({
            let set = (env matches Some(e) && e@.len() > 0) || (*file matches Some(f) && f.pairing
                is Some);
            &&& r is Ok <==> set && code is Ok
            &&& r matches Ok(c) ==> c@ == code->Ok_0@
        }),
{
}

/// The first argument decides what a runner does; without one that is known it serves.
pub proof fn law_first_argument_decides(args: &Vec<String>, r: RunnerMode)
    requires
        runner_mode.ensures((args,), r),
    ensures
        args@.len() == 0 ==> r == RunnerMode::Serve,
        args@.len() > 0 ==> {
            let first = args@[0]@;
            &&& first == "pair"@ <==> r == RunnerMode::Pair
            &&& first == "install"@ <==> r == RunnerMode::Install
            &&& first == "uninstall"@ <==> r == RunnerMode::Uninstall
            &&& first == "upgrade"@ <==> r == RunnerMode::Upgrade
            &&& first == "--version"@ || first == "-V"@ || first == "version"@ <==> r
                == RunnerMode::Version
        },
{
    reveal_strlit("pair");
    reveal_strlit("install");
    reveal_strlit("uninstall");
    reveal_strlit("upgrade");
    reveal_strlit("--version");
    reveal_strlit("-V");
    reveal_strlit("version");
    assert("pair"@.len() == 4 && "install"@.len() == 7 && "uninstall"@.len() == 9);
    assert("upgrade"@.len() == 7 && "--version"@.len() == 9 && "-V"@.len() == 2);
    assert("version"@.len() == 7);
    assert("install"@[0] == 'i' && "upgrade"@[0] == 'u' && "version"@[0] == 'v');
    assert("uninstall"@[0] == 'u' && "--version"@[0] == '-');
    if args@.len() > 0 {
        assert(text::texts(args@)[0] == args@[0]@);
    }
}

/// The configuration lies at the place that is named, else with the application data,
/// else in the home directory; an earlier one hides those after it.
pub proof fn law_configuration_place(
    explicit: Option<String>,
    app_data: Option<String>,
    home: Option<String>,
    r: Option<String>,
)
    requires
        config_path.ensures((explicit, app_data, home), r),
    ensures
        explicit matches Some(p) ==> (r matches Some(at) && at@ == p@),
        explicit is None && app_data is Some ==> (r matches Some(at) && at@ == app_data->0@
            + "/arc/runner.toml"@),
        explicit is None && app_data is None && home is Some ==> (r matches Some(at) && at@
            == home->0@ + "/.config/arc/runner.toml"@),
        explicit is None && app_data is None && home is None ==> r is None,
{
    assert(view_of(r) is Some <==> r is Some);
}

/// What a pairing stores is what it made and was told.
pub proof fn law_pairing_is_stored(
    session: &SessionId,
    pairing: &PairingCode,
    args: &PairArgs,
    r: RunnerConfig,
)
    requires
        paired_config.ensures((session, pairing, args), r),
    ensures
        r.session matches Some(s) && s@ == number::hex(session@),
        r.pairing matches Some(p) && p@ == pairing@,
        r.listen == args.listen && r.relay == args.relay,
{
}

/// The block for the controller names the direct address if there is one, else the
/// relay and the session; and the code, unless callers are known by their network.
pub proof fn law_controller_is_told_how_to_reach(
    listen: &Option<String>,
    relay: &Option<String>,
    trust: bool,
    session: &SessionId,
    pairing: &Option<PairingCode>,
    out: Vec<String>,
)
    requires
        print_controller_target.ensures((listen, relay, trust, session, pairing), out),
    ensures
        *listen matches Some(addr) ==> out@.len() > 4 && out@[3]@ == "  "@ + "direct "@ + " = \""@
            + addr@ + "\""@,
        *listen is None ==> (*relay matches Some(url) ==> out@.len() > 5 && out@[3]@ == "  "@
            + "relay  "@ + " = \""@ + url@ + "\""@ && out@[4]@ == "  "@ + "session"@ + " = \""@
            + number::hex(session@) + "\""@),
        ({
            let at: int = if *listen is None && *relay is Some {
                5
            } else {
                4
            };
            &&& trust ==> out@.len() > at && out@[at]@ == "  trust_tailnet = true"@
            &&& !trust ==> (*pairing matches Some(code) ==> out@.len() > at && out@[at]@ == "  "@
                + "pairing"@ + " = \""@ + code@ + "\""@)
        }),
{
    let t = text::texts(out@);
    assert(t.len() == out@.len());
    assert forall|i: int| 0 <= i < out@.len() implies #[trigger] out@[i]@ == t[i] by {}
}

proof fn lemma_pair_shifted(
    front: Seq<Seq<char>>,
    rest: Seq<Seq<char>>,
    i: int,
    listen: Option<Seq<char>>,
    relay: Option<Seq<char>>,
)
    requires
        0 <= i,
    ensures
        pair_args(front + rest, front.len() + i, listen, relay) == pair_args(
            rest,
            i,
            listen,
            relay,
        ),
    decreases rest.len() + 1 - i,
{
    let all = front + rest;
    let k = front.len() + i;
    if i < rest.len() {
        assert(all[k] == rest[i]);
        assert(arg_at(all, k + 1) == arg_at(rest, i + 1));
        lemma_pair_shifted(front, rest, i + 2, arg_at(rest, i + 1), relay);
        lemma_pair_shifted(front, rest, i + 2, listen, arg_at(rest, i + 1));
    }
}

proof fn lemma_pair_agree(
    args: Seq<Seq<char>>,
    i: int,
    a: (Option<Seq<char>>, Option<Seq<char>>),
    b: (Option<Seq<char>>, Option<Seq<char>>),
)
    requires
        0 <= i,
    ensures
        ({
            let r = pair_args(args, i, a.0, a.1);
            let s = pair_args(args, i, b.0, b.1);
            &&& r is Ok <==> s is Ok
            &&& r matches Ok(x) ==> {
                let y = s->Ok_0;
                &&& x.0 == y.0 || (x.0 == a.0 && y.0 == b.0)
                &&& x.1 == y.1 || (x.1 == a.1 && y.1 == b.1)
                &&& !args.contains("--listen"@) ==> x.0 == a.0
                &&& !args.contains("--relay"@) ==> x.1 == a.1
            }
        }),
    decreases args.len() + 1 - i,
{
    if i < args.len() {
        assert(args.contains(args[i]));
        let next = arg_at(args, i + 1);
        lemma_pair_agree(args, i + 2, (next, a.1), (next, b.1));
        lemma_pair_agree(args, i + 2, (a.0, next), (b.0, next));
    }
}

/// `--listen` and `--relay` before other arguments of a pairing give the address and
/// the relay, unless those give them anew, and change nothing else. Whatever else
/// stands first is refused by its name.
pub proof fn law_pair_arguments(
    args: &Vec<String>,
    more: &Vec<String>,
    first: Seq<char>,
    value: Seq<char>,
    r: Result<PairArgs, String>,
    s: Result<PairArgs, String>,
)
    requires
        run_pair.ensures((args,), r),
        run_pair.ensures((more,), s),
    ensures
        args@.len() == 0 ==> (r matches Ok(a) && a.listen is None && a.relay is None),
        text::texts(more@) == seq!["--listen"@, value] + text::texts(args@) ==> {
            &&& s is Ok <==> r is Ok
            &&& s matches Ok(b) ==> {
                let a = r->Ok_0;
                &&& view_of(b.relay) == view_of(a.relay)
                &&& a.listen is Some ==> view_of(b.listen) == view_of(a.listen)
                &&& !text::texts(args@).contains("--listen"@) ==> view_of(b.listen) == Some(value)
            }
        },
        text::texts(more@) == seq!["--relay"@, value] + text::texts(args@) ==> {
            &&& s is Ok <==> r is Ok
            &&& s matches Ok(b) ==> {
                let a = r->Ok_0;
                &&& view_of(b.listen) == view_of(a.listen)
                &&& a.relay is Some ==> view_of(b.relay) == view_of(a.relay)
                &&& !text::texts(args@).contains("--relay"@) ==> view_of(b.relay) == Some(value)
            }
        },
        text::texts(more@) == seq![first] + text::texts(args@) && first != "--listen"@ && first
            != "--relay"@ ==> (s matches Err(e) && e@ == "unknown `pair` argument: "@ + first),
{
    lemma_flag_names();
    let rest = text::texts(args@);
    let all = text::texts(more@);
    if all == seq!["--listen"@, value] + rest {
        assert(all[0] == "--listen"@ && all[1] == value);
        lemma_pair_shifted(seq!["--listen"@, value], rest, 0, Some(value), None);
        lemma_pair_agree(rest, 0, (Some(value), None), (None, None));
    }
    if all == seq!["--relay"@, value] + rest {
        assert(all[0] == "--relay"@ && all[1] == value);
        lemma_pair_shifted(seq!["--relay"@, value], rest, 0, None, Some(value));
        lemma_pair_agree(rest, 0, (None, Some(value)), (None, None));
    }
    if all == seq![first] + rest {
        assert(all[0] == first);
    }
}

/// A pairing is reported with the session and the code, and with the settings by
/// which a controller reaches the runner: its address if it listens, else its relay
/// and its session; then the code.
pub proof fn law_pairing_is_reported(
    path: &str,
    session: &SessionId,
    pairing: &PairingCode,
    args: &PairArgs,
    out: Vec<String>,
)
    requires
        pair_report.ensures((path, session, pairing, args), out),
    ensures
        out@.len() >= 12,
        out@[0]@ == "Paired. Credentials saved to "@ + path@,
        out@[2]@ == "  Session: "@ + number::hex(session@),
        out@[3]@ == "  Pairing: "@ + pairing@,
        out@[7]@ == "  [targets.win]"@,
        args.listen matches Some(addr) ==> out@[8]@ == "  "@ + "direct "@ + " = \""@ + addr@ + "\""@,
        args.listen is None ==> (args.relay matches Some(url) ==> out@[8]@ == "  "@ + "relay  "@
            + " = \""@ + url@ + "\""@ && out@[9]@ == "  "@ + "session"@ + " = \""@ + number::hex(
            session@,
        ) + "\""@),
        args.listen is None && args.relay is None ==> out@[10]@ == "  "@ + "session"@ + " = \""@
            + number::hex(session@) + "\""@,
        out@[out@.len() - 3]@ == "  "@ + "pairing"@ + " = \""@ + pairing@ + "\""@,
        out@.last()@ == "then: arc -t win shell --cmd ver"@,
{
    let t = text::texts(out@);
    assert(t.len() == out@.len());
    assert forall|i: int| 0 <= i < out@.len() implies #[trigger] out@[i]@ == t[i] by {}
}

/// A preview tells where the runner would be reached, whom it would let in, what
/// would be run at logon and where the configuration would go.
pub proof fn law_preview_tells_the_plan(
    plan: &InstallPlan,
    exe: &str,
    config_path: &str,
    out: Vec<String>,
)
    requires
        install_preview.ensures((plan, exe, config_path), out),
    ensures
        out@.len() >= 5,
        out@[0]@ == "install --dry-run (no changes made):"@,
        plan.listen matches Some(addr) ==> out@[1]@ == "  mode    : direct, listen "@ + addr@,
        plan.listen is None ==> (plan.relay matches Some(url) ==> out@[1]@ == "  mode    : relay "@
            + url@),
        out@[out@.len() - 4]@ == "  trust   : "@ + (if plan.trust {
            "true"@
        } else {
            "false"@
        }),
        plan.allow@.len() == 0 ==> out@[out@.len() - 3]@ == "  allow   : "@
            + "<any tailnet peer>"@,
        plan.allow@.len() == 1 ==> out@[out@.len() - 3]@ == "  allow   : "@ + plan.allow@[0]@,
        out@[out@.len() - 2]@ == "  task    : would register 'arc-runner' running "@ + exe@,
        out@.last()@ == "  config  : "@ + config_path@,
{
    let t = text::texts(out@);
    assert(t.len() == out@.len());
    assert forall|i: int| 0 <= i < out@.len() implies #[trigger] out@[i]@ == t[i] by {}
    if plan.allow@.len() == 1 {
        reveal_with_fuel(text::joined, 2);
        assert(text::texts(plan.allow@)[0] == plan.allow@[0]@);
    }
}

/// The runner is registered to run at logon without elevated rights, from the path
/// it was installed to; an installation has worked exactly if that was done.
pub proof fn law_task_runs_the_installed_binary(
    exe: &str,
    out: Vec<String>,
    created: bool,
    plan: &InstallPlan,
    credentials: &Credentials,
    r: Result<Vec<String>, String>,
)
    requires
        register_task.ensures((exe,), out),
        installed.ensures((created, plan, credentials), r),
    ensures
        out@.len() == 10,
        out@[2]@ == "arc-runner"@,
        out@[3]@ == "/tr"@ && out@[4]@ == "\""@ + exe@ + "\""@,
        out@[5]@ == "/sc"@ && out@[6]@ == "onlogon"@,
        out@[7]@ == "/rl"@ && out@[8]@ == "LIMITED"@,
        r is Ok <==> created,
        r matches Ok(lines) ==> (plan.listen matches Some(addr) ==> lines@.len() > 4 && lines@[4]@
            == "  "@ + "direct "@ + " = \""@ + addr@ + "\""@),
{
    let t = text::texts(out@);
    assert(t.len() == out@.len());
    assert forall|i: int| 0 <= i < out@.len() implies #[trigger] out@[i]@ == t[i] by {}
    if let Ok(lines) = r {
        let u = text::texts(lines@);
        assert(u.len() == lines@.len());
        assert forall|i: int| 0 <= i < lines@.len() implies #[trigger] lines@[i]@ == u[i] by {}
    }
}

/// The address of the node is the first line of the output without white space around
/// it, if there is anything on it.
pub proof fn law_first_line_is_the_address(output: &str, r: Option<String>, line: Seq<char>)
    requires
        tailscale_ip.ensures((output,), r),
    ensures
        r matches Some(ip) ==> ip@.len() > 0 && text::lines(output@).len() > 0 && ip@ == text::trim(
            text::lines(output@)[0],
        ),
        text::lines(output@).len() > 0 && line == text::trim(text::lines(output@)[0])
            && line.len() > 0 ==> (r matches Some(ip) && ip@ == line),
        output@.len() == 0 ==> r is None,
{
    if output@.len() == 0 {
        text::lemma_split_nonempty(output@, '\n');
    }
}

/// A fresh configuration holds the session in hexadecimal, the code, and what was
/// planned: where to listen, the relay, and who is let in.
pub proof fn law_fresh_configuration_holds_the_plan(
    plan: &InstallPlan,
    session: &SessionId,
    pairing: &Option<PairingCode>,
    r: RunnerConfig,
)
    requires
        minted_config.ensures((plan, session, pairing), r),
    ensures
        r.session matches Some(s) && s@ == number::hex(session@),
        *pairing is None ==> r.pairing is None,
        *pairing matches Some(code) ==> (r.pairing matches Some(p) && p@ == code@),
        r.listen == plan.listen,
        r.relay == plan.relay,
        plan.trust ==> r.trust_tailnet == Some(true),
        !plan.trust ==> r.trust_tailnet is None,
        r.allow_logins is Some <==> plan.allow@.len() > 0,
        r.allow_logins matches Some(logins) ==> logins@.len() == plan.allow@.len() && forall|i: int|
            0 <= i < logins@.len() ==> (#[trigger] logins@[i])@ == plan.allow@[i]@,
{
    if let Some(logins) = r.allow_logins {
        let t = text::texts(logins@);
        let u = text::texts(plan.allow@);
        assert(t.len() == logins@.len() && u.len() == plan.allow@.len());
        assert forall|i: int| 0 <= i < logins@.len() implies (#[trigger] logins@[i])@
            == plan.allow@[i]@ by {
            assert(t[i] == u[i]);
        }
    }
}

} // verus!
