//! The Android runner as a program: its arguments, its supervisor, and what it does
//! with each frame of a link.

use vstd::prelude::*;

use crate::proto::id::{is_code, normalized, PairingCode};
use crate::proto::wire::{Frame, Request};
use crate::text;

verus! {

/// What the program was started for.
pub enum Mode {
    /// Keep a runner with these arguments running.
    Supervise(Vec<String>),
    /// Listen for a controller.
    Serve {
        /// Address to listen on.
        addr: String,
        /// The code that a controller must know.
        pairing: PairingCode,
    },
}

/// The arguments of the runner itself.
pub open spec fn is_supervised(args: Seq<String>) -> bool {
    args.len() > 0 && args[0]@ == "--supervise"@
}

/// The pairing code as it was given: the second argument, or else the environment.
pub open spec fn given_code(args: Seq<String>, env: Option<String>) -> Option<Seq<char>> {
    if args.len() > 1 {
        Some(args[1]@)
    } else {
        match env {
            Some(v) => Some(v@),
            None => None,
        }
    }
}

/// Reads the arguments: an address to listen on, and a pairing code that may also
/// come from the environment. `--supervise` in front keeps a runner with the rest
/// of the arguments running.
pub fn parse_args(args: Vec<String>, env: Option<String>) -> (r: Result<Mode, String>)
    ensures
        match r {
            Ok(Mode::Supervise(rest)) => is_supervised(args@) && rest@ == args@.skip(1),
            Ok(Mode::Serve { addr, pairing }) => !is_supervised(args@) && addr@ == (if args@.len()
                > 0 {
                args@[0]@
            } else {
                "0.0.0.0:8787"@
            }) && (given_code(args@, env) matches Some(code) && is_code(normalized(code))
                && pairing@ == normalized(code)),
            Err(e) => !is_supervised(args@) && match given_code(args@, env) {
                None => e@
                    == "usage: arc-runner-android [--supervise] <listen-addr> <pairing XXXX-XXXX>"@,
                Some(code) => !is_code(normalized(code)) && e@
                    == "pairing must be XXXX-XXXX"@,
            },
        },
{
    if args.len() > 0 && text::same(args[0].as_str(), "--supervise") {
        let mut rest = args;
        rest.remove(0);
        assert(rest@ =~= args@.skip(1));
        return Ok(Mode::Supervise(rest));
    }
    let addr = if args.len() > 0 {
        args[0].clone()
    } else {
        "0.0.0.0:8787".to_string()
    };
    let code = if args.len() > 1 {
        args[1].clone()
    } else {
        match env {
            Some(v) => v,
            None => {
                return Err(
                    "usage: arc-runner-android [--supervise] <listen-addr> <pairing XXXX-XXXX>".to_string(),
                );
            },
        }
    };
    match PairingCode::parse(code.as_str()) {
        Ok(pairing) => Ok(Mode::Serve { addr, pairing }),
        Err(_) => Err("pairing must be XXXX-XXXX".to_string()),
    }
}

/// How long a run must last to count as healthy, in seconds.
pub const HEALTHY_SECS: u64 = 30;

/// The longest pause before a restart, in seconds.
pub const MAX_BACKOFF_SECS: u64 = 30;

/// How long to pause before a restart, and what the pause after that is based on: a
/// healthy run starts over from one second, and each pause is twice the one before,
/// up to the longest.
pub open spec fn pauses(backoff: u64, ran_secs: u64) -> (int, int) {
    let now = if ran_secs >= HEALTHY_SECS {
        1int
    } else {
        backoff as int
    };
    (
        now,
        if now * 2 < MAX_BACKOFF_SECS {
            now * 2
        } else {
            MAX_BACKOFF_SECS as int
        },
    )
}

/// Decides how long to pause before a restart.
pub fn supervise(backoff: u64, ran_secs: u64) -> (r: (u64, u64))
    requires
        1 <= backoff <= MAX_BACKOFF_SECS,
    ensures
        (r.0 as int, r.1 as int) == pauses(backoff, ran_secs),
        1 <= r.1 <= MAX_BACKOFF_SECS,
{
    let now: u64 = if ran_secs >= HEALTHY_SECS {
        1
    } else {
        backoff
    };
    let next: u64 = if now * 2 < MAX_BACKOFF_SECS {
        now * 2
    } else {
        MAX_BACKOFF_SECS
    };
    (now, next)
}

/// The pause before the `n`-th restart of a runner that never runs for long.
pub open spec fn crash_pause(n: nat) -> int
    decreases n,
{
    if n == 0 {
        1
    } else {
        pauses(crash_pause((n - 1) as nat) as u64, 0).1
    }
}

/// A runner that keeps crashing is restarted at growing intervals, but never more
/// than the longest pause apart.
pub proof fn law_crash_pauses_grow(n: nat)
    ensures
        1 <= crash_pause(n) <= MAX_BACKOFF_SECS,
        crash_pause(n) <= crash_pause(n + 1),
    decreases n,
{
    if n > 0 {
        law_crash_pauses_grow((n - 1) as nat);
    }
}

/// What becomes of a frame that came in.
pub enum Received {
    /// A request to answer.
    Answer(Request),
    /// Nothing.
    Ignore,
    /// The link is closed.
    Close,
}

/// Decides what becomes of a frame that came in: requests are answered, other
/// frames ignored.
pub fn serve(frame: Option<Frame>) -> (r: Received)
    ensures
        match frame {
            Some(Frame::Request(request)) => r == Received::Answer(request),
            Some(_) => r is Ignore,
            None => r is Close,
        },
{
    match frame {
        Some(Frame::Request(request)) => Received::Answer(request),
        Some(_) => Received::Ignore,
        None => Received::Close,
    }
}

/// The supervisor is asked for by `--supervise` in the first place, and gets the
/// rest of the arguments as they stand.
pub proof fn law_supervisor_passes_arguments_on(
    args: Vec<String>,
    env: Option<String>,
    r: Result<Mode, String>,
)
    requires
        parse_args.ensures((args, env), r),
    ensures
        (r matches Ok(Mode::Supervise(_))) <==> args@.len() > 0 && args@[0]@ == "--supervise"@,
        r matches Ok(Mode::Supervise(rest)) ==> rest@.len() == args@.len() - 1 && forall|i: int|
            0 <= i < rest@.len() ==> #[trigger] rest@[i] == args@[i + 1],
{
}

/// The runner listens on its first argument, or on every interface at port 8787, and
/// only with a pairing code: that of its second argument comes before that of the
/// environment.
pub proof fn law_runner_needs_a_pairing_code(
    args: Vec<String>,
    env: Option<String>,
    r: Result<Mode, String>,
)
    requires
        parse_args.ensures((args, env), r),
        args@.len() > 0 ==> args@[0]@ != "--supervise"@,
    ensures
        r matches Ok(Mode::Serve { addr, pairing }) ==> {
            &&& args@.len() > 0 ==> addr@ == args@[0]@
            &&& args@.len() == 0 ==> addr@ == "0.0.0.0:8787"@
            &&& args@.len() > 1 ==> pairing@ == normalized(args@[1]@)
            &&& args@.len() <= 1 ==> (env matches Some(code) && pairing@ == normalized(code@))
            &&& is_code(pairing@)
        },
        args@.len() <= 1 && env is None ==> (r matches Err(e) && e@
            == "usage: arc-runner-android [--supervise] <listen-addr> <pairing XXXX-XXXX>"@),
        args@.len() > 1 ==> (r is Ok <==> is_code(normalized(args@[1]@))),
        args@.len() <= 1 && env is Some ==> (r is Ok <==> is_code(normalized(env->0@))),
{
}

/// A runner that ran for half a minute is restarted after one second, whatever came
/// before. One that did not waits for as long as was due, and doubles what is due
/// next, up to half a minute.
pub proof fn law_restarts_back_off(backoff: u64, ran_secs: u64, r: (u64, u64))
    requires
        1 <= backoff <= 30,
        supervise.ensures((backoff, ran_secs), r),
    ensures
        ran_secs >= 30 ==> r == (1u64, 2u64),
        ran_secs < 30 ==> r.0 == backoff,
        ran_secs < 30 && backoff <= 15 ==> r.1 == 2 * backoff,
        ran_secs < 30 && backoff >= 15 ==> r.1 == 30,
{
}

/// Of the frames of a link only requests are answered, and the end of the link
/// closes it.
pub proof fn law_only_requests_are_answered(frame: Option<Frame>, r: Received)
    requires
        serve.ensures((frame,), r),
    ensures
        r is Close <==> frame is None,
        r matches Received::Answer(request) ==> frame == Some(Frame::Request(request)),
        frame matches Some(Frame::Request(request)) ==> r == Received::Answer(request),
{
}

} // verus!
