//! Port forwarding: the ports that were asked for, and the bytes that go through
//! a tunnel.

use vstd::prelude::*;

use crate::net::config::Transport;
use crate::number;
use crate::proto::id::RequestId;
use crate::proto::wire::{Command, Frame, Request};
use crate::text;

verus! {

/// What a forward specification asks for.
pub struct Spec {
    /// Local port.
    pub local: u16,
    /// Host that the runner dials; itself if none.
    pub host: Option<String>,
    /// Port that the runner dials.
    pub remote: u16,
}

/// Why a forward specification is refused.
pub open spec fn bad_spec(spec: Seq<char>) -> Seq<char> {
    "invalid forward spec `"@ + spec
        + "` (want <localport>:<remoteport> or <localport>:<host>:<remoteport>)"@
}

/// Whether the pieces between colons are a local and a remote port, with or
/// without a host in between.
pub open spec fn good_spec(parts: Seq<Seq<char>>) -> bool {
    (parts.len() == 2 || parts.len() == 3) && number::parsed(parts[0], 65535) is Some
        && number::parsed(parts.last(), 65535) is Some
}

/// Parses `<localport>:<remoteport>` or `<localport>:<host>:<remoteport>`.
pub fn parse_spec(spec: &str) -> (r: Result<Spec, String>)
    ensures
        ({
            let parts = text::split(spec@, ':');
            match r {
                Ok(s) => {
                    &&& good_spec(parts)
                    &&& number::parsed(parts[0], 65535) == Some(s.local as nat)
                    &&& number::parsed(parts.last(), 65535) == Some(s.remote as nat)
                    &&& match s.host {
                        Some(h) => parts.len() == 3 && h@ == parts[1],
                        None => parts.len() == 2,
                    }
                },
                Err(e) => !good_spec(parts) && e@ == bad_spec(spec@),
            }
        }),
{
    let parts = text::split_on(&text::chars_of(spec), ':');
    let n: usize = parts.len();
    assert(text::split(spec@, ':')[0] == parts@[0]@);
    assert(text::split(spec@, ':').last() == parts@[n - 1]@);
    if n == 2 || n == 3 {
        if let (Some(local), Some(remote)) = (
            number::parse_unsigned(&parts[0], 65535),
            number::parse_unsigned(&parts[n - 1], 65535),
        ) {
            let host = if n == 3 {
                assert(text::split(spec@, ':')[1] == parts@[1]@);
                Some(text::string_of(&parts[1]))
            } else {
                None
            };
            return Ok(Spec { local: local as u16, host, remote: remote as u16 });
        }
    }
    Err(
        text::join3(
            "invalid forward spec `",
            spec,
            "` (want <localport>:<remoteport> or <localport>:<host>:<remoteport>)",
        ),
    )
}

/// What is announced before forwarding: a warning for a relay, whose sessions
/// evict each other, and the two ends.
pub struct Announcement {
    /// The warning, if it applies.
    pub warning: Option<String>,
    /// The local address to bind.
    pub bind: String,
    /// The line that names both ends.
    pub line: String,
}

/// The local address of a forward.
pub open spec fn local_address(port: u16) -> Seq<char> {
    "127.0.0.1:"@ + number::decimal(port as nat)
}

/// Announces a forward.
pub fn run(spec: &Spec, transport: &Transport) -> (r: Announcement)
    ensures
        r.bind@ == local_address(spec.local),
        r.line@ == "forwarding "@ + local_address(spec.local) + " -> runner "@ + (match spec.host {
            Some(h) => h@,
            None => "127.0.0.1"@,
        }) + ":"@ + number::decimal(spec.remote as nat) + "  (Ctrl+C to stop)"@,
        match r.warning {
            Some(w) => transport is Relay && w@
                == "arc: warning — forward over a relay shares one session id, so concurrent connections evict each other; use direct (Tailscale) mode for reliable forwarding."@,
            None => transport is Direct,
        },
{
    let bind = text::join2("127.0.0.1:", number::decimal_text(spec.local as u64).as_str());
    let mut line = text::join3("forwarding ", bind.as_str(), " -> runner ");
    match &spec.host {
        Some(h) => {
            line.append(h.as_str());
        },
        None => {
            line.append("127.0.0.1");
        },
    }
    line.append(":");
    line.append(number::decimal_text(spec.remote as u64).as_str());
    line.append("  (Ctrl+C to stop)");
    let warning = match transport {
        Transport::Relay { .. } => Some(
            "arc: warning — forward over a relay shares one session id, so concurrent connections evict each other; use direct (Tailscale) mode for reliable forwarding.".to_owned(),
        ),
        Transport::Direct { .. } => None,
    };
    Announcement { warning, bind, line }
}

/// The first frame of a tunnel: the request to dial the far end.
pub fn tunnel(host: Option<String>, port: u16) -> (r: Frame)
    ensures
        r == Frame::Request(Request { id: RequestId(1), command: Command::Forward { host, port } }),
{
    Frame::Request(Request { id: RequestId(1), command: Command::Forward { host, port } })
}

/// Whether the runner took the request: its answer says so, or why not.
pub fn tunnel_accepted(answer: Option<Frame>) -> (r: Result<(), String>)
    ensures
        match answer {
            Some(Frame::Response(response)) => match response.result {
                Ok(_) => r == Ok::<(), String>(()),
                Err(e) => r matches Err(m) && m@ == "runner refused forward: "@ + e.message@,
            },
            _ => r matches Err(m) && m@ == "no forward acknowledgement from runner"@,
        },
{
    match answer {
        Some(Frame::Response(response)) => match response.result {
            Ok(_) => Ok(()),
            Err(e) => Err(text::join2("runner refused forward: ", e.message.as_str())),
        },
        _ => Err("no forward acknowledgement from runner".to_owned()),
    }
}

/// What reading from the local socket leads to.
pub enum Uplink {
    /// Send this and go on.
    Send(Frame),
    /// Send this and stop.
    Finish(Frame),
    /// Stop.
    Stop,
}

/// What reading from the local socket leads to: its bytes go up as they are;
/// nothing is its end, none a failure.
pub open spec fn up(read: Option<Vec<u8>>) -> Uplink {
    match read {
        Some(bytes) => if bytes@.len() == 0 {
            Uplink::Finish(Frame::TunnelEof)
        } else {
            Uplink::Send(Frame::TunnelData(bytes))
        },
        None => Uplink::Stop,
    }
}

/// Treats what was read from the local socket.
pub fn uplink(read: Option<Vec<u8>>) -> (r: Uplink)
    ensures
        r == up(read),
{
    match read {
        Some(bytes) => if bytes.len() == 0 {
            Uplink::Finish(Frame::TunnelEof)
        } else {
            Uplink::Send(Frame::TunnelData(bytes))
        },
        None => Uplink::Stop,
    }
}

/// What a frame of the far end leads to.
pub enum Downlink {
    /// Write these bytes to the local socket.
    Write(Vec<u8>),
    /// Pass over the frame.
    Skip,
    /// Stop.
    Stop,
}

/// What a frame that comes through the tunnel leads to; none is a link that
/// ended.
pub open spec fn down(frame: Option<Frame>) -> Downlink {
    match frame {
        Some(Frame::TunnelData(bytes)) => Downlink::Write(bytes),
        Some(Frame::TunnelEof) | None => Downlink::Stop,
        Some(_) => Downlink::Skip,
    }
}

/// Treats a frame that comes through the tunnel.
pub fn downlink(frame: Option<Frame>) -> (r: Downlink)
    ensures
        r == down(frame),
{
    match frame {
        Some(Frame::TunnelData(bytes)) => Downlink::Write(bytes),
        Some(Frame::TunnelEof) => Downlink::Stop,
        None => Downlink::Stop,
        Some(_) => Downlink::Skip,
    }
}

/// Bytes that go up a tunnel come down unchanged at the other end, and the end of
/// one side is the end of the other.
pub proof fn law_tunnel_is_transparent(read: Vec<u8>)
    ensures
        up(Some(read)) matches Uplink::Send(frame) ==> down(Some(frame)) == Downlink::Write(read),
        up(Some(read)) matches Uplink::Finish(frame) ==> down(Some(frame)) is Stop,
        !(up(Some(read)) is Stop),
{
}

/// A forward specification is two ports with a colon between, or with a host between
/// them; the host is taken as it is, and each port has to be one.
pub proof fn law_forward_names_both_ends(
    spec: &str,
    local: &[char],
    host: Seq<char>,
    remote: &[char],
    from: Option<u64>,
    to: Option<u64>,
    r: Result<Spec, String>,
)
    requires
        !local@.contains(':') && !host.contains(':') && !remote@.contains(':'),
        number::parse_unsigned.ensures((local, 65535u64), from),
        number::parse_unsigned.ensures((remote, 65535u64), to),
        parse_spec.ensures((spec,), r),
    ensures
        spec@ == text::joined(seq![local@, remote@], seq![':']) ==> (r is Ok <==> from is Some && to is Some)
            && (r matches Ok(s) ==> s.local == from->0 && s.remote == to->0 && s.host is None),
        spec@ == text::joined(seq![local@, host, remote@], seq![':']) ==> (r is Ok <==> from is Some && to is Some)
            && (r matches Ok(s) ==> s.local == from->0 && s.remote == to->0 && (s.host matches Some(
            h,
        ) && h@ == host)),
        !spec@.contains(':') ==> r is Err,
{
    let two = seq![local@, remote@];
    let three = seq![local@, host, remote@];
    text::law_split_undoes_join(two, ':');
    text::law_split_undoes_join(three, ':');
    assert(two.last() == remote@ && three.last() == remote@);
    if !spec@.contains(':') {
        text::lemma_split_grows(Seq::empty(), spec@, ':');
        assert(Seq::<char>::empty() + spec@ =~= spec@);
        assert(text::split(spec@, ':').len() == 1);
    }
}

/// A forward listens on this machine alone, at its local port, and warns exactly over
/// a relay.
pub proof fn law_forward_listens_locally(spec: &Spec, transport: &Transport, r: Announcement)
    requires
        run.ensures((spec, transport), r),
    ensures
        r.bind@ == "127.0.0.1:"@ + number::decimal(spec.local as nat),
        r.warning is Some <==> transport is Relay,
{
}

/// A tunnel asks for the host and port it was given, and is open exactly once the
/// runner answered without an error.
pub proof fn law_tunnel_opens_when_acknowledged(
    host: Option<String>,
    port: u16,
    frame: Frame,
    answer: Option<Frame>,
    r: Result<(), String>,
)
    requires
        tunnel.ensures((host, port), frame),
        tunnel_accepted.ensures((answer,), r),
    ensures
        frame matches Frame::Request(request) && request.command == (Command::Forward { host, port }),
        r is Ok <==> (answer matches Some(Frame::Response(response)) && response.result is Ok),
{
}

/// What is read on one side of a tunnel is written on the other, its end ends the
/// other, and nothing else writes or ends it.
pub proof fn law_tunnel_carries_bytes(
    read: Option<Vec<u8>>,
    up: Uplink,
    frame: Option<Frame>,
    down: Downlink,
    far: Downlink,
)
    requires
        uplink.ensures((read,), up),
        downlink.ensures((frame,), down),
        up matches Uplink::Send(f) ==> downlink.ensures((Some(f),), far),
        up matches Uplink::Finish(f) ==> downlink.ensures((Some(f),), far),
    ensures
        read is None <==> up is Stop,
        read matches Some(bytes) ==> (bytes@.len() > 0 ==> up is Send && far == Downlink::Write(
            bytes,
        )) && (bytes@.len() == 0 ==> up is Finish && far is Stop),
        down is Write <==> (frame matches Some(f) && f is TunnelData),
        down is Stop <==> frame is None || frame == Some(Frame::TunnelEof),
{
}

} // verus!
