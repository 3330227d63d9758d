//! The connection to a paired device: its messages, the exchange that opens a
//! service, and the services that run a shell command and push a file.
//!
//! The client announces itself, the device asks for a secure channel, and over that
//! channel announces itself too. A stream is then opened per service, and every
//! write on it is acknowledged before the next.

use vstd::prelude::*;

use crate::adb::{is_protocol, protocol, AdbError};
use crate::bytes;
use crate::number;
use crate::text;

verus! {

/// Announces a side of the connection.
pub const A_CNXN: u32 = 0x4e58_4e43;

/// Opens a stream.
pub const A_OPEN: u32 = 0x4e45_504f;

/// Acknowledges.
pub const A_OKAY: u32 = 0x5941_4b4f;

/// Closes a stream.
pub const A_CLSE: u32 = 0x4553_4c43;

/// Carries data of a stream.
pub const A_WRTE: u32 = 0x4554_5257;

/// Asks for a secure channel.
pub const A_STLS: u32 = 0x534c_5453;

/// Version of the protocol, from which on checksums are skipped.
pub const A_VERSION: u32 = 0x0100_0001;

/// Version of the request for a secure channel.
pub const A_STLS_VERSION: u32 = 0x0100_0000;

/// Largest payload of a message.
pub const MAX_PAYLOAD: u32 = 0x10_0000;

/// The client's id of its stream.
pub const LOCAL_ID: u32 = 1;

/// Largest piece of a file in one frame.
pub const SYNC_DATA_MAX: usize = 0x1_0000;

/// Size of a message header.
pub const HEADER_SIZE: usize = 24;

/// A message of the protocol.
#[derive(Debug, PartialEq, Eq)]
pub struct Message {
    /// What it is.
    pub command: u32,
    /// First argument.
    pub arg0: u32,
    /// Second argument.
    pub arg1: u32,
    /// Payload.
    pub payload: Vec<u8>,
}

/// The header of a message: command, arguments, size of the payload, no checksum,
/// and the command with every bit flipped.
pub open spec fn header_of(command: u32, arg0: u32, arg1: u32, size: nat) -> Seq<u8> {
    bytes::le_bytes(command as nat, 4) + bytes::le_bytes(arg0 as nat, 4) + bytes::le_bytes(
        arg1 as nat,
        4,
    ) + bytes::le_bytes(size, 4) + bytes::le_bytes(0, 4) + bytes::le_bytes(
        (0xffff_ffff - command) as nat,
        4,
    )
}

/// The bytes of a message.
pub open spec fn message_bytes(m: Message) -> Seq<u8> {
    header_of(m.command, m.arg0, m.arg1, m.payload@.len()) + m.payload@
}

/// Writes out a message.
pub fn write_msg(m: &Message) -> (out: Vec<u8>)
    requires
        m.payload@.len() <= u32::MAX,
    ensures
        out@ == message_bytes(*m),
{
    let mut out = bytes::u32_le(m.command);
    bytes::extend(&mut out, bytes::u32_le(m.arg0).as_slice());
    bytes::extend(&mut out, bytes::u32_le(m.arg1).as_slice());
    bytes::extend(&mut out, bytes::u32_le(m.payload.len() as u32).as_slice());
    bytes::extend(&mut out, bytes::u32_le(0).as_slice());
    bytes::extend(&mut out, bytes::u32_le(0xffff_ffff - m.command).as_slice());
    bytes::extend(&mut out, m.payload.as_slice());
    out
}

/// The word of a header at a position.
pub open spec fn word(header: Seq<u8>, at: int) -> nat {
    bytes::le_value(header.subrange(at, at + 4))
}

/// The four letters of a command.
pub open spec fn letters(command: u32) -> Seq<char> {
    text::lossy_text(bytes::le_bytes(command as nat, 4))
}

/// The four letters of a command.
pub fn fourcc(command: u32) -> (r: String)
    ensures
        r@ == letters(command),
{
    text::lossy(bytes::u32_le(command).as_slice())
}

/// What a header says.
#[derive(Debug, Clone, Copy, PartialEq, Eq)]
pub struct Header {
    /// What the message is.
    pub command: u32,
    /// First argument.
    pub arg0: u32,
    /// Second argument.
    pub arg1: u32,
    /// Size of the payload that follows.
    pub size: usize,
}

/// Reads a message header.
pub fn read_header(header: &[u8]) -> (r: Result<Header, AdbError>)
    requires
        header@.len() == HEADER_SIZE,
    ensures
        match r {
            Ok(h) => {
                &&& h.command == word(header@, 0)
                &&& h.arg0 == word(header@, 4)
                &&& h.arg1 == word(header@, 8)
                &&& h.size == word(header@, 12)
                &&& h.size <= MAX_PAYLOAD
                &&& word(header@, 20) == 0xffff_ffff - word(header@, 0)
            },
            Err(e) => if word(header@, 20) != 0xffff_ffff - word(header@, 0) {
                is_protocol(e, "bad magic for cmd "@ + letters(word(header@, 0) as u32))
            } else {
                word(header@, 12) > MAX_PAYLOAD && is_protocol(
                    e,
                    "payload too big: "@ + number::decimal(word(header@, 12)),
                )
            },
        },
{
    let command: u32 = bytes::read_u32_le(header, 0);
    let arg0: u32 = bytes::read_u32_le(header, 4);
    let arg1: u32 = bytes::read_u32_le(header, 8);
    let size: u32 = bytes::read_u32_le(header, 12);
    let magic: u32 = bytes::read_u32_le(header, 20);
    if magic != 0xffff_ffff - command {
        return Err(
            protocol(text::join2("bad magic for cmd ", fourcc(command).as_str())),
        );
    }
    if size > MAX_PAYLOAD {
        return Err(
            protocol(
                text::join2("payload too big: ", number::decimal_text(size as u64).as_str()),
            ),
        );
    }
    Ok(Header { command, arg0, arg1, size: size as usize })
}

proof fn lemma_word(a: Seq<u8>, v: nat, b: Seq<u8>)
    requires
        v < 0x1_0000_0000,
    ensures
        word(a + bytes::le_bytes(v, 4) + b, a.len() as int) == v,
{
    bytes::lemma_le_bytes_len(v, 4);
    let n = a.len() as int;
    assert((a + bytes::le_bytes(v, 4) + b).subrange(n, n + 4) =~= bytes::le_bytes(v, 4));
    assert(bytes::bytes_range(4) == 0x1_0000_0000) by {
        reveal_with_fuel(bytes::bytes_range, 5);
    }
    bytes::law_le_round_trip(v, 4);
}

/// A message that is not too large is read back: its header says what it is, and the
/// payload follows.
pub proof fn law_message_round_trip(m: Message)
    requires
        m.payload@.len() <= MAX_PAYLOAD,
    ensures
        ({
            let header = message_bytes(m).take(HEADER_SIZE as int);
            &&& word(header, 0) == m.command
            &&& word(header, 4) == m.arg0
            &&& word(header, 8) == m.arg1
            &&& word(header, 12) == m.payload@.len()
            &&& word(header, 20) == 0xffff_ffff - word(header, 0)
            &&& message_bytes(m).skip(HEADER_SIZE as int) == m.payload@
        }),
{
    let size = m.payload@.len();
    let magic = (0xffff_ffff - m.command) as nat;
    bytes::lemma_le_bytes_len(m.command as nat, 4);
    bytes::lemma_le_bytes_len(m.arg0 as nat, 4);
    bytes::lemma_le_bytes_len(m.arg1 as nat, 4);
    bytes::lemma_le_bytes_len(size, 4);
    bytes::lemma_le_bytes_len(0, 4);
    bytes::lemma_le_bytes_len(magic, 4);
    let (a, b, c) = (
        bytes::le_bytes(m.command as nat, 4),
        bytes::le_bytes(m.arg0 as nat, 4),
        bytes::le_bytes(m.arg1 as nat, 4),
    );
    let (d, e, f) = (
        bytes::le_bytes(size, 4),
        bytes::le_bytes(0, 4),
        bytes::le_bytes(magic, 4),
    );
    let none = Seq::<u8>::empty();
    let header = message_bytes(m).take(HEADER_SIZE as int);
    assert(header =~= a + b + c + d + e + f);
    lemma_word(none, m.command as nat, b + c + d + e + f);
    assert(none + a + (b + c + d + e + f) =~= header);
    lemma_word(a, m.arg0 as nat, c + d + e + f);
    assert(a + b + (c + d + e + f) =~= header);
    lemma_word(a + b, m.arg1 as nat, d + e + f);
    assert(a + b + c + (d + e + f) =~= header);
    lemma_word(a + b + c, size, e + f);
    assert(a + b + c + d + (e + f) =~= header);
    lemma_word(a + b + c + d + e, magic, none);
    assert(a + b + c + d + e + f + none =~= header);
    assert(message_bytes(m).skip(HEADER_SIZE as int) =~= m.payload@);
}

/// Builds a message.
pub fn msg(command: u32, arg0: u32, arg1: u32, payload: &[u8]) -> (m: Message)
    ensures
        is_message(m, command, arg0, arg1, payload@),
{
    Message { command, arg0, arg1, payload: bytes::copied(payload) }
}

/// Whether a message is made of these parts.
pub open spec fn is_message(m: Message, command: u32, arg0: u32, arg1: u32, payload: Seq<u8>) -> bool {
    m.command == command && m.arg0 == arg0 && m.arg1 == arg1 && m.payload@ == payload
}

/// The client announces itself.
pub fn hello() -> (m: Message)
    ensures
        is_message(
            m,
            A_CNXN,
            A_VERSION,
            MAX_PAYLOAD,
            vstd::utf8::encode_utf8("host::features=shell_v2,cmd"@),
        ),
{
    msg(A_CNXN, A_VERSION, MAX_PAYLOAD, "host::features=shell_v2,cmd".as_bytes())
}

/// Whether an answer to the announcement is that of a device that can be connected
/// to: it asks for a secure channel.
pub fn speaks_adb(answer: &Message) -> (r: bool)
    ensures
        r == (answer.command == A_STLS),
{
    answer.command == A_STLS
}

/// Takes the answer to the announcement, and agrees to a secure channel.
pub fn accept_stls(answer: &Message) -> (r: Result<Message, AdbError>)
    ensures
        match r {
            Ok(m) => answer.command == A_STLS && is_message(
                m,
                A_STLS,
                A_STLS_VERSION,
                0,
                Seq::empty(),
            ),
            Err(e) => answer.command != A_STLS && is_protocol(
                e,
                "expected STLS, got "@ + letters(answer.command),
            ),
        },
{
    if answer.command != A_STLS {
        return Err(
            protocol(text::join2("expected STLS, got ", fourcc(answer.command).as_str())),
        );
    }
    let empty: Vec<u8> = Vec::new();
    Ok(msg(A_STLS, A_STLS_VERSION, 0, empty.as_slice()))
}

/// Takes the device's announcement, and asks for a service by its name, which a zero
/// byte ends.
pub fn open_service(banner: &Message, service: &str) -> (r: Result<Message, AdbError>)
    ensures
        match r {
            Ok(m) => banner.command == A_CNXN && is_message(
                m,
                A_OPEN,
                LOCAL_ID,
                0,
                vstd::utf8::encode_utf8(service@).push(0),
            ),
            Err(e) => banner.command != A_CNXN && is_protocol(
                e,
                "expected CNXN banner, got "@ + letters(banner.command),
            ),
        },
{
    if banner.command != A_CNXN {
        return Err(
            protocol(text::join2("expected CNXN banner, got ", fourcc(banner.command).as_str())),
        );
    }
    let mut name = service.as_bytes_vec();
    name.push(0);
    Ok(Message { command: A_OPEN, arg0: LOCAL_ID, arg1: 0, payload: name })
}

/// An open stream: the device's id of it.
#[derive(Debug, Clone, Copy, PartialEq, Eq)]
pub struct AdbStream {
    /// The device's id of the stream.
    pub remote_id: u32,
}

/// What a message on a stream brings.
pub struct Incoming {
    /// Data, or nothing if the stream was closed.
    pub data: Option<Vec<u8>>,
    /// What to answer.
    pub answer: Option<Message>,
}

/// How far the opening of a service has come.
#[derive(Debug, Clone, Copy, PartialEq, Eq, Structural)]
pub enum Opening {
    /// The client has announced itself.
    Announced,
    /// The secure channel is being set up.
    Securing,
    /// The device is to announce itself on the secure channel.
    Secured,
    /// The service was asked for.
    Asked,
    /// There is nothing left to do.
    Over,
}

/// What the opening of a service waited for.
pub enum OpenEvent {
    /// A message came in.
    Received(Message),
    /// The secure channel stands.
    Secured,
}

/// What the opening of a service needs next.
pub enum OpenAction {
    /// Send this message, and wait for one.
    Send(Message),
    /// Send this message, and set up the secure channel.
    Secure(Message),
    /// Wait for a message.
    Wait,
    /// The service is open.
    Opened(AdbStream),
    /// The service cannot be opened.
    Fail(AdbError),
}

/// The opening fails with this message.
pub open spec fn open_fails(r: (Opening, OpenAction), message: Seq<char>) -> bool {
    r.0 == Opening::Over && (r.1 matches OpenAction::Fail(e) && is_protocol(e, message))
}

/// One step of the opening of a service: the channel is secured before the service is
/// named.
pub open spec fn opens(
    state: Opening,
    event: OpenEvent,
    service: Seq<char>,
    r: (Opening, OpenAction),
) -> bool {
    match (state, event) {
        (Opening::Announced, OpenEvent::Received(m)) => if m.command == A_STLS {
            r.0 == Opening::Securing && (r.1 matches OpenAction::Secure(out) && is_message(
                out,
                A_STLS,
                A_STLS_VERSION,
                0,
                Seq::empty(),
            ))
        } else {
            open_fails(r, "expected STLS, got "@ + letters(m.command))
        },
        (Opening::Securing, OpenEvent::Secured) => r.0 == Opening::Secured && r.1 is Wait,
        (Opening::Secured, OpenEvent::Received(m)) => if m.command == A_CNXN {
            r.0 == Opening::Asked && (r.1 matches OpenAction::Send(out) && is_message(
                out,
                A_OPEN,
                LOCAL_ID,
                0,
                vstd::utf8::encode_utf8(service).push(0),
            ))
        } else {
            open_fails(r, "expected CNXN banner, got "@ + letters(m.command))
        },
        (Opening::Asked, OpenEvent::Received(m)) => if m.command == A_OKAY {
            r.0 == Opening::Over && (r.1 matches OpenAction::Opened(stream) && stream.remote_id
                == m.arg0)
        } else {
            open_fails(r, "OPEN "@ + service + " refused: "@ + letters(m.command))
        },
        _ => false,
    }
}

impl Opening {
    /// Whether an event is the one that the opening waits for.
    pub open spec fn awaits(self, event: OpenEvent) -> bool {
        match self {
            Opening::Securing => event is Secured,
            Opening::Over => false,
            _ => event is Received,
        }
    }
}

impl AdbStream {
    /// Takes the opening of a service one step further. It begins with [`hello`].
    pub fn open(state: Opening, event: OpenEvent, service: &str) -> (r: (Opening, OpenAction))
        requires
            state.awaits(event),
        ensures
            opens(state, event, service@, r),
    {
        match (state, event) {
            (Opening::Announced, OpenEvent::Received(m)) => match accept_stls(&m) {
                Ok(out) => (Opening::Securing, OpenAction::Secure(out)),
                Err(e) => (Opening::Over, OpenAction::Fail(e)),
            },
            (Opening::Securing, _) => (Opening::Secured, OpenAction::Wait),
            (Opening::Secured, OpenEvent::Received(m)) => match open_service(&m, service) {
                Ok(out) => (Opening::Asked, OpenAction::Send(out)),
                Err(e) => (Opening::Over, OpenAction::Fail(e)),
            },
            (Opening::Asked, OpenEvent::Received(m)) => match AdbStream::opened(&m, service) {
                Ok(stream) => (Opening::Over, OpenAction::Opened(stream)),
                Err(e) => (Opening::Over, OpenAction::Fail(e)),
            },
            _ => (Opening::Over, OpenAction::Wait),
        }
    }

    /// Takes the answer to the request for a service.
    pub fn opened(answer: &Message, service: &str) -> (r: Result<Self, AdbError>)
        ensures
            match r {
                Ok(stream) => answer.command == A_OKAY && stream.remote_id == answer.arg0,
                Err(e) => answer.command != A_OKAY && is_protocol(
                    e,
                    "OPEN "@ + service@ + " refused: "@ + letters(answer.command),
                ),
            },
    {
        if answer.command != A_OKAY {
            let mut m = text::join3("OPEN ", service, " refused: ");
            m.append(fourcc(answer.command).as_str());
            return Err(protocol(m));
        }
        Ok(AdbStream { remote_id: answer.arg0 })
    }

    /// The message that writes data.
    pub fn write_all(&self, data: &[u8]) -> (m: Message)
        ensures
            is_message(m, A_WRTE, LOCAL_ID, self.remote_id, data@),
    {
        msg(A_WRTE, LOCAL_ID, self.remote_id, data)
    }

    /// Takes the answer to a write.
    pub fn written(&self, answer: &Message) -> (r: Result<(), AdbError>)
        ensures
            match r {
                Ok(_) => answer.command == A_OKAY,
                Err(e) => answer.command != A_OKAY && is_protocol(
                    e,
                    "expected OKAY after WRTE, got "@ + letters(answer.command),
                ),
            },
    {
        if answer.command != A_OKAY {
            return Err(
                protocol(
                    text::join2("expected OKAY after WRTE, got ", fourcc(answer.command).as_str()),
                ),
            );
        }
        Ok(())
    }

    /// Takes the next message: data is acknowledged, a close ends the stream, and an
    /// acknowledgement brings nothing.
    pub fn read_next(&self, m: Message) -> (r: Result<Incoming, AdbError>)
        ensures
            if m.command == A_WRTE {
                r matches Ok(i) && i.data == Some(m.payload) && (i.answer matches Some(ack)
                    && is_message(ack, A_OKAY, LOCAL_ID, self.remote_id, Seq::empty()))
            } else if m.command == A_CLSE {
                r matches Ok(i) && i.data is None && i.answer is None
            } else if m.command == A_OKAY {
                r matches Ok(i) && (i.data matches Some(data) && data@.len() == 0) && i.answer
                    is None
            } else {
                r matches Err(e) && is_protocol(
                    e,
                    "unexpected "@ + letters(m.command) + " on stream"@,
                )
            },
    {
        if m.command == A_WRTE {
            let ack = Message {
                command: A_OKAY,
                arg0: LOCAL_ID,
                arg1: self.remote_id,
                payload: Vec::new(),
            };
            Ok(Incoming { data: Some(m.payload), answer: Some(ack) })
        } else if m.command == A_CLSE {
            Ok(Incoming { data: None, answer: None })
        } else if m.command == A_OKAY {
            Ok(Incoming { data: Some(Vec::new()), answer: None })
        } else {
            Err(protocol(text::join3("unexpected ", fourcc(m.command).as_str(), " on stream")))
        }
    }

    /// The message that closes the stream.
    pub fn close(&self) -> (m: Message)
        ensures
            is_message(m, A_CLSE, LOCAL_ID, self.remote_id, Seq::empty()),
    {
        Message { command: A_CLSE, arg0: LOCAL_ID, arg1: self.remote_id, payload: Vec::new() }
    }
}

/// The service that runs a shell command.
pub fn run_shell(command: &str) -> (r: String)
    ensures
        r@ == "shell:"@ + command@,
{
    text::join2("shell:", command)
}

/// A frame of the file service: four letters, the size of the data and the data.
pub open spec fn frame_of(id: Seq<u8>, data: Seq<u8>) -> Seq<u8> {
    id + bytes::le_bytes(data.len(), 4) + data
}

/// The letters of a frame.
pub open spec fn frame_id(id: Seq<char>) -> Seq<u8> {
    vstd::utf8::encode_utf8(id)
}

/// Builds a frame of the file service.
pub fn sync_frame(id: &str, data: &[u8]) -> (out: Vec<u8>)
    requires
        data@.len() <= u32::MAX,
    ensures
        out@ == frame_of(frame_id(id@), data@),
{
    let mut out = id.as_bytes_vec();
    bytes::extend(&mut out, bytes::u32_le(data.len() as u32).as_slice());
    bytes::extend(&mut out, data);
    out
}

/// The first frame of a push: where the file goes, and its mode.
fn send_frame(remote_path: &str, mode: u32) -> (out: Vec<u8>)
    requires
        vstd::utf8::encode_utf8(remote_path@ + ","@ + number::decimal(mode as nat)).len()
            <= u32::MAX,
    ensures
        out@ == frame_of(
            frame_id("SEND"@),
            vstd::utf8::encode_utf8(remote_path@ + ","@ + number::decimal(mode as nat)),
        ),
{
    let spec = text::join3(remote_path, ",", number::decimal_text(mode as u64).as_str());
    sync_frame("SEND", spec.as_str().as_bytes())
}

/// The last frame of a push: the time of the file stands where others have a size.
fn done_frame(mtime: u32) -> (out: Vec<u8>)
    ensures
        out@ == frame_id("DONE"@) + bytes::le_bytes(mtime as nat, 4),
{
    let mut out = "DONE".as_bytes_vec();
    bytes::extend(&mut out, bytes::u32_le(mtime).as_slice());
    out
}

/// Where the piece of a file that starts at a position ends.
pub open spec fn piece_end(data: Seq<u8>, from: int) -> int {
    if from + SYNC_DATA_MAX < data.len() {
        from + SYNC_DATA_MAX
    } else {
        data.len() as int
    }
}

/// The frame of the piece of a file that starts at a position.
pub open spec fn data_frame(data: Seq<u8>, from: int) -> Seq<u8> {
    frame_of(frame_id("DATA"@), data.subrange(from, piece_end(data, from)))
}

/// From how many bytes on a batch is sent.
pub const BATCH_LIMIT: usize = 983032;

/// The writes that carry a file from a position on, given what is in the current
/// batch: pieces are collected until the batch is nearly as large as a payload can
/// be.
pub open spec fn batches(data: Seq<u8>, from: int, batch: Seq<u8>) -> Seq<Seq<u8>>
    decreases data.len() - from,
{
    if from < 0 || from >= data.len() {
        if batch.len() > 0 {
            seq![batch]
        } else {
            Seq::empty()
        }
    } else {
        let grown = batch + data_frame(data, from);
        if grown.len() >= BATCH_LIMIT {
            seq![grown] + batches(data, piece_end(data, from), Seq::empty())
        } else {
            batches(data, piece_end(data, from), grown)
        }
    }
}

/// The views of writes.
pub open spec fn write_views(writes: Seq<Vec<u8>>) -> Seq<Seq<u8>> {
    writes.map_values(|w: Vec<u8>| w@)
}

/// Splits a file into the writes that carry it.
fn push_batches(data: &[u8]) -> (out: Vec<Vec<u8>>)
    ensures
        write_views(out@) == batches(data@, 0, Seq::empty()),
{
    let ghost all = batches(data@, 0, Seq::empty());
    let n: usize = data.len();
    let mut out: Vec<Vec<u8>> = Vec::new();
    let mut batch: Vec<u8> = Vec::new();
    let mut from: usize = 0;
    assert(write_views(out@) + all =~= all);
    while from < n
        invariant
            n == data@.len(),
            from <= n,
            all == write_views(out@) + batches(data@, from as int, batch@),
        decreases n - from,
    {
        let end: usize = if n - from > SYNC_DATA_MAX {
            from + SYNC_DATA_MAX
        } else {
            n
        };
        assert(end == piece_end(data@, from as int));
        let piece = vstd::slice::slice_subrange(data, from, end);
        let ghost before = batch@;
        bytes::extend(&mut batch, sync_frame("DATA", piece).as_slice());
        assert(batch@ == before + data_frame(data@, from as int));
        if batch.len() >= BATCH_LIMIT {
            let ghost sent = out@;
            let ghost grown = batch@;
            out.push(batch);
            batch = Vec::new();
            assert(write_views(out@) =~= write_views(sent).push(grown));
            assert(batch@ =~= Seq::<u8>::empty());
            assert(write_views(out@) + batches(data@, end as int, Seq::empty())
                =~= write_views(sent) + (seq![grown] + batches(data@, end as int, Seq::empty())));
        }
        from = end;
    }
    if batch.len() > 0 {
        let ghost sent = out@;
        let ghost grown = batch@;
        out.push(batch);
        assert(write_views(out@) =~= write_views(sent) + seq![grown]);
    } else {
        assert(write_views(out@) + Seq::<Seq<u8>>::empty() =~= write_views(out@));
    }
    out
}

/// The writes of a whole push: where the file goes, the file, and its time.
pub fn push_file(data: &[u8], remote_path: &str, mode: u32, mtime: u32) -> (out: Vec<Vec<u8>>)
    requires
        vstd::utf8::encode_utf8(remote_path@ + ","@ + number::decimal(mode as nat)).len()
            <= u32::MAX,
    ensures
        write_views(out@) == seq![
            frame_of(
                frame_id("SEND"@),
                vstd::utf8::encode_utf8(remote_path@ + ","@ + number::decimal(mode as nat)),
            ),
        ] + batches(data@, 0, Seq::empty()) + seq![
            frame_id("DONE"@) + bytes::le_bytes(mtime as nat, 4),
        ],
{
    let first = send_frame(remote_path, mode);
    let last = done_frame(mtime);
    let ghost want = seq![first@] + batches(data@, 0, Seq::empty()) + seq![last@];
    let middle = push_batches(data);
    let ghost parts = middle@;
    let mut out: Vec<Vec<u8>> = vec![first];
    assert(write_views(out@) =~= seq![first@] + write_views(parts).take(0));
    for w in it: middle
        invariant
            it.seq() == parts,
            write_views(out@) == seq![first@] + write_views(parts).take(it.index()),
    {
        let ghost before = out@;
        out.push(w);
        assert(write_views(out@) =~= write_views(before).push(w@));
        assert(write_views(parts).take(it.index() + 1) =~= write_views(parts).take(
            it.index(),
        ).push(w@));
    }
    assert(write_views(parts).take(parts.len() as int) =~= write_views(parts));
    let ghost before = out@;
    out.push(last);
    assert(write_views(out@) =~= write_views(before).push(last@));
    assert(write_views(out@) =~= want);
    out
}

/// All frames of a file from a position on, one after the other.
pub open spec fn frames_from(data: Seq<u8>, from: int) -> Seq<u8>
    decreases data.len() - from,
{
    if from < 0 || from >= data.len() {
        Seq::empty()
    } else {
        data_frame(data, from) + frames_from(data, piece_end(data, from))
    }
}

/// The writes one after the other.
pub open spec fn stream_of(writes: Seq<Seq<u8>>) -> Seq<u8>
    decreases writes.len(),
{
    if writes.len() == 0 {
        Seq::empty()
    } else {
        writes[0] + stream_of(writes.skip(1))
    }
}

/// What a reader of frames puts together.
pub open spec fn unframed(stream: Seq<u8>) -> Seq<u8>
    decreases stream.len(),
{
    if stream.len() < 8 || stream.len() < 8 + word(stream, 4) {
        Seq::empty()
    } else {
        let end = 8 + word(stream, 4) as int;
        stream.subrange(8, end) + unframed(stream.skip(end))
    }
}

proof fn lemma_data_id()
    ensures
        frame_id("DATA"@).len() == 4,
{
    reveal_strlit("DATA");
    vstd::utf8::is_ascii_chars_encode_utf8("DATA"@);
}

proof fn lemma_batches(data: Seq<u8>, from: int, batch: Seq<u8>)
    requires
        0 <= from <= data.len(),
        batch.len() < BATCH_LIMIT,
    ensures
        stream_of(batches(data, from, batch)) == batch + frames_from(data, from),
        forall|i: int|
            0 <= i < batches(data, from, batch).len() ==> 0 < (#[trigger] batches(
                data,
                from,
                batch,
            )[i]).len() <= MAX_PAYLOAD,
    decreases data.len() - from,
{
    reveal_with_fuel(stream_of, 2);
    lemma_data_id();
    let all = batches(data, from, batch);
    if from >= data.len() {
        if batch.len() > 0 {
            assert(all.skip(1) =~= Seq::<Seq<u8>>::empty());
            assert(stream_of(all) =~= batch + frames_from(data, from));
        } else {
            assert(stream_of(all) =~= batch + frames_from(data, from));
        }
    } else {
        let frame = data_frame(data, from);
        let end = piece_end(data, from);
        bytes::lemma_le_bytes_len((end - from) as nat, 4);
        assert(frame.len() == 8 + (end - from));
        let grown = batch + frame;
        if grown.len() >= BATCH_LIMIT {
            let rest = batches(data, end, Seq::empty());
            lemma_batches(data, end, Seq::empty());
            assert(all == seq![grown] + rest);
            assert(all.skip(1) =~= rest);
            assert(stream_of(all) =~= batch + frames_from(data, from));
            assert forall|i: int| 0 <= i < all.len() implies 0 < (#[trigger] all[i]).len()
                <= MAX_PAYLOAD by {
                if i > 0 {
                    assert(all[i] == rest[i - 1]);
                }
            }
        } else {
            lemma_batches(data, end, grown);
            assert(batch + frames_from(data, from) =~= grown + frames_from(data, end));
        }
    }
}

proof fn lemma_unframed(data: Seq<u8>, from: int)
    requires
        0 <= from <= data.len(),
    ensures
        unframed(frames_from(data, from)) == data.skip(from),
    decreases data.len() - from,
{
    lemma_data_id();
    if from < data.len() {
        let end = piece_end(data, from);
        let piece = data.subrange(from, end);
        let rest = frames_from(data, end);
        let stream = frames_from(data, from);
        let id = frame_id("DATA"@);
        lemma_unframed(data, end);
        bytes::lemma_le_bytes_len(piece.len(), 4);
        lemma_word(id, piece.len(), piece + rest);
        assert(stream =~= id + bytes::le_bytes(piece.len(), 4) + (piece + rest));
        assert(word(stream, 4) == piece.len());
        assert(stream.subrange(8, 8 + piece.len() as int) =~= piece);
        assert(stream.skip(8 + piece.len() as int) =~= rest);
        assert(piece + data.skip(end) =~= data.skip(from));
    } else {
        assert(data.skip(from) =~= Seq::<u8>::empty());
    }
}

/// The writes of a push carry exactly the file, whatever its size: a reader of the
/// frames puts it together again. None of them is empty or larger than a payload can
/// be.
pub proof fn law_push_delivers(data: Seq<u8>)
    ensures
        unframed(stream_of(batches(data, 0, Seq::empty()))) == data,
        forall|i: int|
            0 <= i < batches(data, 0, Seq::empty()).len() ==> 0 < (#[trigger] batches(
                data,
                0,
                Seq::empty(),
            )[i]).len() <= MAX_PAYLOAD,
{
    lemma_batches(data, 0, Seq::empty());
    lemma_unframed(data, 0);
    assert(Seq::<u8>::empty() + frames_from(data, 0) =~= frames_from(data, 0));
    assert(data.skip(0) =~= data);
}

/// What the message of a failed push says: as much of it as came.
pub open spec fn failure_text(resp: Seq<u8>) -> Seq<char> {
    let size = word(resp, 4) as int;
    text::lossy_text(
        resp.subrange(
            8,
            if size < resp.len() - 8 {
                8 + size
            } else {
                resp.len() as int
            },
        ),
    )
}

/// Reads the status that ends a push.
pub fn parse_sync_status(resp: &[u8]) -> (r: Result<(), AdbError>)
    ensures
        match r {
            Ok(_) => resp@.len() >= 8 && resp@.take(4) == frame_id("OKAY"@),
            Err(e) => if resp@.len() < 8 {
                is_protocol(e, "short sync status"@)
            } else if resp@.take(4) == frame_id("FAIL"@) {
                resp@.take(4) != frame_id("OKAY"@) && is_protocol(
                    e,
                    "sync push failed: "@ + failure_text(resp@),
                )
            } else {
                resp@.take(4) != frame_id("OKAY"@) && is_protocol(
                    e,
                    "unexpected sync status "@ + text::lossy_text(resp@.take(4)),
                )
            },
        },
{
    if resp.len() < 8 {
        return Err(protocol("short sync status".to_string()));
    }
    let id = vstd::slice::slice_subrange(resp, 0, 4);
    assert(id@ =~= resp@.take(4));
    let size: u32 = bytes::read_u32_le(resp, 4);
    if bytes::same_bytes(id, "OKAY".as_bytes()) {
        Ok(())
    } else if bytes::same_bytes(id, "FAIL".as_bytes()) {
        let end: usize = if (size as usize) < resp.len() - 8 {
            8 + size as usize
        } else {
            resp.len()
        };
        let cause = text::lossy(vstd::slice::slice_subrange(resp, 8, end));
        Err(protocol(text::join2("sync push failed: ", cause.as_str())))
    } else {
        Err(protocol(text::join2("unexpected sync status ", text::lossy(id).as_str())))
    }
}

/// The first port on which a device may wait for connections.
pub const FIRST_PORT: u16 = 32768;

/// The last port on which a device may wait for connections.
pub const LAST_PORT: u16 = 60999;

/// How many threads look for the port at once.
pub const SCAN_THREADS: u16 = 128;

/// How many ports each of them looks at.
pub const PORTS_PER_THREAD: u16 = 221;

/// The first and last port that a thread looks at.
pub fn scan_slice(thread: u16) -> (r: (u16, u16))
    requires
        thread < SCAN_THREADS,
    ensures
        r.0 == FIRST_PORT + thread * PORTS_PER_THREAD,
        r.1 == if r.0 + PORTS_PER_THREAD - 1 < LAST_PORT {
            r.0 + PORTS_PER_THREAD - 1
        } else {
            LAST_PORT as int
        },
{
    let first: u16 = FIRST_PORT + thread * PORTS_PER_THREAD;
    let last: u16 = if (first as u32) + 220 < LAST_PORT as u32 {
        first + 220
    } else {
        LAST_PORT
    };
    (first, last)
}

/// Every port is looked at by exactly one thread.
pub proof fn law_scan_covers(port: u16)
    requires
        FIRST_PORT <= port <= LAST_PORT,
    ensures
        ({
            let thread = (port - FIRST_PORT) / PORTS_PER_THREAD as int;
            &&& 0 <= thread < SCAN_THREADS
            &&& FIRST_PORT + thread * PORTS_PER_THREAD <= port
            &&& port < FIRST_PORT + (thread + 1) * PORTS_PER_THREAD
        }),
{
}

/// Whether a character is an octal digit.
pub open spec fn is_octal(c: char) -> bool {
    '0' <= c <= '7'
}

/// The number that octal digits denote.
pub open spec fn octal_value(s: Seq<char>) -> nat
    decreases s.len(),
{
    if s.len() == 0 {
        0
    } else {
        octal_value(s.drop_last()) * 8 + (s.last() as nat - 48) as nat
    }
}

/// The number without the plus sign that it may begin with.
pub open spec fn without_plus(s: Seq<char>) -> Seq<char> {
    if s.len() > 0 && s[0] == '+' {
        s.skip(1)
    } else {
        s
    }
}

/// Whether all characters are octal digits.
pub open spec fn all_octal(s: Seq<char>) -> bool {
    forall|i: int| 0 <= i < s.len() ==> is_octal(#[trigger] s[i])
}

/// What reading an octal number gives: an optional plus sign, then one or more octal
/// digits whose value fits in 32 bits.
pub open spec fn parsed_octal(s: Seq<char>) -> Option<nat> {
    let digits = without_plus(s);
    if digits.len() > 0 && all_octal(digits) && octal_value(digits) <= u32::MAX {
        Some(octal_value(digits))
    } else {
        None
    }
}

proof fn lemma_octal_grows(s: Seq<char>, k: int)
    requires
        0 <= k <= s.len(),
        all_octal(s),
    ensures
        octal_value(s.take(k)) <= octal_value(s),
    decreases s.len() - k,
{
    if k == s.len() {
        assert(s.take(k) =~= s);
    } else {
        lemma_octal_grows(s, k + 1);
        assert(s.take(k + 1).drop_last() =~= s.take(k));
    }
}

/// Reads an octal number.
fn parse_octal(chars: &[char]) -> (r: Option<u32>)
    ensures
        match r {
            Some(v) => parsed_octal(chars@) == Some(v as nat),
            None => parsed_octal(chars@) is None,
        },
{
    let n: usize = chars.len();
    let start: usize = if n > 0 && chars[0] == '+' {
        1
    } else {
        0
    };
    let ghost digits = without_plus(chars@);
    assert(chars@.skip(0) =~= chars@);
    if start == n {
        return None;
    }
    let mut v: u32 = 0;
    let mut i: usize = start;
    assert(digits.take(0) =~= Seq::<char>::empty());
    while i < n
        invariant
            n == chars@.len(),
            start <= i <= n,
            digits == without_plus(chars@),
            digits == chars@.skip(start as int),
            v == octal_value(digits.take(i - start)),
            forall|k: int| 0 <= k < i - start ==> is_octal(#[trigger] digits[k]),
        decreases n - i,
    {
        let c = chars[i];
        assert(digits[i - start] == c);
        if c < '0' || c > '7' {
            assert(!is_octal(digits[i - start]));
            return None;
        }
        proof {
            assert(digits.take(i - start + 1).drop_last() =~= digits.take(i - start));
            assert(digits.take(i - start + 1).last() == c);
            if all_octal(digits) {
                lemma_octal_grows(digits, i - start + 1);
            }
        }
        let d: u32 = c as u32 - 48;
        if v > 0x1fff_ffff {
            return None;
        }
        v = v * 8 + d;
        i = i + 1;
    }
    assert(digits.take(i - start) =~= digits);
    Some(v)
}

/// The permissions of a pushed file: those given in octal, or else those that let
/// everybody read it.
pub fn parse_mode(mode: Option<&str>) -> (r: u32)
    ensures
        r == match mode {
            Some(m) => match parsed_octal(m@) {
                Some(v) => v,
                None => 0o644,
            },
            None => 0o644,
        },
{
    match mode {
        Some(m) => match parse_octal(text::chars_of(m).as_slice()) {
            Some(v) => v,
            None => 0o644,
        },
        None => 0o644,
    }
}

/// The mode that the device stores: that of a regular file with these permissions.
pub fn file_mode(permissions: u32) -> (r: u32)
    ensures
        r == 0o100_000u32 | permissions,
{
    0o100_000u32 | permissions
}

/// A message is written as six words, the lowest byte first, and its payload: the
/// command, its two arguments, the size of the payload, zero, and the command with
/// every bit flipped.
pub proof fn law_message_is_six_words(m: Message, out: Vec<u8>)
    requires
        m.payload@.len() <= u32::MAX,
        write_msg.ensures((&m,), out),
    ensures
        out@.len() == 24 + m.payload@.len(),
        bytes::le_value(out@.subrange(0, 4)) == m.command,
        bytes::le_value(out@.subrange(4, 8)) == m.arg0,
        bytes::le_value(out@.subrange(8, 12)) == m.arg1,
        bytes::le_value(out@.subrange(12, 16)) == m.payload@.len(),
        bytes::le_value(out@.subrange(16, 20)) == 0,
        bytes::le_value(out@.subrange(20, 24)) + m.command == 0xffff_ffff,
        out@.skip(24) == m.payload@,
{
    let size = m.payload@.len();
    let magic = (0xffff_ffff - m.command) as nat;
    lemma_word_of(m.command as nat);
    lemma_word_of(m.arg0 as nat);
    lemma_word_of(m.arg1 as nat);
    lemma_word_of(size);
    lemma_word_of(0);
    lemma_word_of(magic);
    assert(out@.subrange(0, 4) =~= bytes::le_bytes(m.command as nat, 4));
    assert(out@.subrange(4, 8) =~= bytes::le_bytes(m.arg0 as nat, 4));
    assert(out@.subrange(8, 12) =~= bytes::le_bytes(m.arg1 as nat, 4));
    assert(out@.subrange(12, 16) =~= bytes::le_bytes(size, 4));
    assert(out@.subrange(16, 20) =~= bytes::le_bytes(0, 4));
    assert(out@.subrange(20, 24) =~= bytes::le_bytes(magic, 4));
    assert(out@.skip(24) =~= m.payload@);
}

proof fn lemma_word_of(v: nat)
    requires
        v < 0x1_0000_0000,
    ensures
        bytes::le_bytes(v, 4).len() == 4,
        bytes::le_value(bytes::le_bytes(v, 4)) == v,
{
    bytes::lemma_le_bytes_len(v, 4);
    assert(bytes::bytes_range(4) == 0x1_0000_0000) by {
        reveal_with_fuel(bytes::bytes_range, 5);
    }
    bytes::law_le_round_trip(v, 4);
}

/// What was written as a message is read back from its first 24 bytes, if the
/// payload is not too large; a larger one is refused.
pub proof fn law_header_is_read_back(
    m: Message,
    out: Vec<u8>,
    header: &[u8],
    r: Result<Header, AdbError>,
)
    requires
        m.payload@.len() <= u32::MAX,
        write_msg.ensures((&m,), out),
        header@ == out@.take(24),
        read_header.ensures((header,), r),
    ensures
        r is Ok <==> m.payload@.len() <= 0x10_0000,
        r matches Ok(h) ==> h.command == m.command && h.arg0 == m.arg0 && h.arg1 == m.arg1
            && h.size == m.payload@.len(),
{
    law_message_is_six_words(m, out);
    assert(header@.subrange(0, 4) =~= out@.subrange(0, 4));
    assert(header@.subrange(4, 8) =~= out@.subrange(4, 8));
    assert(header@.subrange(8, 12) =~= out@.subrange(8, 12));
    assert(header@.subrange(12, 16) =~= out@.subrange(12, 16));
    assert(header@.subrange(20, 24) =~= out@.subrange(20, 24));
}

/// A header is refused if its last word is not the first with every bit flipped, or
/// if it announces more than a mebibyte; and only then.
pub proof fn law_headers_are_checked(header: &[u8], r: Result<Header, AdbError>)
    requires
        header@.len() == 24,
        read_header.ensures((header,), r),
    ensures
        r is Ok <==> bytes::le_value(header@.subrange(0, 4)) + bytes::le_value(
            header@.subrange(20, 24),
        ) == 0xffff_ffff && bytes::le_value(header@.subrange(12, 16)) <= 0x10_0000,
        r matches Ok(h) ==> {
            &&& h.command == bytes::le_value(header@.subrange(0, 4))
            &&& h.arg0 == bytes::le_value(header@.subrange(4, 8))
            &&& h.arg1 == bytes::le_value(header@.subrange(8, 12))
            &&& h.size == bytes::le_value(header@.subrange(12, 16))
        },
{
}

/// The commands are the letters CNXN, OPEN, OKAY, CLSE, WRTE and STLS, the first
/// being the lowest byte.
pub proof fn law_commands_are_letters(m: Message, out: Vec<u8>)
    requires
        m.payload@.len() <= u32::MAX,
        write_msg.ensures((&m,), out),
    ensures
        m.command == A_CNXN <==> out@.take(4) == seq![67u8, 78u8, 88u8, 78u8],
        m.command == A_OPEN <==> out@.take(4) == seq![79u8, 80u8, 69u8, 78u8],
        m.command == A_OKAY <==> out@.take(4) == seq![79u8, 75u8, 65u8, 89u8],
        m.command == A_CLSE <==> out@.take(4) == seq![67u8, 76u8, 83u8, 69u8],
        m.command == A_WRTE <==> out@.take(4) == seq![87u8, 82u8, 84u8, 69u8],
        m.command == A_STLS <==> out@.take(4) == seq![83u8, 84u8, 76u8, 83u8],
{
    law_message_is_six_words(m, out);
    let s = out@.take(4);
    assert(s =~= out@.subrange(0, 4));
    lemma_letters(s, 67, 78, 88, 78);
    lemma_letters(s, 79, 80, 69, 78);
    lemma_letters(s, 79, 75, 65, 89);
    lemma_letters(s, 67, 76, 83, 69);
    lemma_letters(s, 87, 82, 84, 69);
    lemma_letters(s, 83, 84, 76, 83);
}

proof fn lemma_letters(s: Seq<u8>, a: u8, b: u8, c: u8, d: u8)
    requires
        s.len() == 4,
    ensures
        bytes::le_value(s) == a + 256 * b + 65536 * c + 16777216 * d <==> s == seq![a, b, c, d],
{
    let t = seq![a, b, c, d];
    reveal_with_fuel(bytes::le_value, 5);
    assert(t.skip(1)[0] == b);
    assert(t.skip(1).skip(1)[0] == c);
    assert(t.skip(1).skip(1).skip(1)[0] == d);
    assert(t.skip(1).skip(1).skip(1).skip(1).len() == 0);
    bytes::lemma_bytes_of_value(s);
    bytes::lemma_bytes_of_value(t);
}

/// A service is named only after the channel was secured and the device announced
/// itself on it; any other answer ends the opening with an error.
pub proof fn law_service_is_opened_in_order(
    state: Opening,
    event: OpenEvent,
    service: &str,
    r: (Opening, OpenAction),
)
    requires
        state.awaits(event),
        AdbStream::open.ensures((state, event, service), r),
    ensures
        r.1 is Fail ==> r.0 == Opening::Over,
        r.1 is Secure <==> state == Opening::Announced && (event matches OpenEvent::Received(m)
            && m.command == A_STLS),
        r.1 is Wait <==> state == Opening::Securing,
        r.1 is Send <==> state == Opening::Secured && (event matches OpenEvent::Received(m)
            && m.command == A_CNXN),
        r.1 is Opened <==> state == Opening::Asked && (event matches OpenEvent::Received(m)
            && m.command == A_OKAY),
        r.1 is Secure ==> r.0 == Opening::Securing,
        r.1 is Wait ==> r.0 == Opening::Secured,
        r.1 is Send ==> r.0 == Opening::Asked,
        r.1 matches OpenAction::Secure(out) ==> out.command == A_STLS && out.arg0 == 0x0100_0000
            && out.arg1 == 0 && out.payload@.len() == 0,
        r.1 matches OpenAction::Send(out) ==> {
            let name = vstd::utf8::encode_utf8(service@);
            &&& out.command == A_OPEN && out.arg0 == 1 && out.arg1 == 0
            &&& out.payload@.len() == name.len() + 1
            &&& out.payload@.drop_last() == name
            &&& out.payload@.last() == 0
        },
        r.1 matches OpenAction::Opened(stream) ==> (event matches OpenEvent::Received(m)
            && stream.remote_id == m.arg0),
{
    if let OpenAction::Send(out) = r.1 {
        assert(out.payload@.drop_last() =~= vstd::utf8::encode_utf8(service@));
    }
}

/// On an open stream data is handed on and acknowledged to the device under its own
/// id; a close ends it, and an acknowledgement brings nothing.
pub proof fn law_stream_acknowledges_data(
    stream: AdbStream,
    m: Message,
    r: Result<Incoming, AdbError>,
)
    requires
        call_ensures(AdbStream::read_next, (&stream, m), r),
    ensures
        r is Ok <==> m.command == A_WRTE || m.command == A_CLSE || m.command == A_OKAY,
        r matches Ok(i) ==> {
            &&& i.data is None <==> m.command == A_CLSE
            &&& i.answer is Some <==> m.command == A_WRTE
            &&& i.answer matches Some(ack) ==> ack.command == A_OKAY && ack.arg0 == 1 && ack.arg1
                == stream.remote_id && ack.payload@.len() == 0
            &&& m.command == A_WRTE ==> (i.data matches Some(data) && data@ == m.payload@)
            &&& m.command == A_OKAY ==> (i.data matches Some(data) && data@.len() == 0)
        },
{
}

/// A write carries the data to the device's end of the stream, and is done once the
/// device acknowledges it.
pub proof fn law_write_goes_to_the_stream(
    stream: AdbStream,
    data: &[u8],
    m: Message,
    answer: Message,
    r: Result<(), AdbError>,
    end: Message,
)
    requires
        call_ensures(AdbStream::write_all, (&stream, data), m),
        call_ensures(AdbStream::written, (&stream, &answer), r),
        call_ensures(AdbStream::close, (&stream,), end),
    ensures
        m.command == A_WRTE && m.arg0 == 1 && m.arg1 == stream.remote_id && m.payload@ == data@,
        r is Ok <==> answer.command == A_OKAY,
        end.command == A_CLSE && end.arg0 == 1 && end.arg1 == stream.remote_id
            && end.payload@.len() == 0,
{
}

/// What a device puts together out of the frames of a push: each is called DATA, says
/// its size, and holds at most 65536 bytes.
pub open spec fn collected(stream: Seq<u8>) -> Option<Seq<u8>>
    decreases stream.len(),
{
    if stream.len() == 0 {
        Some(Seq::empty())
    } else if stream.len() < 8 {
        None
    } else {
        let size = bytes::le_value(stream.subrange(4, 8)) as int;
        if stream.take(4) != seq![68u8, 65u8, 84u8, 65u8] || !(1 <= size <= 65536) || stream.len()
            < 8 + size {
            None
        } else {
            match collected(stream.skip(8 + size)) {
                Some(rest) => Some(stream.subrange(8, 8 + size) + rest),
                None => None,
            }
        }
    }
}

proof fn lemma_ids()
    ensures
        frame_id("DATA"@) == seq![68u8, 65u8, 84u8, 65u8],
        frame_id("SEND"@) == seq![83u8, 69u8, 78u8, 68u8],
        frame_id("DONE"@) == seq![68u8, 79u8, 78u8, 69u8],
        frame_id("OKAY"@) == seq![79u8, 75u8, 65u8, 89u8],
        frame_id("FAIL"@) == seq![70u8, 65u8, 73u8, 76u8],
{
    reveal_strlit("DATA");
    reveal_strlit("SEND");
    reveal_strlit("DONE");
    reveal_strlit("OKAY");
    reveal_strlit("FAIL");
    vstd::utf8::is_ascii_chars_encode_utf8("DATA"@);
    vstd::utf8::is_ascii_chars_encode_utf8("SEND"@);
    vstd::utf8::is_ascii_chars_encode_utf8("DONE"@);
    vstd::utf8::is_ascii_chars_encode_utf8("OKAY"@);
    vstd::utf8::is_ascii_chars_encode_utf8("FAIL"@);
    assert(frame_id("DATA"@) =~= seq![68u8, 65u8, 84u8, 65u8]);
    assert(frame_id("SEND"@) =~= seq![83u8, 69u8, 78u8, 68u8]);
    assert(frame_id("DONE"@) =~= seq![68u8, 79u8, 78u8, 69u8]);
    assert(frame_id("OKAY"@) =~= seq![79u8, 75u8, 65u8, 89u8]);
    assert(frame_id("FAIL"@) =~= seq![70u8, 65u8, 73u8, 76u8]);
}

proof fn lemma_collected(data: Seq<u8>, from: int)
    requires
        0 <= from <= data.len(),
    ensures
        collected(frames_from(data, from)) == Some(data.skip(from)),
    decreases data.len() - from,
{
    lemma_ids();
    if from < data.len() {
        let end = piece_end(data, from);
        let piece = data.subrange(from, end);
        let rest = frames_from(data, end);
        let stream = frames_from(data, from);
        let id = frame_id("DATA"@);
        lemma_collected(data, end);
        lemma_word_of(piece.len());
        assert(stream =~= id + bytes::le_bytes(piece.len(), 4) + (piece + rest));
        assert(stream.take(4) =~= id);
        assert(stream.subrange(4, 8) =~= bytes::le_bytes(piece.len(), 4));
        assert(stream.subrange(8, 8 + piece.len() as int) =~= piece);
        assert(stream.skip(8 + piece.len() as int) =~= rest);
        assert(piece + data.skip(end) =~= data.skip(from));
    } else {
        assert(data.skip(from) =~= Seq::<u8>::empty());
    }
}

/// The writes of a push are a SEND frame with the path and the mode, frames out of
/// which the device puts exactly the file together, and DONE with the time of the
/// file. None is larger than a message can carry, and none is empty.
pub proof fn law_pushed_file_arrives(
    data: &[u8],
    remote_path: &str,
    mode: u32,
    mtime: u32,
    out: Vec<Vec<u8>>,
)
    requires
        vstd::utf8::encode_utf8(remote_path@ + seq![','] + number::decimal(mode as nat)).len()
            <= u32::MAX,
        push_file.ensures((data, remote_path, mode, mtime), out),
    ensures
        out@.len() >= 2,
        ({
            let first = out@[0]@;
            let target = vstd::utf8::encode_utf8(
                remote_path@ + seq![','] + number::decimal(mode as nat),
            );
            &&& first.take(4) == seq![83u8, 69u8, 78u8, 68u8]
            &&& bytes::le_value(first.subrange(4, 8)) == target.len()
            &&& first.skip(8) == target
        }),
        ({
            let last = out@.last()@;
            &&& last.len() == 8
            &&& last.take(4) == seq![68u8, 79u8, 78u8, 69u8]
            &&& bytes::le_value(last.skip(4)) == mtime
        }),
        collected(stream_of(write_views(out@).subrange(1, out@.len() - 1))) == Some(data@),
        forall|i: int|
            1 <= i < out@.len() - 1 ==> 0 < (#[trigger] out@[i])@.len() <= 0x10_0000,
{
    reveal_strlit(",");
    assert(","@ =~= seq![',']);
    let all = write_views(out@);
    let middle = batches(data@, 0, Seq::empty());
    let target = vstd::utf8::encode_utf8(remote_path@ + ","@ + number::decimal(mode as nat));
    lemma_ids();
    assert(all.len() == 2 + middle.len());
    assert(out@[0]@ == all[0]);
    assert(out@.last()@ == all.last());
    lemma_word_of(target.len());
    lemma_word_of(mtime as nat);
    let first = out@[0]@;
    assert(first.take(4) =~= frame_id("SEND"@));
    assert(first.subrange(4, 8) =~= bytes::le_bytes(target.len(), 4));
    assert(first.skip(8) =~= target);
    let last = out@.last()@;
    assert(last.take(4) =~= frame_id("DONE"@));
    assert(last.skip(4) =~= bytes::le_bytes(mtime as nat, 4));
    assert(all.subrange(1, out@.len() - 1) =~= middle);
    lemma_batches(data@, 0, Seq::empty());
    lemma_collected(data@, 0);
    assert(Seq::<u8>::empty() + frames_from(data@, 0) =~= frames_from(data@, 0));
    assert(data@.skip(0) =~= data@);
    assert forall|i: int| 1 <= i < out@.len() - 1 implies 0 < (#[trigger] out@[i])@.len()
        <= 0x10_0000 by {
        assert(out@[i]@ == all[i]);
        assert(all[i] == middle[i - 1]);
    }
}

/// A push has worked exactly if the device answers with at least eight bytes that
/// begin with OKAY. After FAIL the message that the device sent is told, as far as
/// it came.
pub proof fn law_push_status_is_told(resp: &[u8], r: Result<(), AdbError>, size: int)
    requires
        parse_sync_status.ensures((resp,), r),
    ensures
        r is Ok <==> resp@.len() >= 8 && resp@.take(4) == seq![79u8, 75u8, 65u8, 89u8],
        resp@.len() >= 8 && resp@.take(4) == seq![70u8, 65u8, 73u8, 76u8] && size
            == bytes::le_value(resp@.subrange(4, 8)) && 8 + size <= resp@.len() ==> (
        r matches Err(AdbError::Protocol(m)) && m@ == "sync push failed: "@ + text::lossy_text(
            resp@.subrange(8, 8 + size),
        )),
        resp@.len() >= 8 && resp@.take(4) == seq![70u8, 65u8, 73u8, 76u8] && size
            == bytes::le_value(resp@.subrange(4, 8)) && 8 + size > resp@.len() ==> (
        r matches Err(AdbError::Protocol(m)) && m@ == "sync push failed: "@ + text::lossy_text(
            resp@.subrange(8, resp@.len() as int),
        )),
{
    lemma_ids();
    assert(seq![70u8, 65u8, 73u8, 76u8][0] != seq![79u8, 75u8, 65u8, 89u8][0]);
}

/// Each port from 32768 to 60999 is looked at by one of the threads, and by no other.
pub proof fn law_each_port_has_its_thread(
    port: u16,
    a: u16,
    b: u16,
    of_a: (u16, u16),
    of_b: (u16, u16),
)
    requires
        32768 <= port <= 60999,
        a < 128,
        b < 128,
        scan_slice.ensures((a,), of_a),
        scan_slice.ensures((b,), of_b),
    ensures
        a == (port - 32768) / 221 ==> of_a.0 <= port <= of_a.1,
        of_a.0 <= port <= of_a.1 && of_b.0 <= port <= of_b.1 ==> a == b,
        of_a.0 >= 32768 && of_a.1 <= 60999,
{
}

/// Eight to that power.
pub open spec fn eights(n: nat) -> nat
    decreases n,
{
    if n == 0 {
        1
    } else {
        8 * eights((n - 1) as nat)
    }
}

proof fn lemma_octal_bound(s: Seq<char>)
    requires
        all_octal(s),
    ensures
        octal_value(s) < eights(s.len()),
    decreases s.len(),
{
    if s.len() > 0 {
        assert(is_octal(s.last()));
        lemma_octal_bound(s.drop_last());
    }
}

/// Permissions are read as an octal number: each digit counts eight times what the
/// one behind it does, and a plus sign in front changes nothing. What is no octal
/// number, or is missing, gives 0644.
pub proof fn law_permissions_are_octal(
    a: &str,
    b: &str,
    c: char,
    of_a: u32,
    of_b: u32,
    of_none: u32,
)
    requires
        parse_mode.ensures((Some(a),), of_a),
        parse_mode.ensures((Some(b),), of_b),
        parse_mode.ensures((None,), of_none),
    ensures
        of_none == 6 * 64 + 4 * 8 + 4,
        '0' <= c <= '7' && a@ == seq![c] ==> of_a == c as int - 48,
        1 <= a@.len() <= 9 && all_octal(a@) && '0' <= c <= '7' && b@ == a@.push(c) ==> of_b == of_a
            * 8 + (c as int - 48),
        1 <= a@.len() && all_octal(a@) && b@ == seq!['+'] + a@ ==> of_b == of_a,
        a@.len() == 0 ==> of_a == of_none,
        (exists|i: int| 0 <= i < a@.len() && !is_octal(#[trigger] a@[i]) && (i > 0 || a@[i]
            != '+')) ==> of_a == of_none,
{
    assert(0o644 == 6 * 64 + 4 * 8 + 4);
    if '0' <= c <= '7' && a@ == seq![c] {
        reveal_with_fuel(octal_value, 2);
        assert(a@.drop_last().len() == 0);
        assert(all_octal(a@));
        assert(octal_value(a@) == c as nat - 48);
    }
    if 1 <= a@.len() <= 9 && all_octal(a@) && '0' <= c <= '7' && b@ == a@.push(c) {
        assert(is_octal(a@[0]));
        assert(b@.drop_last() =~= a@);
        assert(all_octal(b@));
        lemma_octal_bound(a@);
        lemma_octal_bound(b@);
        assert(eights(b@.len()) <= eights(10)) by {
            reveal_with_fuel(eights, 11);
        }
        assert(eights(a@.len()) <= eights(10)) by {
            reveal_with_fuel(eights, 11);
        }
        assert(eights(10) == 0x4000_0000) by {
            reveal_with_fuel(eights, 11);
        }
        assert(b@[0] == a@[0]);
    }
    if 1 <= a@.len() && all_octal(a@) && b@ == seq!['+'] + a@ {
        assert(is_octal(a@[0]));
        assert(b@.skip(1) =~= a@);
    }
    if exists|i: int| 0 <= i < a@.len() && !is_octal(#[trigger] a@[i]) && (i > 0 || a@[i] != '+') {
        let i = choose|i: int|
            0 <= i < a@.len() && !is_octal(#[trigger] a@[i]) && (i > 0 || a@[i] != '+');
        let digits = without_plus(a@);
        if a@[0] == '+' {
            assert(digits[i - 1] == a@[i]);
        } else {
            assert(digits[i] == a@[i]);
        }
    }
}

/// A file is stored as a regular one with the permissions that were asked for.
pub proof fn law_pushed_file_is_regular(permissions: u32, r: u32)
    requires
        permissions < 0x8000,
        file_mode.ensures((permissions,), r),
    ensures
        r == 0x8000 + permissions,
{
    assert(0o100_000u32 | permissions == 0x8000 + permissions) by (bit_vector)
        requires
            permissions < 0x8000,
    ;
}

} // verus!
