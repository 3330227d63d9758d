//! Controller side of a link: turns a command into a request with a fresh id and
//! picks the reply that belongs to it out of what comes in.

use vstd::prelude::*;

use crate::net::error::NetError;
use crate::proto::id::RequestId;
use crate::proto::wire::{Command, Event, Frame, RemoteError, RemoteErrorKind, Reply, Request};
use crate::text;

verus! {

/// Error of a request: a link failure, or a structured failure that the runner
/// returned for the command while the link stays usable.
#[derive(Debug, Clone, PartialEq, Eq)]
pub enum ControllerError {
    /// Link failure; the connection has to be established anew.
    Net(NetError),
    /// The runner answered with a failure.
    Remote(RemoteError),
}

/// The name of an error category.
pub open spec fn kind_text(kind: RemoteErrorKind) -> Seq<char> {
    match kind {
        RemoteErrorKind::Denied => "Denied"@,
        RemoteErrorKind::NotFound => "NotFound"@,
        RemoteErrorKind::Timeout => "Timeout"@,
        RemoteErrorKind::Os => "Os"@,
        RemoteErrorKind::Invalid => "Invalid"@,
    }
}

fn kind_name(kind: RemoteErrorKind) -> (r: &'static str)
    ensures
        r@ == kind_text(kind),
{
    match kind {
        RemoteErrorKind::Denied => "Denied",
        RemoteErrorKind::NotFound => "NotFound",
        RemoteErrorKind::Timeout => "Timeout",
        RemoteErrorKind::Os => "Os",
        RemoteErrorKind::Invalid => "Invalid",
    }
}

impl ControllerError {
    /// The message shown for the error.
    pub open spec fn message(self) -> Seq<char> {
        match self {
            ControllerError::Net(e) => e.message(),
            ControllerError::Remote(e) => "runner error ["@ + kind_text(e.kind) + "]: "@
                + e.message@,
        }
    }

    /// Renders the error's message.
    pub fn to_string(&self) -> (out: String)
        ensures
            out@ == self.message(),
    {
        match self {
            ControllerError::Net(e) => e.to_string(),
            ControllerError::Remote(e) => {
                let mut out = text::join3("runner error [", kind_name(e.kind), "]: ");
                out.append(e.message.as_str());
                out
            },
        }
    }

    /// Whether this error invalidates the link.
    #[must_use]
    pub fn is_fatal(&self) -> (r: bool)
        ensures
            r == !(self is Remote),
    {
        match self {
            ControllerError::Remote(_) => false,
            ControllerError::Net(_) => true,
        }
    }
}

/// What an incoming frame means for a request in flight.
pub enum Progress {
    /// The request is answered.
    Done(Result<Reply, ControllerError>),
    /// An interim event, for whoever follows along.
    Event(Event),
    /// A frame that has nothing to do with the request.
    Skip,
}

/// The request counter of a controller.
pub struct Controller {
    next_id: u64,
}

impl Controller {
    /// The id of the latest request.
    pub closed spec fn latest(self) -> u64 {
        self.next_id
    }

    /// A controller that has not asked anything yet.
    pub fn new() -> (c: Self)
        ensures
            c.latest() == 0,
    {
        Controller { next_id: 0 }
    }

    /// Wraps a command into a request with an id that was not used before.
    pub fn request(&mut self, command: Command) -> (r: (RequestId, Frame))
        requires
            old(self).latest() < u64::MAX,
        ensures
            final(self).latest() == old(self).latest() + 1,
            r.0 == RequestId(final(self).latest()),
            r.1 == Frame::Request(Request { id: r.0, command }),
    {
        self.next_id = self.next_id + 1;
        let id = RequestId(self.next_id);
        (id, Frame::Request(Request { id, command }))
    }
}

/// What an incoming frame means for the request `id`; none is a link that ended.
pub open spec fn progress(id: RequestId, frame: Option<Frame>) -> Progress {
    match frame {
        Some(Frame::Response(response)) => if response.id == id {
            Progress::Done(
                match response.result {
                    Ok(reply) => Ok(reply),
                    Err(e) => Err(ControllerError::Remote(e)),
                },
            )
        } else {
            Progress::Skip
        },
        Some(Frame::Event(event)) => Progress::Event(event),
        Some(_) => Progress::Skip,
        None => Progress::Done(Err(ControllerError::Net(NetError::Closed))),
    }
}

/// Treats a frame that comes in while the request `id` is in flight.
pub fn dispatch(id: RequestId, frame: Option<Frame>) -> (r: Progress)
    ensures
        r == progress(id, frame),
{
    match frame {
        Some(Frame::Response(response)) => {
            if response.id == id {
                match response.result {
                    Ok(reply) => Progress::Done(Ok(reply)),
                    Err(e) => Progress::Done(Err(ControllerError::Remote(e))),
                }
            } else {
                Progress::Skip
            }
        },
        Some(Frame::Event(event)) => Progress::Event(event),
        Some(_) => Progress::Skip,
        None => Progress::Done(Err(ControllerError::Net(NetError::Closed))),
    }
}

/// Only the response that carries the request's own id answers it: whatever else
/// arrives in between is passed over or handed on.
pub proof fn law_only_own_response_answers(id: RequestId, frame: Frame)
    ensures
        progress(id, Some(frame)) is Done <==> (frame matches Frame::Response(response)
            && response.id == id),
{
}

/// A request is answered by the reply or the failure that the response with its own
/// number bears, and by the end of the link; every event is handed on.
pub proof fn law_request_gets_its_own_answer(id: RequestId, frame: Option<Frame>, r: Progress)
    requires
        dispatch.ensures((id, frame), r),
    ensures
        r is Done <==> frame is None || (frame matches Some(Frame::Response(response))
            && response.id == id),
        frame matches Some(Frame::Response(response)) ==> (response.id == id
            ==> match response.result {
            Ok(reply) => r == Progress::Done(Ok(reply)),
            Err(e) => r == Progress::Done(Err(ControllerError::Remote(e))),
        }),
        frame is None ==> (r matches Progress::Done(Err(e)) && e is Net),
        frame matches Some(Frame::Event(event)) ==> r == Progress::Event(event),
        r is Event <==> (frame matches Some(f) && f is Event),
{
}

/// Requests of one controller have different numbers, each carries its command, and
/// bears the number it is answered by.
pub proof fn law_requests_are_numbered(
    controller: &mut Controller,
    command: Command,
    r: (RequestId, Frame),
)
    requires
        call_ensures(Controller::request, (controller, command), r),
    ensures
        r.1 matches Frame::Request(request) && request.id == r.0 && request.command == command,
        r.0.0 > old(controller).latest(),
        final(controller).latest() == r.0.0,
{
}

/// A failure that the runner reports leaves the link in use; any other does not.
pub proof fn law_runner_failure_keeps_the_link(e: &ControllerError, r: bool)
    requires
        call_ensures(ControllerError::is_fatal, (e,), r),
    ensures
        r <==> e is Net,
{
}

} // verus!
