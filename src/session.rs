//! A session over one channel, as a state machine.
//!
//! The caller moves the bytes: it writes the request frame that `cmd` hands
//! back, then feeds whatever it reads to `receive` until a response comes
//! out. One exchange finishes before the next may start, so responses come
//! back in the order their commands were issued.
use vstd::prelude::*;
use vstd::utf8::{decode_utf8, valid_utf8};

use crate::error::R2PipeError;
use crate::frame::{
    after_frame, decode_payload, encode_request, find_terminator, frame_payload, has_terminator,
    request_frame, slice_prefix, slice_suffix,
};
use crate::select::{select, selection, ChannelSpec};

verus! {

/// The state of a session.
pub struct R2Pipe {
    /// The channel; it never changes.
    pub channel: ChannelSpec,
    /// Set by `close`, for good.
    pub closed: bool,
    /// An exchange has started and its response has not come yet.
    pub waiting: bool,
    /// Bytes read that no response has used yet.
    pub pending: Vec<u8>,
}

/// What the caller must do to tear a channel down.
#[derive(Debug, PartialEq, Eq)]
pub enum CloseAction {
    /// Nothing: the session was closed before.
    AlreadyClosed,
    /// Write `request` (best effort), wait for the engine to exit, and drop
    /// both pipe ends.
    QuitAndWait { request: Vec<u8> },
    /// Drop the local handles only; the engine that owns them runs on.
    Release,
}

/// The command that asks a spawned engine to quit.
pub open spec fn quit_command() -> Seq<char> {
    "q!"@
}

/// `r` is what decoding the response payload `payload` gives.
pub open spec fn decoded(payload: Seq<u8>, r: Result<String, R2PipeError>) -> bool {
    match r {
        Ok(t) => valid_utf8(payload) && t@ == decode_utf8(payload),
        Err(e) => !valid_utf8(payload) && e == R2PipeError::Decode,
    }
}

/// `close` took the session from `before` to `after`, asking for `r`.
pub open spec fn closes(before: R2Pipe, after: R2Pipe, r: CloseAction) -> bool {
    if before.closed {
        r == CloseAction::AlreadyClosed && after == before
    } else {
        &&& after.closed
        &&& !after.waiting
        &&& after.pending@.len() == 0
        &&& after.channel == before.channel
        &&& match before.channel {
            ChannelSpec::Spawned { .. } => r matches CloseAction::QuitAndWait { request }
                && request@ == request_frame(quit_command()),
            ChannelSpec::Inherited { .. } => r == CloseAction::Release,
            ChannelSpec::NamedPipes { .. } => r == CloseAction::Release,
        }
    }
}

/// Closing twice is harmless: the second close asks for no teardown and
/// changes nothing, so no resource is released twice.
pub proof fn lemma_close_twice(
    p0: R2Pipe,
    p1: R2Pipe,
    p2: R2Pipe,
    first: CloseAction,
    second: CloseAction,
)
    requires
        closes(p0, p1, first),
        closes(p1, p2, second),
    ensures
        second == CloseAction::AlreadyClosed,
        p2 == p1,
        p1.closed,
{
}

impl R2Pipe {
    /// A connected session over `channel`, once the caller has opened it.
    /// A spawned engine announces that it is ready with one empty response,
    /// so such a session starts out waiting for it.
    pub fn attach(channel: ChannelSpec) -> (r: R2Pipe)
        ensures
            r.channel == channel,
            !r.closed,
            r.waiting == (channel is Spawned),
            r.pending@.len() == 0,
    {
        let waiting = match &channel {
            ChannelSpec::Spawned { .. } => true,
            _ => false,
        };
        R2Pipe { channel, closed: false, waiting, pending: Vec::new() }
    }

    /// A session over the channel that `path` and the configuration `cfg` select.
    pub fn open(path: Option<String>, cfg: &Vec<(String, String)>) -> (r: Result<
        R2Pipe,
        R2PipeError,
    >)
        ensures
            match selection(path, cfg@) {
                Ok(c) => r matches Ok(p) && p.channel == c && !p.closed && p.waiting == (
                c is Spawned) && p.pending@.len() == 0,
                Err(e) => r matches Err(f) && f == e,
            },
    {
        match select(path, cfg) {
            Ok(c) => Ok(R2Pipe::attach(c)),
            Err(e) => Err(e),
        }
    }

    /// Start an exchange: the request frame to write for `command`.
    pub fn cmd(&mut self, command: &str) -> (r: Result<Vec<u8>, R2PipeError>)
        requires
            !old(self).waiting,
        ensures
            old(self).closed ==> r == Err::<Vec<u8>, R2PipeError>(R2PipeError::Closed)
                && *final(self) == *old(self),
            !old(self).closed ==> (r matches Ok(b) && b@ == request_frame(command@)),
            !old(self).closed ==> final(self).waiting,
            final(self).channel == old(self).channel,
            final(self).closed == old(self).closed,
            final(self).pending@ == old(self).pending@,
    {
        if self.closed {
            return Err(R2PipeError::Closed);
        }
        self.waiting = true;
        Ok(encode_request(command))
    }

    /// Take in bytes read from the channel. Once they complete a response
    /// frame, hand back its text and end the exchange; bytes after the
    /// terminator stay for the next response.
    pub fn receive(&mut self, chunk: &[u8]) -> (r: Option<Result<String, R2PipeError>>)
        ensures
            final(self).channel == old(self).channel,
            final(self).closed == old(self).closed,
            !has_terminator(old(self).pending@ + chunk@) ==> r is None && final(self).pending@
                == old(self).pending@ + chunk@ && final(self).waiting == old(self).waiting,
            has_terminator(old(self).pending@ + chunk@) ==> (r matches Some(t) && decoded(
                frame_payload(old(self).pending@ + chunk@),
                t,
            )),
            has_terminator(old(self).pending@ + chunk@) ==> final(self).pending@ == after_frame(
                old(self).pending@ + chunk@,
            ) && !final(self).waiting,
    {
        self.pending.extend_from_slice(chunk);
        let ghost all = self.pending@;
        assert(all == old(self).pending@ + chunk@);
        let buf = self.pending.as_slice();
        match find_terminator(buf) {
            None => None,
            Some(i) => {
                let n = buf.len();
                assert(i < n);
                let payload = slice_prefix(buf, i);
                let rest = slice_suffix(buf, i + 1);
                self.pending = rest;
                self.waiting = false;
                Some(decode_payload(payload.as_slice()))
            },
        }
    }

    /// The stream ended: the exchange fails with `Transport`, and bytes of
    /// an unfinished frame are dropped rather than handed out.
    pub fn end_of_stream(&mut self) -> (r: R2PipeError)
        ensures
            r == R2PipeError::Transport,
            !final(self).waiting,
            final(self).pending@.len() == 0,
            final(self).channel == old(self).channel,
            final(self).closed == old(self).closed,
    {
        self.waiting = false;
        self.pending = Vec::new();
        R2PipeError::Transport
    }

    /// Close the session and say what teardown the channel needs. A second
    /// call finds the session closed and asks for nothing.
    pub fn close(&mut self) -> (r: CloseAction)
        ensures
            closes(*old(self), *final(self), r),
    {
        if self.closed {
            return CloseAction::AlreadyClosed;
        }
        self.closed = true;
        self.waiting = false;
        self.pending = Vec::new();
        match &self.channel {
            ChannelSpec::Spawned { .. } => {
                let request = encode_request("q!");
                proof {
                    reveal_strlit("q!");
                }
                CloseAction::QuitAndWait { request }
            },
            ChannelSpec::Inherited { .. } => CloseAction::Release,
            ChannelSpec::NamedPipes { .. } => CloseAction::Release,
        }
    }
}

} // verus!
