//! `R2`: a session with a queue of commands and the last response kept.
//!
//! Commands are queued by `send`, `analyze` and `init`. The caller drives
//! the session: `next_step` says what to do on the channel, `deliver` takes
//! what was read, and `recv` hands out the response kept last.
use vstd::prelude::*;
use vstd::utf8::{decode_utf8, encode_utf8, valid_utf8};

use crate::document::{document_text_of, is_blank, json_accepts, parse_document};
use crate::error::R2PipeError;
use crate::frame::{
    after_frame, frame_payload, has_terminator, lemma_payload_returned_exactly, request_frame,
    terminator_free,
};
use crate::select::{inherited_channel, inherited_session, selection};
use crate::session::{closes, CloseAction, R2Pipe};

verus! {

/// A session with commands waiting to be issued.
pub struct R2 {
    /// The session the commands go through.
    pub pipe: R2Pipe,
    /// The response kept last.
    pub readin: String,
    /// Commands not yet issued, each with whether its response is kept.
    pub queue: Vec<(String, bool)>,
    /// Whether the response of the exchange under way is kept.
    pub keep: bool,
}

/// What the caller is to do next on the channel.
#[derive(Debug, PartialEq, Eq)]
pub enum Step {
    /// Write these bytes.
    Write(Vec<u8>),
    /// Read, and hand what comes to `deliver` (or report the end of the stream).
    Read,
    /// Nothing is queued.
    Idle,
    /// A queued command could not be issued.
    Failed(R2PipeError),
}

/// The queued commands as text, each with whether its response is kept.
pub open spec fn queued(q: Seq<(String, bool)>) -> Seq<(Seq<char>, bool)> {
    q.map_values(|e: (String, bool)| (e.0@, e.1))
}

/// The message given when there is neither a session nor a target.
pub open spec fn no_session_message() -> Seq<char> {
    "No r2 session open. Please specify path!"@
}

/// The session is ready for a command: open, no exchange under way, no
/// bytes waiting and nothing queued.
pub open spec fn idle(r: R2) -> bool {
    &&& !r.pipe.closed
    &&& !r.pipe.waiting
    &&& r.pipe.pending@.len() == 0
    &&& r.queue@.len() == 0
}

/// Queueing `command` took `before` to `after`.
pub open spec fn sent(before: R2, after: R2, command: Seq<char>, keep: bool) -> bool {
    &&& queued(after.queue@) == queued(before.queue@).push((command, keep))
    &&& after.pipe == before.pipe
    &&& after.readin == before.readin
    &&& after.keep == before.keep
}

/// Handing out the kept response `r` took `before` to `after`.
pub open spec fn received(before: R2, after: R2, r: String) -> bool {
    &&& r@ == before.readin@
    &&& after.readin@.len() == 0
    &&& after.pipe == before.pipe
    &&& after.queue == before.queue
    &&& after.keep == before.keep
}

/// `next_step` took `before` to `after`, asking for `r`.
pub open spec fn stepped(before: R2, after: R2, r: Step) -> bool {
    if before.pipe.waiting {
        r == Step::Read && after == before
    } else if before.queue@.len() == 0 {
        r == Step::Idle && after == before
    } else {
        &&& queued(after.queue@) == queued(before.queue@).drop_first()
        &&& after.readin == before.readin
        &&& after.pipe.channel == before.pipe.channel
        &&& after.pipe.closed == before.pipe.closed
        &&& after.pipe.pending@ == before.pipe.pending@
        &&& before.pipe.closed ==> r == Step::Failed(R2PipeError::Closed) && !after.pipe.waiting
            && after.keep == before.keep
        &&& !before.pipe.closed ==> (r matches Step::Write(b) && b@ == request_frame(
            before.queue@[0].0@,
        )) && after.pipe.waiting && after.keep == before.queue@[0].1
    }
}

/// `deliver` took in `chunk`, taking `before` to `after` and answering `r`.
pub open spec fn delivered(
    before: R2,
    after: R2,
    chunk: Seq<u8>,
    r: Option<Result<(), R2PipeError>>,
) -> bool {
    let all = before.pipe.pending@ + chunk;
    &&& after.queue == before.queue
    &&& after.keep == before.keep
    &&& after.pipe.channel == before.pipe.channel
    &&& after.pipe.closed == before.pipe.closed
    &&& !has_terminator(all) ==> r is None && after.pipe.pending@ == all && after.pipe.waiting
        == before.pipe.waiting && after.readin == before.readin
    &&& has_terminator(all) ==> {
        let payload = frame_payload(all);
        &&& after.pipe.pending@ == after_frame(all)
        &&& !after.pipe.waiting
        &&& valid_utf8(payload) ==> r == Some(Ok::<(), R2PipeError>(())) && after.readin@ == (
        if before.keep {
            decode_utf8(payload)
        } else {
            Seq::empty()
        })
        &&& !valid_utf8(payload) ==> r == Some(Err::<(), R2PipeError>(R2PipeError::Decode))
            && after.readin == before.readin
    }
}

/// The stream ended, taking `before` to `after`, with `r` reported.
pub open spec fn ended(before: R2, after: R2, r: R2PipeError) -> bool {
    &&& r == R2PipeError::Transport
    &&& !after.pipe.waiting
    &&& after.pipe.pending@.len() == 0
    &&& after.pipe.channel == before.pipe.channel
    &&& after.pipe.closed == before.pipe.closed
    &&& after.queue == before.queue
    &&& after.readin == before.readin
    &&& after.keep == before.keep
}

/// From an idle session, queueing one command and taking the next step
/// writes that command's request frame and leaves the exchange under way.
proof fn lemma_issue_one(r0: R2, r1: R2, r2: R2, command: Seq<char>, s: Step)
    requires
        idle(r0),
        sent(r0, r1, command, true),
        stepped(r1, r2, s),
    ensures
        s matches Step::Write(b) && b@ == request_frame(command),
        r2.pipe.waiting,
        !r2.pipe.closed,
        r2.keep,
        r2.pipe.pending@.len() == 0,
        r2.queue@.len() == 0,
        r2.readin == r0.readin,
        r2.pipe.channel == r0.pipe.channel,
{
    assert(queued(r1.queue@).len() == 1);
    assert(queued(r1.queue@)[0] == (r1.queue@[0].0@, r1.queue@[0].1));
    assert(queued(r2.queue@).len() == 0);
}

/// A command issued on an idle session gets back exactly the payload that
/// the peer wrote before its first NUL: no terminator, nothing added or
/// cut at the end. Bytes after that NUL stay pending, and the session is
/// ready for the next command once the response is taken.
pub proof fn lemma_command_returns_payload(
    r0: R2,
    r1: R2,
    r2: R2,
    r3: R2,
    r4: R2,
    command: Seq<char>,
    s: Step,
    p: Seq<u8>,
    rest: Seq<u8>,
    d: Option<Result<(), R2PipeError>>,
    x: String,
)
    requires
        idle(r0),
        sent(r0, r1, command, true),
        stepped(r1, r2, s),
        delivered(r2, r3, p.push(0u8) + rest, d),
        received(r3, r4, x),
        terminator_free(p),
        valid_utf8(p),
    ensures
        s matches Step::Write(b) && b@ == request_frame(command),
        d == Some(Ok::<(), R2PipeError>(())),
        r3.readin@ == decode_utf8(p),
        x@ == decode_utf8(p),
        r4.readin@.len() == 0,
        r4.pipe.pending@ == rest,
        !r4.pipe.waiting && !r4.pipe.closed && r4.queue@.len() == 0,
        rest.len() == 0 ==> idle(r4),
{
    lemma_issue_one(r0, r1, r2, command, s);
    assert(r2.pipe.pending@ + (p.push(0u8) + rest) =~= p.push(0u8) + rest);
    lemma_payload_returned_exactly(p, rest);
}

/// A NUL inside what the peer meant as one payload ends the response
/// there: the command gets back only the bytes before it.
pub proof fn lemma_embedded_nul_truncates(
    r0: R2,
    r1: R2,
    r2: R2,
    r3: R2,
    r4: R2,
    command: Seq<char>,
    s: Step,
    p1: Seq<u8>,
    p2: Seq<u8>,
    d: Option<Result<(), R2PipeError>>,
    x: String,
)
    requires
        idle(r0),
        sent(r0, r1, command, true),
        stepped(r1, r2, s),
        delivered(r2, r3, p1.push(0u8) + p2.push(0u8), d),
        received(r3, r4, x),
        terminator_free(p1),
        valid_utf8(p1),
    ensures
        x@ == decode_utf8(p1),
        r4.pipe.pending@ == p2.push(0u8),
{
    lemma_command_returns_payload(r0, r1, r2, r3, r4, command, s, p1, p2.push(0u8), d, x);
}

/// Two commands issued one after the other get their responses in the
/// order they were issued, though the stream carries no request ids.
pub proof fn lemma_responses_follow_issue_order(
    r: Seq<R2>,
    a: Seq<char>,
    b: Seq<char>,
    s1: Step,
    s2: Step,
    pa: Seq<u8>,
    pb: Seq<u8>,
    d1: Option<Result<(), R2PipeError>>,
    d2: Option<Result<(), R2PipeError>>,
    x: String,
    y: String,
)
    requires
        r.len() == 9,
        idle(r[0]),
        sent(r[0], r[1], a, true),
        stepped(r[1], r[2], s1),
        delivered(r[2], r[3], pa.push(0u8), d1),
        received(r[3], r[4], x),
        sent(r[4], r[5], b, true),
        stepped(r[5], r[6], s2),
        delivered(r[6], r[7], pb.push(0u8), d2),
        received(r[7], r[8], y),
        terminator_free(pa),
        valid_utf8(pa),
        terminator_free(pb),
        valid_utf8(pb),
    ensures
        s1 matches Step::Write(w) && w@ == request_frame(a),
        s2 matches Step::Write(w) && w@ == request_frame(b),
        x@ == decode_utf8(pa),
        y@ == decode_utf8(pb),
{
    assert(pa.push(0u8) + Seq::<u8>::empty() =~= pa.push(0u8));
    assert(pb.push(0u8) + Seq::<u8>::empty() =~= pb.push(0u8));
    lemma_command_returns_payload(
        r[0],
        r[1],
        r[2],
        r[3],
        r[4],
        a,
        s1,
        pa,
        Seq::empty(),
        d1,
        x,
    );
    lemma_command_returns_payload(
        r[4],
        r[5],
        r[6],
        r[7],
        r[8],
        b,
        s2,
        pb,
        Seq::empty(),
        d2,
        y,
    );
}

/// While an exchange is under way, a newly queued command is not written:
/// the next step is to read.
pub proof fn lemma_one_exchange_at_a_time(
    r0: R2,
    r1: R2,
    r2: R2,
    r3: R2,
    w: Vec<u8>,
    command: Seq<char>,
    keep: bool,
    s: Step,
)
    requires
        stepped(r0, r1, Step::Write(w)),
        sent(r1, r2, command, keep),
        stepped(r2, r3, s),
    ensures
        s == Step::Read,
        r3 == r2,
{
}

/// When the peer goes away before ending its response, the exchange fails
/// with `Transport`, the unterminated bytes are dropped, and the response
/// kept before is what `recv` still hands out.
pub proof fn lemma_unterminated_response_fails(
    r0: R2,
    r1: R2,
    r2: R2,
    r3: R2,
    r4: R2,
    r5: R2,
    command: Seq<char>,
    s: Step,
    q: Seq<u8>,
    d: Option<Result<(), R2PipeError>>,
    e: R2PipeError,
    x: String,
)
    requires
        idle(r0),
        sent(r0, r1, command, true),
        stepped(r1, r2, s),
        delivered(r2, r3, q, d),
        ended(r3, r4, e),
        received(r4, r5, x),
        terminator_free(q),
    ensures
        d is None,
        e == R2PipeError::Transport,
        r4.pipe.pending@.len() == 0,
        !r4.pipe.waiting,
        x@ == r0.readin@,
{
    lemma_issue_one(r0, r1, r2, command, s);
    assert(r2.pipe.pending@ + q =~= q);
}

impl R2 {
    /// An `R2` over the channel that `path` and the configuration `cfg`
    /// select; the caller then opens that channel.
    pub fn new(path: Option<String>, cfg: &Vec<(String, String)>) -> (r: Result<R2, String>)
        ensures
            match selection(path, cfg@) {
                Ok(c) => r matches Ok(x) && x.pipe.channel == c && !x.pipe.closed
                    && x.pipe.waiting == (c is Spawned) && x.pipe.pending@.len() == 0
                    && x.readin@.len() == 0
                    && x.queue@.len() == 0,
                Err(_) => r matches Err(m) && m@ == no_session_message(),
            },
    {
        match R2Pipe::open(path, cfg) {
            Ok(p) => Ok(R2::from(p)),
            Err(_) => {
                proof {
                    reveal_strlit("No r2 session open. Please specify path!");
                }
                Err("No r2 session open. Please specify path!".to_owned())
            },
        }
    }

    /// Whether `cfg` announces an inherited session.
    pub fn in_session(cfg: &Vec<(String, String)>) -> (r: bool)
        ensures
            r == inherited_channel(cfg@) is Some,
    {
        match inherited_session(cfg) {
            Some(_) => true,
            None => false,
        }
    }

    /// An `R2` over a session, with nothing queued or kept. A response the
    /// session already waits for (a spawned engine's greeting) is not kept.
    pub fn from(r2p: R2Pipe) -> (r: R2)
        ensures
            r.pipe == r2p,
            r.readin@.len() == 0,
            r.queue@.len() == 0,
            !r.keep,
    {
        R2 { pipe: r2p, readin: String::new(), queue: Vec::new(), keep: false }
    }

    fn enqueue(&mut self, command: String, keep: bool)
        ensures
            queued(final(self).queue@) == queued(old(self).queue@).push((command@, keep)),
            final(self).pipe == old(self).pipe,
            final(self).readin == old(self).readin,
            final(self).keep == old(self).keep,
    {
        let ghost q = self.queue@;
        self.queue.push((command, keep));
        assert(queued(self.queue@) =~= queued(q).push((command@, keep)));
    }

    /// Queue the usual settings (ESIL on, colours off), then an analysis.
    pub fn init(&mut self)
        ensures
            queued(final(self).queue@) == queued(old(self).queue@).push(
                ("e asm.esil = true"@, true),
            ).push(("e scr.color = false"@, true)).push(("aa"@, false)),
            final(self).pipe == old(self).pipe,
            final(self).readin == old(self).readin,
            final(self).keep == old(self).keep,
    {
        proof {
            reveal_strlit("e asm.esil = true");
            reveal_strlit("e scr.color = false");
        }
        self.send("e asm.esil = true");
        self.send("e scr.color = false");
        self.analyze();
    }

    /// Close the session, dropping what is queued; the result says what
    /// teardown the channel needs.
    pub fn close(&mut self) -> (r: CloseAction)
        ensures
            closes(old(self).pipe, final(self).pipe, r),
            final(self).queue@.len() == 0,
            final(self).readin == old(self).readin,
            final(self).keep == old(self).keep,
    {
        self.queue = Vec::new();
        self.pipe.close()
    }

    /// Queue `cmd`; its response will be kept.
    pub fn send(&mut self, cmd: &str)
        ensures
            sent(*old(self), *final(self), cmd@, true),
    {
        self.enqueue(cmd.to_owned(), true);
    }

    /// Hand out the response kept last, and forget it.
    pub fn recv(&mut self) -> (r: String)
        ensures
            received(*old(self), *final(self), r),
    {
        let mut res = String::new();
        std::mem::swap(&mut res, &mut self.readin);
        res
    }

    /// Hand out the response kept last as a JSON document, and forget it.
    pub fn recv_json(&mut self) -> (r: Result<serde_json::Value, R2PipeError>)
        ensures
            r is Ok <==> json_accepts(document_text_of(old(self).readin@)),
            is_blank(encode_utf8(old(self).readin@)) ==> r is Ok,
            old(self).readin@ == "{}"@ ==> r is Ok,
            r matches Err(e) ==> e == R2PipeError::Structured,
            final(self).keep == old(self).keep,
            final(self).readin@.len() == 0,
            final(self).pipe == old(self).pipe,
            final(self).queue == old(self).queue,
    {
        let res = self.recv();
        parse_document(res.as_str())
    }

    /// Forget the response kept last.
    pub fn flush(&mut self)
        ensures
            final(self).readin@.len() == 0,
            final(self).pipe == old(self).pipe,
            final(self).queue == old(self).queue,
            final(self).keep == old(self).keep,
    {
        self.readin = String::new();
    }

    /// Queue an analysis of the whole program; its response is not kept.
    pub fn analyze(&mut self)
        ensures
            sent(*old(self), *final(self), "aa"@, false),
    {
        proof {
            reveal_strlit("aa");
        }
        self.enqueue("aa".to_owned(), false);
    }

    /// What to do next: read while an exchange is under way, else issue the
    /// first queued command, else nothing.
    pub fn next_step(&mut self) -> (r: Step)
        ensures
            stepped(*old(self), *final(self), r),
    {
        if self.pipe.waiting {
            return Step::Read;
        }
        if self.queue.len() == 0 {
            return Step::Idle;
        }
        let ghost q = self.queue@;
        let (command, keep) = self.queue.remove(0);
        assert(queued(self.queue@) =~= queued(q).drop_first());
        match self.pipe.cmd(command.as_str()) {
            Ok(b) => {
                self.keep = keep;
                Step::Write(b)
            },
            Err(e) => Step::Failed(e),
        }
    }

    /// Take in bytes read from the channel. Once they complete a response,
    /// keep its text if the exchange asked for that (else keep nothing), and
    /// say whether it decoded.
    pub fn deliver(&mut self, chunk: &[u8]) -> (r: Option<Result<(), R2PipeError>>)
        ensures
            delivered(*old(self), *final(self), chunk@, r),
    {
        match self.pipe.receive(chunk) {
            None => None,
            Some(Ok(t)) => {
                if self.keep {
                    self.readin = t;
                } else {
                    self.readin = String::new();
                }
                Some(Ok(()))
            },
            Some(Err(e)) => Some(Err(e)),
        }
    }

    /// The stream ended before a response was complete.
    pub fn end_of_stream(&mut self) -> (r: R2PipeError)
        ensures
            ended(*old(self), *final(self), r),
    {
        self.pipe.end_of_stream()
    }
}

} // verus!
