//! The client side of a transfer: how each server line drives a GET or a
//! PUT, when the transfer counts as complete (marker renamed or deleted)
//! or incomplete (marker kept for the next resume), and the bounded retry
//! policy — only a busy server and a narrow set of transport errors are
//! retried, everything else aborts at once.

use vstd::prelude::*;

use crate::codec::{
    dec_or_zero, err_message, parse_server_response, parse_server_response_spec, ErrView, GetError,
    RespView, ServerResponse,
};
use crate::strutil::{contains_seq, contains_str, split_whitespace_tokens, split_ws_spec,
    trim_end_part, trim_end_spec};

verus! {

/// Progress of one client-side download.
pub struct ClientGet {
    /// Bytes the server announced it will send.
    pub remaining: u64,
    /// Bytes received and written to the marker so far.
    pub received: u64,
}

/// How a GET begins, decided by the server's first response line.
pub enum ClientGetStart {
    /// `OK 0`: nothing to fetch, the transfer is already complete, no
    /// marker is touched.
    AlreadyComplete,
    /// `OK <n>`: open the marker at the resume offset and receive chunks.
    Download(ClientGet),
    /// A bare `OK` without the remainder field a download needs.
    BadHeader,
    /// A `NEXT` before any `OK`: a protocol violation, fatal.
    UnexpectedNext,
    /// An `ERR` line: the server refused, carrying this error.
    Refused(GetError),
}

/// Decide how a GET begins from the server's first line (trailing
/// whitespace ignored).
pub fn client_get_begin(line: &str) -> (r: ClientGetStart)
    ensures
        ({
            let t = trim_end_spec(line@);
            match parse_server_response_spec(t) {
                RespView::Error(e) => r matches ClientGetStart::Refused(err) && err@ == e,
                RespView::Next(_) => r is UnexpectedNext,
                RespView::Okay => {
                    let toks = split_ws_spec(t);
                    if toks.len() < 2 {
                        r is BadHeader
                    } else if dec_or_zero(toks[1]) == 0 {
                        r is AlreadyComplete
                    } else {
                        (r matches ClientGetStart::Download(g) && g.remaining == dec_or_zero(
                            toks[1],
                        ) && g.received == 0)
                    }
                },
            }
        }),
{
    let trimmed = trim_end_part(line);
    match parse_server_response(trimmed) {
        ServerResponse::Error(e) => ClientGetStart::Refused(e),
        ServerResponse::Next(_) => ClientGetStart::UnexpectedNext,
        ServerResponse::Okay => {
            let toks = split_whitespace_tokens(trimmed);
            if toks.len() < 2 {
                return ClientGetStart::BadHeader;
            }
            proof {
                assert(toks.deep_view()[1] == toks@[1]@);
            }
            let remaining = crate::codec::field_or_zero(toks[1].as_str());
            if remaining == 0 {
                ClientGetStart::AlreadyComplete
            } else {
                ClientGetStart::Download(ClientGet { remaining, received: 0 })
            }
        },
    }
}

/// One step of the download loop, decided by one server line.
pub enum ClientGetStep {
    /// Read exactly this many payload bytes and write them to the marker.
    Receive(u64),
    /// An `OK` arrived before the remainder was received: stop the loop;
    /// completion is then judged by [`ClientGet::finish`].
    StopEarly,
    /// An `ERR` arrived: fatal, carrying this error.
    Fail(GetError),
}

impl ClientGet {
    pub open spec fn wf(&self) -> bool {
        self.received <= self.remaining
    }

    /// Everything announced has arrived.
    pub fn done(&self) -> (r: bool)
        ensures
            r == (self.received >= self.remaining),
    {
        self.received >= self.remaining
    }

    /// Drive the download by one server line (trailing whitespace
    /// ignored): a chunk announcement advances the count by the announced
    /// size capped at what is still owed; anything else stops the loop.
    pub fn on_line(&mut self, line: &str) -> (step: ClientGetStep)
        requires
            old(self).wf(),
            old(self).received < old(self).remaining,
        ensures
            final(self).wf(),
            final(self).remaining == old(self).remaining,
            ({
                let t = trim_end_spec(line@);
                match parse_server_response_spec(t) {
                    RespView::Next(sz) => {
                        let n = vstd::math::min(sz, old(self).remaining - old(self).received);
                        step == ClientGetStep::Receive(n as u64) && final(self).received == old(
                            self,
                        ).received + n
                    },
                    RespView::Okay => step is StopEarly && *final(self) == *old(self),
                    RespView::Error(e) => (step matches ClientGetStep::Fail(err) && err@ == e
                        && *final(self) == *old(self)),
                }
            }),
    {
        let trimmed = trim_end_part(line);
        match parse_server_response(trimmed) {
            ServerResponse::Next(sz) => {
                let left = self.remaining - self.received;
                let n: u64 = if (sz as u64) < left {
                    sz as u64
                } else {
                    left
                };
                self.received = self.received + n;
                ClientGetStep::Receive(n)
            },
            ServerResponse::Okay => ClientGetStep::StopEarly,
            ServerResponse::Error(e) => ClientGetStep::Fail(e),
        }
    }

    /// Whether the download is complete: exactly then is the marker
    /// renamed into the target; otherwise it stays for the next resume.
    pub fn finish(&self) -> (complete: bool)
        ensures
            complete == (self.received == self.remaining),
    {
        self.received == self.remaining
    }
}

/// Progress of one client-side upload.
pub struct ClientPut {
    /// Bytes the finished file holds: the local file's size.
    pub total: u64,
    /// Bytes accounted for so far, the resume offset included.
    pub sent: u64,
}

/// How a PUT begins, decided by the server's first response line.
pub enum ClientPutBegin {
    /// A bare `OK`: the server is ready to receive.
    Proceed,
    /// An `ERR` line: the server refused, carrying this error.
    Refused(GetError),
    /// Anything else: a protocol violation, fatal.
    Unexpected,
}

/// Decide how a PUT begins from the server's first line (trailing
/// whitespace ignored).
pub fn client_put_begin(line: &str) -> (r: ClientPutBegin)
    ensures
        ({
            let t = trim_end_spec(line@);
            match parse_server_response_spec(t) {
                RespView::Okay => r is Proceed,
                RespView::Error(e) => r matches ClientPutBegin::Refused(err) && err@ == e,
                RespView::Next(_) => r is Unexpected,
            }
        }),
{
    let trimmed = trim_end_part(line);
    match parse_server_response(trimmed) {
        ServerResponse::Okay => ClientPutBegin::Proceed,
        ServerResponse::Error(e) => ClientPutBegin::Refused(e),
        ServerResponse::Next(_) => ClientPutBegin::Unexpected,
    }
}

/// One step of the upload loop, decided by one server line.
pub enum ClientPutStep {
    /// Read up to this many bytes from the local file at the current
    /// position, send them, and mirror them into the marker.
    Send(u64),
    /// The server acknowledged completion: stop the loop.
    ServerDone,
    /// An `ERR` arrived: fatal, carrying this error.
    Fail(GetError),
}

impl ClientPut {
    /// Begin an upload of `total_size` bytes, resuming at `offset`.
    pub fn new(offset: u64, total_size: u64) -> (r: Self)
        ensures
            r.total == total_size,
            r.sent == offset,
    {
        ClientPut { total: total_size, sent: offset }
    }

    /// Everything has been sent.
    pub fn done(&self) -> (r: bool)
        ensures
            r == (self.sent >= self.total),
    {
        self.sent >= self.total
    }

    /// Drive the upload by one server line (trailing whitespace ignored):
    /// a chunk announcement asks for the announced size capped at what is
    /// still owed; the actual count read is recorded by [`ClientPut::record`].
    pub fn on_line(&self, line: &str) -> (step: ClientPutStep)
        requires
            self.sent < self.total,
        ensures
            ({
                let t = trim_end_spec(line@);
                match parse_server_response_spec(t) {
                    RespView::Next(sz) => step == ClientPutStep::Send(
                        vstd::math::min(sz, self.total - self.sent) as u64,
                    ),
                    RespView::Okay => step is ServerDone,
                    RespView::Error(e) => (step matches ClientPutStep::Fail(err) && err@ == e),
                }
            }),
    {
        let trimmed = trim_end_part(line);
        match parse_server_response(trimmed) {
            ServerResponse::Next(sz) => {
                let left = self.total - self.sent;
                let n: u64 = if (sz as u64) < left {
                    sz as u64
                } else {
                    left
                };
                ClientPutStep::Send(n)
            },
            ServerResponse::Okay => ClientPutStep::ServerDone,
            ServerResponse::Error(e) => ClientPutStep::Fail(e),
        }
    }

    /// Record `n` bytes actually read from the local file and sent.
    pub fn record(&mut self, n: u64)
        requires
            n <= old(self).total - old(self).sent,
        ensures
            final(self).total == old(self).total,
            final(self).sent == old(self).sent + n,
    {
        self.sent = self.sent + n;
    }

    /// Whether the upload is complete: exactly then is the marker
    /// deleted; otherwise it stays for the next resume.
    pub fn finish(&self) -> (complete: bool)
        ensures
            complete == (self.sent == self.total),
    {
        self.sent == self.total
    }
}

/// How a failed attempt is classified for the retry policy.
#[derive(Clone, Copy, Debug, PartialEq, Eq, Structural)]
pub enum RetryClass {
    /// The server said it is busy: retried after the fixed backoff.
    Busy,
    /// A recoverable transport error — connection reset (104 on Linux,
    /// 10054 on Windows) or timed out (110): retried.
    Transport,
    /// Anything else: surfaced at once, no retry.
    Fatal,
}

/// The class a failure belongs to, from its message and its raw OS error
/// code: a message mentioning a busy server is busy; otherwise a reset or
/// timeout code is a transport error; everything else is fatal.
pub open spec fn classify_spec(msg: Seq<char>, os_code: Option<i32>) -> RetryClass {
    if contains_seq(msg, "Server is busy"@) {
        RetryClass::Busy
    } else if os_code == Some(104i32) || os_code == Some(110i32) || os_code == Some(10054i32) {
        RetryClass::Transport
    } else {
        RetryClass::Fatal
    }
}

/// Classify a failed attempt.
pub fn classify_failure(message: &str, os_code: Option<i32>) -> (r: RetryClass)
    ensures
        r == classify_spec(message@, os_code),
{
    if contains_str(message, "Server is busy") {
        RetryClass::Busy
    } else {
        match os_code {
            Some(code) => {
                if code == 104 || code == 110 || code == 10054 {
                    RetryClass::Transport
                } else {
                    RetryClass::Fatal
                }
            },
            None => RetryClass::Fatal,
        }
    }
}

/// The bounded retry policy: a maximum attempt count and a fixed backoff
/// between attempts.
pub struct RetryPolicy {
    pub max_attempts: u64,
    pub backoff_secs: u64,
}

impl RetryPolicy {
    pub fn new(max_attempts: u64, backoff_secs: u64) -> (r: Self)
        ensures
            r.max_attempts == max_attempts,
            r.backoff_secs == backoff_secs,
    {
        RetryPolicy { max_attempts, backoff_secs }
    }

    /// The stock policy: five attempts, five seconds apart.
    pub fn standard() -> (r: Self)
        ensures
            r.max_attempts == 5,
            r.backoff_secs == 5,
    {
        RetryPolicy { max_attempts: 5, backoff_secs: 5 }
    }

    /// What follows a failed attempt: retry after the fixed backoff, or
    /// give up.  `attempt` counts the attempts made so far, this one
    /// included.
    pub open spec fn retry_decision_spec(&self, attempt: u64, class: RetryClass) -> Option<u64> {
        match class {
            RetryClass::Fatal => None,
            _ => if attempt < self.max_attempts {
                Some(self.backoff_secs)
            } else {
                None
            },
        }
    }

    /// Decide whether a failed attempt is retried: retryable failures are,
    /// until the attempt budget is spent; fatal ones never are.
    pub fn should_retry(&self, attempt: u64, class: RetryClass) -> (r: Option<u64>)
        ensures
            r == self.retry_decision_spec(attempt, class),
    {
        match class {
            RetryClass::Fatal => None,
            _ => {
                if attempt < self.max_attempts {
                    Some(self.backoff_secs)
                } else {
                    None
                }
            },
        }
    }
}

/// A client refused with a busy server retries with the fixed backoff up
/// to the configured maximum number of attempts, and then surfaces the
/// failure: the busy message always classifies as retryable, every
/// attempt before the budget is spent waits the fixed backoff, and no
/// attempt after it is made.
pub proof fn lemma_busy_retry_bounded(p: RetryPolicy, attempt: u64)
    ensures
        classify_spec(err_message(ErrView::ServerBusy), None) == RetryClass::Busy,
        attempt < p.max_attempts ==> p.retry_decision_spec(attempt, RetryClass::Busy) == Some(
            p.backoff_secs,
        ),
        attempt >= p.max_attempts ==> p.retry_decision_spec(attempt, RetryClass::Busy) is None,
{
    let msg = err_message(ErrView::ServerBusy);
    assert(msg.subrange(0, 0 + "Server is busy"@.len() as int) =~= "Server is busy"@);
}

} // verus!
