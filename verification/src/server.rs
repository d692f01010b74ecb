//! The server side of one connection: the first line decides everything.
//! A well-formed request opens a GET or PUT transfer; anything else earns
//! exactly one `ERR` line from the taxonomy, after which the connection
//! closes with no transfer begun and no file touched.

use vstd::prelude::*;

use crate::codec::{
    encode_ok, encode_ok_remaining, error_line, parse_request, parse_request_spec, err_message,
    GetError, ReqView, TransferRequest,
};
use crate::num::dec_str;
use crate::transfer::{GetTransfer, PutTransfer};

verus! {

/// What the server does with the first line of a connection.
pub enum ServerTurn {
    /// Send this one error line, then close.  No transfer, no file access.
    Reply(String),
    /// Serve a download of `path` resuming at `offset`.
    Get { path: String, offset: u64 },
    /// Serve an upload of `path` resuming at `offset`, expecting
    /// `total_size` bytes in all.
    Put { path: String, offset: u64, total_size: u64 },
}

/// Decide the connection's turn from its first line.  A malformed line —
/// empty, unknown verb, or missing arguments — yields exactly one error
/// line of the taxonomy and nothing else.
pub fn dispatch_command(line: &str) -> (r: ServerTurn)
    ensures
        ({
            let p = parse_request_spec(line@);
            match p {
                Ok(rv) => match rv {
                    ReqView::Get { path, offset } => r matches ServerTurn::Get {
                        path: p2,
                        offset: o2,
                    } && p2@ == path && o2 == offset,
                    ReqView::Put { path, offset, total_size } => r matches ServerTurn::Put {
                        path: p2,
                        offset: o2,
                        total_size: t2,
                    } && p2@ == path && o2 == offset && t2 == total_size,
                },
                Err(e) => r matches ServerTurn::Reply(l) && l@ == "ERR "@ + err_message(e)
                    + "\n"@,
            }
        }),
{
    match parse_request(line) {
        Ok(TransferRequest::Get { path, offset }) => ServerTurn::Get { path, offset },
        Ok(TransferRequest::Put { path, offset, total_size }) => ServerTurn::Put {
            path,
            offset,
            total_size,
        },
        Err(e) => ServerTurn::Reply(error_line(&e)),
    }
}

/// How a download begins once the file is open and its size known.
pub enum GetBegin {
    /// Send this line and close: the offset is at or past the end, there
    /// is nothing to transfer, and that is a completed download, not an
    /// error.
    Complete(String),
    /// Send the header line announcing the remainder, then stream chunks
    /// as `transfer` tracks them.
    Stream { header: String, transfer: GetTransfer },
}

/// Decide how a GET of a file of `filesize` bytes, resuming at `offset`,
/// begins.  An offset at or past the end always yields `OK 0` and a
/// transfer of zero payload bytes, never an error.
pub fn server_get_begin(filesize: u64, offset: u64) -> (r: GetBegin)
    ensures
        offset >= filesize ==> (r matches GetBegin::Complete(line) && line@ == "OK 0\n"@),
        offset < filesize ==> (r matches GetBegin::Stream { header, transfer }
            && header@ == "OK "@ + dec_str((filesize - offset) as nat) + "\n"@
            && transfer.wf() && transfer.remaining == filesize - offset && transfer.sent == 0),
{
    if offset >= filesize {
        let line = encode_ok_remaining(0);
        proof {
            reveal_strlit("OK ");
            reveal_strlit("\n");
            reveal_strlit("OK 0\n");
            assert(line@ =~= "OK 0\n"@);
        }
        GetBegin::Complete(line)
    } else {
        let remaining = filesize - offset;
        GetBegin::Stream {
            header: encode_ok_remaining(remaining),
            transfer: GetTransfer::new(filesize, offset),
        }
    }
}

/// Begin a PUT of `total_size` bytes resuming at `offset`, once the file
/// is open: the bare acknowledgement line to send, and the transfer's
/// progress tracker.
pub fn server_put_begin(offset: u64, total_size: u64) -> (r: (String, PutTransfer))
    ensures
        r.0@ == "OK\n"@,
        r.1.total == total_size,
        r.1.received == offset,
{
    (encode_ok(), PutTransfer::new(offset, total_size))
}

/// The one reply a connection refused by the admission gate receives.
pub fn busy_reply() -> (r: String)
    ensures
        r@ == "ERR "@ + err_message(crate::codec::ErrView::ServerBusy) + "\n"@,
        r@ == "ERR Server is busy\n"@,
{
    let line = error_line(&GetError::ServerBusy);
    proof {
        reveal_strlit("ERR ");
        reveal_strlit("Server is busy");
        reveal_strlit("\n");
        reveal_strlit("ERR Server is busy\n");
        assert(line@ =~= "ERR Server is busy\n"@);
    }
    line
}

} // verus!
