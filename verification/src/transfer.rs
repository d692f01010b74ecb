//! The byte-moving core of a transfer, with the I/O peeled away: what a
//! download yields, what an upload leaves on disk, and the chunked
//! progress bookkeeping both endpoints share.  The in-memory runs below
//! drive whole transfers over plain byte vectors; the caller's loops move
//! the same chunks through sockets and files, one
//! [`GetTransfer`]/[`PutTransfer`] step at a time.

use vstd::prelude::*;

use crate::rate::RateController;

verus! {

/// The payload a download of `content` resuming at `offset` moves: the
/// bytes from `offset` to the end, and nothing at all once `offset` is at
/// or past the end.
pub open spec fn download_payload(content: Seq<u8>, offset: int) -> Seq<u8> {
    if 0 <= offset <= content.len() {
        content.skip(offset)
    } else {
        Seq::empty()
    }
}

/// The file content after `data` is written over `old_content` starting
/// at `offset`: the prefix survives, the data lands, and any old bytes
/// beyond the written range survive too.
pub open spec fn stored_after_put(old_content: Seq<u8>, offset: int, data: Seq<u8>) -> Seq<u8>
    recommends
        0 <= offset <= old_content.len(),
{
    old_content.take(offset) + data + if offset + data.len() < old_content.len() {
        old_content.skip(offset + data.len())
    } else {
        Seq::empty()
    }
}

/// Progress of one server-side download: how much of the announced
/// remainder has been sent.
pub struct GetTransfer {
    /// Bytes owed in total: file size minus resume offset.
    pub remaining: u64,
    /// Bytes sent so far.
    pub sent: u64,
}

impl GetTransfer {
    pub open spec fn wf(&self) -> bool {
        self.sent <= self.remaining
    }

    pub fn new(filesize: u64, offset: u64) -> (r: Self)
        requires
            offset < filesize,
        ensures
            r.wf(),
            r.remaining == filesize - offset,
            r.sent == 0,
    {
        GetTransfer { remaining: filesize - offset, sent: 0 }
    }

    /// The transfer owes nothing more.
    pub fn done(&self) -> (r: bool)
        ensures
            r == (self.sent >= self.remaining),
    {
        self.sent >= self.remaining
    }

    /// How much to read from the file for this turn's chunk: the announced
    /// chunk size, capped by what is still owed.
    pub fn next_read(&self, chunk: u64) -> (r: u64)
        requires
            self.wf(),
            self.sent < self.remaining,
            chunk >= 1,
        ensures
            r == vstd::math::min(chunk as int, self.remaining - self.sent),
            1 <= r <= self.remaining - self.sent,
    {
        let left = self.remaining - self.sent;
        if chunk < left {
            chunk
        } else {
            left
        }
    }

    /// Record `n` bytes actually read and sent.
    pub fn advance(&mut self, n: u64)
        requires
            old(self).wf(),
            n <= old(self).remaining - old(self).sent,
        ensures
            final(self).wf(),
            final(self).remaining == old(self).remaining,
            final(self).sent == old(self).sent + n,
    {
        self.sent = self.sent + n;
    }
}

/// Progress of one server-side upload: how much of the announced total
/// has arrived, counting the resume offset as already applied.
pub struct PutTransfer {
    /// Bytes the finished file will hold.
    pub total: u64,
    /// Bytes applied so far, the resume offset included.
    pub received: u64,
}

impl PutTransfer {
    pub fn new(offset: u64, total_size: u64) -> (r: Self)
        ensures
            r.total == total_size,
            r.received == offset,
    {
        PutTransfer { total: total_size, received: offset }
    }

    /// Everything announced has arrived.
    pub fn done(&self) -> (r: bool)
        ensures
            r == (self.received >= self.total),
    {
        self.received >= self.total
    }

    /// How many of `bytes_read` freshly received bytes to write: capped by
    /// what the announced total still allows.
    pub fn next_write(&self, bytes_read: u64) -> (r: u64)
        requires
            self.received < self.total,
        ensures
            r == vstd::math::min(bytes_read as int, self.total - self.received),
            r <= bytes_read,
    {
        let left = self.total - self.received;
        if bytes_read < left {
            bytes_read
        } else {
            left
        }
    }

    /// Record `n` bytes written to the file.
    pub fn advance(&mut self, n: u64)
        requires
            n <= old(self).total - old(self).received,
        ensures
            final(self).total == old(self).total,
            final(self).received == old(self).received + n,
    {
        self.received = self.received + n;
    }
}

/// Run a whole server-side download in memory: the concatenation of the
/// chunks a GET of `content` resuming at `offset` sends.  It is exactly
/// the content from the offset on, whatever the chunking.
pub fn server_get_payload(content: &Vec<u8>, offset: u64, rc: &RateController, active: u64) -> (out:
    Vec<u8>)
    ensures
        out@ == download_payload(content@, offset as int),
{
    let filesize: u64 = content.len() as u64;
    let mut out: Vec<u8> = Vec::new();
    if offset >= filesize {
        proof {
            if offset as int == content@.len() {
                assert(content@.skip(offset as int) =~= Seq::<u8>::empty());
            }
            assert(out@ =~= download_payload(content@, offset as int));
        }
        return out;
    }
    let mut t = GetTransfer::new(filesize, offset);
    proof {
        assert(out@ =~= content@.subrange(offset as int, offset + t.sent));
    }
    while !t.done()
        invariant
            t.wf(),
            t.remaining == filesize - offset,
            offset < filesize,
            filesize == content@.len(),
            content@.len() <= usize::MAX,
            out@ == content@.subrange(offset as int, offset + t.sent),
        decreases t.remaining - t.sent,
    {
        let chunk = rc.chunk_size(active);
        let n = t.next_read(chunk);
        let start = offset + t.sent;
        let mut k: u64 = 0;
        while k < n
            invariant
                k <= n,
                start == offset + t.sent,
                start + n <= filesize,
                filesize == content@.len(),
                content@.len() <= usize::MAX,
                out@ == content@.subrange(offset as int, start + k),
            decreases n - k,
        {
            out.push(content[(start + k) as usize]);
            proof {
                assert(content@.subrange(offset as int, start + k + 1) =~= content@.subrange(
                    offset as int,
                    start + k,
                ).push(content@[start + k]));
            }
            k = k + 1;
        }
        t.advance(n);
    }
    proof {
        assert(content@.subrange(offset as int, content@.len() as int) =~= content@.skip(
            offset as int,
        ));
    }
    out
}

/// Run a whole client-side upload in memory: the concatenation of the
/// chunks a PUT of `local` resuming at `offset` sends.  Exactly
/// `totalSize - offset` bytes go out: the content from the offset on.
pub fn client_put_payload(local: &Vec<u8>, offset: u64, rc: &RateController, active: u64) -> (out:
    Vec<u8>)
    requires
        offset <= local@.len(),
    ensures
        out@ == local@.skip(offset as int),
        out@.len() == local@.len() - offset,
{
    let total: u64 = local.len() as u64;
    let mut out: Vec<u8> = Vec::new();
    let mut t = PutTransfer::new(offset, total);
    proof {
        assert(out@ =~= local@.subrange(offset as int, offset + t.received - offset));
    }
    while !t.done()
        invariant
            t.total == total,
            offset <= t.received <= total,
            total == local@.len(),
            local@.len() <= usize::MAX,
            out@ == local@.subrange(offset as int, t.received as int),
        decreases t.total - t.received,
    {
        let chunk = rc.chunk_size(active);
        let n = t.next_write(chunk);
        let start = t.received;
        let mut k: u64 = 0;
        while k < n
            invariant
                k <= n,
                start == t.received,
                start + n <= total,
                total == local@.len(),
                local@.len() <= usize::MAX,
                out@ == local@.subrange(offset as int, start + k),
                offset <= start,
            decreases n - k,
        {
            out.push(local[(start + k) as usize]);
            proof {
                assert(local@.subrange(offset as int, start + k + 1) =~= local@.subrange(
                    offset as int,
                    start + k,
                ).push(local@[start + k]));
            }
            k = k + 1;
        }
        t.advance(n);
    }
    proof {
        assert(local@.subrange(offset as int, total as int) =~= local@.skip(offset as int));
    }
    out
}

/// Apply a received payload to a file's bytes at an offset.  This is what
/// the server's file writes during a PUT amount to, and equally the
/// client's marker-file writes during a GET.
pub fn apply_payload(old_content: &Vec<u8>, offset: u64, data: &Vec<u8>) -> (out: Vec<u8>)
    requires
        offset <= old_content@.len(),
        old_content@.len() + data@.len() <= usize::MAX,
    ensures
        out@ == stored_after_put(old_content@, offset as int, data@),
{
    let mut out: Vec<u8> = Vec::new();
    let mut i: usize = 0;
    let off = offset as usize;
    while i < off
        invariant
            i <= off,
            off <= old_content@.len(),
            out@ == old_content@.take(i as int),
        decreases off - i,
    {
        out.push(old_content[i]);
        proof {
            assert(old_content@.take(i + 1) =~= old_content@.take(i as int).push(
                old_content@[i as int],
            ));
        }
        i = i + 1;
    }
    let mut j: usize = 0;
    while j < data.len()
        invariant
            j <= data@.len(),
            off <= old_content@.len(),
            out@ == old_content@.take(off as int) + data@.take(j as int),
        decreases data@.len() - j,
    {
        out.push(data[j]);
        proof {
            assert(old_content@.take(off as int) + data@.take(j + 1) =~= (old_content@.take(
                off as int,
            ) + data@.take(j as int)).push(data@[j as int]));
        }
        j = j + 1;
    }
    proof {
        assert(data@.take(data@.len() as int) =~= data@);
    }
    let mut k: usize = off + data.len();
    let ghost tail_start = k as int;
    if k < old_content.len() {
        proof {
            assert(out@ =~= old_content@.take(off as int) + data@ + old_content@.subrange(
                tail_start,
                tail_start,
            ));
        }
        while k < old_content.len()
            invariant
                tail_start <= k <= old_content@.len(),
                tail_start == off + data@.len(),
                off <= old_content@.len(),
                old_content@.len() <= usize::MAX,
                out@ == old_content@.take(off as int) + data@ + old_content@.subrange(
                    tail_start,
                    k as int,
                ),
            decreases old_content@.len() - k,
        {
            out.push(old_content[k]);
            proof {
                assert(old_content@.take(off as int) + data@ + old_content@.subrange(
                    tail_start,
                    k + 1,
                ) =~= (old_content@.take(off as int) + data@ + old_content@.subrange(
                    tail_start,
                    k as int,
                )).push(old_content@[k as int]));
            }
            k = k + 1;
        }
        proof {
            assert(old_content@.subrange(tail_start, old_content@.len() as int)
                =~= old_content@.skip(tail_start));
            assert(out@ =~= stored_after_put(old_content@, offset as int, data@));
        }
    } else {
        proof {
            assert(out@ =~= stored_after_put(old_content@, offset as int, data@));
        }
    }
    out
}

/// Uploading a file and downloading it back yields byte-identical
/// content, for any file, the empty one included: a full upload of `f`
/// into an empty remote file stores exactly `f`, and a download of that
/// file from offset zero moves exactly `f` again.
pub proof fn lemma_round_trip(f: Seq<u8>)
    ensures
        stored_after_put(Seq::empty(), 0, f) == f,
        download_payload(stored_after_put(Seq::empty(), 0, f), 0) == f,
{
    assert(stored_after_put(Seq::empty(), 0, f) =~= f);
    assert(download_payload(f, 0) =~= f);
}

/// At every point of an upload the marker mirrors exactly what has been
/// applied: starting from a marker of the resume offset `k`, mirroring the
/// next `m` payload bytes at offset `k` leaves the marker holding the
/// first `k + m` bytes of the local file — so an interruption at any
/// point leaves a marker whose length is exactly the count of bytes
/// durably applied, which is the resume point of the next attempt.
pub proof fn lemma_marker_tracks_progress(f: Seq<u8>, k: int, m: int)
    requires
        0 <= k,
        0 <= m,
        k + m <= f.len(),
    ensures
        stored_after_put(f.take(k), k, f.subrange(k, k + m)) == f.take(k + m),
        stored_after_put(f.take(k), k, f.subrange(k, k + m)).len() == k + m,
{
    assert(stored_after_put(f.take(k), k, f.subrange(k, k + m)) =~= f.take(k + m));
}

/// Resuming an upload interrupted after `k` bytes completes the file: the
/// retry sends exactly the `totalSize - k` missing bytes, and writing them
/// at offset `k` over the half-transferred file restores the original.
pub proof fn lemma_resume_put(f: Seq<u8>, k: int)
    requires
        0 <= k <= f.len(),
    ensures
        f.skip(k).len() == f.len() - k,
        stored_after_put(f.take(k), k, f.skip(k)) == f,
{
    assert(stored_after_put(f.take(k), k, f.skip(k)) =~= f);
}

} // verus!
