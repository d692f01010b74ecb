//! Bandwidth fairness and connection admission.  A nominal total rate
//! budget is divided by the number of currently active connections, with
//! truncating integer division and a floor of one byte, to give each
//! connection its chunk size and its per-client rate; the delay after a
//! chunk approximates that rate.  The admission gate caps the number of
//! simultaneously active connections.

use vstd::prelude::*;

verus! {

/// The per-client byte rate a budget of `rate` gives each of `active`
/// connections: `max(1, rate / max(1, active))`, with truncating division.
pub open spec fn per_client_rate(rate: int, active: int) -> int {
    let d = if active <= 1 {
        1int
    } else {
        active
    };
    let q = rate / d;
    if q < 1 {
        1int
    } else {
        q
    }
}

/// The rate controller: it owns the nominal total budget and answers, for
/// a given active-connection count, how large a chunk one protocol turn
/// may move and how long to pause after it.
pub struct RateController {
    /// Nominal total transfer budget, in bytes per second.
    pub rate: u64,
}

impl RateController {
    pub fn new(rate: u64) -> (r: Self)
        ensures
            r.rate == rate,
    {
        RateController { rate }
    }

    /// The fair chunk size for one protocol turn: the per-client rate.
    /// It shrinks as more connections join.
    pub fn chunk_size(&self, active: u64) -> (r: u64)
        ensures
            r == per_client_rate(self.rate as int, active as int),
            r >= 1,
    {
        let d = if active <= 1 {
            1
        } else {
            active
        };
        let q = self.rate / d;
        if q < 1 {
            1
        } else {
            q
        }
    }

    /// The blocking pause, in milliseconds, owed after moving
    /// `bytes_transferred` bytes: `bytes * 1000 / perClientRate`.  With no
    /// active connection on record there is nothing to pace.
    pub fn delay_ms(&self, bytes_transferred: u64, active: u64) -> (r: u64)
        requires
            bytes_transferred <= u64::MAX / 1000,
        ensures
            active == 0 ==> r == 0,
            active >= 1 ==> r == bytes_transferred * 1000 / per_client_rate(
                self.rate as int,
                active as int,
            ),
    {
        if active == 0 {
            return 0;
        }
        let per = self.chunk_size(active);
        (bytes_transferred * 1000) / per
    }
}

/// Fairness shrinks the share as clients join: with the budget fixed, the
/// per-client rate — and with it the fair chunk size — never grows when
/// the active count grows, and a single client is paced at the whole
/// budget (floored at one byte).
pub proof fn lemma_per_client_rate_monotone(rate: int, a1: int, a2: int)
    requires
        0 <= rate,
        1 <= a1 <= a2,
    ensures
        per_client_rate(rate, a2) <= per_client_rate(rate, a1),
        rate >= 1 ==> per_client_rate(rate, 1) == rate,
{
    vstd::arithmetic::div_mod::lemma_div_is_ordered_by_denominator(rate, a1, a2);
}

/// The admission gate: the process-wide count of active connections and
/// the configured ceiling.  The count never exceeds the ceiling.
pub struct Gate {
    pub active: u64,
    pub max_clients: u64,
}

impl Gate {
    /// Admitted connections never outnumber the ceiling.
    pub open spec fn wf(&self) -> bool {
        self.active <= self.max_clients
    }

    pub fn new(max_clients: u64) -> (r: Self)
        ensures
            r.wf(),
            r.active == 0,
            r.max_clients == max_clients,
    {
        Gate { active: 0, max_clients }
    }

    /// Admit one connection if the count is below the ceiling.  A
    /// connection is admitted exactly when the count had room; a refused
    /// connection changes nothing and is owed one `ERR Server is busy`
    /// line and no transfer.
    pub fn try_admit(&mut self) -> (admitted: bool)
        requires
            old(self).wf(),
        ensures
            final(self).wf(),
            final(self).max_clients == old(self).max_clients,
            admitted == (old(self).active < old(self).max_clients),
            admitted ==> final(self).active == old(self).active + 1,
            !admitted ==> final(self).active == old(self).active,
    {
        if self.active < self.max_clients {
            self.active = self.active + 1;
            true
        } else {
            false
        }
    }

    /// Record one connection's end.  Called once per admitted connection,
    /// so the count never goes negative.
    pub fn disconnect(&mut self)
        requires
            old(self).wf(),
            old(self).active >= 1,
        ensures
            final(self).active == old(self).active - 1,
            final(self).max_clients == old(self).max_clients,
            final(self).wf(),
    {
        self.active = self.active - 1;
    }

    /// The current active-connection count, read by the rate controller.
    pub fn active_count(&self) -> (r: u64)
        ensures
            r == self.active,
    {
        self.active
    }
}

} // verus!
