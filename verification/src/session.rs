//! The control channels between the services: their ports and path, and the
//! timing of a channel: reconnecting with backoff, and hellos that keep it
//! alive. Times are milliseconds on a monotonic clock.
use vstd::prelude::*;

verus! {

/// The port of the web UI's channel for route reflectors.
pub const UI_RCH_PORT: u16 = 7101;
/// The port of a route reflector's channel for VTEPs.
pub const RR_RCH_PORT: u16 = 7102;
/// Seconds between hellos.
pub const HELLO_INTERVAL: u64 = 15;
/// Seconds without a hello after which a channel is given up.
pub const HELLO_TIMEOUT: u64 = 60;

/// The path of the VTEP's local control socket.
pub fn vtep_rch_path() -> (r: String)
    ensures
        r@ == "/run/gvls-vtep.sock"@,
{
    crate::text::owned("/run/gvls-vtep.sock")
}

/// Times on the clock stay below this bound.
pub open spec fn clock_ok(t: u64) -> bool {
    t < 0x1000_0000_0000_0000
}

/// `2^n`.
pub open spec fn pow2(n: nat) -> nat
    decreases n,
{
    if n == 0 {
        1
    } else {
        2 * pow2((n - 1) as nat)
    }
}

/// The seconds to wait before the next attempt after `count` failed ones:
/// doubling from 2, at most 1024.
pub open spec fn backoff_secs(count: u32) -> nat {
    pow2(if count < 10 { count as nat } else { 10 })
}

/// The seconds to wait after a channel is closed before trying again.
pub open spec fn reset_wait_secs(fast: bool) -> nat {
    if fast { 5 } else { 60 }
}

/// The state of a channel to a peer.
pub struct Session {
    /// The channel is open.
    pub connected: bool,
    /// Failed attempts in a row.
    pub conn_try_count: u32,
    /// No attempt before this time.
    pub conn_try_next: u64,
    /// No hello is sent before this time.
    pub hello_next: u64,
    /// When the last hello came.
    pub hello_last: u64,
}

fn backoff(count: u32) -> (r: u64)
    ensures
        r == backoff_secs(count),
        r <= 1024,
{
    let n: u32 = if count < 10 { count } else { 10 };
    let mut r: u64 = 1;
    let mut i: u32 = 0;
    proof {
        assert(pow2(10) == 1024) by { reveal_with_fuel(pow2, 11); }
        lemma_pow2_mono(0, 10);
    }
    while i < n
        invariant
            i <= n <= 10,
            r == pow2(i as nat),
            pow2(10) == 1024,
        decreases n - i,
    {
        proof {
            assert(pow2((i + 1) as nat) == 2 * pow2(i as nat));
            lemma_pow2_mono((i + 1) as nat, 10);
        }
        r = r * 2;
        i = i + 1;
    }
    proof {
        lemma_pow2_mono(i as nat, 10);
    }
    r
}

/// `2^n` grows with `n`.
pub proof fn lemma_pow2_mono(a: nat, b: nat)
    requires
        a <= b,
    ensures
        pow2(a) <= pow2(b),
    decreases b,
{
    if a < b {
        lemma_pow2_mono(a, (b - 1) as nat);
    }
}

impl Session {
    /// A channel not yet open, free to try at once.
    pub fn new(now: u64) -> (r: Session)
        ensures
            !r.connected,
            r.conn_try_count == 0,
            r.conn_try_next == now,
            r.hello_next == now,
            r.hello_last == now,
    {
        Session { connected: false, conn_try_count: 0, conn_try_next: now, hello_next: now, hello_last: now }
    }

    /// The channel is closed; the next attempt waits 5 seconds when `fast`
    /// (a VTEP that has just got a local address), 60 otherwise.
    pub fn reset(&mut self, now: u64, fast: bool)
        requires
            clock_ok(now),
        ensures
            !final(self).connected,
            final(self).conn_try_count == 0,
            final(self).conn_try_next == now + reset_wait_secs(fast) * 1000,
            final(self).hello_next == old(self).hello_next,
            final(self).hello_last == old(self).hello_last,
    {
        let wait_secs: u64 = if fast { 5 } else { 60 };
        self.connected = false;
        self.conn_try_count = 0;
        self.conn_try_next = now + wait_secs * 1000;
    }

    /// An attempt failed: the next one waits twice as long as the last, from
    /// 2 up to 1024 seconds.
    pub fn retry(&mut self, now: u64)
        requires
            clock_ok(now),
            old(self).conn_try_count < u32::MAX,
        ensures
            !final(self).connected,
            final(self).conn_try_count == old(self).conn_try_count + 1,
            final(self).conn_try_next == now + backoff_secs(final(self).conn_try_count) * 1000,
            final(self).hello_next == old(self).hello_next,
            final(self).hello_last == old(self).hello_last,
    {
        self.connected = false;
        self.conn_try_count = self.conn_try_count + 1;
        let b = backoff(self.conn_try_count);
        self.conn_try_next = now + b * 1000;
    }

    /// The channel opened: the failures are forgotten.
    pub fn opened(&mut self, now: u64)
        ensures
            final(self).connected,
            final(self).conn_try_count == 0,
            final(self).conn_try_next == now,
            final(self).hello_next == old(self).hello_next,
            final(self).hello_last == old(self).hello_last,
    {
        self.connected = true;
        self.conn_try_count = 0;
        self.conn_try_next = now;
    }

    /// Whether an attempt may be made now.
    pub fn may_try(&self, now: u64) -> (r: bool)
        ensures
            r == (now >= self.conn_try_next),
    {
        !(now < self.conn_try_next)
    }

    /// Whether a hello is due now.
    pub fn hello_due(&self, now: u64) -> (r: bool)
        ensures
            r == (now >= self.hello_next),
    {
        !(now < self.hello_next)
    }

    /// A hello was sent: the next one is due after the interval.
    pub fn hello_sent(&mut self, now: u64)
        requires
            clock_ok(now),
        ensures
            final(self).hello_next == now + HELLO_INTERVAL * 1000,
            final(self).connected == old(self).connected,
            final(self).conn_try_count == old(self).conn_try_count,
            final(self).conn_try_next == old(self).conn_try_next,
            final(self).hello_last == old(self).hello_last,
    {
        self.hello_next = now + HELLO_INTERVAL * 1000;
    }

    /// A hello came.
    pub fn hello_received(&mut self, now: u64)
        ensures
            final(self).hello_last == now,
            final(self).connected == old(self).connected,
            final(self).conn_try_count == old(self).conn_try_count,
            final(self).conn_try_next == old(self).conn_try_next,
            final(self).hello_next == old(self).hello_next,
    {
        self.hello_last = now;
    }

    /// Whether the last hello is older than the timeout.
    pub fn hello_timeout(&self, now: u64) -> (r: bool)
        ensures
            r == (self.hello_last + HELLO_TIMEOUT * 1000 < now),
    {
        (self.hello_last as u128) + (HELLO_TIMEOUT as u128) * 1000 < now as u128
    }
}

/// However many attempts failed, the next one comes at most 1024 seconds later.
pub proof fn lemma_backoff_bounded(count: u32)
    ensures
        2 <= backoff_secs(count) || count == 0,
        backoff_secs(count) <= 1024,
{
    let n: nat = if count < 10 { count as nat } else { 10 };
    lemma_pow2_mono(n, 10);
    assert(pow2(10) == 1024) by { reveal_with_fuel(pow2, 11); }
    if count > 0 {
        lemma_pow2_mono(1, n);
        assert(pow2(1) == 2) by { reveal_with_fuel(pow2, 2); }
    }
}

} // verus!
