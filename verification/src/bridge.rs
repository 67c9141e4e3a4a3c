//! Control bridge: non-blocking, last-write-wins parameter channels.
//!
//! One channel per tunable parameter carries the latest value from the
//! foreground toward the audio path. The consumer never waits: polling
//! drains everything queued since the last poll and keeps only the most
//! recent value; when nothing new arrived, the previously cached value
//! persists. Sending never blocks and fails only once the consumer side
//! has been torn down.

use vstd::prelude::*;

verus! {

/// Why a control operation was rejected.
#[derive(Clone, Copy, PartialEq, Eq, Structural, Debug)]
pub enum ControlError {
    /// The voice index named no voice.
    InvalidIndex,
    /// The engine has stopped; the value was dropped.
    Stopped,
}

/// One single-producer/single-consumer value channel plus its
/// sample-and-hold cache.
pub struct ControlChannel {
    /// Values sent and not yet polled, oldest first.
    pub pending: Vec<i64>,
    /// The last value a poll drained (or the initial value).
    pub cached: i64,
    /// False once the consumer side has been torn down.
    pub connected: bool,
}

impl ControlChannel {
    /// All carried values are control scalars in `[0, 1]` fixed point.
    pub open spec fn wf(&self) -> bool {
        &&& 0 <= self.cached <= 65536
        &&& forall|i: int|
            0 <= i < self.pending@.len() ==> 0 <= #[trigger] self.pending@[i] <= 65536
    }

    /// The value rendering will use after the next poll: the most recently
    /// sent pending value, or the cache when nothing new arrived.
    pub open spec fn latest(&self) -> int {
        if self.pending@.len() == 0 {
            self.cached as int
        } else {
            self.pending@.last() as int
        }
    }

    /// A fresh connected channel caching `initial`.
    pub fn new(initial: i64) -> (c: ControlChannel)
        requires
            0 <= initial <= 65536,
        ensures
            c.wf(),
            c.cached == initial,
            c.pending@.len() == 0,
            c.connected,
    {
        ControlChannel { pending: Vec::new(), cached: initial, connected: true }
    }

    /// Non-blocking send from the foreground. Fails (and drops the value)
    /// exactly when the consumer side is gone; that is non-fatal and may
    /// be ignored by the caller.
    pub fn send(&mut self, v: i64) -> (ok: bool)
        requires
            old(self).wf(),
            0 <= v <= 65536,
        ensures
            final(self).wf(),
            ok == old(self).connected,
            final(self).connected == old(self).connected,
            final(self).cached == old(self).cached,
            ok ==> final(self).pending@ == old(self).pending@.push(v),
            !ok ==> final(self).pending@ == old(self).pending@,
    {
        if self.connected {
            self.pending.push(v);
            true
        } else {
            false
        }
    }

    /// Non-blocking poll from the audio thread: drain everything queued,
    /// cache and return the most recent value, or return nothing (keeping
    /// the cache) when no new value has arrived since the last poll.
    pub fn poll_latest(&mut self) -> (r: Option<i64>)
        requires
            old(self).wf(),
        ensures
            final(self).wf(),
            final(self).pending@.len() == 0,
            final(self).connected == old(self).connected,
            final(self).cached == old(self).latest(),
            old(self).pending@.len() == 0 ==> r is None && final(self).cached == old(
                self,
            ).cached,
            old(self).pending@.len() > 0 ==> r == Some(old(self).pending@.last()),
    {
        let n = self.pending.len();
        if n == 0 {
            None
        } else {
            let last = self.pending[n - 1];
            self.pending.clear();
            self.cached = last;
            Some(last)
        }
    }

    /// The sample-and-hold cache as rendering reads it.
    pub fn current(&self) -> (v: i64)
        ensures
            v == self.cached,
    {
        self.cached
    }

    /// Whether the consumer side is still attached.
    pub fn is_connected(&self) -> (r: bool)
        ensures
            r == self.connected,
    {
        self.connected
    }

    /// Tear down the consumer side: later sends fail.
    pub fn disconnect(&mut self)
        requires
            old(self).wf(),
        ensures
            final(self).wf(),
            !final(self).connected,
            final(self).cached == old(self).cached,
            final(self).pending@ == old(self).pending@,
    {
        self.connected = false;
    }
}

/// Idempotence of polling: with nothing sent in between, a poll returns no
/// new value and the previously cached value persists.
pub proof fn lemma_poll_idempotent(c: ControlChannel)
    requires
        c.wf(),
        c.pending@.len() == 0,
    ensures
        c.latest() == c.cached,
{
}

/// Last-write-wins: after any queue of sends, one poll applies exactly the
/// most recently sent value, never an earlier one.
pub proof fn lemma_last_write_wins(c: ControlChannel, sent: Seq<i64>)
    requires
        c.wf(),
        sent.len() > 0,
        c.pending@ =~= sent,
    ensures
        c.latest() == sent.last(),
{
}

/// The full set of channels feeding one engine: one amplitude channel per
/// voice plus the three global depth channels.
pub struct ControlBridge {
    pub amps: Vec<ControlChannel>,
    pub modulation: ControlChannel,
    pub fm: ControlChannel,
    pub feedback: ControlChannel,
}

impl ControlBridge {
    pub open spec fn wf(&self) -> bool {
        &&& forall|i: int| 0 <= i < self.amps@.len() ==> (#[trigger] self.amps@[i]).wf()
        &&& self.modulation.wf()
        &&& self.fm.wf()
        &&& self.feedback.wf()
    }

    /// Every channel starts connected, empty, and cached at zero — no
    /// parameter has any effect until the foreground sets it.
    pub fn new(num_voices: usize) -> (b: ControlBridge)
        ensures
            b.wf(),
            b.amps@.len() == num_voices,
            forall|i: int|
                0 <= i < num_voices ==> (#[trigger] b.amps@[i]).cached == 0
                    && b.amps@[i].pending@.len() == 0 && b.amps@[i].connected,
            b.modulation.cached == 0 && b.modulation.pending@.len() == 0 && b.modulation.connected,
            b.fm.cached == 0 && b.fm.pending@.len() == 0 && b.fm.connected,
            b.feedback.cached == 0 && b.feedback.pending@.len() == 0 && b.feedback.connected,
    {
        let mut amps: Vec<ControlChannel> = Vec::new();
        let mut i: usize = 0;
        while i < num_voices
            invariant
                i <= num_voices,
                amps@.len() == i,
                forall|j: int|
                    0 <= j < i ==> (#[trigger] amps@[j]).wf() && amps@[j].cached == 0
                        && amps@[j].pending@.len() == 0 && amps@[j].connected,
            decreases num_voices - i,
        {
            amps.push(ControlChannel::new(0));
            i = i + 1;
        }
        ControlBridge {
            amps,
            modulation: ControlChannel::new(0),
            fm: ControlChannel::new(0),
            feedback: ControlChannel::new(0),
        }
    }
}

} // verus!
