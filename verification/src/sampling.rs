//! The exchange of the ping and upload measurements: each message that
//! arrives on the socket is timed, the gaps between arrivals are kept, and
//! the exchange stops at the eleventh message.

use vstd::prelude::*;

use crate::decimal::{push_signed_decimal, signed_decimal};

verus! {

/// The number of messages after which an exchange stops.
pub const MESSAGES_PER_EXCHANGE: i32 = 11;

/// The size of the block of data that an upload sends for each message.
pub const UPLOAD_BLOCK_SIZE: usize = 1048576;

/// What an exchange has recorded so far.
pub struct ExchangeState {
    /// Messages received.
    pub received: int,
    /// Arrival time of the last message (0 before the first).
    pub last_time: int,
    /// Arrival times kept: those of the first nine messages, and that of
    /// the eleventh once it has come.
    pub times: Seq<i64>,
    /// Gaps between consecutive arrivals, each truncated to an `i32`.
    pub intervals: Seq<i32>,
}

impl ExchangeState {
    /// The state before any message.
    pub open spec fn initial() -> ExchangeState {
        ExchangeState { received: 0, last_time: 0, times: Seq::empty(), intervals: Seq::empty() }
    }

    /// The state after a message that arrives at `now`.
    pub open spec fn after(self, now: i64) -> ExchangeState {
        let r = self.received + 1;
        let intervals = if r > 1 {
            self.intervals.push((now - self.last_time) as i32)
        } else {
            self.intervals
        };
        let t1 = if r < 10 { self.times.push(now) } else { self.times };
        let times = if r >= MESSAGES_PER_EXCHANGE { t1.push(now) } else { t1 };
        ExchangeState { received: r, last_time: now as int, times, intervals }
    }

    /// Whether the exchange is over.
    pub open spec fn stopped(self) -> bool {
        self.received >= MESSAGES_PER_EXCHANGE
    }

    /// Whether a message arriving at `now` can be recorded: the exchange is
    /// not over and the gap since the last arrival fits in an `i64`.
    pub open spec fn accepts(self, now: i64) -> bool {
        &&& !self.stopped()
        &&& i64::MIN <= now - self.last_time <= i64::MAX
    }
}

/// The state of one ping or upload exchange.
pub struct Exchange {
    received: i32,
    last_time: i64,
    times: Vec<i64>,
    intervals: Vec<i32>,
}

impl View for Exchange {
    type V = ExchangeState;

    closed spec fn view(&self) -> ExchangeState {
        ExchangeState {
            received: self.received as int,
            last_time: self.last_time as int,
            times: self.times@,
            intervals: self.intervals@,
        }
    }
}

impl Exchange {
    /// The fields hold a state that a run of messages can reach.
    pub closed spec fn wf(&self) -> bool {
        0 <= self.received <= MESSAGES_PER_EXCHANGE
    }

    /// An exchange before any message.
    pub fn new() -> (e: Exchange)
        ensures
            e.wf(),
            e@ == ExchangeState::initial(),
    {
        Exchange { received: 0, last_time: 0, times: Vec::new(), intervals: Vec::new() }
    }

    /// Whether a message arriving at `now` can be recorded.
    pub fn accepts(&self, now: i64) -> (r: bool)
        requires
            self.wf(),
        ensures
            r == self@.accepts(now),
            r <==> !self@.stopped() && i64::MIN <= now - self@.last_time <= i64::MAX,
    {
        proof {
            lemma_exchange_accepts_until_stopped(self@, now);
        }
        if self.received >= MESSAGES_PER_EXCHANGE {
            return false;
        }
        if self.last_time >= 0 {
            now >= i64::MIN + self.last_time
        } else {
            now <= i64::MAX + self.last_time
        }
    }

    /// Records a message that arrives at `now`; returns whether the
    /// exchange is over.
    pub fn observe(&mut self, now: i64) -> (stop: bool)
        requires
            old(self).wf(),
            old(self)@.accepts(now),
        ensures
            final(self).wf(),
            final(self)@ == old(self)@.after(now),
            stop == final(self)@.stopped(),
    {
        self.received = self.received + 1;
        if self.received > 1 {
            let gap: i64 = now - self.last_time;
            self.intervals.push(gap as i32);
        }
        self.last_time = now;
        if self.received < 10 {
            self.times.push(now);
        }
        if self.received >= MESSAGES_PER_EXCHANGE {
            self.times.push(self.last_time);
            return true;
        }
        false
    }

    /// Whether the exchange is over.
    pub fn is_stopped(&self) -> (r: bool)
        ensures
            r == self@.stopped(),
    {
        self.received >= MESSAGES_PER_EXCHANGE
    }

    /// The gaps recorded so far.
    pub fn intervals(&self) -> (r: &[i32])
        ensures
            r@ == self@.intervals,
    {
        self.intervals.as_slice()
    }

    /// The arrival times kept so far.
    pub fn times(&self) -> (r: &[i64])
        ensures
            r@ == self@.times,
    {
        self.times.as_slice()
    }
}

/// The text of the ping that answers a message that arrived at `now`.
pub fn ping_message(now: i64) -> (m: String)
    ensures
        m@ == "PING "@ + signed_decimal(now as int),
{
    let mut m = String::new();
    m.append("PING ");
    push_signed_decimal(&mut m, now);
    m
}

/// The block of data that an upload sends for each message: one mebibyte
/// of zeros.
pub fn upload_payload() -> (data: Vec<u8>)
    ensures
        data@.len() == UPLOAD_BLOCK_SIZE,
        forall|i: int| 0 <= i < data@.len() ==> data@[i] == 0u8,
{
    let mut data: Vec<u8> = Vec::new();
    let mut i: usize = 0;
    while i < UPLOAD_BLOCK_SIZE
        invariant
            i <= UPLOAD_BLOCK_SIZE,
            data@.len() == i,
            forall|j: int| 0 <= j < data@.len() ==> data@[j] == 0u8,
        decreases UPLOAD_BLOCK_SIZE - i,
    {
        data.push(0u8);
        i = i + 1;
    }
    data
}

} // verus!

verus! {

/// The state of an exchange after messages that arrive at the given times.
pub open spec fn run_exchange(arrivals: Seq<i64>) -> ExchangeState
    decreases arrivals.len(),
{
    if arrivals.len() == 0 {
        ExchangeState::initial()
    } else {
        run_exchange(arrivals.drop_last()).after(arrivals.last())
    }
}

/// After messages arriving at `arrivals` (at most `MESSAGES_PER_EXCHANGE`), the
/// exchange has counted each message, holds the gaps between consecutive
/// arrivals in order, and is over exactly when `MESSAGES_PER_EXCHANGE` have come.
pub proof fn lemma_exchange_records_gaps(arrivals: Seq<i64>)
    requires
        arrivals.len() <= MESSAGES_PER_EXCHANGE,
    ensures
        run_exchange(arrivals).received == arrivals.len(),
        run_exchange(arrivals).intervals.len() == if arrivals.len() == 0 {
            0
        } else {
            arrivals.len() - 1
        },
        forall|j: int|
            0 <= j < arrivals.len() - 1 ==> #[trigger] run_exchange(arrivals).intervals[j] == (
            arrivals[j + 1] - arrivals[j]) as i32,
        run_exchange(arrivals).stopped() <==> arrivals.len() == MESSAGES_PER_EXCHANGE,
        run_exchange(arrivals).last_time == if arrivals.len() == 0 {
            0
        } else {
            arrivals.last() as int
        },
    decreases arrivals.len(),
{
    if arrivals.len() > 0 {
        let prev = arrivals.drop_last();
        lemma_exchange_records_gaps(prev);
        let st = run_exchange(prev);
        if prev.len() > 0 {
            assert(st.last_time == prev.last()) by {
                assert(prev == prev.drop_last().push(prev.last()));
            }
        }
        assert forall|j: int| 0 <= j < arrivals.len() - 1 implies #[trigger] run_exchange(
            arrivals,
        ).intervals[j] == (arrivals[j + 1] - arrivals[j]) as i32 by {
            if j < arrivals.len() - 2 {
                assert(prev[j] == arrivals[j] && prev[j + 1] == arrivals[j + 1]);
            }
        }
    }
}

/// Until the exchange is over, it records a message whatever its arrival
/// time, as long as the gap since the previous arrival fits in an `i64`; a
/// message at the same time as the previous one is recorded too.
pub proof fn lemma_exchange_accepts_until_stopped(st: ExchangeState, now: i64)
    ensures
        st.accepts(now) <==> (!st.stopped() && i64::MIN <= now - st.last_time <= i64::MAX),
{
}

/// An exchange whose messages came at non-negative times, none earlier than
/// the one before, records every later message until the eleventh, with the
/// gap since the previous arrival (zero for a message in the same instant).
pub proof fn lemma_exchange_accepts_later_messages(arrivals: Seq<i64>, now: i64)
    requires
        arrivals.len() < MESSAGES_PER_EXCHANGE,
        forall|i: int| 0 <= i < arrivals.len() ==> 0 <= #[trigger] arrivals[i] <= now,
        0 <= now,
    ensures
        run_exchange(arrivals).accepts(now),
        arrivals.len() >= 1 ==> run_exchange(arrivals).after(now).intervals == run_exchange(
            arrivals,
        ).intervals.push((now - arrivals.last()) as i32),
        arrivals.len() >= 1 && now == arrivals.last() ==> run_exchange(arrivals).after(
            now,
        ).intervals.last() == 0,
{
    lemma_exchange_records_gaps(arrivals);
    if arrivals.len() >= 1 {
        assert(0 <= arrivals[arrivals.len() - 1] <= now);
    }
}

} // verus!
