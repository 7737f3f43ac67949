//! Relaying a TCP connection: counting what passes, reporting it, and deciding when it ends.

use vstd::prelude::*;

use crate::addr::IpAddr;
use crate::pool::{Pool, WeightedPool};
use crate::proxy::ConnectionUpdated;

verus! {

/// How often the state of a connection is reported, in milliseconds.
pub const CONNECTION_UPDATE_INTERVAL_MILLIS: u64 = 500;

/// How many bytes one direction reads at a time.
pub const COPY_BUFFER_LEN: usize = 32_768;

// ---------------------------------------------------------------------
// One direction
// ---------------------------------------------------------------------

/// What one direction does with what it read.
#[derive(Debug, Clone, Copy, PartialEq, Eq, Structural)]
pub enum CopyStep {
    /// The source is at its end: the sink is shut down, and the total is the result.
    Finish(u64),
    /// So many bytes of the buffer are written.
    Write(usize),
}

/// One direction of a connection.
#[derive(Debug, Clone, Copy, PartialEq, Eq, Structural)]
pub struct CopyCounter {
    pub total: u64,
}

impl CopyCounter {
    pub fn new() -> (counter: Self)
        ensures
            counter.total == 0,
    {
        CopyCounter { total: 0 }
    }

    /// What follows a read of `read` bytes.
    pub fn on_read(&self, read: usize) -> (step: CopyStep)
        ensures
            step == (if read == 0 {
                CopyStep::Finish(self.total)
            } else {
                CopyStep::Write(read)
            }),
    {
        if read == 0 {
            CopyStep::Finish(self.total)
        } else {
            CopyStep::Write(read)
        }
    }

    /// Counts bytes that were written, and gives the new total.
    pub fn on_written(&mut self, written: usize) -> (total: u64)
        requires
            old(self).total + written <= u64::MAX,
        ensures
            final(self).total == old(self).total + written,
            total == final(self).total,
    {
        self.total += written as u64;
        self.total
    }
}

/// The result of a direction that ran as a task of its own: that of the direction, or the failure
/// of the task.
pub fn copy_task_result(result: Result<Result<u64, String>, String>) -> (out: Result<u64, String>)
    ensures
        out == (match result {
            Ok(value) => value,
            Err(error) => Err(error),
        }),
{
    match result {
        Ok(value) => value,
        Err(error) => Err(error),
    }
}

// ---------------------------------------------------------------------
// Both directions
// ---------------------------------------------------------------------

/// What happens to a relayed connection.
#[derive(Debug)]
pub enum RelayEvent {
    Cancelled,
    Tick,
    UpFinished(Result<u64, String>),
    DownFinished(Result<u64, String>),
}

/// A relayed connection: which directions are done, and how many bytes the pool knows of.
#[derive(Debug, Clone, Copy, PartialEq, Eq, Structural)]
pub struct Relay {
    pub up_done: bool,
    pub down_done: bool,
    pub last_recorded_total: u64,
}

/// The ends of a relayed connection, as the pool knows them.
#[derive(Debug, Clone, Copy, PartialEq, Eq, Structural)]
pub struct RelayEnds {
    pub remote_ip: IpAddr,
    pub egress_ip: IpAddr,
}

/// What is to be done after an event.
#[derive(Debug)]
pub struct RelayStep {
    /// How many times the counters are reported.
    pub reports: u8,
    pub abort_up: bool,
    pub abort_down: bool,
    /// Why the connection is over, if it is.
    pub end: Option<String>,
}

/// Why the connection is over after the event, if it is.
pub open spec fn end_reason(relay: Relay, event: RelayEvent) -> Option<Seq<char>> {
    match event {
        RelayEvent::Cancelled => Some("cancelled"@),
        RelayEvent::Tick => if relay.up_done && relay.down_done {
            Some("closed"@)
        } else {
            None
        },
        RelayEvent::UpFinished(Ok(_)) => if relay.down_done {
            Some("closed"@)
        } else {
            None
        },
        RelayEvent::DownFinished(Ok(_)) => if relay.up_done {
            Some("closed"@)
        } else {
            None
        },
        RelayEvent::UpFinished(Err(error)) => Some("relay error: "@ + error@),
        RelayEvent::DownFinished(Err(error)) => Some("relay error: "@ + error@),
    }
}

/// What an event changes, and what follows: a direction is done once it finished well, a failed
/// one ends the other one, and a cancelled connection ends both.
pub open spec fn reacts(before: Relay, after: Relay, event: RelayEvent, step: RelayStep) -> bool {
    &&& match event {
        RelayEvent::Cancelled => step.abort_up && step.abort_down && after.up_done
            == before.up_done && after.down_done == before.down_done,
        RelayEvent::Tick => !step.abort_up && !step.abort_down && after.up_done == before.up_done
            && after.down_done == before.down_done,
        RelayEvent::UpFinished(Ok(_)) => !step.abort_up && !step.abort_down && after.up_done
            && after.down_done == before.down_done,
        RelayEvent::UpFinished(Err(_)) => !step.abort_up && step.abort_down && after.up_done
            == before.up_done && after.down_done == before.down_done,
        RelayEvent::DownFinished(Ok(_)) => !step.abort_up && !step.abort_down && after.up_done
            == before.up_done && after.down_done,
        RelayEvent::DownFinished(Err(_)) => step.abort_up && !step.abort_down && after.up_done
            == before.up_done && after.down_done == before.down_done,
    }
    &&& step.end is Some <==> end_reason(before, event) is Some
    &&& step.end is Some ==> step.end->0@ == end_reason(before, event)->0
}

impl Relay {
    pub fn new() -> (relay: Self)
        ensures
            relay == (Relay { up_done: false, down_done: false, last_recorded_total: 0 }),
    {
        Relay { up_done: false, down_done: false, last_recorded_total: 0 }
    }

    /// The bytes that the pool does not know of yet.
    pub open spec fn new_bytes(self, up: u64, down: u64) -> u64 {
        if up + down > self.last_recorded_total {
            (up + down - self.last_recorded_total) as u64
        } else {
            0
        }
    }

    /// The pool once it was told of the bytes that it did not know of.
    pub open spec fn told(self, up: u64, down: u64, ends: RelayEnds, pool: Pool) -> Pool {
        if self.new_bytes(up, down) > 0 {
            pool.transferred(ends.remote_ip, ends.egress_ip, self.new_bytes(up, down))
        } else {
            pool
        }
    }

    /// Tells the pool of the bytes that it does not know of yet.
    pub fn record_new_bytes(
        &mut self,
        up: u64,
        down: u64,
        ends: RelayEnds,
        pool: &mut WeightedPool,
    )
        requires
            up + down <= u64::MAX,
            old(pool).wf(),
        ensures
            final(pool).wf(),
            final(pool)@ == old(self).told(up, down, ends, old(pool)@),
            *final(self) == (Relay {
                last_recorded_total: (old(self).last_recorded_total + old(self).new_bytes(
                    up,
                    down,
                )) as u64,
                ..*old(self)
            }),
    {
        let total: u64 = up + down;
        if total > self.last_recorded_total {
            pool.record_transfer(
                ends.remote_ip,
                ends.egress_ip,
                total - self.last_recorded_total,
            );
            self.last_recorded_total = total;
        }
    }

    /// Reacts to an event; `up` and `down` are the counters at that moment. The pool is told of
    /// new bytes, a direction that fails ends the other one, and the connection is closed once
    /// both are done.
    pub fn react(
        &mut self,
        event: &RelayEvent,
        up: u64,
        down: u64,
        ends: RelayEnds,
        pool: &mut WeightedPool,
    ) -> (step: RelayStep)
        requires
            up + down <= u64::MAX,
            event is UpFinished ==> !old(self).up_done,
            event is DownFinished ==> !old(self).down_done,
            old(pool).wf(),
        ensures
            final(pool).wf(),
            final(pool)@ == old(self).told(up, down, ends, old(pool)@),
            reacts(*old(self), *final(self), *event, step),
            final(self).last_recorded_total == old(self).last_recorded_total + old(
                self,
            ).new_bytes(up, down),
            final(self).up_done == (old(self).up_done || (event matches RelayEvent::UpFinished(
                result,
            ) && result is Ok)),
            final(self).down_done == (old(self).down_done || (event matches
                RelayEvent::DownFinished(result) && result is Ok)),
            step.abort_up == (event is Cancelled || (event matches RelayEvent::DownFinished(
                result,
            ) && result is Err)),
            step.abort_down == (event is Cancelled || (event matches RelayEvent::UpFinished(
                result,
            ) && result is Err)),
            step.end is Some <==> end_reason(*old(self), *event) is Some,
            step.end is Some ==> step.end->0@ == end_reason(*old(self), *event)->0,
            step.reports == (if final(self).up_done && final(self).down_done && !(event is
                Cancelled) {
                2int
            } else {
                1
            }),
    {
        self.record_new_bytes(up, down, ends, pool);
        let mut abort_up: bool = false;
        let mut abort_down: bool = false;
        let mut end: Option<String> = None;
        match event {
            RelayEvent::Cancelled => {
                abort_up = true;
                abort_down = true;
                end = Some("cancelled".to_owned());
            },
            RelayEvent::Tick => {},
            RelayEvent::UpFinished(result) => match result {
                Ok(_) => {
                    self.up_done = true;
                },
                Err(error) => {
                    abort_down = true;
                    let mut reason: String = "relay error: ".to_owned();
                    reason.append(error.as_str());
                    end = Some(reason);
                },
            },
            RelayEvent::DownFinished(result) => match result {
                Ok(_) => {
                    self.down_done = true;
                },
                Err(error) => {
                    abort_up = true;
                    let mut reason: String = "relay error: ".to_owned();
                    reason.append(error.as_str());
                    end = Some(reason);
                },
            },
        }
        let mut reports: u8 = 1;
        if end.is_none() && self.up_done && self.down_done {
            reports = 2;
            end = Some("closed".to_owned());
        }
        RelayStep { reports, abort_up, abort_down, end }
    }
}

/// The report on a connection.
pub fn transfer_report(id: &str, up: u64, down: u64) -> (report: ConnectionUpdated)
    ensures
        report.id@ == id@,
        report.up_bytes == up,
        report.down_bytes == down,
{
    ConnectionUpdated { id: id.to_owned(), up_bytes: up, down_bytes: down }
}

// ---------------------------------------------------------------------
// Laws
// ---------------------------------------------------------------------

/// The relay after the counters stood at each of `counters` in turn.
pub open spec fn relay_after(relay: Relay, counters: Seq<(u64, u64)>) -> Relay
    decreases counters.len(),
{
    if counters.len() == 0 {
        relay
    } else {
        let before = relay_after(relay, counters.drop_last());
        let (up, down) = counters.last();
        Relay {
            last_recorded_total: (before.last_recorded_total + before.new_bytes(up, down)) as u64,
            ..before
        }
    }
}

/// The pool after it was told each time of the bytes that it did not know of.
pub open spec fn pool_after(
    relay: Relay,
    counters: Seq<(u64, u64)>,
    ends: RelayEnds,
    pool: Pool,
) -> Pool
    decreases counters.len(),
{
    if counters.len() == 0 {
        pool
    } else {
        let before = relay_after(relay, counters.drop_last());
        let (up, down) = counters.last();
        before.told(up, down, ends, pool_after(relay, counters.drop_last(), ends, pool))
    }
}

/// Whether the counters only grow and can be added up.
pub open spec fn growing(counters: Seq<(u64, u64)>) -> bool {
    &&& forall|i: int|
        0 <= i < counters.len() ==> (#[trigger] counters[i]).0 + counters[i].1 <= u64::MAX
    &&& forall|i: int, j: int|
        0 <= i < j < counters.len() ==> (#[trigger] counters[i]).0 + counters[i].1 <= (
        #[trigger] counters[j]).0 + counters[j].1
}

/// What the counters stand at in the end.
pub open spec fn final_total(counters: Seq<(u64, u64)>) -> u64 {
    if counters.len() == 0 {
        0
    } else {
        (counters.last().0 + counters.last().1) as u64
    }
}

/// The pool is told of every byte once: however often the counters of a connection are looked at,
/// what the pool was told of in all is what they stand at in the end.
pub proof fn law_every_byte_is_recorded_once(
    relay: Relay,
    counters: Seq<(u64, u64)>,
    ends: RelayEnds,
    pool: Pool,
)
    requires
        relay.last_recorded_total == 0,
        growing(counters),
        crate::pool::position_of(pool.side(ends.remote_ip).entries, ends.egress_ip) matches Some(
            i,
        ) ==> pool.side(ends.remote_ip).entries[i].active_bytes + final_total(counters)
            <= u64::MAX,
    ensures
        relay_after(relay, counters).last_recorded_total == final_total(counters),
        pool_after(relay, counters, ends, pool) == pool.transferred(
            ends.remote_ip,
            ends.egress_ip,
            final_total(counters),
        ),
    decreases counters.len(),
{
    let state = pool.side(ends.remote_ip);
    if counters.len() == 0 {
        crate::pool::lemma_transfer_nothing(state, ends.egress_ip);
        assert(pool =~= pool.transferred(ends.remote_ip, ends.egress_ip, 0));
    } else {
        let front = counters.drop_last();
        let last = counters[counters.len() - 1];
        assert(growing(front)) by {
            assert forall|i: int| 0 <= i < front.len() implies (#[trigger] front[i]).0 + front[i].1
                <= u64::MAX by {
                assert(counters[i].0 + counters[i].1 <= u64::MAX);
            }
            assert forall|i: int, j: int| 0 <= i < j < front.len() implies (#[trigger] front[i]).0
                + front[i].1 <= (#[trigger] front[j]).0 + front[j].1 by {
                assert(counters[i].0 + counters[i].1 <= counters[j].0 + counters[j].1);
            }
        }
        assert(last.0 + last.1 <= u64::MAX);
        if front.len() > 0 {
            let previous = counters[counters.len() - 2];
            assert(front.last() == previous);
            assert(previous.0 + previous.1 <= last.0 + last.1);
        }
        assert(final_total(front) <= final_total(counters));
        law_every_byte_is_recorded_once(relay, front, ends, pool);
        let before = relay_after(relay, front);
        let known = final_total(front);
        let added = before.new_bytes(last.0, last.1);
        assert(known + added == final_total(counters));
        if added > 0 {
            crate::pool::lemma_transfers_add_up(state, ends.egress_ip, known, added);
        }
        assert(pool_after(relay, counters, ends, pool) =~= pool.transferred(
            ends.remote_ip,
            ends.egress_ip,
            final_total(counters),
        ));
    }
}

/// A relayed connection is over where it is cancelled, where a direction failed, and where both
/// directions are done; otherwise it goes on.
pub proof fn law_end_of_a_relay(relay: Relay, event: RelayEvent, error: String)
    ensures
        event is Cancelled ==> end_reason(relay, event) == Some("cancelled"@),
        event == RelayEvent::UpFinished(Err(error)) || event == RelayEvent::DownFinished(Err(error))
            ==> end_reason(relay, event) == Some("relay error: "@ + error@),
        (event matches RelayEvent::UpFinished(result) && result is Ok) ==> end_reason(relay, event)
            == (if relay.down_done {
            Some("closed"@)
        } else {
            None
        }),
        (event matches RelayEvent::DownFinished(result) && result is Ok) ==> end_reason(
            relay,
            event,
        ) == (if relay.up_done {
            Some("closed"@)
        } else {
            None
        }),
        event is Tick ==> (end_reason(relay, event) is Some <==> relay.up_done && relay.down_done),
{
}

/// The pool is told of what the counters have grown by since it was told last.
pub proof fn law_growth_is_told(relay: Relay, up: u64, down: u64, ends: RelayEnds, pool: Pool)
    requires
        up + down <= u64::MAX,
    ensures
        up + down > relay.last_recorded_total ==> relay.told(up, down, ends, pool)
            == pool.transferred(
            ends.remote_ip,
            ends.egress_ip,
            (up + down - relay.last_recorded_total) as u64,
        ) && relay.last_recorded_total + relay.new_bytes(up, down) == up + down,
        up + down <= relay.last_recorded_total ==> relay.told(up, down, ends, pool) == pool
            && relay.new_bytes(up, down) == 0,
{
}

/// One turn of a relay: how it stood before and after an event, and what followed.
pub struct RelayTurn {
    pub before: Relay,
    pub after: Relay,
    pub event: RelayEvent,
    pub step: RelayStep,
}

/// Whether the turns are those of one relay from its start on; only the last one may end it.
pub open spec fn is_relay_run(turns: Seq<RelayTurn>) -> bool {
    &&& turns.len() > 0
    &&& !turns[0].before.up_done
    &&& !turns[0].before.down_done
    &&& forall|k: int|
        0 <= k < turns.len() ==> reacts(
            (#[trigger] turns[k]).before,
            turns[k].after,
            turns[k].event,
            turns[k].step,
        )
    &&& forall|k: int|
        0 < k < turns.len() ==> (#[trigger] turns[k]).before == turns[k - 1].after
    &&& forall|k: int| 0 <= k < turns.len() - 1 ==> (#[trigger] turns[k]).step.end is None
}

/// Whether one of the first `count` turns finished the way up well.
pub open spec fn up_finished(turns: Seq<RelayTurn>, count: int) -> bool {
    exists|k: int|
        0 <= k < count && ((#[trigger] turns[k]).event matches RelayEvent::UpFinished(result)
            && result is Ok)
}

/// Whether one of the first `count` turns finished the way down well.
pub open spec fn down_finished(turns: Seq<RelayTurn>, count: int) -> bool {
    exists|k: int|
        0 <= k < count && ((#[trigger] turns[k]).event matches RelayEvent::DownFinished(result)
            && result is Ok)
}

proof fn lemma_directions_so_far(turns: Seq<RelayTurn>, count: int)
    requires
        is_relay_run(turns),
        0 <= count < turns.len(),
    ensures
        turns[count].before.up_done == up_finished(turns, count),
        turns[count].before.down_done == down_finished(turns, count),
        turns[count].after.up_done == up_finished(turns, count + 1),
        turns[count].after.down_done == down_finished(turns, count + 1),
    decreases count,
{
    let turn = turns[count];
    assert(reacts(turn.before, turn.after, turn.event, turn.step));
    if count > 0 {
        lemma_directions_so_far(turns, count - 1);
        assert(turn.before == turns[count - 1].after);
    }
    if up_finished(turns, count) {
        let k = choose|k: int|
            0 <= k < count && ((#[trigger] turns[k]).event matches RelayEvent::UpFinished(result)
                && result is Ok);
        assert(turns[k].event matches RelayEvent::UpFinished(result) && result is Ok);
        assert(up_finished(turns, count + 1));
    }
    if down_finished(turns, count) {
        let k = choose|k: int|
            0 <= k < count && ((#[trigger] turns[k]).event matches RelayEvent::DownFinished(result)
                && result is Ok);
        assert(turns[k].event matches RelayEvent::DownFinished(result) && result is Ok);
        assert(down_finished(turns, count + 1));
    }
    if up_finished(turns, count + 1) && !up_finished(turns, count) {
        let k = choose|k: int|
            0 <= k < count + 1 && ((#[trigger] turns[k]).event matches RelayEvent::UpFinished(
                result,
            ) && result is Ok);
        assert(k == count);
    }
    if down_finished(turns, count + 1) && !down_finished(turns, count) {
        let k = choose|k: int|
            0 <= k < count + 1 && ((#[trigger] turns[k]).event matches RelayEvent::DownFinished(
                result,
            ) && result is Ok);
        assert(k == count);
    }
}

/// A relay is closed once both directions finished well, in whichever order and not before; it is
/// ended earlier only where it is cancelled or a direction fails.
pub proof fn law_relay_ends_with_both_directions(turns: Seq<RelayTurn>)
    requires
        is_relay_run(turns),
    ensures
        ({
            let last = turns[turns.len() - 1];
            let broken = last.event is Cancelled || (last.event matches RelayEvent::UpFinished(
                result,
            ) && result is Err) || (last.event matches RelayEvent::DownFinished(result)
                && result is Err);
            let done = up_finished(turns, turns.len() as int) && down_finished(
                turns,
                turns.len() as int,
            );
            &&& broken ==> last.step.end is Some
            &&& !broken ==> (last.step.end is Some <==> done)
            &&& !broken && done ==> last.step.end->0@ == "closed"@
            &&& last.event is Cancelled ==> last.step.abort_up && last.step.abort_down
            &&& !broken ==> !last.step.abort_up && !last.step.abort_down
        }),
{
    let count = turns.len() - 1;
    let last = turns[count];
    lemma_directions_so_far(turns, count);
    assert(reacts(last.before, last.after, last.event, last.step));
}

} // verus!
