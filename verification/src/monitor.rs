//! The connection monitor: the rows it shows, newest first.

use std::collections::VecDeque;

use vstd::prelude::*;

use crate::addr::{socket_text, IpAddr};
use crate::proxy::{
    ConnectionClosed, ConnectionEvent, ConnectionOpened, ConnectionProtocol, Moment,
};
use crate::text::same_text;

verus! {

/// The most rows that are kept.
pub const MAX_CONNECTION_ROWS: usize = 5_000;

/// A connection as the monitor shows it.
#[derive(Debug)]
pub struct ConnectionRow {
    pub id: String,
    pub protocol: ConnectionProtocol,
    pub client: String,
    pub target: String,
    pub egress_name: String,
    pub egress_ip: IpAddr,
    pub opened_at: Moment,
    pub closed_at: Option<Moment>,
    pub up_bytes: u64,
    pub down_bytes: u64,
    pub reason: String,
}

/// What a row stands for.
pub struct Row {
    pub id: Seq<char>,
    pub protocol: ConnectionProtocol,
    pub client: Seq<char>,
    pub target: Seq<char>,
    pub egress_name: Seq<char>,
    pub egress_ip: IpAddr,
    pub opened_at: Moment,
    pub closed_at: Option<Moment>,
    pub up_bytes: u64,
    pub down_bytes: u64,
    pub reason: Seq<char>,
}

impl View for ConnectionRow {
    type V = Row;

    open spec fn view(&self) -> Row {
        Row {
            id: self.id@,
            protocol: self.protocol,
            client: self.client@,
            target: self.target@,
            egress_name: self.egress_name@,
            egress_ip: self.egress_ip,
            opened_at: self.opened_at,
            closed_at: self.closed_at,
            up_bytes: self.up_bytes,
            down_bytes: self.down_bytes,
            reason: self.reason@,
        }
    }
}

/// The row for a connection that was opened.
pub open spec fn opened_row(opened: ConnectionOpened) -> Row {
    Row {
        id: opened.id@,
        protocol: opened.protocol,
        client: socket_text(opened.client),
        target: opened.target@,
        egress_name: opened.egress_name@,
        egress_ip: opened.egress_ip,
        opened_at: opened.opened_at,
        closed_at: None,
        up_bytes: 0,
        down_bytes: 0,
        reason: Seq::empty(),
    }
}

impl ConnectionRow {
    pub fn from_opened(opened: ConnectionOpened) -> (row: Self)
        ensures
            row@ == opened_row(opened),
    {
        let row: ConnectionRow = ConnectionRow {
            id: opened.id,
            protocol: opened.protocol,
            client: opened.client.to_text(),
            target: opened.target,
            egress_name: opened.egress_name,
            egress_ip: opened.egress_ip,
            opened_at: opened.opened_at,
            closed_at: None,
            up_bytes: 0,
            down_bytes: 0,
            reason: String::new(),
        };
        assert(row.reason@ =~= Seq::empty());
        row
    }
}

/// Which rows are shown.
#[derive(Debug, Clone, Copy, PartialEq, Eq, Structural)]
pub enum ConnectionMonitorFilter {
    Active,
    Recent,
    All,
}

/// Whether a row is shown.
pub open spec fn shown(row: Row, filter: ConnectionMonitorFilter) -> bool {
    match filter {
        ConnectionMonitorFilter::Active => row.closed_at is None,
        ConnectionMonitorFilter::Recent => row.closed_at is Some,
        ConnectionMonitorFilter::All => true,
    }
}

pub fn connection_matches_filter(row: &ConnectionRow, filter: ConnectionMonitorFilter) -> (matches:
    bool)
    ensures
        matches == shown(row@, filter),
{
    match filter {
        ConnectionMonitorFilter::Active => row.closed_at.is_none(),
        ConnectionMonitorFilter::Recent => row.closed_at.is_some(),
        ConnectionMonitorFilter::All => true,
    }
}

// ---------------------------------------------------------------------
// What the events do to the rows
// ---------------------------------------------------------------------

/// The first rows, as many as are kept.
pub open spec fn pruned(rows: Seq<Row>) -> Seq<Row> {
    if rows.len() > MAX_CONNECTION_ROWS {
        rows.take(MAX_CONNECTION_ROWS as int)
    } else {
        rows
    }
}

/// The rows after an event. A connection that is opened comes first, in place of what was known
/// under its identity; a report and an end change the row of the connection.
pub open spec fn applied(rows: Seq<Row>, event: ConnectionEvent) -> Seq<Row> {
    match event {
        ConnectionEvent::Opened(opened) => pruned(
            seq![opened_row(opened)] + rows.filter(|row: Row| row.id != opened.id@),
        ),
        ConnectionEvent::Updated(updated) => rows.map_values(
            |row: Row|
                if row.id == updated.id@ {
                    Row { up_bytes: updated.up_bytes, down_bytes: updated.down_bytes, ..row }
                } else {
                    row
                },
        ),
        ConnectionEvent::Closed(closed) => rows.map_values(
            |row: Row|
                if row.id == closed.id@ {
                    Row {
                        up_bytes: closed.up_bytes,
                        down_bytes: closed.down_bytes,
                        reason: closed.reason@,
                        closed_at: Some(closed.closed_at),
                        ..row
                    }
                } else {
                    row
                },
        ),
    }
}

/// The rows once every active connection is taken for closed.
pub open spec fn all_closed(rows: Seq<Row>, reason: Seq<char>, now: Moment) -> Seq<Row> {
    rows.map_values(
        |row: Row|
            if row.closed_at is None {
                Row { closed_at: Some(now), reason, ..row }
            } else {
                row
            },
    )
}

/// Whether no two rows have the same identity and no more are kept than allowed.
pub open spec fn orderly(rows: Seq<Row>) -> bool {
    &&& rows.len() <= MAX_CONNECTION_ROWS
    &&& forall|i: int, j: int|
        0 <= i < j < rows.len() ==> (#[trigger] rows[i]).id != (#[trigger] rows[j]).id
}

/// The rows of the monitor.
#[derive(Debug)]
pub struct ConnectionMonitor {
    pub rows: VecDeque<ConnectionRow>,
}

impl View for ConnectionMonitor {
    type V = Seq<Row>;

    open spec fn view(&self) -> Seq<Row> {
        self.rows@.map_values(|row: ConnectionRow| row@)
    }
}

impl ConnectionMonitor {
    pub open spec fn wf(self) -> bool {
        orderly(self@)
    }

    pub fn new() -> (monitor: Self)
        ensures
            monitor.wf(),
            monitor@ == Seq::<Row>::empty(),
    {
        let monitor: ConnectionMonitor = ConnectionMonitor { rows: VecDeque::new() };
        assert(monitor@ =~= Seq::<Row>::empty());
        monitor
    }

    fn find(&self, id: &str) -> (found: Option<usize>)
        ensures
            match found {
                Some(i) => i < self@.len() && self@[i as int].id == id@,
                None => forall|i: int| 0 <= i < self@.len() ==> (#[trigger] self@[i]).id != id@,
            },
    {
        let mut i: usize = 0;
        while i < self.rows.len()
            invariant
                i <= self@.len(),
                forall|j: int| 0 <= j < i ==> (#[trigger] self@[j]).id != id@,
            decreases self@.len() - i,
        {
            if same_text(self.rows[i].id.as_str(), id) {
                return Some(i);
            }
            i += 1;
        }
        None
    }

    /// Takes an event of the proxy.
    pub fn apply_connection_event(&mut self, event: ConnectionEvent)
        requires
            old(self).wf(),
        ensures
            final(self).wf(),
            final(self)@ == applied(old(self)@, event),
    {
        let ghost before = self@;
        match event {
            ConnectionEvent::Opened(opened) => {
                match self.find(opened.id.as_str()) {
                    Some(i) => {
                        self.rows.remove(i);
                        proof {
                            assert(self@ =~= before.remove(i as int));
                            lemma_filter_one(before, i as int);
                        }
                    },
                    None => {
                        proof {
                            lemma_filter_none(before, opened.id@);
                        }
                    },
                }
                let ghost kept = self@;
                assert(kept == before.filter(|row: Row| row.id != opened.id@));
                proof {
                    lemma_opened_orderly(before, opened);
                }
                let ghost new = opened_row(opened);
                self.rows.push_front(ConnectionRow::from_opened(opened));
                assert(self@ =~= seq![new] + kept);
                self.prune_connections();
            },
            ConnectionEvent::Updated(updated) => {
                match self.find(updated.id.as_str()) {
                    Some(i) => {
                        let mut row: ConnectionRow = self.rows.remove(i).unwrap();
                        let ghost old_row = row@;
                        row.up_bytes = updated.up_bytes;
                        row.down_bytes = updated.down_bytes;
                        assert(row@ == Row {
                            up_bytes: updated.up_bytes,
                            down_bytes: updated.down_bytes,
                            ..old_row
                        });
                        self.rows.insert(i, row);
                        assert(self@ =~= before.update(i as int, row@));
                    },
                    None => {},
                }
                proof {
                    lemma_changed_orderly(before, applied(before, event));
                }
                assert(self@ =~= applied(before, event));
            },
            ConnectionEvent::Closed(closed) => {
                match self.find(closed.id.as_str()) {
                    Some(i) => {
                        let mut row: ConnectionRow = self.rows.remove(i).unwrap();
                        let ghost old_row = row@;
                        row.up_bytes = closed.up_bytes;
                        row.down_bytes = closed.down_bytes;
                        row.reason = closed.reason;
                        row.closed_at = Some(closed.closed_at);
                        assert(row@ == Row {
                            up_bytes: closed.up_bytes,
                            down_bytes: closed.down_bytes,
                            reason: closed.reason@,
                            closed_at: Some(closed.closed_at),
                            ..old_row
                        });
                        self.rows.insert(i, row);
                        assert(self@ =~= before.update(i as int, row@));
                    },
                    None => {},
                }
                proof {
                    lemma_changed_orderly(before, applied(before, event));
                }
                assert(self@ =~= applied(before, event));
            },
        }
    }

    /// Drops the oldest rows where there are too many.
    pub fn prune_connections(&mut self)
        ensures
            final(self)@ == pruned(old(self)@),
    {
        let ghost before = self@;
        while self.rows.len() > MAX_CONNECTION_ROWS
            invariant
                self@.len() <= before.len(),
                self@ == before.take(self@.len() as int),
                before.len() <= MAX_CONNECTION_ROWS ==> self@ == before,
                before.len() > MAX_CONNECTION_ROWS ==> self@.len() >= MAX_CONNECTION_ROWS,
            decreases self@.len(),
        {
            let ghost len = self@.len();
            self.rows.pop_back();
            assert(self@ =~= before.take(len - 1));
        }
        assert(before.len() <= MAX_CONNECTION_ROWS ==> self@ =~= before);
    }

    /// Takes every active connection for closed.
    pub fn mark_active_connections_closed(&mut self, reason: &str, now: Moment)
        ensures
            final(self)@ == all_closed(old(self)@, reason@, now),
            old(self).wf() ==> final(self).wf(),
    {
        let ghost before = self@;
        let ghost after = all_closed(before, reason@, now);
        let mut i: usize = 0;
        while i < self.rows.len()
            invariant
                i <= self@.len(),
                self@.len() == before.len(),
                after == all_closed(before, reason@, now),
                forall|j: int| 0 <= j < i ==> #[trigger] self@[j] == after[j],
                forall|j: int| i <= j < before.len() ==> #[trigger] self@[j] == before[j],
            decreases self@.len() - i,
        {
            if self.rows[i].closed_at.is_none() {
                let ghost current = self@;
                let mut row: ConnectionRow = self.rows.remove(i).unwrap();
                let ghost old_row = row@;
                assert(old_row == current[i as int]);
                row.closed_at = Some(now);
                row.reason = reason.to_owned();
                assert(row@ == Row { closed_at: Some(now), reason: reason@, ..old_row });
                self.rows.insert(i, row);
                assert(self@ =~= current.update(i as int, row@));
            } else {
                assert(self@[i as int] == self.rows@[i as int]@);
            }
            i += 1;
        }
        assert(self@ =~= after);
        proof {
            if orderly(before) {
                lemma_changed_orderly(before, after);
            }
        }
    }

    /// How many rows the filter lets through.
    pub fn connection_count_for(&self, filter: ConnectionMonitorFilter) -> (count: usize)
        ensures
            count == self@.filter(|row: Row| shown(row, filter)).len(),
    {
        let ghost keeps = |row: Row| shown(row, filter);
        let mut count: usize = 0;
        let mut i: usize = 0;
        proof {
            reveal(Seq::filter);
        }
        assert(self@.take(0) =~= Seq::empty());
        while i < self.rows.len()
            invariant
                i <= self@.len(),
                count <= i,
                keeps == (|row: Row| shown(row, filter)),
                count == self@.take(i as int).filter(keeps).len(),
            decreases self@.len() - i,
        {
            proof {
                reveal(Seq::filter);
                assert(self@.take(i + 1).drop_last() =~= self@.take(i as int));
                assert(self@.take(i + 1).last() == self.rows@[i as int]@);
            }
            if connection_matches_filter(&self.rows[i], filter) {
                count += 1;
            }
            i += 1;
        }
        assert(self@.take(i as int) =~= self@);
        count
    }

    pub fn active_connection_count(&self) -> (count: usize)
        ensures
            count == self@.filter(
                |row: Row| shown(row, ConnectionMonitorFilter::Active),
            ).len(),
    {
        self.connection_count_for(ConnectionMonitorFilter::Active)
    }

    pub fn recent_connection_count(&self) -> (count: usize)
        ensures
            count == self@.filter(
                |row: Row| shown(row, ConnectionMonitorFilter::Recent),
            ).len(),
    {
        self.connection_count_for(ConnectionMonitorFilter::Recent)
    }

    /// Forgets the connections that are over.
    pub fn clear_recent(&mut self)
        requires
            old(self).wf(),
        ensures
            final(self).wf(),
            final(self)@ == old(self)@.filter(
                |row: Row| shown(row, ConnectionMonitorFilter::Active),
            ),
    {
        let ghost before = self@;
        let ghost keeps = |row: Row| shown(row, ConnectionMonitorFilter::Active);
        let mut i: usize = 0;
        let ghost mut k: int = 0;
        proof {
            reveal(Seq::filter);
        }
        assert(before.take(0) =~= Seq::empty());
        assert(self@.take(0) =~= Seq::empty());
        assert(self@.skip(0) =~= before.skip(0));
        while i < self.rows.len()
            invariant
                i <= self@.len(),
                0 <= k <= before.len(),
                self@.len() - i == before.len() - k,
                keeps == (|row: Row| shown(row, ConnectionMonitorFilter::Active)),
                self@.take(i as int) == before.take(k).filter(keeps),
                self@.skip(i as int) == before.skip(k),
            decreases self@.len() - i,
        {
            let ghost current = self@;
            proof {
                reveal(Seq::filter);
                assert(before.take(k + 1).drop_last() =~= before.take(k));
                assert(before.take(k + 1).last() == before[k]);
                assert(current.skip(i as int)[0] == before.skip(k)[0]);
                assert(current[i as int] == self.rows@[i as int]@);
                assert(before.skip(k + 1) =~= before.skip(k).skip(1));
                assert(current.skip(i + 1) =~= current.skip(i as int).skip(1));
            }
            if self.rows[i].closed_at.is_none() {
                assert(current.take(i + 1) =~= current.take(i as int).push(before[k]));
                i += 1;
            } else {
                self.rows.remove(i);
                assert(self@ =~= current.remove(i as int));
                assert(self@.take(i as int) =~= current.take(i as int));
                assert(self@.skip(i as int) =~= current.skip(i + 1));
            }
            proof {
                k = k + 1;
            }
        }
        assert(before.take(k) =~= before);
        assert(self@.take(i as int) =~= self@);
        proof {
            lemma_filter_orderly(before, keeps);
        }
    }

    /// Forgets all connections.
    pub fn clear_all(&mut self)
        ensures
            final(self).wf(),
            final(self)@ == Seq::<Row>::empty(),
    {
        self.rows.clear();
        assert(self@ =~= Seq::<Row>::empty());
    }
}

// ---------------------------------------------------------------------
// Proofs
// ---------------------------------------------------------------------

/// With one row of an identity, leaving out that identity leaves out that row.
proof fn lemma_filter_one(rows: Seq<Row>, i: int)
    requires
        orderly(rows),
        0 <= i < rows.len(),
    ensures
        rows.filter(|row: Row| row.id != rows[i].id) == rows.remove(i),
    decreases rows.len(),
{
    reveal(Seq::filter);
    let id = rows[i].id;
    let keeps = |row: Row| row.id != id;
    let front = rows.drop_last();
    assert(orderly(front)) by {
        assert forall|a: int, b: int| 0 <= a < b < front.len() implies (#[trigger] front[a]).id != (
        #[trigger] front[b]).id by {
            assert(rows[a].id != rows[b].id);
        }
    }
    if i == rows.len() - 1 {
        assert forall|j: int| 0 <= j < front.len() implies (#[trigger] front[j]).id != id by {
            assert(rows[j].id != rows[i].id);
        }
        lemma_filter_none(front, id);
        assert(rows.remove(i) =~= front);
    } else {
        assert(front[i] == rows[i]);
        lemma_filter_one(front, i);
        assert(rows[i].id != rows[rows.len() - 1].id);
        assert(rows.remove(i) =~= front.remove(i).push(rows.last()));
    }
}

/// Leaving out an identity that no row has leaves out nothing.
proof fn lemma_filter_none(rows: Seq<Row>, id: Seq<char>)
    requires
        forall|i: int| 0 <= i < rows.len() ==> (#[trigger] rows[i]).id != id,
    ensures
        rows.filter(|row: Row| row.id != id) == rows,
    decreases rows.len(),
{
    reveal(Seq::filter);
    if rows.len() > 0 {
        let front = rows.drop_last();
        assert forall|i: int| 0 <= i < front.len() implies (#[trigger] front[i]).id != id by {
            assert(rows[i].id != id);
        }
        lemma_filter_none(front, id);
        assert(rows[rows.len() - 1].id != id);
        assert(rows =~= front.push(rows.last()));
    } else {
        assert(rows.filter(|row: Row| row.id != id) =~= rows);
    }
}

/// What is kept of orderly rows is orderly.
proof fn lemma_filter_orderly(rows: Seq<Row>, keeps: spec_fn(Row) -> bool)
    requires
        orderly(rows),
    ensures
        orderly(rows.filter(keeps)),
        rows.filter(keeps).len() <= rows.len(),
        forall|k: int|
            0 <= k < rows.filter(keeps).len() ==> exists|i: int|
                0 <= i < rows.len() && rows[i] == #[trigger] rows.filter(keeps)[k],
    decreases rows.len(),
{
    reveal(Seq::filter);
    if rows.len() > 0 {
        let front = rows.drop_last();
        assert forall|a: int, b: int| 0 <= a < b < front.len() implies (#[trigger] front[a]).id != (
        #[trigger] front[b]).id by {
            assert(rows[a].id != rows[b].id);
        }
        lemma_filter_orderly(front, keeps);
        let kept = front.filter(keeps);
        let all = rows.filter(keeps);
        assert forall|k: int| 0 <= k < all.len() implies exists|i: int|
            0 <= i < rows.len() && rows[i] == #[trigger] all[k] by {
            if k < kept.len() {
                let i = choose|i: int| 0 <= i < front.len() && front[i] == kept[k];
                assert(rows[i] == all[k]);
            } else {
                assert(rows[rows.len() - 1] == all[k]);
            }
        }
        assert forall|a: int, b: int| 0 <= a < b < all.len() implies (#[trigger] all[a]).id != (
        #[trigger] all[b]).id by {
            if b == kept.len() {
                let i = choose|i: int| 0 <= i < front.len() && front[i] == kept[a];
                assert(rows[i].id != rows[rows.len() - 1].id);
            }
        }
    }
}

/// Rows that keep their identities stay orderly.
proof fn lemma_changed_orderly(before: Seq<Row>, after: Seq<Row>)
    requires
        orderly(before),
        after.len() == before.len(),
        forall|i: int| 0 <= i < before.len() ==> (#[trigger] after[i]).id == before[i].id,
    ensures
        orderly(after),
{
    assert forall|i: int, j: int| 0 <= i < j < after.len() implies (#[trigger] after[i]).id != (
    #[trigger] after[j]).id by {
        assert(before[i].id != before[j].id);
    }
}

proof fn lemma_opened_orderly(rows: Seq<Row>, opened: ConnectionOpened)
    requires
        orderly(rows),
    ensures
        orderly(
            pruned(seq![opened_row(opened)] + rows.filter(|row: Row| row.id != opened.id@)),
        ),
{
    let keeps = |row: Row| row.id != opened.id@;
    lemma_filter_orderly(rows, keeps);
    let kept = rows.filter(keeps);
    let all = seq![opened_row(opened)] + kept;
    assert forall|i: int, j: int| 0 <= i < j < all.len() implies (#[trigger] all[i]).id != (
    #[trigger] all[j]).id by {
        rows.lemma_filter_pred(keeps, j - 1);
        if i > 0 {
            assert(kept[i - 1].id != kept[j - 1].id);
        }
    }
    assert forall|i: int, j: int| 0 <= i < j < pruned(all).len() implies (
    #[trigger] pruned(all)[i]).id != (#[trigger] pruned(all)[j]).id by {
        assert(all[i].id != all[j].id);
    }
}

// ---------------------------------------------------------------------
// Laws
// ---------------------------------------------------------------------

/// Each connection is either active or recent: the two counts make up the number of rows.
pub proof fn law_active_and_recent_make_up_all(rows: Seq<Row>)
    ensures
        rows.filter(|row: Row| shown(row, ConnectionMonitorFilter::Active)).len() + rows.filter(
            |row: Row| shown(row, ConnectionMonitorFilter::Recent),
        ).len() == rows.len(),
        rows.filter(|row: Row| shown(row, ConnectionMonitorFilter::All)) == rows,
    decreases rows.len(),
{
    reveal(Seq::filter);
    if rows.len() > 0 {
        law_active_and_recent_make_up_all(rows.drop_last());
        assert(rows =~= rows.drop_last().push(rows.last()));
    } else {
        assert(rows.filter(|row: Row| shown(row, ConnectionMonitorFilter::All)) =~= rows);
    }
}

/// Once every connection is taken for closed, none is active.
pub proof fn law_none_is_active_after_the_end(rows: Seq<Row>, reason: Seq<char>, now: Moment)
    ensures
        all_closed(rows, reason, now).filter(
            |row: Row| shown(row, ConnectionMonitorFilter::Active),
        ).len() == 0,
    decreases rows.len(),
{
    reveal(Seq::filter);
    let after = all_closed(rows, reason, now);
    if rows.len() > 0 {
        law_none_is_active_after_the_end(rows.drop_last(), reason, now);
        assert(after.drop_last() =~= all_closed(rows.drop_last(), reason, now));
    }
}

/// The connection that was opened last comes first.
pub proof fn law_newest_comes_first(rows: Seq<Row>, opened: ConnectionOpened)
    ensures
        applied(rows, ConnectionEvent::Opened(opened)).len() > 0,
        applied(rows, ConnectionEvent::Opened(opened))[0] == opened_row(opened),
{
}

/// The end of a connection is shown in its row, and in no other.
pub proof fn law_end_is_shown(rows: Seq<Row>, closed: ConnectionClosed, i: int)
    requires
        orderly(rows),
        0 <= i < rows.len(),
        rows[i].id == closed.id@,
    ensures
        ({
            let after = applied(rows, ConnectionEvent::Closed(closed));
            &&& after.len() == rows.len()
            &&& after[i].closed_at == Some(closed.closed_at)
            &&& after[i].up_bytes == closed.up_bytes
            &&& after[i].down_bytes == closed.down_bytes
            &&& after[i].reason == closed.reason@
            &&& forall|j: int| 0 <= j < rows.len() && j != i ==> #[trigger] after[j] == rows[j]
        }),
{
    let after = applied(rows, ConnectionEvent::Closed(closed));
    assert forall|j: int| 0 <= j < rows.len() && j != i implies #[trigger] after[j] == rows[j] by {
        if j < i {
            assert(rows[j].id != rows[i].id);
        } else {
            assert(rows[i].id != rows[j].id);
        }
    }
}

/// The rows after the ends of several connections.
pub open spec fn all_ended(rows: Seq<Row>, ends: Seq<ConnectionClosed>) -> Seq<Row>
    decreases ends.len(),
{
    if ends.len() == 0 {
        rows
    } else {
        applied(all_ended(rows, ends.drop_last()), ConnectionEvent::Closed(ends.last()))
    }
}

/// Once the ends of connections were reported, none of them is shown as active.
pub proof fn law_ended_connections_are_not_active(
    rows: Seq<Row>,
    ends: Seq<ConnectionClosed>,
    i: int,
    k: int,
)
    requires
        0 <= i < rows.len(),
        0 <= k < ends.len(),
        rows[i].id == ends[k].id@,
    ensures
        all_ended(rows, ends).len() == rows.len(),
        all_ended(rows, ends)[i].id == rows[i].id,
        all_ended(rows, ends)[i].closed_at is Some,
    decreases ends.len(),
{
    lemma_ended_rows(rows, ends.drop_last(), i);
    if k < ends.len() - 1 {
        law_ended_connections_are_not_active(rows, ends.drop_last(), i, k);
    }
}

/// Ends change neither the number of the rows nor their identities.
proof fn lemma_ended_rows(rows: Seq<Row>, ends: Seq<ConnectionClosed>, i: int)
    requires
        0 <= i < rows.len(),
    ensures
        all_ended(rows, ends).len() == rows.len(),
        all_ended(rows, ends)[i].id == rows[i].id,
    decreases ends.len(),
{
    if ends.len() > 0 {
        lemma_ended_rows(rows, ends.drop_last(), i);
    }
}

/// A connection that is opened is listed with what was reported of it: it is open, and nothing was
/// moved yet.
pub proof fn law_opened_connection_is_listed(opened: ConnectionOpened)
    ensures
        opened_row(opened).id == opened.id@,
        opened_row(opened).protocol == opened.protocol,
        opened_row(opened).client == socket_text(opened.client),
        opened_row(opened).target == opened.target@,
        opened_row(opened).egress_name == opened.egress_name@,
        opened_row(opened).egress_ip == opened.egress_ip,
        opened_row(opened).opened_at == opened.opened_at,
        opened_row(opened).closed_at is None,
        opened_row(opened).up_bytes == 0,
        opened_row(opened).down_bytes == 0,
        opened_row(opened).reason.len() == 0,
{
}

/// A new connection comes before the others, which keep their order; where there are 5000 of them
/// the oldest one is dropped.
pub proof fn law_new_connection_pushes_the_others_down(rows: Seq<Row>, opened: ConnectionOpened)
    requires
        orderly(rows),
        forall|i: int| 0 <= i < rows.len() ==> (#[trigger] rows[i]).id != opened.id@,
    ensures
        ({
            let after = applied(rows, ConnectionEvent::Opened(opened));
            &&& after.len() == (if rows.len() >= 5000 {
                5000
            } else {
                rows.len() + 1
            })
            &&& after[0] == opened_row(opened)
            &&& forall|i: int| 1 <= i < after.len() ==> #[trigger] after[i] == rows[i - 1]
        }),
{
    lemma_filter_none(rows, opened.id@);
}

/// A connection that is opened again under its identity replaces its row; the others keep their
/// order.
pub proof fn law_reopened_connection_moves_up(rows: Seq<Row>, opened: ConnectionOpened, at: int)
    requires
        orderly(rows),
        0 <= at < rows.len(),
        rows[at].id == opened.id@,
    ensures
        ({
            let after = applied(rows, ConnectionEvent::Opened(opened));
            &&& after.len() == rows.len()
            &&& after[0] == opened_row(opened)
            &&& forall|i: int| 1 <= i <= at ==> #[trigger] after[i] == rows[i - 1]
            &&& forall|i: int| at < i < rows.len() ==> #[trigger] after[i] == rows[i]
        }),
{
    lemma_filter_one(rows, at);
}

/// A report changes the amounts in the row of its connection and nothing else.
pub proof fn law_report_is_shown(rows: Seq<Row>, updated: crate::proxy::ConnectionUpdated, i: int)
    requires
        0 <= i < rows.len(),
    ensures
        ({
            let after = applied(rows, ConnectionEvent::Updated(updated));
            let mine = rows[i].id == updated.id@;
            &&& after.len() == rows.len()
            &&& after[i].id == rows[i].id
            &&& after[i].protocol == rows[i].protocol
            &&& after[i].client == rows[i].client
            &&& after[i].target == rows[i].target
            &&& after[i].egress_name == rows[i].egress_name
            &&& after[i].egress_ip == rows[i].egress_ip
            &&& after[i].opened_at == rows[i].opened_at
            &&& after[i].closed_at == rows[i].closed_at
            &&& after[i].reason == rows[i].reason
            &&& mine ==> after[i].up_bytes == updated.up_bytes && after[i].down_bytes
                == updated.down_bytes
            &&& !mine ==> after[i] == rows[i]
        }),
{
}

/// The end of a connection keeps what its row says of where it led.
pub proof fn law_end_keeps_the_connection(rows: Seq<Row>, closed: ConnectionClosed, i: int)
    requires
        0 <= i < rows.len(),
    ensures
        ({
            let after = applied(rows, ConnectionEvent::Closed(closed));
            let mine = rows[i].id == closed.id@;
            &&& after.len() == rows.len()
            &&& after[i].id == rows[i].id
            &&& after[i].protocol == rows[i].protocol
            &&& after[i].client == rows[i].client
            &&& after[i].target == rows[i].target
            &&& after[i].egress_name == rows[i].egress_name
            &&& after[i].egress_ip == rows[i].egress_ip
            &&& after[i].opened_at == rows[i].opened_at
            &&& mine ==> after[i].closed_at == Some(closed.closed_at) && after[i].reason
                == closed.reason@ && after[i].up_bytes == closed.up_bytes && after[i].down_bytes
                == closed.down_bytes
            &&& !mine ==> after[i] == rows[i]
        }),
{
}

/// When everything ends, the connections that were open are closed at that moment and for that
/// reason; those that were closed before stay as they are.
pub proof fn law_end_of_everything(rows: Seq<Row>, reason: Seq<char>, now: Moment, i: int)
    requires
        0 <= i < rows.len(),
    ensures
        ({
            let after = all_closed(rows, reason, now);
            &&& after.len() == rows.len()
            &&& rows[i].closed_at is Some ==> after[i] == rows[i]
            &&& rows[i].closed_at is None ==> after[i] == (Row {
                closed_at: Some(now),
                reason,
                ..rows[i]
            })
        }),
{
}

/// A connection is shown among the active ones while it is open, among the recent ones once it is
/// closed, and always among all of them.
pub proof fn law_filters(row: Row)
    ensures
        shown(row, ConnectionMonitorFilter::All),
        row.closed_at is None ==> shown(row, ConnectionMonitorFilter::Active) && !shown(
            row,
            ConnectionMonitorFilter::Recent,
        ),
        row.closed_at is Some ==> !shown(row, ConnectionMonitorFilter::Active) && shown(
            row,
            ConnectionMonitorFilter::Recent,
        ),
{
}

} // verus!
