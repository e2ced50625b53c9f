use vstd::prelude::*;
use crate::payload::{
    float_of, int_of, json_accepts, message_outcome, parse_message, payload_fields_of,
    rfc3339_instant, utf8_lossy, Field, PayloadError,
};
use crate::subscriber::{next, LinkAction, LinkEvent, LinkState};
use crate::reading::{SensorData, SensorReading, Timestamp};

verus! {

/// Why the store could not serve a request.
#[derive(Clone, Copy, Debug, PartialEq, Eq, Structural)]
pub enum StoreError {
    /// Every identifier has been handed out.
    Full,
    /// The backing database failed.
    Backend,
}

/// Why an incoming message did not become a row.
#[derive(Clone, Copy, Debug, PartialEq, Eq, Structural)]
pub enum IngestError {
    Rejected(PayloadError),
    Store(StoreError),
}

/// What storing a validation outcome does: a rejection leaves the rows as
/// they were; an accepted reading is appended under the next identifier
/// unless identifiers have run out.
pub open spec fn ingested(
    before: Seq<SensorData>,
    parsed: Result<SensorReading, PayloadError>,
    r: Result<u64, IngestError>,
    after: Seq<SensorData>,
) -> bool {
    match parsed {
        Err(e) => r == Err::<u64, IngestError>(IngestError::Rejected(e)) && after == before,
        Ok(reading) => if before.len() + 1 < u64::MAX {
            r == Ok::<u64, IngestError>((before.len() + 1) as u64) && after == before.push(
                SensorData { id: (before.len() + 1) as u64, reading },
            )
        } else {
            r == Err::<u64, IngestError>(IngestError::Store(StoreError::Full)) && after == before
        },
    }
}

/// An append-only store of readings. Row `i` carries identifier `i + 1`.
///
/// This is the reference model of the readings table: a database-backed
/// store must answer `latest` and `recent` as these contracts say, newest
/// timestamp first and, among equal timestamps, the last inserted first.
pub struct ReadingStore {
    rows: Vec<SensorData>,
    next_id: u64,
}

/// `k` is the row with the greatest timestamp; among equal timestamps, the
/// one inserted last.
pub open spec fn is_latest_index(rows: Seq<SensorData>, k: int) -> bool {
    &&& 0 <= k < rows.len()
    &&& forall|j: int| 0 <= j < rows.len() ==> !rows[k].reading.timestamp.precedes(#[trigger] rows[j].reading.timestamp)
    &&& forall|j: int| k < j < rows.len() ==> (#[trigger] rows[j]).reading.timestamp.precedes(rows[k].reading.timestamp)
}

/// What `latest` owes: nothing for an empty store, else the latest row.
pub open spec fn latest_of(rows: Seq<SensorData>, r: Option<SensorData>) -> bool {
    match r {
        None => rows.len() == 0,
        Some(d) => exists|k: int| is_latest_index(rows, k) && d == rows[k],
    }
}

/// No row of `out` has an earlier timestamp than the row after it.
pub open spec fn descending(out: Seq<SensorData>) -> bool {
    forall|i: int, j: int|
        0 <= i < j < out.len() ==> !(#[trigger] out[i]).reading.timestamp.precedes(
            (#[trigger] out[j]).reading.timestamp,
        )
}

/// `out` is `rows` at the distinct positions `idx`.
pub open spec fn picks(rows: Seq<SensorData>, out: Seq<SensorData>, idx: Seq<int>) -> bool {
    &&& idx.len() == out.len()
    &&& forall|i: int| 0 <= i < idx.len() ==> 0 <= #[trigger] idx[i] < rows.len()
    &&& forall|i: int| 0 <= i < idx.len() ==> out[i] == rows[#[trigger] idx[i]]
    &&& forall|i: int, j: int| 0 <= i < j < idx.len() ==> #[trigger] idx[i] != #[trigger] idx[j]
}

/// What `recent(limit)` owes: `min(n, limit)` distinct rows of the store,
/// newest first, and no row left out is newer than one taken.
pub open spec fn recent_of(rows: Seq<SensorData>, limit: nat, out: Seq<SensorData>) -> bool {
    &&& out.len() == if rows.len() < limit { rows.len() } else { limit }
    &&& descending(out)
    &&& exists|idx: Seq<int>| recent_order(rows, out, idx)
}

/// Row `a` comes before row `b` in recent order: it has the later timestamp,
/// or the same timestamp and was inserted later.
pub open spec fn ranks_before(rows: Seq<SensorData>, a: int, b: int) -> bool {
    rows[b].reading.timestamp.precedes(rows[a].reading.timestamp) || (rows[a].reading.timestamp
        == rows[b].reading.timestamp && a > b)
}

/// `out` is the rows at positions `idx`, in recent order, and every row left
/// out comes after every row taken.
pub open spec fn recent_order(rows: Seq<SensorData>, out: Seq<SensorData>, idx: Seq<int>) -> bool {
    &&& picks(rows, out, idx)
    &&& forall|a: int, b: int|
        0 <= a < b < idx.len() ==> ranks_before(rows, #[trigger] idx[a], #[trigger] idx[b])
    &&& forall|k: int, i: int|
        0 <= k < rows.len() && !idx.contains(k) && 0 <= i < idx.len() ==> #[trigger] ranks_before(
            rows,
            idx[i],
            k,
        )
}

impl ReadingStore {
    /// The rows, in the order they were inserted.
    pub closed spec fn view(&self) -> Seq<SensorData> {
        self.rows@
    }

    pub open spec fn wf(&self) -> bool {
        &&& self@.len() < u64::MAX
        &&& forall|i: int| 0 <= i < self@.len() ==> (#[trigger] self@[i]).id == i + 1
    }

    pub closed spec fn inner_wf(&self) -> bool {
        self.next_id == self.rows@.len() + 1
    }

    pub fn new() -> (r: Self)
        ensures
            r.wf(),
            r.inner_wf(),
            r@.len() == 0,
    {
        ReadingStore { rows: Vec::new(), next_id: 1 }
    }

    pub fn len(&self) -> (r: usize)
        ensures
            r == self@.len(),
    {
        self.rows.len()
    }

    /// Appends a reading under the next identifier and returns that identifier.
    pub fn insert(&mut self, reading: SensorReading) -> (r: Result<u64, StoreError>)
        requires
            old(self).wf(),
            old(self).inner_wf(),
        ensures
            final(self).wf(),
            final(self).inner_wf(),
            old(self)@.len() + 1 < u64::MAX ==> r == Ok::<u64, StoreError>(
                (old(self)@.len() + 1) as u64,
            ) && final(self)@ == old(self)@.push(
                SensorData { id: (old(self)@.len() + 1) as u64, reading },
            ),
            old(self)@.len() + 1 >= u64::MAX ==> r == Err::<u64, StoreError>(StoreError::Full)
                && final(self)@ == old(self)@,
    {
        if self.next_id >= u64::MAX {
            return Err(StoreError::Full);
        }
        let id = self.next_id;
        self.rows.push(SensorData { id, reading });
        self.next_id = id + 1;
        Ok(id)
    }

    /// The row with the greatest timestamp (the last inserted among equals),
    /// or `None` when the store is empty.
    pub fn latest(&self) -> (r: Option<SensorData>)
        ensures
            latest_of(self@, r),
    {
        if self.rows.len() == 0 {
            return None;
        }
        let mut best: usize = 0;
        let mut i: usize = 1;
        while i < self.rows.len()
            invariant
                1 <= i <= self.rows@.len(),
                best < i,
                forall|j: int| 0 <= j < i ==> !self.rows@[best as int].reading.timestamp.precedes(#[trigger] self.rows@[j].reading.timestamp),
                forall|j: int| best < j < i ==> (#[trigger] self.rows@[j]).reading.timestamp.precedes(self.rows@[best as int].reading.timestamp),
            decreases self.rows@.len() - i,
        {
            if !self.rows[i].reading.timestamp.is_before(&self.rows[best].reading.timestamp) {
                best = i;
            }
            i += 1;
        }
        assert(is_latest_index(self@, best as int));
        Some(self.rows[best])
    }

    /// Up to `limit` rows, newest first.
    pub fn recent(&self, limit: usize) -> (r: Vec<SensorData>)
        ensures
            recent_of(self@, limit as nat, r@),
    {
        let n = self.rows.len();
        let m = if n < limit { n } else { limit };
        let mut taken: Vec<bool> = Vec::new();
        let mut t: usize = 0;
        while t < n
            invariant
                t <= n == self.rows@.len(),
                taken@.len() == t,
                forall|k: int| 0 <= k < t ==> !taken@[k],
            decreases n - t,
        {
            taken.push(false);
            t += 1;
        }
        let mut out: Vec<SensorData> = Vec::new();
        let ghost mut idx: Seq<int> = Seq::empty();
        while out.len() < m
            invariant
                m <= n == self.rows@.len(),
                m == if n < limit { n } else { limit },
                taken@.len() == n,
                out@.len() <= m,
                picks(self@, out@, idx),
                descending(out@),
                forall|k: int| 0 <= k < n ==> (#[trigger] taken@[k] <==> idx.contains(k)),
                forall|k: int, i: int|
                    0 <= k < n && !taken@[k] && 0 <= i < out@.len() ==> !(#[trigger] out@[i]).reading.timestamp.precedes(
                        (#[trigger] self.rows@[k]).reading.timestamp,
                    ),
                forall|a: int, b: int|
                    0 <= a < b < idx.len() ==> ranks_before(self@, #[trigger] idx[a], #[trigger] idx[b]),
                forall|k: int, i: int|
                    0 <= k < n && !taken@[k] && 0 <= i < idx.len() ==> ranks_before(self@, #[trigger] idx[i], k) && #[trigger] taken@[k] == false,
            decreases m - out@.len(),
        {
            proof {
                assert(idx.len() < n);
                lemma_untaken_exists(taken@, idx, n as int);
            }
            let mut best: usize = n;
            let mut i: usize = 0;
            while i < n
                invariant
                    m <= n == self.rows@.len(),
                    taken@.len() == n,
                    i <= n,
                    best == n || (best < i && !taken@[best as int]),
                    best == n ==> forall|j: int| 0 <= j < i ==> #[trigger] taken@[j],
                    best < n ==> forall|j: int| 0 <= j < i && !taken@[j] ==> !self.rows@[best as int].reading.timestamp.precedes(#[trigger] self.rows@[j].reading.timestamp),
                    best < n ==> forall|j: int| 0 <= j < i && !taken@[j] && j != best ==> ranks_before(self@, best as int, j) && #[trigger] taken@[j] == false,
                decreases n - i,
            {
                if !taken[i] {
                    if best == n || !self.rows[i].reading.timestamp.is_before(&self.rows[best].reading.timestamp) {
                        best = i;
                    }
                }
                i += 1;
            }
            proof {
                if best == n {
                    let w = choose|w: int| 0 <= w < n && !taken@[w];
                    assert(taken@[w]);
                }
            }
            let row = self.rows[best];
            taken.set(best, true);
            out.push(row);
            proof {
                let old_idx = idx;
                idx = idx.push(best as int);
                assert(forall|i: int| 0 <= i < old_idx.len() ==> idx[i] == old_idx[i]);
                assert(!old_idx.contains(best as int));
                assert forall|k: int| 0 <= k < n implies (#[trigger] taken@[k] <==> idx.contains(k)) by {
                    if k == best as int {
                        assert(idx[idx.len() - 1] == k);
                    } else if idx.contains(k) {
                        let p = choose|p: int| 0 <= p < idx.len() && idx[p] == k;
                        assert(old_idx[p] == k);
                    } else if old_idx.contains(k) {
                        let p = choose|p: int| 0 <= p < old_idx.len() && old_idx[p] == k;
                        assert(idx[p] == k);
                    }
                }
                assert forall|a: int, b: int| 0 <= a < b < idx.len() implies ranks_before(self@, #[trigger] idx[a], #[trigger] idx[b]) by {
                    if b == idx.len() - 1 {
                        assert(idx[b] == best as int);
                        assert(old_idx[a] == idx[a]);
                    } else {
                        assert(old_idx[a] == idx[a] && old_idx[b] == idx[b]);
                    }
                }
                assert forall|k: int, i: int| 0 <= k < n && !taken@[k] && 0 <= i < idx.len() implies ranks_before(self@, #[trigger] idx[i], k) && #[trigger] taken@[k] == false by {
                    if i == idx.len() - 1 {
                        assert(idx[i] == best as int);
                        assert(k != best as int);
                    } else {
                        assert(old_idx[i] == idx[i]);
                    }
                }
                assert forall|a: int, b: int| 0 <= a < b < out@.len() implies !(#[trigger] out@[a]).reading.timestamp.precedes(
                    (#[trigger] out@[b]).reading.timestamp,
                ) by {
                    if b == out@.len() - 1 {
                        assert(out@[b] == self.rows@[best as int]);
                    }
                }
            }
        }
        proof {
            assert forall|k: int, i: int|
                0 <= k < n && !idx.contains(k) && 0 <= i < out@.len() implies !(#[trigger] out@[i]).reading.timestamp.precedes(
                    (#[trigger] self.rows@[k]).reading.timestamp,
                ) by {
                assert(!taken@[k]);
            }
            assert(recent_order(self@, out@, idx)) by {
                assert forall|k: int, i: int|
                    0 <= k < n && !idx.contains(k) && 0 <= i < idx.len() implies #[trigger] ranks_before(self@, idx[i], k) by {
                    assert(!taken@[k]);
                }
            }
        }
        out
    }

    /// Stores the outcome of validating one message.
    pub fn store_outcome(&mut self, parsed: Result<SensorReading, PayloadError>) -> (r: Result<
        u64,
        IngestError,
    >)
        requires
            old(self).wf(),
            old(self).inner_wf(),
        ensures
            final(self).wf(),
            final(self).inner_wf(),
            ingested(old(self)@, parsed, r, final(self)@),
    {
        match parsed {
            Err(e) => Err(IngestError::Rejected(e)),
            Ok(reading) => match self.insert(reading) {
                Ok(id) => Ok(id),
                Err(e) => Err(IngestError::Store(e)),
            },
        }
    }

    /// Decodes and validates a message body and appends the reading it holds.
    /// A rejected message leaves the store as it was.
    pub fn ingest(&mut self, payload: &[u8]) -> (r: Result<u64, IngestError>)
        requires
            old(self).wf(),
            old(self).inner_wf(),
        ensures
            final(self).wf(),
            final(self).inner_wf(),
            ingested(old(self)@, message_outcome(utf8_lossy(payload@)), r, final(self)@),
    {
        let parsed = parse_message(payload);
        self.store_outcome(parsed)
    }
}

/// A JSON message whose `timestamp` parses yields a reading that keeps every
/// numeric member the message carries, in which each optional member that is
/// absent or null reads as null; storing it appends exactly that reading.
pub proof fn lemma_valid_message_kept(
    text: Seq<char>,
    s: String,
    t: Timestamp,
    rows0: Seq<SensorData>,
    r: Result<u64, IngestError>,
    rows1: Seq<SensorData>,
)
    requires
        json_accepts(text),
        payload_fields_of(text).timestamp == Field::Text(s),
        rfc3339_instant(s@) == Some(t),
        rows0.len() + 1 < u64::MAX,
        ingested(rows0, message_outcome(text), r, rows1),
    ensures
        ({
            let f = payload_fields_of(text);
            let rd = SensorReading {
                co: int_of(f.co),
                no2: int_of(f.no2),
                temperature: float_of(f.temperature),
                humidity: float_of(f.humidity),
                timestamp: t,
            };
            &&& message_outcome(text) == Ok::<SensorReading, PayloadError>(rd)
            &&& (f.co is Absent || f.co is Null) ==> rd.co is None
            &&& (f.no2 is Absent || f.no2 is Null) ==> rd.no2 is None
            &&& (f.temperature is Absent || f.temperature is Null) ==> rd.temperature is None
            &&& (f.humidity is Absent || f.humidity is Null) ==> rd.humidity is None
            &&& r == Ok::<u64, IngestError>((rows0.len() + 1) as u64)
            &&& rows1 == rows0.push(SensorData { id: (rows0.len() + 1) as u64, reading: rd })
        }),
{
}

/// While subscribed, a message without a usable `timestamp` is processed and
/// rejected: the link keeps receiving, the rows and the latest row stay as
/// they were, and the next valid message is still appended.
pub proof fn lemma_rejected_message_keeps_listening(
    state: LinkState,
    bad: Seq<char>,
    good: Seq<char>,
    rows0: Seq<SensorData>,
    r1: Result<u64, IngestError>,
    rows1: Seq<SensorData>,
    r2: Result<u64, IngestError>,
    rows2: Seq<SensorData>,
)
    requires
        state is Subscribed || state is Receiving,
        json_accepts(bad) ==> match payload_fields_of(bad).timestamp {
            Field::Text(s) => rfc3339_instant(s@) is None,
            _ => true,
        },
        message_outcome(good) is Ok,
        rows0.len() + 1 < u64::MAX,
        ingested(rows0, message_outcome(bad), r1, rows1),
        ingested(rows1, message_outcome(good), r2, rows2),
    ensures
        next(state, LinkEvent::Publish) == (LinkState::Receiving, LinkAction::Process),
        next(LinkState::Receiving, LinkEvent::Publish) == (LinkState::Receiving, LinkAction::Process),
        message_outcome(bad) is Err,
        r1 is Err,
        rows1 == rows0,
        forall|x: Option<SensorData>| latest_of(rows1, x) <==> latest_of(rows0, x),
        r2 == Ok::<u64, IngestError>((rows0.len() + 1) as u64),
        rows2 == rows0.push(
            SensorData { id: (rows0.len() + 1) as u64, reading: message_outcome(good)->Ok_0 },
        ),
{
}

/// With distinct timestamps, `recent(limit)` gives `min(n, limit)` rows in
/// strictly descending timestamp order.
pub proof fn lemma_recent_strictly_descending(rows: Seq<SensorData>, limit: nat, out: Seq<SensorData>)
    requires
        forall|i: int, j: int|
            0 <= i < j < rows.len() ==> (#[trigger] rows[i]).reading.timestamp != (#[trigger] rows[j]).reading.timestamp,
        recent_of(rows, limit, out),
    ensures
        out.len() == if rows.len() < limit { rows.len() } else { limit },
        forall|i: int, j: int|
            0 <= i < j < out.len() ==> (#[trigger] out[j]).reading.timestamp.precedes(
                (#[trigger] out[i]).reading.timestamp,
            ),
{
    let idx = choose|idx: Seq<int>| recent_order(rows, out, idx);
    assert forall|i: int, j: int| 0 <= i < j < out.len() implies (#[trigger] out[j]).reading.timestamp.precedes(
        (#[trigger] out[i]).reading.timestamp,
    ) by {
        assert(idx[i] != idx[j]);
        assert(out[i] == rows[idx[i]]);
        assert(out[j] == rows[idx[j]]);
        if idx[i] < idx[j] {
            assert(rows[idx[i]].reading.timestamp != rows[idx[j]].reading.timestamp);
        } else {
            assert(rows[idx[j]].reading.timestamp != rows[idx[i]].reading.timestamp);
        }
    }
}

/// Rows only ever get appended, so every row that `recent` returned at one
/// point is still in the store, whole and unchanged, after later inserts.
pub proof fn lemma_observed_rows_persist(
    rows0: Seq<SensorData>,
    rows1: Seq<SensorData>,
    limit: nat,
    out: Seq<SensorData>,
)
    requires
        rows0.len() <= rows1.len(),
        rows1.subrange(0, rows0.len() as int) == rows0,
        recent_of(rows0, limit, out),
    ensures
        forall|i: int| 0 <= i < out.len() ==> rows1.contains(#[trigger] out[i]),
{
    let idx = choose|idx: Seq<int>| recent_order(rows0, out, idx);
    assert forall|i: int| 0 <= i < out.len() implies rows1.contains(#[trigger] out[i]) by {
        let k = idx[i];
        assert(0 <= k < rows0.len());
        assert(rows1.subrange(0, rows0.len() as int)[k] == rows1[k]);
        assert(rows1[k] == out[i]);
    }
}

/// An empty store has no latest row; after one insert into it, the latest
/// row is the one inserted.
pub proof fn lemma_latest_of_single_insert(before: Seq<SensorData>, reading: SensorReading, x: Option<SensorData>)
    requires
        before.len() == 0,
    ensures
        latest_of(before, x) <==> x is None,
        latest_of(before.push(SensorData { id: 1, reading }), x) <==> x == Some(
            SensorData { id: 1, reading },
        ),
{
    let after = before.push(SensorData { id: 1, reading });
    assert(after[0] == SensorData { id: 1, reading });
    if x == Some(SensorData { id: 1, reading }) {
        assert(is_latest_index(after, 0));
    }
}

proof fn lemma_untaken_exists(taken: Seq<bool>, idx: Seq<int>, n: int)
    requires
        taken.len() == n,
        idx.len() < n,
        forall|i: int, j: int| 0 <= i < j < idx.len() ==> #[trigger] idx[i] != #[trigger] idx[j],
        forall|i: int| 0 <= i < idx.len() ==> 0 <= #[trigger] idx[i] < n,
        forall|k: int| 0 <= k < n ==> (#[trigger] taken[k] <==> idx.contains(k)),
    ensures
        exists|w: int| 0 <= w < n && !taken[w],
{
    if forall|w: int| 0 <= w < n ==> taken[w] {
        let s = idx.to_set();
        idx.lemma_cardinality_of_set();
        broadcast use vstd::seq_lib::seq_to_set_is_finite;
        assert(s.finite());
        let full = Set::new(|k: int| 0 <= k < n);
        assert forall|k: int| full.contains(k) implies s.contains(k) by {
            assert(taken[k]);
        }
        assert(full =~= vstd::set_lib::set_int_range(0, n));
        vstd::set_lib::lemma_int_range(0, n);
        vstd::set_lib::lemma_len_subset(full, s);
    }
}

} // verus!
