//! The record store: tracked tokens keyed by name, with insert-or-replace,
//! removal, listing, the due-record query, and the notification write-back.

use vstd::prelude::*;

verus! {

use crate::date::{
    Date,
    Timestamp,
    date_valid,
    timestamp_valid,
    valid_date_string,
    date_of_string,
    date_string,
    parse_date,
    day_number,
    days_between,
    timestamp_seconds,
    lemma_date_string_round_trip,
};

/// What one stored record holds, in specification terms.
pub struct RecordV {
    pub name: Seq<char>,
    pub expires_at: Date,
    pub last_notified: Option<Timestamp>,
}

/// A tracked token: its unique name, its expiry date, and the time of the
/// last successful notification, absent until one succeeds.
pub struct TokenRecord {
    pub name: String,
    pub expires_at: Date,
    pub last_notified: Option<Timestamp>,
}

impl View for TokenRecord {
    type V = RecordV;

    open spec fn view(&self) -> RecordV {
        RecordV {
            name: self.name@,
            expires_at: self.expires_at,
            last_notified: self.last_notified,
        }
    }
}

/// Rejection of an `add` whose expiry string is not a valid `YYYY-MM-DD` date.
#[derive(Clone, Copy, Debug, PartialEq, Eq, Structural)]
pub struct ValidationError;

pub open spec fn record_valid(rv: RecordV) -> bool {
    &&& date_valid(rv.expires_at)
    &&& rv.last_notified is Some ==> timestamp_valid(rv.last_notified->0)
}

/// No two records share a name: the name is the store's primary key.
pub open spec fn unique_names(rs: Seq<RecordV>) -> bool {
    forall|i: int, j: int| 0 <= i < j < rs.len() ==> rs[i].name != rs[j].name
}

pub open spec fn has_name(rs: Seq<RecordV>, name: Seq<char>) -> bool {
    exists|i: int| 0 <= i < rs.len() && rs[i].name == name
}

/// The index of the record named `name`; meaningful only under `has_name`,
/// and unique under `unique_names`.
pub open spec fn name_index(rs: Seq<RecordV>, name: Seq<char>) -> int {
    choose|i: int| 0 <= i < rs.len() && rs[i].name == name
}

/// A record as `add` writes it: the expiry supplied, no notification time.
pub open spec fn fresh_record(name: Seq<char>, d: Date) -> RecordV {
    RecordV { name: name, expires_at: d, last_notified: None }
}

/// Insert-or-replace: a present name has its whole record overwritten (the
/// replacement carries no notification time), an absent one is appended.
pub open spec fn insert_model(rs: Seq<RecordV>, name: Seq<char>, d: Date) -> Seq<RecordV> {
    if has_name(rs, name) {
        rs.update(name_index(rs, name), fresh_record(name, d))
    } else {
        rs.push(fresh_record(name, d))
    }
}

/// Removal: drops the record named `name` if present, else leaves the store
/// as it was.
pub open spec fn remove_model(rs: Seq<RecordV>, name: Seq<char>) -> Seq<RecordV> {
    if has_name(rs, name) {
        rs.remove(name_index(rs, name))
    } else {
        rs
    }
}

/// Notification write-back: sets `last_notified` of the record named `name`,
/// keeping everything else; a no-op when the record is gone.
pub open spec fn mark_model(rs: Seq<RecordV>, name: Seq<char>, ts: Timestamp) -> Seq<RecordV> {
    if has_name(rs, name) {
        let i = name_index(rs, name);
        rs.update(
            i,
            RecordV { name: rs[i].name, expires_at: rs[i].expires_at, last_notified: Some(ts) },
        )
    } else {
        rs
    }
}

/// A record is due when its expiry lies at most `threshold` days after
/// `today` (inclusive boundary).
pub open spec fn due(rv: RecordV, today: Date, threshold: int) -> bool {
    day_number(rv.expires_at) <= day_number(today) + threshold
}

/// The in-memory record store. Persistence wraps around it: callers load the
/// records, operate here, and write the result back.
pub struct TokenStore {
    records: Vec<TokenRecord>,
}

impl View for TokenStore {
    type V = Seq<RecordV>;

    closed spec fn view(&self) -> Seq<RecordV> {
        self.records@.map_values(|r: TokenRecord| r@)
    }
}

impl TokenStore {
    /// Well-formed: names unique, every date and timestamp in range.
    pub open spec fn wf(&self) -> bool {
        &&& unique_names(self@)
        &&& forall|i: int| 0 <= i < self@.len() ==> record_valid(#[trigger] self@[i])
    }

    pub fn new() -> (r: TokenStore)
        ensures
            r.wf(),
            r@ == Seq::<RecordV>::empty(),
    {
        let r = TokenStore { records: Vec::new() };
        proof {
            assert(r@ =~= Seq::<RecordV>::empty());
        }
        r
    }

    /// Rebuilds a store from loaded records, accepting them exactly when
    /// they satisfy the store's invariant: unique names, dates and times in
    /// range.
    pub fn from_records(records: Vec<TokenRecord>) -> (r: Option<TokenStore>)
        ensures
            ({
                let rs = records@.map_values(|t: TokenRecord| t@);
                &&& r is Some <==> (unique_names(rs) && forall|k: int|
                    0 <= k < rs.len() ==> record_valid(#[trigger] rs[k]))
                &&& r is Some ==> r->0.wf() && r->0@ == rs
            }),
    {
        let n = records.len();
        let mut i: usize = 0;
        while i < n
            invariant
                n == records.len(),
                i <= n,
                forall|k: int| 0 <= k < i ==> record_valid((#[trigger] records@[k])@),
                forall|k: int, l: int|
                    0 <= k < l < i ==> records@[k].name@ != records@[l].name@,
            decreases n - i,
        {
            let rec = &records[i];
            if rec.in_range() {
                let mut j: usize = 0;
                while j < i
                    invariant
                        j <= i < n == records.len(),
                        forall|k: int| 0 <= k < j ==> records@[k].name@ != records@[i as int].name@,
                    decreases i - j,
                {
                    if records[j].name == records[i].name {
                        proof {
                            let rs = records@.map_values(|t: TokenRecord| t@);
                            assert(rs[j as int].name == rs[i as int].name);
                            assert(!unique_names(rs));
                        }
                        return None;
                    }
                    j = j + 1;
                }
            } else {
                proof {
                    let rs = records@.map_values(|t: TokenRecord| t@);
                    assert(!record_valid(rs[i as int]));
                }
                return None;
            }
            i = i + 1;
        }
        proof {
            let rs = records@.map_values(|t: TokenRecord| t@);
            assert forall|k: int, l: int| 0 <= k < l < rs.len() implies rs[k].name
                != rs[l].name by {
                assert(rs[k].name == records@[k].name@);
                assert(rs[l].name == records@[l].name@);
            }
            assert forall|k: int| 0 <= k < rs.len() implies record_valid(#[trigger] rs[k]) by {
                assert(rs[k] == records@[k]@);
            }
        }
        let r = TokenStore { records };
        Some(r)
    }

    fn find_index(&self, name: &String) -> (r: Option<usize>)
        requires
            self.wf(),
        ensures
            r is Some ==> r->0 < self@.len() && self@[r->0 as int].name == name@,
            r is None ==> !has_name(self@, name@),
    {
        let n = self.records.len();
        let mut i: usize = 0;
        while i < n
            invariant
                n == self@.len(),
                i <= n,
                forall|k: int| 0 <= k < i ==> self@[k].name != name@,
            decreases n - i,
        {
            if self.records[i].name == *name {
                return Some(i);
            }
            i = i + 1;
        }
        None
    }

    /// Adds a token under insert-or-replace semantics. Fails, leaving the
    /// store untouched, exactly when the expiry string is not a valid
    /// `YYYY-MM-DD` date; on success the record named `name` holds the
    /// supplied expiry and no notification time.
    pub fn add(&mut self, name: &str, expires_at: &str) -> (r: Result<(), ValidationError>)
        requires
            old(self).wf(),
        ensures
            final(self).wf(),
            r is Ok <==> valid_date_string(expires_at@),
            r is Ok ==> final(self)@ == insert_model(
                old(self)@,
                name@,
                date_of_string(expires_at@),
            ),
            r is Err ==> final(self)@ == old(self)@ && r == Err::<(), ValidationError>(
                ValidationError,
            ),
    {
        let parsed = parse_date(expires_at);
        match parsed {
            None => Err(ValidationError),
            Some(d) => {
                let owned = String::from_str(name);
                let rec = TokenRecord { name: owned, expires_at: d, last_notified: None };
                match self.find_index(&rec.name) {
                    Some(i) => {
                        proof {
                            lemma_name_index_unique(self@, name@, i as int);
                        }
                        self.records.remove(i);
                        self.records.insert(i, rec);
                        proof {
                            assert(self@ =~= insert_model(
                                old(self)@,
                                name@,
                                date_of_string(expires_at@),
                            ));
                            lemma_update_keeps_wf(old(self)@, i as int, fresh_record(name@, d));
                        }
                    },
                    None => {
                        self.records.push(rec);
                        proof {
                            assert(self@ =~= insert_model(
                                old(self)@,
                                name@,
                                date_of_string(expires_at@),
                            ));
                            lemma_push_fresh_keeps_wf(old(self)@, fresh_record(name@, d));
                        }
                    },
                }
                Ok(())
            },
        }
    }

    /// Deletes the record named `name` if present; succeeds either way, and
    /// on an absent name leaves the store exactly as it was.
    pub fn remove(&mut self, name: &str)
        requires
            old(self).wf(),
        ensures
            final(self).wf(),
            final(self)@ == remove_model(old(self)@, name@),
            !has_name(old(self)@, name@) ==> final(self)@ == old(self)@,
    {
        let owned = String::from_str(name);
        match self.find_index(&owned) {
            Some(i) => {
                proof {
                    lemma_name_index_unique(self@, name@, i as int);
                }
                self.records.remove(i);
                proof {
                    assert(self@ =~= old(self)@.remove(i as int));
                    lemma_remove_keeps_wf(old(self)@, i as int);
                }
            },
            None => {},
        }
    }

    /// All records, in store order.
    pub fn list(&self) -> (r: &Vec<TokenRecord>)
        ensures
            r@.map_values(|t: TokenRecord| t@) == self@,
    {
        &self.records
    }

    /// The records due for notification: exactly those whose expiry lies at
    /// most `threshold` days after `now`, in store order.
    pub fn find_expiring(&self, threshold: i64, now: Date) -> (r: Vec<TokenRecord>)
        requires
            self.wf(),
            date_valid(now),
        ensures
            r@.map_values(|t: TokenRecord| t@) == self@.filter(
                |rv: RecordV| due(rv, now, threshold as int),
            ),
            forall|k: int| 0 <= k < r@.len() ==> record_valid(#[trigger] r@[k]@),
    {
        let n = self.records.len();
        let mut out: Vec<TokenRecord> = Vec::new();
        let mut i: usize = 0;
        proof {
            assert(out@.map_values(|t: TokenRecord| t@) =~= self@.take(0).filter(
                |rv: RecordV| due(rv, now, threshold as int),
            ));
        }
        while i < n
            invariant
                self.wf(),
                date_valid(now),
                n == self@.len(),
                i <= n,
                out@.map_values(|t: TokenRecord| t@) == self@.take(i as int).filter(
                    |rv: RecordV| due(rv, now, threshold as int),
                ),
                forall|k: int| 0 <= k < out@.len() ==> record_valid(#[trigger] out@[k]@),
            decreases n - i,
        {
            let rec = &self.records[i];
            proof {
                assert(self@[i as int] == self.records@[i as int]@);
                assert(record_valid(self@[i as int]));
            }
            let remaining = days_between(rec.expires_at, now);
            if remaining <= threshold {
                let copy = TokenRecord {
                    name: rec.name.clone(),
                    expires_at: rec.expires_at,
                    last_notified: rec.last_notified,
                };
                out.push(copy);
            }
            proof {
                reveal(Seq::filter);
                assert(self@.take(i + 1).drop_last() =~= self@.take(i as int));
                assert(self@.take(i + 1).last() == self@[i as int]);
                assert(out@.map_values(|t: TokenRecord| t@) =~= self@.take(i + 1).filter(
                    |rv: RecordV| due(rv, now, threshold as int),
                ));
            }
            i = i + 1;
        }
        proof {
            assert(self@.take(n as int) =~= self@);
        }
        out
    }

    /// Sets `last_notified` of the record named `name` to `ts`; a silent
    /// no-op when no such record exists any more.
    pub fn mark_notified(&mut self, name: &str, ts: Timestamp)
        requires
            old(self).wf(),
            timestamp_valid(ts),
        ensures
            final(self).wf(),
            final(self)@ == mark_model(old(self)@, name@, ts),
            !has_name(old(self)@, name@) ==> final(self)@ == old(self)@,
    {
        let owned = String::from_str(name);
        match self.find_index(&owned) {
            Some(i) => {
                proof {
                    lemma_name_index_unique(self@, name@, i as int);
                }
                let prev = self.records.remove(i);
                let rec = TokenRecord {
                    name: prev.name,
                    expires_at: prev.expires_at,
                    last_notified: Some(ts),
                };
                self.records.insert(i, rec);
                proof {
                    assert(self@ =~= mark_model(old(self)@, name@, ts));
                    lemma_update_keeps_wf(
                        old(self)@,
                        i as int,
                        mark_model(old(self)@, name@, ts)[i as int],
                    );
                }
            },
            None => {},
        }
    }

    /// The sweep's write-back decision: a failed send leaves the record's
    /// notification state untouched, so the record is reconsidered on the
    /// next sweep; a successful one records the send time.
    pub fn record_send_outcome(&mut self, name: &str, sent: bool, ts: Timestamp)
        requires
            old(self).wf(),
            timestamp_valid(ts),
        ensures
            final(self).wf(),
            !sent ==> final(self)@ == old(self)@,
            sent ==> final(self)@ == mark_model(old(self)@, name@, ts),
    {
        if sent {
            self.mark_notified(name, ts);
        }
    }
}

impl TokenRecord {
    /// Whether this record's dates and times lie in range.
    pub fn in_range(&self) -> (r: bool)
        ensures
            r == record_valid(self@),
    {
        let date_ok = crate::date::date_in_range(self.expires_at);
        let ts_ok = match self.last_notified {
            None => true,
            Some(t) => crate::date::timestamp_in_range(t),
        };
        date_ok && ts_ok
    }
}

proof fn lemma_insert_model_props(rs: Seq<RecordV>, name: Seq<char>, d: Date)
    requires
        unique_names(rs),
    ensures
        ({
            let rs2 = insert_model(rs, name, d);
            &&& unique_names(rs2)
            &&& has_name(rs2, name)
            &&& rs2[name_index(rs2, name)] == fresh_record(name, d)
        }),
{
    let rs2 = insert_model(rs, name, d);
    if has_name(rs, name) {
        let i = name_index(rs, name);
        assert(0 <= i < rs.len() && rs[i].name == name);
        assert(unique_names(rs2)) by {
            assert(forall|a: int| 0 <= a < rs2.len() ==> rs2[a].name == #[trigger] rs[a].name);
        }
        assert(rs2[i].name == name);
        lemma_name_index_unique(rs2, name, i);
    } else {
        let i = rs.len() as int;
        assert(unique_names(rs2)) by {
            assert forall|a: int, b: int| 0 <= a < b < rs2.len() implies rs2[a].name
                != rs2[b].name by {
                if b == i {
                    if rs[a].name == name {
                        assert(has_name(rs, name));
                    }
                }
            }
        }
        assert(rs2[i].name == name);
        lemma_name_index_unique(rs2, name, i);
    }
}

/// Adding a token under a well-formed `YYYY-MM-DD` expiry string and then
/// listing the store shows exactly one record under that name, whose expiry
/// renders back to exactly the string that was added.
pub proof fn lemma_add_then_list_round_trip(rs: Seq<RecordV>, name: Seq<char>, s: Seq<char>)
    requires
        unique_names(rs),
        valid_date_string(s),
    ensures
        ({
            let rs2 = insert_model(rs, name, date_of_string(s));
            &&& unique_names(rs2)
            &&& has_name(rs2, name)
            &&& forall|i: int, j: int|
                0 <= i < rs2.len() && 0 <= j < rs2.len() && (#[trigger] rs2[i]).name == name && (
                #[trigger] rs2[j]).name == name ==> i == j
            &&& rs2[name_index(rs2, name)].name == name
            &&& date_string(rs2[name_index(rs2, name)].expires_at) == s
        }),
{
    lemma_insert_model_props(rs, name, date_of_string(s));
    lemma_date_string_round_trip(s);
    let rs2 = insert_model(rs, name, date_of_string(s));
    assert forall|i: int, j: int|
        0 <= i < rs2.len() && 0 <= j < rs2.len() && (#[trigger] rs2[i]).name == name && (
        #[trigger] rs2[j]).name == name implies i == j by {
        if i < j {
            assert(rs2[i].name != rs2[j].name);
        } else if j < i {
            assert(rs2[j].name != rs2[i].name);
        }
    }
}

/// Adding the same name twice leaves exactly one record under it, holding
/// the second expiry and no notification time: the replace clears the
/// notification state.
pub proof fn lemma_add_twice(rs: Seq<RecordV>, name: Seq<char>, d1: Date, d2: Date)
    requires
        unique_names(rs),
    ensures
        ({
            let rs2 = insert_model(insert_model(rs, name, d1), name, d2);
            &&& unique_names(rs2)
            &&& has_name(rs2, name)
            &&& forall|i: int, j: int|
                0 <= i < rs2.len() && 0 <= j < rs2.len() && (#[trigger] rs2[i]).name == name && (
                #[trigger] rs2[j]).name == name ==> i == j
            &&& rs2[name_index(rs2, name)] == fresh_record(name, d2)
            &&& rs2[name_index(rs2, name)].expires_at == d2
            &&& rs2[name_index(rs2, name)].last_notified is None
        }),
{
    lemma_insert_model_props(rs, name, d1);
    lemma_insert_model_props(insert_model(rs, name, d1), name, d2);
    let rs2 = insert_model(insert_model(rs, name, d1), name, d2);
    assert forall|i: int, j: int|
        0 <= i < rs2.len() && 0 <= j < rs2.len() && (#[trigger] rs2[i]).name == name && (
        #[trigger] rs2[j]).name == name implies i == j by {
        if i < j {
            assert(rs2[i].name != rs2[j].name);
        } else if j < i {
            assert(rs2[j].name != rs2[i].name);
        }
    }
}

/// A successful send recorded at a time `ts` no earlier than the sweep's
/// start leaves the record's `last_notified` set, at a time no earlier than
/// that start. (A failed send leaves the store unchanged: that case is the
/// contract of `record_send_outcome` itself.)
pub proof fn lemma_notified_not_before_start(
    rs: Seq<RecordV>,
    name: Seq<char>,
    ts: Timestamp,
    start: Timestamp,
)
    requires
        unique_names(rs),
        has_name(rs, name),
        timestamp_seconds(start) <= timestamp_seconds(ts),
    ensures
        ({
            let rs2 = mark_model(rs, name, ts);
            &&& rs2[name_index(rs, name)].last_notified is Some
            &&& timestamp_seconds(rs2[name_index(rs, name)].last_notified->0) >= timestamp_seconds(
                start,
            )
        }),
{
    let i = name_index(rs, name);
    assert(0 <= i < rs.len() && rs[i].name == name);
}

proof fn lemma_name_index_unique(rs: Seq<RecordV>, name: Seq<char>, i: int)
    requires
        unique_names(rs),
        0 <= i < rs.len(),
        rs[i].name == name,
    ensures
        has_name(rs, name),
        name_index(rs, name) == i,
{
    assert(has_name(rs, name));
    let j = name_index(rs, name);
    if j != i {
        if j < i {
            assert(rs[j].name != rs[i].name);
        } else {
            assert(rs[i].name != rs[j].name);
        }
    }
}

proof fn lemma_update_keeps_wf(rs: Seq<RecordV>, i: int, rv: RecordV)
    requires
        unique_names(rs),
        forall|k: int| 0 <= k < rs.len() ==> record_valid(#[trigger] rs[k]),
        0 <= i < rs.len(),
        rv.name == rs[i].name,
        record_valid(rv),
    ensures
        unique_names(rs.update(i, rv)),
        forall|k: int| 0 <= k < rs.update(i, rv).len() ==> record_valid(
            #[trigger] rs.update(i, rv)[k],
        ),
{
}

proof fn lemma_push_fresh_keeps_wf(rs: Seq<RecordV>, rv: RecordV)
    requires
        unique_names(rs),
        forall|k: int| 0 <= k < rs.len() ==> record_valid(#[trigger] rs[k]),
        !has_name(rs, rv.name),
        record_valid(rv),
    ensures
        unique_names(rs.push(rv)),
        forall|k: int| 0 <= k < rs.push(rv).len() ==> record_valid(#[trigger] rs.push(rv)[k]),
{
    assert forall|i: int, j: int| 0 <= i < j < rs.push(rv).len() implies rs.push(rv)[i].name
        != rs.push(rv)[j].name by {
        if j == rs.len() {
            assert(rs[i].name != rv.name) by {
                if rs[i].name == rv.name {
                    assert(has_name(rs, rv.name));
                }
            }
        }
    }
}

proof fn lemma_remove_keeps_wf(rs: Seq<RecordV>, i: int)
    requires
        unique_names(rs),
        forall|k: int| 0 <= k < rs.len() ==> record_valid(#[trigger] rs[k]),
        0 <= i < rs.len(),
    ensures
        unique_names(rs.remove(i)),
        forall|k: int| 0 <= k < rs.remove(i).len() ==> record_valid(#[trigger] rs.remove(i)[k]),
{
    let rr = rs.remove(i);
    assert forall|k: int| 0 <= k < rr.len() implies record_valid(#[trigger] rr[k]) by {
        if k < i {
            assert(rr[k] == rs[k]);
        } else {
            assert(rr[k] == rs[k + 1]);
        }
    }
    assert forall|a: int, b: int| 0 <= a < b < rr.len() implies rr[a].name != rr[b].name by {
        let a0 = if a < i { a } else { a + 1 };
        let b0 = if b < i { b } else { b + 1 };
        assert(rr[a] == rs[a0]);
        assert(rr[b] == rs[b0]);
    }
}

} // verus!
