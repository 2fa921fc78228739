//! Snapshots: saved routing configurations, their connections, their UTC
//! creation times and the list of them, oldest first.
//!
//! The volumes a snapshot records carry audio levels and are kept by the
//! application next to the snapshot, by its id; so are the snapshot files.

use vstd::prelude::*;

use crate::capture::{capture_connections, connection_describes, snapshot_keeps};
use crate::graph::Node;
use crate::graph_state::GraphState;
use crate::ids::{NodeIdentifier, new_v4_u128, uuid_v4_fixed_bits};
use crate::text::{decimal_padded, push_char, push_decimal_padded, decimal, text_less, text_lt, lemma_text_lt_irreflexive, lemma_text_lt_total, lemma_text_lt_transitive};

verus! {

/// A single port-to-port connection within a snapshot.
#[derive(Debug, Clone)]
pub struct SnapshotConnection {
    /// Stable identifier for the output (source) node.
    pub output_node: NodeIdentifier,
    /// Port name on the output node.
    pub output_port_name: String,
    /// Stable identifier for the input (sink) node.
    pub input_node: NodeIdentifier,
    /// Port name on the input node.
    pub input_port_name: String,
}

/// Gregorian leap years.
pub open spec fn spec_is_leap_year(y: int) -> bool {
    (y % 4 == 0 && y % 100 != 0) || y % 400 == 0
}

/// Number of days in a year.
pub open spec fn year_days(y: int) -> int {
    if spec_is_leap_year(y) { 366 } else { 365 }
}

/// Number of days in a month (1 = January) of a year.
pub open spec fn month_days(y: int, m: int) -> int {
    if m == 2 {
        if spec_is_leap_year(y) { 29 } else { 28 }
    } else if m == 4 || m == 6 || m == 9 || m == 11 {
        30
    } else {
        31
    }
}

/// Days from 1970-01-01 to January 1st of year `y` (for `y >= 1970`).
pub open spec fn days_before_year(y: int) -> int
    decreases y - 1970,
{
    if y <= 1970 { 0 } else { days_before_year(y - 1) + year_days(y - 1) }
}

/// Days from January 1st to the first day of month `m` in year `y`.
pub open spec fn days_before_month(y: int, m: int) -> int
    decreases m,
{
    if m <= 1 { 0 } else { days_before_month(y, m - 1) + month_days(y, m - 1) }
}

/// The calendar date and time of a number of seconds since the Unix epoch (UTC):
/// `(year, month, day, hour, minute, second)` with the date being the one that is
/// `secs / 86400` days after 1970-01-01.
pub open spec fn is_datetime_of(secs: int, r: (u64, u64, u64, u64, u64, u64)) -> bool {
    let (y, mo, d, h, mi, s) = r;
    &&& s == secs % 60
    &&& mi == (secs / 60) % 60
    &&& h == (secs / 3600) % 24
    &&& 1970 <= y
    &&& 1 <= mo <= 12
    &&& 1 <= d <= month_days(y as int, mo as int)
    &&& days_before_year(y as int) + days_before_month(y as int, mo as int) + d - 1 == secs / 86400
}

/// Returns true for Gregorian leap years.
pub fn is_leap_year(y: u64) -> (r: bool)
    ensures
        r == spec_is_leap_year(y as int),
{
    (y % 4 == 0 && y % 100 != 0) || y % 400 == 0
}

proof fn lemma_month_sum(y: int)
    ensures
        days_before_month(y, 13) == year_days(y),
{
    reveal_with_fuel(days_before_month, 13);
}

/// Days before a year grow by at least 365 per year.
proof fn lemma_days_before_year_grows(y: int)
    requires
        y >= 1970,
    ensures
        days_before_year(y) >= 365 * (y - 1970),
    decreases y - 1970,
{
    if y > 1970 {
        lemma_days_before_year_grows(y - 1);
    }
}

/// Converts a Unix timestamp to (year, month, day, hour, minute, second) in UTC.
pub fn unix_to_datetime(secs: u64) -> (r: (u64, u64, u64, u64, u64, u64))
    ensures
        is_datetime_of(secs as int, r),
{
    let sec = secs % 60;
    let min = (secs / 60) % 60;
    let hour = (secs / 3600) % 24;
    let total = secs / 86400;
    let mut days = total;

    let mut year: u64 = 1970;
    loop
        invariant
            1970 <= year,
            days <= total,
            total == secs / 86400,
            days_before_year(year as int) + days == total,
            total <= u64::MAX / 86400,
        ensures
            1970 <= year,
            days_before_year(year as int) + days == total,
            days < year_days(year as int),
        decreases days,
    {
        let days_in_year: u64 = if is_leap_year(year) { 366 } else { 365 };
        if days < days_in_year {
            break;
        }
        proof {
            lemma_days_before_year_grows(year as int);
        }
        days = days - days_in_year;
        year = year + 1;
    }

    let leap = is_leap_year(year);
    let mut month: u64 = 1;
    proof {
        lemma_month_sum(year as int);
        assert(days_before_month(year as int, 1) == 0);
    }
    loop
        invariant
            1 <= month <= 12,
            days_before_year(year as int) + days_before_month(year as int, month as int) + days == total,
            days_before_month(year as int, month as int) + days < year_days(year as int),
            days_before_month(year as int, 13) == year_days(year as int),
            leap == spec_is_leap_year(year as int),
            1970 <= year,
        ensures
            1 <= month <= 12,
            days_before_year(year as int) + days_before_month(year as int, month as int) + days == total,
            days < month_days(year as int, month as int),
            1970 <= year,
        decreases 12 - month,
    {
        let dim: u64 = if month == 2 {
            if leap { 29 } else { 28 }
        } else if month == 4 || month == 6 || month == 9 || month == 11 {
            30
        } else {
            31
        };
        if days < dim {
            break;
        }
        if month == 12 {
            proof {
                assert(days_before_month(year as int, 13) == days_before_month(year as int, 12) + month_days(year as int, 12));
                assert(false);
            }
            break;
        }
        days = days - dim;
        month = month + 1;
    }
    (year, month, days + 1, hour, min, sec)
}

/// The ISO 8601 text `YYYY-MM-DDTHH:MM:SSZ` of a date and time.
pub open spec fn iso_text(r: (u64, u64, u64, u64, u64, u64)) -> Seq<char> {
    let (y, mo, d, h, mi, s) = r;
    decimal_padded(y as nat, 4) + seq!['-'] + decimal_padded(mo as nat, 2) + seq!['-']
        + decimal_padded(d as nat, 2) + seq!['T'] + decimal_padded(h as nat, 2) + seq![':']
        + decimal_padded(mi as nat, 2) + seq![':'] + decimal_padded(s as nat, 2) + seq!['Z']
}

/// Formats a Unix timestamp as an ISO 8601 UTC string (`YYYY-MM-DDTHH:MM:SSZ`).
pub fn iso8601_utc(secs: u64) -> (r: String)
    ensures
        exists|t: (u64, u64, u64, u64, u64, u64)| is_datetime_of(secs as int, t) && r@ == iso_text(t),
{
    let t = unix_to_datetime(secs);
    let (year, month, day, hour, min, sec) = t;
    let mut s = String::new();
    push_decimal_padded(&mut s, year, 4);
    push_char(&mut s, '-');
    push_decimal_padded(&mut s, month, 2);
    push_char(&mut s, '-');
    push_decimal_padded(&mut s, day, 2);
    push_char(&mut s, 'T');
    push_decimal_padded(&mut s, hour, 2);
    push_char(&mut s, ':');
    push_decimal_padded(&mut s, min, 2);
    push_char(&mut s, ':');
    push_decimal_padded(&mut s, sec, 2);
    push_char(&mut s, 'Z');
    proof {
        assert(s@ =~= iso_text(t));
    }
    s
}

/// The number of decimal digits of `n` is at most `w` when `n < 10^w`.
pub proof fn lemma_decimal_len(n: nat, w: nat, bound: nat)
    requires
        bound == vstd::arithmetic::power::pow(10, w),
        n < bound,
        w >= 1,
    ensures
        decimal(n).len() <= w,
    decreases w,
{
    vstd::arithmetic::power::lemma_pow_positive(10, w);
    if n >= 10 {
        assert(w >= 2) by {
            if w == 1 {
                vstd::arithmetic::power::lemma_pow1(10);
            }
        }
        let b2 = vstd::arithmetic::power::pow(10, (w - 1) as nat);
        vstd::arithmetic::power::lemma_pow_adds(10, 1, (w - 1) as nat);
        vstd::arithmetic::power::lemma_pow1(10);
        assert(bound == 10 * b2);
        assert(n / 10 < b2) by (nonlinear_arith)
            requires n < 10 * b2, b2 > 0;
        lemma_decimal_len(n / 10, (w - 1) as nat, b2 as nat);
    }
}

/// A padded decimal has exactly the padding width when the number has no more digits.
pub proof fn lemma_decimal_padded_len(n: nat, w: nat)
    requires
        decimal(n).len() <= w,
    ensures
        decimal_padded(n, w).len() == w,
{
}

/// The timestamp text is 20 characters long for years before 10000.
pub proof fn lemma_iso_text_len(t: (u64, u64, u64, u64, u64, u64))
    requires
        t.0 < 10000,
        t.1 < 100,
        t.2 < 100,
        t.3 < 100,
        t.4 < 100,
        t.5 < 100,
    ensures
        iso_text(t).len() == 20,
{
    vstd::arithmetic::power::lemma_pow1(10);
    reveal_with_fuel(vstd::arithmetic::power::pow, 5);
    lemma_decimal_len(t.0 as nat, 4, 10000);
    lemma_decimal_len(t.1 as nat, 2, 100);
    lemma_decimal_len(t.2 as nat, 2, 100);
    lemma_decimal_len(t.3 as nat, 2, 100);
    lemma_decimal_len(t.4 as nat, 2, 100);
    lemma_decimal_len(t.5 as nat, 2, 100);
    lemma_decimal_padded_len(t.0 as nat, 4);
    lemma_decimal_padded_len(t.1 as nat, 2);
    lemma_decimal_padded_len(t.2 as nat, 2);
    lemma_decimal_padded_len(t.3 as nat, 2);
    lemma_decimal_padded_len(t.4 as nat, 2);
    lemma_decimal_padded_len(t.5 as nat, 2);
}

/// The system clock as a time point (std's `SystemTime::now`).
#[verifier::external_type_specification]
#[verifier::external_body]
pub struct ExSystemTime(std::time::SystemTime);

/// Reads the system clock (std's `SystemTime::now`).
#[verifier::external_body]
fn system_now() -> std::time::SystemTime {
    std::time::SystemTime::now()
}

/// Whole seconds from the Unix epoch to a time point (std's `SystemTime::duration_since`),
/// zero for a time point before the epoch.
#[verifier::external_body]
fn seconds_since_epoch(t: std::time::SystemTime) -> u64 {
    match t.duration_since(std::time::UNIX_EPOCH) {
        Ok(d) => d.as_secs(),
        Err(_) => 0,
    }
}

/// Returns the current UTC time as an ISO 8601 string.
pub fn chrono_now() -> (r: String)
    ensures
        exists|secs: u64, t: (u64, u64, u64, u64, u64, u64)| is_datetime_of(secs as int, t) && r@ == iso_text(t),
{
    let now = system_now();
    let secs = seconds_since_epoch(now);
    iso8601_utc(secs)
}

/// A saved snapshot of the routing configuration.
#[derive(Debug)]
pub struct Snapshot {
    /// Unique identifier (a UUID).
    pub id: u128,
    /// User-assigned name.
    pub name: String,
    /// ISO 8601 creation timestamp.
    pub created_at: String,
    /// Port-to-port connections captured in this snapshot.
    pub connections: Vec<SnapshotConnection>,
}

impl Snapshot {
    /// Captures the graph's connections as a new snapshot with a fresh id, named
    /// `name` and stamped with the current time (see `capture_connections`).
    pub fn capture<F: Fn(&Node, &GraphState) -> NodeIdentifier>(name: String, graph: &GraphState, resolve_identifier: F) -> (r: Snapshot)
        requires
            forall|n: Node| #[trigger] call_requires(resolve_identifier, (&n, graph)),
        ensures
            r.name == name,
            uuid_v4_fixed_bits(r.id),
            exists|secs: u64, t: (u64, u64, u64, u64, u64, u64)| is_datetime_of(secs as int, t) && r.created_at@ == iso_text(t),
            exists|ks: Seq<u32>| {
                &&& ks.no_duplicates()
                &&& ks.len() == r.connections@.len()
                &&& forall|i: int| 0 <= i < ks.len() ==> graph.links@.contains_key(#[trigger] ks[i]) && snapshot_keeps(*graph)(ks[i])
                    && connection_describes(r.connections@[i], *graph, graph.links@[ks[i]], resolve_identifier)
                &&& forall|k: u32| graph.links@.contains_key(k) && snapshot_keeps(*graph)(k) ==> #[trigger] ks.contains(k)
            },
    {
        let connections = capture_connections(graph, resolve_identifier);
        Snapshot { id: new_v4_u128(), name, created_at: chrono_now(), connections }
    }
}

/// No snapshot of the list was created after a later one.
pub open spec fn oldest_first(s: Seq<Snapshot>) -> bool {
    forall|i: int, j: int| 0 <= i < j < s.len() ==> !text_lt(s[j].created_at@, s[i].created_at@)
}

/// The index of the first snapshot with the id, if any.
pub open spec fn snapshot_index(s: Seq<Snapshot>, id: u128) -> Option<int> {
    if exists|i: int| 0 <= i < s.len() && s[i].id == id {
        Some(choose|i: int| 0 <= i < s.len() && s[i].id == id && forall|j: int| 0 <= j < i ==> s[j].id != id)
    } else {
        None
    }
}

/// Whether the snapshot's id is not the given one.
pub open spec fn id_differs(id: u128) -> spec_fn(Snapshot) -> bool {
    |s: Snapshot| s.id != id
}

/// The snapshots, in the order they are shown.
pub struct SnapshotManager {
    snapshots: Vec<Snapshot>,
}

/// Whether a snapshot was created at the time given.
pub open spec fn stamped(t: Seq<char>) -> spec_fn(Snapshot) -> bool {
    |s: Snapshot| s.created_at@ == t
}

/// Filtering keeps each piece of a split sequence apart.
proof fn lemma_filter_split(a: Seq<Snapshot>, x: Snapshot, b: Seq<Snapshot>, p: spec_fn(Snapshot) -> bool)
    ensures
        (a + seq![x] + b).filter(p) == a.filter(p) + (if p(x) { seq![x] } else { Seq::empty() }) + b.filter(p),
        (a + b).filter(p) == a.filter(p) + b.filter(p),
{
    broadcast use vstd::seq_lib::group_filter_ensures;
    Seq::filter_distributes_over_add(a + seq![x], b, p);
    Seq::filter_distributes_over_add(a, seq![x], p);
    Seq::filter_distributes_over_add(a, b, p);
    Seq::<Snapshot>::empty().lemma_filter_push(x, p);
    assert(Seq::<Snapshot>::empty().push(x) =~= seq![x]);
    assert(Seq::<Snapshot>::empty().filter(p) =~= Seq::<Snapshot>::empty()) by {
        reveal(Seq::filter);
    }
}

/// Orders snapshots by creation time, oldest first, taking at each step the
/// first of the oldest remaining; snapshots created at the same time keep
/// their order.
fn sort_by_time(v: Vec<Snapshot>) -> (r: Vec<Snapshot>)
    ensures
        oldest_first(r@),
        r@.to_multiset() == v@.to_multiset(),
        forall|t: Seq<char>| #![trigger stamped(t)] r@.filter(stamped(t)) == v@.filter(stamped(t)),
{
    broadcast use vstd::seq_lib::group_to_multiset_ensures, vstd::multiset::group_multiset_axioms;
    let ghost v0 = v@;
    let mut remaining = v;
    let mut r: Vec<Snapshot> = Vec::new();
    proof {
        assert forall|t: Seq<char>| #![trigger stamped(t)] r@.filter(stamped(t)) + remaining@.filter(stamped(t)) == v0.filter(stamped(t)) by {
            assert(r@.filter(stamped(t)) =~= Seq::<Snapshot>::empty()) by {
                reveal(Seq::filter);
            }
            assert(Seq::<Snapshot>::empty() + v0.filter(stamped(t)) =~= v0.filter(stamped(t)));
        }
    }
    while remaining.len() > 0
        invariant
            oldest_first(r@),
            forall|a: int, b: int| 0 <= a < r@.len() && 0 <= b < remaining@.len()
                ==> !text_lt(#[trigger] remaining@[b].created_at@, #[trigger] r@[a].created_at@),
            r@.to_multiset().add(remaining@.to_multiset()) == v0.to_multiset(),
            forall|t: Seq<char>| #![trigger stamped(t)] r@.filter(stamped(t)) + remaining@.filter(stamped(t)) == v0.filter(stamped(t)),
        decreases remaining@.len(),
    {
        let mut m: usize = 0;
        let mut j: usize = 1;
        proof {
            lemma_text_lt_irreflexive(remaining@[0].created_at@);
        }
        while j < remaining.len()
            invariant
                0 < remaining@.len(),
                m < remaining@.len(),
                m < j <= remaining@.len(),
                forall|k: int| 0 <= k < j ==> !text_lt(#[trigger] remaining@[k].created_at@, remaining@[m as int].created_at@),
                forall|k: int| 0 <= k < m ==> text_lt(remaining@[m as int].created_at@, #[trigger] remaining@[k].created_at@),
            decreases remaining.len() - j,
        {
            if text_less(remaining[j].created_at.as_str(), remaining[m].created_at.as_str()) {
                proof {
                    assert forall|k: int| 0 <= k < j + 1 implies !text_lt(#[trigger] remaining@[k].created_at@, remaining@[j as int].created_at@) by {
                        lemma_text_lt_total(remaining@[k].created_at@, remaining@[m as int].created_at@);
                        if text_lt(remaining@[k].created_at@, remaining@[j as int].created_at@) {
                            lemma_text_lt_transitive(remaining@[k].created_at@, remaining@[j as int].created_at@, remaining@[m as int].created_at@);
                        }
                        if k == j {
                            lemma_text_lt_irreflexive(remaining@[k].created_at@);
                        }
                    }
                    assert forall|k: int| 0 <= k < j implies text_lt(remaining@[j as int].created_at@, #[trigger] remaining@[k].created_at@) by {
                        lemma_text_lt_total(remaining@[k].created_at@, remaining@[m as int].created_at@);
                        if remaining@[k].created_at@ != remaining@[m as int].created_at@ {
                            lemma_text_lt_transitive(remaining@[j as int].created_at@, remaining@[m as int].created_at@, remaining@[k].created_at@);
                        }
                    }
                }
                m = j;
            }
            j += 1;
        }
        let ghost rem0 = remaining@;
        let ghost r0 = r@;
        let x = remaining.remove(m);
        r.push(x);
        proof {
            rem0.to_multiset_ensures();
            r0.to_multiset_ensures();
            assert(rem0.remove(m as int).to_multiset() =~= rem0.to_multiset().remove(rem0[m as int]));
            assert(r0.push(x).to_multiset() =~= r0.to_multiset().insert(x));
            assert(rem0.to_multiset().count(x) > 0) by {
                assert(rem0.contains(x));
            }
            assert(r@.to_multiset().add(remaining@.to_multiset()) =~= v0.to_multiset());
            assert forall|a: int, b: int| 0 <= a < r@.len() && 0 <= b < remaining@.len()
                implies !text_lt(#[trigger] remaining@[b].created_at@, #[trigger] r@[a].created_at@) by {
                let ob = if b < m { b } else { b + 1 };
                assert(remaining@[b] == rem0[ob]);
                if a < r0.len() {
                    assert(r@[a] == r0[a]);
                } else {
                    assert(r@[a] == rem0[m as int]);
                }
            }
            assert forall|i: int, k: int| 0 <= i < k < r@.len() implies !text_lt(r@[k].created_at@, r@[i].created_at@) by {
                if k == r@.len() - 1 {
                    assert(r@[k] == rem0[m as int]);
                    assert(r@[i] == r0[i]);
                } else {
                    assert(r@[k] == r0[k] && r@[i] == r0[i]);
                }
            }
            let front = rem0.take(m as int);
            let back = rem0.skip(m + 1);
            assert(rem0 =~= front + seq![x] + back);
            assert(remaining@ =~= front + back);
            assert forall|t: Seq<char>| #![trigger stamped(t)] r@.filter(stamped(t)) + remaining@.filter(stamped(t)) == v0.filter(stamped(t)) by {
                let p = stamped(t);
                lemma_filter_split(front, x, back, p);
                r0.lemma_filter_push(x, p);
                if p(x) {
                    assert(front.filter(p) =~= Seq::<Snapshot>::empty()) by {
                        front.filter_lemma(p);
                        if front.filter(p).len() > 0 {
                            let y = front.filter(p)[0];
                            assert(front.filter(p).contains(y));
                            front.lemma_filter_contains_rev(p, y);
                            let k = choose|k: int| 0 <= k < front.len() && front[k] == y;
                            assert(rem0[k] == front[k]);
                            assert(text_lt(x.created_at@, rem0[k].created_at@));
                            lemma_text_lt_irreflexive(x.created_at@);
                        }
                    }
                    assert(r@.filter(p) + remaining@.filter(p) =~= r0.filter(p) + rem0.filter(p));
                } else {
                    assert(r@.filter(p) + remaining@.filter(p) =~= r0.filter(p) + rem0.filter(p));
                }
            }
        }
    }
    proof {
        assert(remaining@.to_multiset() =~= vstd::multiset::Multiset::empty());
        assert(r@.to_multiset() =~= v0.to_multiset());
        assert forall|t: Seq<char>| #![trigger stamped(t)] r@.filter(stamped(t)) == v0.filter(stamped(t)) by {
            assert(remaining@.filter(stamped(t)) =~= Seq::<Snapshot>::empty()) by {
                reveal(Seq::filter);
            }
            assert(r@.filter(stamped(t)) + Seq::<Snapshot>::empty() =~= r@.filter(stamped(t)));
        }
    }
    r
}

impl SnapshotManager {
    /// The snapshots, in order.
    pub closed spec fn entries(&self) -> Seq<Snapshot> {
        self.snapshots@
    }

    /// Creates a manager for the loaded snapshots, ordered oldest first;
    /// snapshots created at the same time keep the order they were loaded in.
    pub fn new(loaded: Vec<Snapshot>) -> (r: Self)
        ensures
            oldest_first(r.entries()),
            r.entries().to_multiset() == loaded@.to_multiset(),
            forall|t: Seq<char>| #![trigger stamped(t)] r.entries().filter(stamped(t)) == loaded@.filter(stamped(t)),
    {
        SnapshotManager { snapshots: sort_by_time(loaded) }
    }

    /// Adds a snapshot at the end.
    pub fn add(&mut self, snapshot: Snapshot)
        ensures
            final(self).entries() == old(self).entries().push(snapshot),
    {
        self.snapshots.push(snapshot);
    }

    /// Returns all snapshots.
    pub fn list(&self) -> (r: &[Snapshot])
        ensures
            r@ == self.entries(),
    {
        self.snapshots.as_slice()
    }

    /// Index of the first snapshot with the id.
    fn position(&self, id: u128) -> (r: Option<usize>)
        ensures
            match r {
                Some(i) => i < self.entries().len() && self.entries()[i as int].id == id
                    && forall|j: int| 0 <= j < i ==> self.entries()[j].id != id,
                None => forall|j: int| 0 <= j < self.entries().len() ==> self.entries()[j].id != id,
            },
    {
        let mut i: usize = 0;
        while i < self.snapshots.len()
            invariant
                i <= self.snapshots@.len(),
                forall|j: int| 0 <= j < i ==> self.snapshots@[j].id != id,
            decreases self.snapshots.len() - i,
        {
            if self.snapshots[i].id == id {
                return Some(i);
            }
            i += 1;
        }
        None
    }

    /// Gets the first snapshot with the id.
    pub fn get(&self, id: u128) -> (r: Option<&Snapshot>)
        ensures
            match snapshot_index(self.entries(), id) {
                Some(i) => r == Some(&self.entries()[i]),
                None => r is None,
            },
    {
        match self.position(id) {
            Some(i) => {
                proof {
                    assert(snapshot_index(self.entries(), id) == Some(i as int));
                }
                Some(&self.snapshots[i])
            },
            None => None,
        }
    }

    /// Deletes every snapshot with the id; the others keep their order.
    pub fn delete(&mut self, id: u128)
        ensures
            final(self).entries() == old(self).entries().filter(id_differs(id)),
    {
        let mut src: Vec<Snapshot> = Vec::new();
        std::mem::swap(&mut self.snapshots, &mut src);
        let ghost s0 = src@;
        let mut kept: Vec<Snapshot> = Vec::new();
        while src.len() > 0
            invariant
                s0.filter(id_differs(id)) == kept@ + src@.filter(id_differs(id)),
            decreases src@.len(),
        {
            let ghost before = src@;
            let x = src.remove(0);
            proof {
                assert(before == seq![x] + before.drop_first());
                assert(src@ == before.drop_first());
                lemma_filter_cons(x, src@, id_differs(id));
            }
            if x.id != id {
                kept.push(x);
                proof {
                    assert(kept@ + src@.filter(id_differs(id)) =~= (kept@.drop_last() + seq![x]) + src@.filter(id_differs(id)));
                    assert(before.filter(id_differs(id)) == seq![x] + src@.filter(id_differs(id)));
                    assert(kept@.drop_last() + before.filter(id_differs(id)) =~= kept@ + src@.filter(id_differs(id)));
                }
            }
        }
        proof {
            assert(src@.filter(id_differs(id)) =~= Seq::<Snapshot>::empty()) by {
                src@.filter_lemma(id_differs(id));
            }
            assert(kept@ + Seq::<Snapshot>::empty() =~= kept@);
        }
        self.snapshots = kept;
    }

    /// Renames the first snapshot with the id; returns whether there was one.
    pub fn rename(&mut self, id: u128, new_name: String) -> (r: bool)
        ensures
            match snapshot_index(old(self).entries(), id) {
                Some(i) => r && final(self).entries().len() == old(self).entries().len()
                    && final(self).entries()[i].name == new_name
                    && final(self).entries()[i].id == old(self).entries()[i].id
                    && final(self).entries()[i].created_at == old(self).entries()[i].created_at
                    && final(self).entries()[i].connections == old(self).entries()[i].connections
                    && forall|j: int| 0 <= j < old(self).entries().len() && j != i ==> #[trigger] final(self).entries()[j] == old(self).entries()[j],
                None => !r && final(self).entries() == old(self).entries(),
            },
    {
        match self.position(id) {
            Some(i) => {
                proof {
                    assert(snapshot_index(self.entries(), id) == Some(i as int));
                }
                let mut snap = self.snapshots.remove(i);
                snap.name = new_name;
                self.snapshots.insert(i, snap);
                true
            },
            None => false,
        }
    }
}

/// Filtering a list that starts with an element.
proof fn lemma_filter_cons(x: Snapshot, rest: Seq<Snapshot>, p: spec_fn(Snapshot) -> bool)
    ensures
        (seq![x] + rest).filter(p) == if p(x) { seq![x] + rest.filter(p) } else { rest.filter(p) },
    decreases rest.len(),
{
    reveal(Seq::filter);
    if rest.len() == 0 {
        assert(seq![x] + rest =~= Seq::<Snapshot>::empty().push(x));
        Seq::<Snapshot>::empty().lemma_filter_push(x, p);
        assert(Seq::<Snapshot>::empty().filter(p) =~= Seq::<Snapshot>::empty());
        assert(seq![x] + rest.filter(p) =~= Seq::<Snapshot>::empty().push(x));
    } else {
        let init = rest.drop_last();
        let last = rest.last();
        lemma_filter_cons(x, init, p);
        assert(seq![x] + rest =~= (seq![x] + init).push(last));
        (seq![x] + init).lemma_filter_push(last, p);
        init.lemma_filter_push(last, p);
        assert(rest =~= init.push(last));
        if p(x) {
            if p(last) {
                assert(seq![x] + rest.filter(p) =~= (seq![x] + init.filter(p)).push(last));
            }
        }
    }
}

}
