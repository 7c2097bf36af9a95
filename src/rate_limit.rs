//! Per-address admission control over a fixed window. Times are readings
//! of a monotonic clock in milliseconds, supplied by the caller.

use vstd::prelude::*;

verus! {

/// A source address: an IPv4 address as its 32 bits, or an IPv6 address as
/// its 128 bits.
#[derive(PartialEq, Eq, Structural, Clone, Copy, Debug)]
pub enum SourceIp {
    V4(u32),
    V6(u128),
}

/// The admissions of one address in its current window.
#[derive(Clone, Copy)]
pub struct ConnectionRecord {
    pub ip: SourceIp,
    pub count: usize,
    pub window_start: u64,
}

/// Whole seconds from `start` to `now`; zero when `now` is earlier.
pub open spec fn elapsed_secs(start: u64, now: u64) -> int {
    if now >= start {
        (now - start) / 1000
    } else {
        0
    }
}

/// A window that began at `start` is still open at `now`.
pub open spec fn is_live(start: u64, now: u64, window_secs: u64) -> bool {
    elapsed_secs(start, now) < window_secs
}

/// The table without the windows that have closed by `now`.
pub open spec fn sweep(m: Map<SourceIp, (usize, u64)>, now: u64, window_secs: u64) -> Map<
    SourceIp,
    (usize, u64),
> {
    Map::new(|k: SourceIp| m.contains_key(k) && is_live(m[k].1, now, window_secs), |k: SourceIp| m[k])
}

/// One admission decision for `ip` at `now`: the table afterwards and
/// whether the connection is admitted.
pub open spec fn admission(
    m: Map<SourceIp, (usize, u64)>,
    ip: SourceIp,
    now: u64,
    max: usize,
    window_secs: u64,
) -> (Map<SourceIp, (usize, u64)>, bool) {
    let s = sweep(m, now, window_secs);
    if s.contains_key(ip) {
        if s[ip].0 < max {
            (s.insert(ip, ((s[ip].0 + 1) as usize, s[ip].1)), true)
        } else {
            (s, false)
        }
    } else {
        (s.insert(ip, (1usize, now)), true)
    }
}

/// The outcomes of successive decisions for `ip` at the given times.
pub open spec fn admissions(
    m: Map<SourceIp, (usize, u64)>,
    ip: SourceIp,
    times: Seq<u64>,
    max: usize,
    window_secs: u64,
) -> Seq<bool>
    decreases times.len(),
{
    if times.len() == 0 {
        Seq::empty()
    } else {
        let (next, ok) = admission(m, ip, times[0], max, window_secs);
        seq![ok] + admissions(next, ip, times.drop_first(), max, window_secs)
    }
}

proof fn lemma_open_window(
    m: Map<SourceIp, (usize, u64)>,
    ip: SourceIp,
    times: Seq<u64>,
    max: usize,
    window_secs: u64,
    start: u64,
)
    requires
        m.contains_key(ip),
        m[ip].1 == start,
        1 <= m[ip].0 <= max,
        times.len() == max - m[ip].0 + 1,
        forall|k: int| 0 <= k < times.len() ==> is_live(start, #[trigger] times[k], window_secs),
    ensures
        admissions(m, ip, times, max, window_secs).len() == times.len(),
        forall|k: int| 0 <= k < times.len() - 1 ==> #[trigger] admissions(m, ip, times, max, window_secs)[k],
        !admissions(m, ip, times, max, window_secs)[times.len() - 1],
    decreases times.len(),
{
    let (next, ok) = admission(m, ip, times[0], max, window_secs);
    let rest = admissions(next, ip, times.drop_first(), max, window_secs);
    assert(is_live(start, times[0], window_secs));
    assert(sweep(m, times[0], window_secs).contains_key(ip));
    if m[ip].0 < max {
        assert(next[ip] == ((m[ip].0 + 1) as usize, start));
        assert forall|k: int| 0 <= k < times.drop_first().len() implies is_live(
            start,
            #[trigger] times.drop_first()[k],
            window_secs,
        ) by {
            assert(times.drop_first()[k] == times[k + 1]);
        }
        lemma_open_window(next, ip, times.drop_first(), max, window_secs, start);
        assert forall|k: int| 0 <= k < times.len() - 1 implies #[trigger] admissions(
            m,
            ip,
            times,
            max,
            window_secs,
        )[k] by {
            if k > 0 {
                assert(admissions(m, ip, times, max, window_secs)[k] == rest[k - 1]);
            }
        }
        assert(admissions(m, ip, times, max, window_secs)[times.len() - 1] == rest[times.len() - 2]);
    } else {
        assert(times.drop_first().len() == 0);
    }
}

/// An address without an open window is admitted `max` times by calls made
/// within one window that starts at the first of them, and the call after
/// those is refused.
pub proof fn lemma_window_limit(
    m: Map<SourceIp, (usize, u64)>,
    ip: SourceIp,
    times: Seq<u64>,
    max: usize,
    window_secs: u64,
)
    requires
        max >= 1,
        times.len() == max + 1,
        !sweep(m, times[0], window_secs).contains_key(ip),
        forall|k: int| 0 <= k < times.len() ==> is_live(times[0], #[trigger] times[k], window_secs),
    ensures
        admissions(m, ip, times, max, window_secs).len() == max + 1,
        forall|k: int| 0 <= k < max ==> #[trigger] admissions(m, ip, times, max, window_secs)[k],
        !admissions(m, ip, times, max, window_secs)[max as int],
{
    let (next, ok) = admission(m, ip, times[0], max, window_secs);
    let rest = admissions(next, ip, times.drop_first(), max, window_secs);
    assert(ok);
    assert(next[ip] == (1usize, times[0]));
    assert forall|k: int| 0 <= k < times.drop_first().len() implies is_live(
        times[0],
        #[trigger] times.drop_first()[k],
        window_secs,
    ) by {
        assert(times.drop_first()[k] == times[k + 1]);
    }
    lemma_open_window(next, ip, times.drop_first(), max, window_secs, times[0]);
    assert forall|k: int| 0 <= k < max implies #[trigger] admissions(m, ip, times, max, window_secs)[k] by {
        if k > 0 {
            assert(admissions(m, ip, times, max, window_secs)[k] == rest[k - 1]);
        }
    }
    assert(admissions(m, ip, times, max, window_secs)[max as int] == rest[max - 1]);
}

/// Once an address's window has elapsed, its next call is admitted and
/// starts a new window with a count of one.
pub proof fn lemma_window_reset(
    m: Map<SourceIp, (usize, u64)>,
    ip: SourceIp,
    now: u64,
    max: usize,
    window_secs: u64,
)
    requires
        m.contains_key(ip),
        !is_live(m[ip].1, now, window_secs),
    ensures
        admission(m, ip, now, max, window_secs).1,
        admission(m, ip, now, max, window_secs).0[ip] == (1usize, now),
{
}

/// With a positive maximum no address is ever recorded with more
/// admissions than the maximum.
pub proof fn lemma_count_bounded(
    m: Map<SourceIp, (usize, u64)>,
    ip: SourceIp,
    now: u64,
    max: usize,
    window_secs: u64,
)
    requires
        max >= 1,
        forall|k: SourceIp| #[trigger] m.contains_key(k) ==> m[k].0 <= max,
    ensures
        forall|k: SourceIp| #[trigger] admission(m, ip, now, max, window_secs).0.contains_key(k)
            ==> admission(m, ip, now, max, window_secs).0[k].0 <= max,
{
}

/// The table that a list of records holds.
pub open spec fn table_of(s: Seq<ConnectionRecord>) -> Map<SourceIp, (usize, u64)>
    decreases s.len(),
{
    if s.len() == 0 {
        Map::empty()
    } else {
        table_of(s.drop_last()).insert(s.last().ip, (s.last().count, s.last().window_start))
    }
}

/// No address has two records.
pub open spec fn distinct_ips(s: Seq<ConnectionRecord>) -> bool {
    forall|i: int, j: int| 0 <= i < j < s.len() ==> s[i].ip != s[j].ip
}

proof fn lemma_table_of(s: Seq<ConnectionRecord>, k: SourceIp)
    requires
        distinct_ips(s),
    ensures
        table_of(s).contains_key(k) <==> exists|i: int| 0 <= i < s.len() && (#[trigger] s[i]).ip == k,
        forall|i: int|
            0 <= i < s.len() && (#[trigger] s[i]).ip == k ==> table_of(s)[k] == (s[i].count, s[i].window_start),
    decreases s.len(),
{
    if s.len() > 0 {
        let t = s.drop_last();
        lemma_table_of(t, k);
        if table_of(t).contains_key(k) {
            let i = choose|i: int| 0 <= i < t.len() && (#[trigger] t[i]).ip == k;
            assert(s[i].ip == k);
        }
        if exists|i: int| 0 <= i < s.len() && (#[trigger] s[i]).ip == k {
            let i = choose|i: int| 0 <= i < s.len() && (#[trigger] s[i]).ip == k;
            if i < t.len() {
                assert(t[i].ip == k);
            }
        }
        assert forall|i: int|
            0 <= i < s.len() && (#[trigger] s[i]).ip == k implies table_of(s)[k] == (
            s[i].count,
            s[i].window_start,
        ) by {
            if i < t.len() {
                assert(t[i] == s[i]);
            }
        }
    }
}

proof fn lemma_table_update(s: Seq<ConnectionRecord>, i: int, x: ConnectionRecord)
    requires
        distinct_ips(s),
        0 <= i < s.len(),
        x.ip == s[i].ip,
    ensures
        distinct_ips(s.update(i, x)),
        table_of(s.update(i, x)) == table_of(s).insert(x.ip, (x.count, x.window_start)),
    decreases s.len(),
{
    let u = s.update(i, x);
    assert(distinct_ips(u)) by {
        assert forall|a: int, b: int| 0 <= a < b < u.len() implies u[a].ip != u[b].ip by {
            assert(s[a].ip != s[b].ip);
        }
    }
    if i == s.len() - 1 {
        assert(u.drop_last() =~= s.drop_last());
        assert(table_of(u) =~= table_of(s).insert(x.ip, (x.count, x.window_start)));
    } else {
        let t = s.drop_last();
        assert(u.drop_last() =~= t.update(i, x));
        assert(distinct_ips(t));
        lemma_table_update(t, i, x);
        assert(s.last().ip != x.ip);
        assert(table_of(u) =~= table_of(s).insert(x.ip, (x.count, x.window_start)));
    }
}

proof fn lemma_table_sweep(s: Seq<ConnectionRecord>, now: u64, window_secs: u64)
    requires
        distinct_ips(s),
    ensures
        distinct_ips(s.filter(|r: ConnectionRecord| is_live(r.window_start, now, window_secs))),
        table_of(s.filter(|r: ConnectionRecord| is_live(r.window_start, now, window_secs))) == sweep(
            table_of(s),
            now,
            window_secs,
        ),
    decreases s.len(),
{
    let p = |r: ConnectionRecord| is_live(r.window_start, now, window_secs);
    if s.len() == 0 {
        reveal(Seq::filter);
        assert(sweep(table_of(s), now, window_secs) =~= Map::empty());
    } else {
        let t = s.drop_last();
        let x = s.last();
        assert(s =~= t.push(x));
        assert(distinct_ips(t));
        lemma_table_sweep(t, now, window_secs);
        t.lemma_filter_push(x, p);
        let ft = t.filter(p);
        lemma_table_of(t, x.ip);
        assert forall|i: int| 0 <= i < t.len() implies t[i].ip != x.ip by {
            assert(s[i].ip != s[s.len() - 1].ip);
        }
        assert(!table_of(t).contains_key(x.ip));
        if p(x) {
            assert(distinct_ips(ft.push(x))) by {
                assert forall|a: int, b: int| 0 <= a < b < ft.len() + 1 implies ft.push(x)[a].ip != ft.push(
                    x,
                )[b].ip by {
                    if b == ft.len() {
                        assert(ft.contains(ft[a]));
                        t.lemma_filter_contains_rev(p, ft[a]);
                        let j = choose|j: int| 0 <= j < t.len() && t[j] == ft[a];
                    }
                }
            }
            assert(ft.push(x).drop_last() =~= ft);
            assert(table_of(ft.push(x)) =~= sweep(table_of(s), now, window_secs));
        } else {
            assert(table_of(ft) =~= sweep(table_of(s), now, window_secs));
        }
    }
}

/// The index of the record of `ip`.
fn position_of(recs: &Vec<ConnectionRecord>, ip: SourceIp) -> (r: Option<usize>)
    ensures
        match r {
            Some(i) => i < recs.len() && recs@[i as int].ip == ip,
            None => forall|k: int| 0 <= k < recs.len() ==> recs@[k].ip != ip,
        },
{
    let mut j: usize = 0;
    while j < recs.len()
        invariant
            j <= recs.len(),
            forall|k: int| 0 <= k < j ==> recs@[k].ip != ip,
        decreases recs.len() - j,
    {
        if recs[j].ip == ip {
            return Some(j);
        }
        j = j + 1;
    }
    None
}

/// Rate limiter to prevent abuse: each address may open at most
/// `max_connections` connections in a window of `window_seconds` seconds.
pub struct RateLimiter {
    records: Vec<ConnectionRecord>,
    max_connections: usize,
    window_seconds: u64,
}

impl View for RateLimiter {
    type V = Map<SourceIp, (usize, u64)>;

    /// For each address with a record: its count and the start of its window.
    closed spec fn view(&self) -> Map<SourceIp, (usize, u64)> {
        table_of(self.records@)
    }
}

impl RateLimiter {
    pub closed spec fn max(&self) -> usize {
        self.max_connections
    }

    pub closed spec fn window(&self) -> u64 {
        self.window_seconds
    }

    pub closed spec fn wf(&self) -> bool {
        distinct_ips(self.records@)
    }

    /// Create a new rate limiter.
    pub fn new(max_connections: usize, window_seconds: u64) -> (r: Self)
        ensures
            r.wf(),
            r@ == Map::<SourceIp, (usize, u64)>::empty(),
            r.max() == max_connections,
            r.window() == window_seconds,
    {
        RateLimiter { records: Vec::new(), max_connections, window_seconds }
    }

    /// Decides whether `ip` may connect at `now_ms` and records the
    /// connection if so. Closed windows of every address are dropped first.
    pub fn check_and_record(&mut self, ip: SourceIp, now_ms: u64) -> (r: bool)
        requires
            old(self).wf(),
        ensures
            final(self).wf(),
            final(self).max() == old(self).max(),
            final(self).window() == old(self).window(),
            (final(self)@, r) == admission(old(self)@, ip, now_ms, old(self).max(), old(self).window()),
    {
        let ghost p = |r: ConnectionRecord| is_live(r.window_start, now_ms, self.window_seconds);
        let ghost old_recs = self.records@;
        let mut kept: Vec<ConnectionRecord> = Vec::new();
        let mut i: usize = 0;
        assert(old_recs.subrange(0, 0).filter(p) =~= Seq::<ConnectionRecord>::empty()) by {
            reveal(Seq::filter);
        }
        while i < self.records.len()
            invariant
                i <= self.records.len(),
                old_recs == self.records@,
                p == (|r: ConnectionRecord| is_live(r.window_start, now_ms, self.window_seconds)),
                kept@ == old_recs.subrange(0, i as int).filter(p),
            decreases self.records.len() - i,
        {
            let rec = self.records[i];
            assert(old_recs.subrange(0, i + 1) =~= old_recs.subrange(0, i as int).push(rec));
            proof {
                old_recs.subrange(0, i as int).lemma_filter_push(rec, p);
            }
            let live = if now_ms >= rec.window_start {
                (now_ms - rec.window_start) / 1000 < self.window_seconds
            } else {
                0 < self.window_seconds
            };
            if live {
                kept.push(rec);
            }
            i = i + 1;
        }
        assert(old_recs.subrange(0, old_recs.len() as int) =~= old_recs);
        proof {
            lemma_table_sweep(old_recs, now_ms, self.window_seconds);
        }
        let ghost swept = kept@;
        proof {
            lemma_table_of(swept, ip);
        }
        let admitted = if let Some(j) = position_of(&kept, ip) {
            let rec = kept[j];
            if rec.count < self.max_connections {
                let next = ConnectionRecord { ip, count: rec.count + 1, window_start: rec.window_start };
                proof {
                    lemma_table_update(swept, j as int, next);
                }
                kept.set(j, next);
                true
            } else {
                false
            }
        } else {
            let fresh = ConnectionRecord { ip, count: 1, window_start: now_ms };
            proof {
                assert(swept.push(fresh).drop_last() =~= swept);
            }
            kept.push(fresh);
            true
        };
        self.records = kept;
        admitted
    }

    /// Clear all rate limit records.
    pub fn clear(&mut self)
        ensures
            final(self).wf(),
            final(self)@ == Map::<SourceIp, (usize, u64)>::empty(),
            final(self).max() == old(self).max(),
            final(self).window() == old(self).window(),
    {
        self.records.clear();
        assert(self.records@ =~= Seq::<ConnectionRecord>::empty());
    }

    /// The connection count recorded for `ip`, closed window or not; zero
    /// for an address without a record.
    pub fn get_count(&self, ip: SourceIp) -> (r: usize)
        requires
            self.wf(),
        ensures
            r == if self@.contains_key(ip) {
                self@[ip].0
            } else {
                0
            },
    {
        proof {
            lemma_table_of(self.records@, ip);
        }
        match position_of(&self.records, ip) {
            Some(j) => self.records[j].count,
            None => 0,
        }
    }
}

} // verus!
