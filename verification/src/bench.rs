//! Bench mode: the targets of the bench list, the seed of the request
//! schedule, and the summary of all requests made.
use vstd::prelude::*;
use crate::config::{Config, FnDetails, details, resolvable, opt_details_view};
use crate::metric::Metric;
use crate::text::{has_char, before_first, after_first, text_before, text_after, lemma_split_rejoin};
use crate::strmap::keys_unique;
use vstd::string::StringSliceAdditionalSpecFns;

verus! {

/// The application of a bench target `app/func`.
pub open spec fn bench_app(t: Seq<char>) -> Seq<char> {
    before_first(t, '/')
}

/// The function of a bench target `app/func`: everything after the first `/`.
pub open spec fn bench_func(t: Seq<char>) -> Seq<char> {
    after_first(t, '/')
}

/// Every bench target holds a `/`.
pub open spec fn targets_well_formed(list: Seq<String>) -> bool {
    forall|i: int| 0 <= i < list.len() ==> has_char(#[trigger] list[i]@, '/')
}

/// A bench target split at its first `/`.
pub fn split_target(t: &str) -> (r: (String, String))
    requires
        has_char(t@, '/'),
    ensures
        r.0@ == bench_app(t@),
        r.1@ == bench_func(t@),
{
    (text_before(t, '/'), text_after(t, '/').unwrap())
}

/// The bench targets whose application is configured directly.
pub open spec fn source_targets(cfg: Config, list: Seq<String>) -> Seq<String>
    decreases list.len(),
{
    if list.len() == 0 {
        Seq::empty()
    } else if cfg.models@.contains_key(bench_app(list.last()@)) {
        source_targets(cfg, list.drop_last()).push(list.last())
    } else {
        source_targets(cfg, list.drop_last())
    }
}

/// The bench targets whose application is a replica.
pub open spec fn replica_targets(cfg: Config, list: Seq<String>) -> Seq<String>
    decreases list.len(),
{
    if list.len() == 0 {
        Seq::empty()
    } else if cfg.replicas@.contains_key(bench_app(list.last()@)) {
        replica_targets(cfg, list.drop_last()).push(list.last())
    } else {
        replica_targets(cfg, list.drop_last())
    }
}

/// The test that a bench target's application is configured directly.
pub open spec fn of_source_app(cfg: Config) -> spec_fn(String) -> bool {
    |t: String| cfg.models@.contains_key(bench_app(t@))
}

/// The test that a bench target's application is a replica.
pub open spec fn of_replica_app(cfg: Config) -> spec_fn(String) -> bool {
    |t: String| cfg.replicas@.contains_key(bench_app(t@))
}

/// The bench targets whose application is configured directly are exactly
/// those of `list` that satisfy that, in their order, repeated ones included.
pub proof fn lemma_source_targets_filter(cfg: Config, list: Seq<String>)
    ensures
        source_targets(cfg, list) == list.filter(of_source_app(cfg)),
    decreases list.len(),
{
    if list.len() > 0 {
        lemma_source_targets_filter(cfg, list.drop_last());
        reveal(Seq::filter);
        assert(list.filter(of_source_app(cfg)) == {
            let sub = list.drop_last().filter(of_source_app(cfg));
            if of_source_app(cfg)(list.last()) {
                sub.push(list.last())
            } else {
                sub
            }
        });
    }
}

/// The bench targets whose application is a replica are exactly those of
/// `list` that satisfy that, in their order, repeated ones and several of the
/// same application included: each such target of `list` is among them.
pub proof fn lemma_replica_targets_filter(cfg: Config, list: Seq<String>)
    ensures
        replica_targets(cfg, list) == list.filter(of_replica_app(cfg)),
        forall|i: int|
            0 <= i < list.len() && cfg.replicas@.contains_key(bench_app(#[trigger] list[i]@))
                ==> replica_targets(cfg, list).contains(list[i]),
    decreases list.len(),
{
    if list.len() > 0 {
        lemma_replica_targets_filter(cfg, list.drop_last());
        reveal(Seq::filter);
        assert(list.filter(of_replica_app(cfg)) == {
            let sub = list.drop_last().filter(of_replica_app(cfg));
            if of_replica_app(cfg)(list.last()) {
                sub.push(list.last())
            } else {
                sub
            }
        });
    }
    assert forall|i: int|
        0 <= i < list.len() && cfg.replicas@.contains_key(bench_app(#[trigger] list[i]@))
            implies replica_targets(cfg, list).contains(list[i]) by {
        assert(of_replica_app(cfg)(list[i]));
        list.lemma_filter_contains(of_replica_app(cfg), i);
    }
}

/// Every bench target's function can be looked up and is configured.
pub open spec fn bench_resolvable(cfg: Config) -> bool {
    forall|i: int|
        0 <= i < cfg.bench_targets().len() ==> exists|f: nat|
            resolvable(cfg, bench_app(#[trigger] cfg.bench_targets()[i]@), bench_func(cfg.bench_targets()[i]@), f)
                && details(cfg, bench_app(cfg.bench_targets()[i]@), bench_func(cfg.bench_targets()[i]@), f)
                is Some
}

impl Config {
    /// The bench targets whose application is configured directly, in order.
    pub fn bench_source_targets(&self) -> (r: Vec<String>)
        requires
            targets_well_formed(self.bench_targets()),
        ensures
            r@ == source_targets(*self, self.bench_targets()),
            r@ == self.bench_targets().filter(of_source_app(*self)),
    {
        proof {
            lemma_source_targets_filter(*self, self.bench_targets());
        }
        let mut r: Vec<String> = Vec::new();
        let mut i: usize = 0;
        assert(self.bench_targets().take(0) =~= Seq::<String>::empty());
        while i < self.benchlist.len()
            invariant
                i <= self.bench_targets().len(),
                targets_well_formed(self.bench_targets()),
                r@ == source_targets(*self, self.bench_targets().take(i as int)),
            decreases self.bench_targets().len() - i,
        {
            assert(self.bench_targets().take(i + 1).drop_last() =~= self.bench_targets().take(i as int));
            let target = self.benchlist.key_at(i);
            assert(self.bench_targets()[i as int] == *target);
            let (app, _func) = split_target(target.as_str());
            if self.models.contains_key(app.as_str()) {
                r.push(target.clone());
            }
            i = i + 1;
        }
        assert(self.bench_targets().take(self.bench_targets().len() as int) =~= self.bench_targets());
        r
    }

    /// For each bench target whose application is a replica, in order: the
    /// replica's source, the application and the function.
    pub fn bench_replica_targets(&self) -> (r: Vec<(String, String, String)>)
        requires
            targets_well_formed(self.bench_targets()),
        ensures
            r@.len() == replica_targets(*self, self.bench_targets()).len(),
            forall|i: int|
                0 <= i < r@.len() ==> {
                    let t = replica_targets(*self, self.bench_targets())[i]@;
                    &&& (#[trigger] r@[i]).1@ == bench_app(t)
                    &&& r@[i].2@ == bench_func(t)
                    &&& r@[i].0@ == self.replicas@[bench_app(t)].source@
                },
            r@.len() == self.bench_targets().filter(of_replica_app(*self)).len(),
            forall|i: int|
                0 <= i < r@.len() ==> {
                    let t = self.bench_targets().filter(of_replica_app(*self))[i]@;
                    &&& (#[trigger] r@[i]).1@ == bench_app(t)
                    &&& r@[i].2@ == bench_func(t)
                },
    {
        proof {
            lemma_replica_targets_filter(*self, self.bench_targets());
        }
        let mut r: Vec<(String, String, String)> = Vec::new();
        let mut i: usize = 0;
        assert(self.bench_targets().take(0) =~= Seq::<String>::empty());
        while i < self.benchlist.len()
            invariant
                i <= self.bench_targets().len(),
                targets_well_formed(self.bench_targets()),
                r@.len() == replica_targets(*self, self.bench_targets().take(i as int)).len(),
                forall|k: int|
                    0 <= k < r@.len() ==> {
                        let t = replica_targets(*self, self.bench_targets().take(i as int))[k]@;
                        &&& (#[trigger] r@[k]).1@ == bench_app(t)
                        &&& r@[k].2@ == bench_func(t)
                        &&& r@[k].0@ == self.replicas@[bench_app(t)].source@
                    },
            decreases self.bench_targets().len() - i,
        {
            let ghost prev = self.bench_targets().take(i as int);
            assert(self.bench_targets().take(i + 1).drop_last() =~= prev);
            let target = self.benchlist.key_at(i);
            assert(self.bench_targets()[i as int] == *target);
            let (app, func) = split_target(target.as_str());
            match self.replicas.get(app.as_str()) {
                Some(replica) => {
                    let source = replica.source.clone();
                    r.push((source, app, func));
                },
                None => {},
            }
            i = i + 1;
        }
        assert(self.bench_targets().take(self.bench_targets().len() as int) =~= self.bench_targets());
        r
    }

    /// For each bench target, in order: its application, its function and the
    /// function's resolved configuration.
    pub fn bench_fn_list(&self) -> (r: Vec<(String, String, FnDetails)>)
        requires
            targets_well_formed(self.bench_targets()),
            bench_resolvable(*self),
        ensures
            r@.len() == self.bench_targets().len(),
            forall|i: int|
                0 <= i < r@.len() ==> {
                    let t = self.bench_targets()[i]@;
                    &&& (#[trigger] r@[i]).0@ == bench_app(t)
                    &&& r@[i].1@ == bench_func(t)
                    &&& forall|f: nat|
                        resolvable(*self, bench_app(t), bench_func(t), f) ==> Some(r@[i].2@)
                            == details(*self, bench_app(t), bench_func(t), f)
                },
            forall|i: int, j: int|
                0 <= i < j < r@.len() ==> (#[trigger] r@[i]).0@ != (#[trigger] r@[j]).0@
                    || r@[i].1@ != r@[j].1@,
    {
        let mut r: Vec<(String, String, FnDetails)> = Vec::new();
        let mut i: usize = 0;
        let n = self.benchlist.len();
        while i < n
            invariant
                n == self.bench_targets().len(),
                keys_unique(self.benchlist.entries()),
                i <= self.bench_targets().len(),
                targets_well_formed(self.bench_targets()),
                bench_resolvable(*self),
                r@.len() == i,
                forall|k: int|
                    0 <= k < i ==> {
                        let t = self.bench_targets()[k]@;
                        &&& (#[trigger] r@[k]).0@ == bench_app(t)
                        &&& r@[k].1@ == bench_func(t)
                        &&& forall|f: nat|
                            resolvable(*self, bench_app(t), bench_func(t), f) ==> Some(r@[k].2@)
                                == details(*self, bench_app(t), bench_func(t), f)
                    },
            decreases self.bench_targets().len() - i,
        {
            let target = self.benchlist.key_at(i);
            assert(self.bench_targets()[i as int] == *target);
            let (app, func) = split_target(target.as_str());
            let ghost t = self.bench_targets()[i as int]@;
            let ghost f0 = choose|f: nat|
                resolvable(*self, bench_app(t), bench_func(t), f) && details(
                    *self,
                    bench_app(t),
                    bench_func(t),
                    f,
                ) is Some;
            let d = self.get_fn_details(app.as_str(), func.as_str());
            assert(opt_details_view(d) == details(*self, app@, func@, f0));
            let d = d.unwrap();
            r.push((app, func, d));
            i = i + 1;
        }
        proof {
            assert forall|a: int, b: int| 0 <= a < b < r@.len() implies (#[trigger] r@[a]).0@
                != (#[trigger] r@[b]).0@ || r@[a].1@ != r@[b].1@ by {
                let ta = self.bench_targets()[a]@;
                let tb = self.bench_targets()[b]@;
                assert(has_char(self.bench_targets()[a]@, '/'));
                assert(has_char(self.bench_targets()[b]@, '/'));
                lemma_split_rejoin(ta, '/');
                lemma_split_rejoin(tb, '/');
                assert(self.benchlist.entries()[a].0@ != self.benchlist.entries()[b].0@);
            }
        }
        r
    }
}

/// The schedule seed: the bytes of `s`, then zeros up to 32 bytes.
pub open spec fn seed_of(bytes: Seq<u8>) -> Seq<u8> {
    Seq::new(32, |i: int| if i < bytes.len() { bytes[i] } else { 0u8 })
}

/// The 32-byte seed of the request schedule made from `s`.
pub fn seed_from_str(s: &str) -> (r: [u8; 32])
    requires
        s.spec_bytes().len() <= 32,
    ensures
        r@ == seed_of(s.spec_bytes()),
{
    let bytes = s.as_bytes();
    let mut seed: [u8; 32] = [0u8; 32];
    let mut i: usize = 0;
    while i < bytes.len()
        invariant
            bytes@ == s.spec_bytes(),
            bytes@.len() <= 32,
            i <= bytes@.len(),
            forall|j: int| 0 <= j < i ==> seed@[j] == bytes@[j],
            forall|j: int| i <= j < 32 ==> seed@[j] == 0u8,
            seed@.len() == 32,
        decreases bytes@.len() - i,
    {
        seed[i] = bytes[i];
        i = i + 1;
    }
    assert(seed@ =~= seed_of(s.spec_bytes()));
    seed
}

/// Running totals of a bench run.
pub struct Tally {
    pub count: int,
    pub failed: int,
    pub req_time: int,
    pub exec_time: int,
}

/// No totals yet.
pub open spec fn empty_tally() -> Tally {
    Tally { count: 0, failed: 0, req_time: 0, exec_time: 0 }
}

/// A request that took more than 10 seconds counts as failed.
pub open spec fn request_late(m: Metric) -> bool {
    m.total_req() > 10000
}

/// The totals after one more request: a missing or late one fails, any other
/// adds its request and execution time.
pub open spec fn tally_request(t: Tally, m: Option<Metric>) -> Tally {
    match m {
        None => Tally { failed: t.failed + 1, ..t },
        Some(m) => if request_late(m) {
            Tally { failed: t.failed + 1, ..t }
        } else {
            Tally {
                count: t.count + 1,
                req_time: t.req_time + m.total_req(),
                exec_time: t.exec_time + m.execution(),
                ..t
            }
        },
    }
}

/// The totals after the requests `ms`.
pub open spec fn tally_requests(t: Tally, ms: Seq<Option<Metric>>) -> Tally
    decreases ms.len(),
{
    if ms.len() == 0 {
        t
    } else {
        tally_request(tally_requests(t, ms.drop_last()), ms.last())
    }
}

/// The totals after the tasks `ts`: a task that did not finish fails as a
/// whole, a finished one adds its requests.
pub open spec fn tally_tasks(t: Tally, ts: Seq<Option<Vec<Option<Metric>>>>) -> Tally
    decreases ts.len(),
{
    if ts.len() == 0 {
        t
    } else {
        let p = tally_tasks(t, ts.drop_last());
        match ts.last() {
            None => Tally { failed: p.failed + 1, ..p },
            Some(v) => tally_requests(p, v@),
        }
    }
}

/// Each total of `a` is at most that of `b`.
pub open spec fn tally_le(a: Tally, b: Tally) -> bool {
    a.count <= b.count && a.failed <= b.failed && a.req_time <= b.req_time && a.exec_time
        <= b.exec_time
}

/// Every request that finished has defined latencies where they are summed.
pub open spec fn requests_measurable(ms: Seq<Option<Metric>>) -> bool {
    forall|j: int|
        0 <= j < ms.len() ==> match #[trigger] ms[j] {
            Some(m) => m.start_call_time <= m.receive_resp_time && (!request_late(m)
                ==> m.fn_start_time <= m.fn_end_time),
            None => true,
        }
}

/// Every finished task's requests are measurable.
pub open spec fn tasks_measurable(ts: Seq<Option<Vec<Option<Metric>>>>) -> bool {
    forall|i: int|
        0 <= i < ts.len() ==> match #[trigger] ts[i] {
            Some(v) => requests_measurable(v@),
            None => true,
        }
}

proof fn lemma_tally_requests_grows(t: Tally, ms: Seq<Option<Metric>>, j: int)
    requires
        requests_measurable(ms),
        0 <= j <= ms.len(),
    ensures
        tally_le(t, tally_requests(t, ms.take(j))),
        tally_le(tally_requests(t, ms.take(j)), tally_requests(t, ms)),
    decreases ms.len(),
{
    if j == ms.len() {
        assert(ms.take(j) =~= ms);
        if ms.len() > 0 {
            let init = ms.drop_last();
            assert forall|k: int| 0 <= k < init.len() implies match #[trigger] init[k] {
                Some(m) => m.start_call_time <= m.receive_resp_time && (!request_late(m)
                    ==> m.fn_start_time <= m.fn_end_time),
                None => true,
            } by {
                assert(init[k] == ms[k]);
            }
            lemma_tally_requests_grows(t, init, init.len() as int);
            assert(init.take(init.len() as int) =~= init);
            assert(match ms[ms.len() - 1] {
                Some(m) => m.start_call_time <= m.receive_resp_time && (!request_late(m)
                    ==> m.fn_start_time <= m.fn_end_time),
                None => true,
            });
        }
    } else {
        let init = ms.drop_last();
        assert(ms.take(j) =~= init.take(j));
        assert forall|k: int| 0 <= k < init.len() implies match #[trigger] init[k] {
            Some(m) => m.start_call_time <= m.receive_resp_time && (!request_late(m)
                ==> m.fn_start_time <= m.fn_end_time),
            None => true,
        } by {
            assert(init[k] == ms[k]);
        }
        lemma_tally_requests_grows(t, init, j);
        lemma_tally_requests_grows(t, init, init.len() as int);
        assert(init.take(init.len() as int) =~= init);
        assert(match ms[ms.len() - 1] {
            Some(m) => m.start_call_time <= m.receive_resp_time && (!request_late(m)
                ==> m.fn_start_time <= m.fn_end_time),
            None => true,
        });
    }
}

proof fn lemma_tally_tasks_grows(t: Tally, ts: Seq<Option<Vec<Option<Metric>>>>, i: int)
    requires
        tasks_measurable(ts),
        0 <= i <= ts.len(),
    ensures
        tally_le(tally_tasks(t, ts.take(i)), tally_tasks(t, ts)),
    decreases ts.len(),
{
    if ts.len() > 0 {
        let init = ts.drop_last();
        assert forall|k: int| 0 <= k < init.len() implies match #[trigger] init[k] {
            Some(v) => requests_measurable(v@),
            None => true,
        } by {
            assert(init[k] == ts[k]);
        }
        if i == ts.len() {
            assert(ts.take(i) =~= ts);
        } else {
            assert(ts.take(i) =~= init.take(i));
            lemma_tally_tasks_grows(t, init, i);
            let p = tally_tasks(t, init);
            assert(init.take(init.len() as int) =~= init);
            match ts.last() {
                None => {},
                Some(v) => {
                    assert(requests_measurable(v@)) by {
                        assert(ts[ts.len() - 1] == ts.last());
                    }
                    lemma_tally_requests_grows(p, v@, v@.len() as int);
                    assert(v@.take(v@.len() as int) =~= v@);
                },
            }
        }
    }
}

/// The requests among `ms` that succeeded in time: those answered, within 10
/// seconds from the call to the response.
pub open spec fn in_time(ms: Seq<Option<Metric>>) -> Seq<Metric>
    decreases ms.len(),
{
    if ms.len() == 0 {
        Seq::empty()
    } else {
        let p = in_time(ms.drop_last());
        match ms.last() {
            Some(m) => if m.receive_resp_time - m.start_call_time <= 10000 {
                p.push(m)
            } else {
                p
            },
            None => p,
        }
    }
}

/// The requests of a bench run that succeeded in time, task after task; a
/// task that did not finish has none.
pub open spec fn run_in_time(ts: Seq<Option<Vec<Option<Metric>>>>) -> Seq<Metric>
    decreases ts.len(),
{
    if ts.len() == 0 {
        Seq::empty()
    } else {
        run_in_time(ts.drop_last()) + match ts.last() {
            Some(v) => in_time(v@),
            None => Seq::empty(),
        }
    }
}

/// The sum over `ms` of each request's whole latency, from the call to the
/// response.
pub open spec fn latency_total(ms: Seq<Metric>) -> int
    decreases ms.len(),
{
    if ms.len() == 0 {
        0
    } else {
        latency_total(ms.drop_last()) + (ms.last().receive_resp_time - ms.last().start_call_time)
    }
}

/// The sum over `ms` of each request's execution time, from the function's
/// start to its end.
pub open spec fn execution_total(ms: Seq<Metric>) -> int
    decreases ms.len(),
{
    if ms.len() == 0 {
        0
    } else {
        execution_total(ms.drop_last()) + (ms.last().fn_end_time - ms.last().fn_start_time)
    }
}

proof fn lemma_totals_concat(a: Seq<Metric>, b: Seq<Metric>)
    ensures
        latency_total(a + b) == latency_total(a) + latency_total(b),
        execution_total(a + b) == execution_total(a) + execution_total(b),
    decreases b.len(),
{
    if b.len() == 0 {
        assert(a + b =~= a);
    } else {
        lemma_totals_concat(a, b.drop_last());
        assert((a + b).drop_last() =~= a + b.drop_last());
        assert((a + b).last() == b.last());
    }
}

proof fn lemma_requests_totals(t: Tally, ms: Seq<Option<Metric>>)
    ensures
        tally_requests(t, ms).count == t.count + in_time(ms).len(),
        tally_requests(t, ms).req_time == t.req_time + latency_total(in_time(ms)),
        tally_requests(t, ms).exec_time == t.exec_time + execution_total(in_time(ms)),
    decreases ms.len(),
{
    if ms.len() > 0 {
        lemma_requests_totals(t, ms.drop_last());
        let p = in_time(ms.drop_last());
        match ms.last() {
            Some(m) => {
                assert(p.push(m).drop_last() =~= p);
            },
            None => {},
        }
    }
}

proof fn lemma_tasks_totals(t: Tally, ts: Seq<Option<Vec<Option<Metric>>>>)
    ensures
        tally_tasks(t, ts).count == t.count + run_in_time(ts).len(),
        tally_tasks(t, ts).req_time == t.req_time + latency_total(run_in_time(ts)),
        tally_tasks(t, ts).exec_time == t.exec_time + execution_total(run_in_time(ts)),
    decreases ts.len(),
{
    if ts.len() > 0 {
        lemma_tasks_totals(t, ts.drop_last());
        let p = tally_tasks(t, ts.drop_last());
        match ts.last() {
            Some(v) => {
                lemma_requests_totals(p, v@);
                lemma_totals_concat(run_in_time(ts.drop_last()), in_time(v@));
            },
            None => {
                lemma_totals_concat(run_in_time(ts.drop_last()), Seq::empty());
            },
        }
    }
}

/// A bench run's totals count and sum exactly the requests that were answered
/// within 10 seconds: their number, the sum of their whole latencies from the
/// call to the response (the latency that decides lateness), and the sum of
/// their execution times.
pub proof fn lemma_bench_totals(ts: Seq<Option<Vec<Option<Metric>>>>)
    ensures
        tally_tasks(empty_tally(), ts).count == run_in_time(ts).len(),
        tally_tasks(empty_tally(), ts).req_time == latency_total(run_in_time(ts)),
        tally_tasks(empty_tally(), ts).exec_time == execution_total(run_in_time(ts)),
{
    lemma_tasks_totals(empty_tally(), ts);
}

/// Totals of a bench run.
#[derive(Clone, Copy, Debug, PartialEq, Eq)]
pub struct BenchSummary {
    /// Requests that succeeded in time.
    pub total_count: u64,
    /// Requests that failed or were late, and tasks that did not finish.
    pub failed_count: u64,
    /// Sum of the request latencies of the successful requests.
    pub total_req_time: u64,
    /// Sum of the execution times of the successful requests.
    pub total_exec_time: u64,
}

/// The totals fit in 64 bits.
pub open spec fn tally_fits(t: Tally) -> bool {
    t.count <= u64::MAX && t.failed <= u64::MAX && t.req_time <= u64::MAX && t.exec_time
        <= u64::MAX
}

/// The totals of a bench run from the outcome of each task: `None` for a task
/// that did not finish, otherwise the outcome of each of its requests (`None`
/// for one that failed). A request taking more than 10 seconds counts as failed.
pub fn summarize_bench(tasks: &Vec<Option<Vec<Option<Metric>>>>) -> (r: BenchSummary)
    requires
        tasks_measurable(tasks@),
        tally_fits(tally_tasks(empty_tally(), tasks@)),
    ensures
        r.total_count == tally_tasks(empty_tally(), tasks@).count,
        r.failed_count == tally_tasks(empty_tally(), tasks@).failed,
        r.total_req_time == tally_tasks(empty_tally(), tasks@).req_time,
        r.total_exec_time == tally_tasks(empty_tally(), tasks@).exec_time,
        r.total_count == run_in_time(tasks@).len(),
        r.total_req_time == latency_total(run_in_time(tasks@)),
        r.total_exec_time == execution_total(run_in_time(tasks@)),
{
    proof {
        lemma_bench_totals(tasks@);
    }
    let ghost all = tally_tasks(empty_tally(), tasks@);
    let mut total_count: u64 = 0;
    let mut failed_count: u64 = 0;
    let mut total_req_time: u64 = 0;
    let mut total_exec_time: u64 = 0;
    let mut i: usize = 0;
    assert(tasks@.take(0) =~= Seq::<Option<Vec<Option<Metric>>>>::empty());
    while i < tasks.len()
        invariant
            i <= tasks@.len(),
            tasks_measurable(tasks@),
            all == tally_tasks(empty_tally(), tasks@),
            tally_fits(all),
            ({
                let p = tally_tasks(empty_tally(), tasks@.take(i as int));
                &&& total_count == p.count
                &&& failed_count == p.failed
                &&& total_req_time == p.req_time
                &&& total_exec_time == p.exec_time
            }),
        decreases tasks@.len() - i,
    {
        let ghost prev = tally_tasks(empty_tally(), tasks@.take(i as int));
        assert(tasks@.take(i + 1).drop_last() =~= tasks@.take(i as int));
        assert(tasks@.take(i + 1).last() == tasks@[i as int]);
        proof {
            lemma_tally_tasks_grows(empty_tally(), tasks@, i + 1);
        }
        match &tasks[i] {
            None => {
                failed_count = failed_count + 1;
            },
            Some(metrics) => {
                assert(requests_measurable(metrics@)) by {
                    assert(tasks@[i as int] == Some(*metrics));
                }
                let mut j: usize = 0;
                assert(metrics@.take(0) =~= Seq::<Option<Metric>>::empty());
                while j < metrics.len()
                    invariant
                        j <= metrics@.len(),
                        requests_measurable(metrics@),
                        tally_le(tally_requests(prev, metrics@), all),
                        tally_fits(all),
                        ({
                            let p = tally_requests(prev, metrics@.take(j as int));
                            &&& total_count == p.count
                            &&& failed_count == p.failed
                            &&& total_req_time == p.req_time
                            &&& total_exec_time == p.exec_time
                        }),
                    decreases metrics@.len() - j,
                {
                    proof {
                        lemma_tally_requests_grows(prev, metrics@, j + 1);
                    }
                    assert(metrics@.take(j + 1).drop_last() =~= metrics@.take(j as int));
                    assert(metrics@.take(j + 1).last() == metrics@[j as int]);
                    match &metrics[j] {
                        None => {
                            failed_count = failed_count + 1;
                        },
                        Some(m) => {
                            let req = m.get_total_req();
                            if req > 10000 {
                                failed_count = failed_count + 1;
                            } else {
                                total_count = total_count + 1;
                                total_req_time = total_req_time + req;
                                total_exec_time = total_exec_time + m.get_exec_time();
                            }
                        },
                    }
                    j = j + 1;
                }
                assert(metrics@.take(metrics@.len() as int) =~= metrics@);
            },
        }
        i = i + 1;
    }
    assert(tasks@.take(tasks@.len() as int) =~= tasks@);
    BenchSummary { total_count, failed_count, total_req_time, total_exec_time }
}

/// The number of requests a bench run attempted: one per task that did not
/// finish, and each request of each finished task.
pub open spec fn attempted(ts: Seq<Option<Vec<Option<Metric>>>>) -> int
    decreases ts.len(),
{
    if ts.len() == 0 {
        0
    } else {
        attempted(ts.drop_last()) + match ts.last() {
            None => 1int,
            Some(v) => v@.len() as int,
        }
    }
}

proof fn lemma_tally_requests_counts(t: Tally, ms: Seq<Option<Metric>>)
    ensures
        tally_requests(t, ms).count + tally_requests(t, ms).failed == t.count + t.failed
            + ms.len(),
    decreases ms.len(),
{
    if ms.len() > 0 {
        lemma_tally_requests_counts(t, ms.drop_last());
    }
}

/// Every attempt of a bench run is counted once: as a success or as a failure.
pub proof fn lemma_bench_counts(ts: Seq<Option<Vec<Option<Metric>>>>)
    ensures
        tally_tasks(empty_tally(), ts).count + tally_tasks(empty_tally(), ts).failed == attempted(
            ts,
        ),
    decreases ts.len(),
{
    if ts.len() > 0 {
        lemma_bench_counts(ts.drop_last());
        match ts.last() {
            None => {},
            Some(v) => {
                lemma_tally_requests_counts(tally_tasks(empty_tally(), ts.drop_last()), v@);
            },
        }
    }
}

} // verus!
