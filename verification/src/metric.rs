//! Latency metrics of one function call, their breakdown and sums, and the
//! recorder that collects them per function, mode and platform.
use vstd::prelude::*;
use crate::modes::{Platform, TestMode, lemma_mode_names_distinct, lemma_platform_names_distinct};
use crate::text::{has_char, lemma_first_pos, decimal, push_decimal};

verus! {

/// Timestamps of one call, in milliseconds.
#[derive(Clone, Copy, Debug)]
pub struct Metric {
    /// The driver sends the request.
    pub start_call_time: u64,
    /// The request reaches the platform.
    pub req_arrive_time: u64,
    /// The platform is about to run the function.
    pub bf_exec_time: u64,
    /// The function instance starts recovering (cold start).
    pub recover_begin_time: u64,
    /// The function starts.
    pub fn_start_time: u64,
    /// The function ends.
    pub fn_end_time: u64,
    /// The driver receives the response.
    pub receive_resp_time: u64,
}

impl Metric {
    /// Whole request latency.
    pub open spec fn total_req(self) -> int {
        self.receive_resp_time - self.start_call_time
    }

    /// Request transfer time.
    pub open spec fn req_trans(self) -> int {
        self.req_arrive_time - self.start_call_time
    }

    /// Application verification time.
    pub open spec fn app_verify(self) -> int {
        self.bf_exec_time - self.req_arrive_time
    }

    /// Cold start time.
    pub open spec fn cold_start(self) -> int {
        self.recover_begin_time - self.bf_exec_time
    }

    /// Second part of the cold start.
    pub open spec fn cold_start2(self) -> int {
        self.fn_start_time - self.recover_begin_time
    }

    /// Execution time.
    pub open spec fn execution(self) -> int {
        self.fn_end_time - self.fn_start_time
    }

    /// Every timestamp is at least the one before it.
    pub open spec fn ordered(self) -> bool {
        &&& self.start_call_time <= self.req_arrive_time
        &&& self.req_arrive_time <= self.bf_exec_time
        &&& self.bf_exec_time <= self.recover_begin_time
        &&& self.recover_begin_time <= self.fn_start_time
        &&& self.fn_start_time <= self.fn_end_time
        &&& self.fn_end_time <= self.receive_resp_time
    }

    /// Each of the six latencies is defined: no timestamp of a latency
    /// precedes the one it is measured from.
    pub open spec fn latencies_defined(self) -> bool {
        &&& self.start_call_time <= self.receive_resp_time
        &&& self.start_call_time <= self.req_arrive_time
        &&& self.req_arrive_time <= self.bf_exec_time
        &&& self.bf_exec_time <= self.recover_begin_time
        &&& self.recover_begin_time <= self.fn_start_time
        &&& self.fn_start_time <= self.fn_end_time
    }

    /// The breakdown that `debug_print` reports: transfer plus cold start,
    /// execution, and the whole request.
    pub fn debug_print(&self) -> (r: LatencyBreakdown)
        requires
            self.fn_start_time <= self.fn_end_time,
            self.start_call_time <= self.receive_resp_time,
            self.execution() <= self.total_req(),
        ensures
            r.exec_time == self.execution(),
            r.total_req == self.total_req(),
            r.cold_trans == self.total_req() - self.execution(),
    {
        let exec_latency = self.fn_end_time - self.fn_start_time;
        let total_req_latency = self.receive_resp_time - self.start_call_time;
        let cold_trans_latency = total_req_latency - exec_latency;
        LatencyBreakdown {
            cold_trans: cold_trans_latency,
            exec_time: exec_latency,
            total_req: total_req_latency,
        }
    }

    /// Whole request latency.
    pub fn get_total_req(&self) -> (r: u64)
        requires
            self.start_call_time <= self.receive_resp_time,
        ensures
            r == self.total_req(),
    {
        self.receive_resp_time - self.start_call_time
    }

    /// Request transfer time.
    pub fn get_req_trans_time(&self) -> (r: u64)
        requires
            self.start_call_time <= self.req_arrive_time,
        ensures
            r == self.req_trans(),
    {
        self.req_arrive_time - self.start_call_time
    }

    /// Application verification time.
    pub fn get_app_verify_time(&self) -> (r: u64)
        requires
            self.req_arrive_time <= self.bf_exec_time,
        ensures
            r == self.app_verify(),
    {
        self.bf_exec_time - self.req_arrive_time
    }

    /// Cold start time.
    pub fn get_cold_start_time(&self) -> (r: u64)
        requires
            self.bf_exec_time <= self.recover_begin_time,
        ensures
            r == self.cold_start(),
    {
        self.recover_begin_time - self.bf_exec_time
    }

    /// Second part of the cold start.
    pub fn get_cold_start_time2(&self) -> (r: u64)
        requires
            self.recover_begin_time <= self.fn_start_time,
        ensures
            r == self.cold_start2(),
    {
        self.fn_start_time - self.recover_begin_time
    }

    /// Execution time.
    pub fn get_exec_time(&self) -> (r: u64)
        requires
            self.fn_start_time <= self.fn_end_time,
        ensures
            r == self.execution(),
    {
        self.fn_end_time - self.fn_start_time
    }
}

/// A timestamp field of a function's JSON response.
#[derive(Clone, Copy, Debug, PartialEq, Eq, Structural)]
pub enum FieldValue {
    /// The field is missing (or the response is not an object).
    Absent,
    /// The field is an unsigned 64-bit integer.
    Number(u64),
    /// The field is present but not an unsigned 64-bit integer.
    Invalid,
}

/// The timestamp fields of a function's JSON response.
#[derive(Clone, Copy, Debug)]
pub struct ResponseFields {
    pub req_arrive_time: FieldValue,
    pub bf_exec_time: FieldValue,
    pub recover_begin_time: FieldValue,
    pub fn_start_time: FieldValue,
    pub fn_end_time: FieldValue,
}

/// A field's number, or 0 when it is missing.
pub open spec fn field_or_zero(f: FieldValue) -> u64 {
    match f {
        FieldValue::Number(n) => n,
        _ => 0,
    }
}

/// A field that is missing or a number.
pub open spec fn field_usable(f: FieldValue) -> bool {
    !(f is Invalid)
}

/// A field's number, or 0 when it is missing.
pub fn field_value(f: FieldValue) -> (r: u64)
    requires
        field_usable(f),
    ensures
        r == field_or_zero(f),
{
    match f {
        FieldValue::Number(n) => n,
        _ => 0,
    }
}

/// A timestamp that falls back to the function's start when it is 0.
pub open spec fn or_start(v: u64, fn_start: u64) -> u64 {
    if v == 0 {
        fn_start
    } else {
        v
    }
}

impl Metric {
    /// The metric of a call sent at `start_call_time` whose response, received
    /// at `receive_resp_time`, carries `fields`; a missing field counts as 0.
    pub fn from_response(start_call_time: u64, fields: &ResponseFields, receive_resp_time: u64) -> (r:
        Metric)
        requires
            field_usable(fields.req_arrive_time),
            field_usable(fields.bf_exec_time),
            field_usable(fields.recover_begin_time),
            field_usable(fields.fn_start_time),
            field_usable(fields.fn_end_time),
        ensures
            r == Metric::from_fields(start_call_time, *fields, receive_resp_time),
    {
        Metric {
            start_call_time,
            req_arrive_time: field_value(fields.req_arrive_time),
            bf_exec_time: field_value(fields.bf_exec_time),
            recover_begin_time: field_value(fields.recover_begin_time),
            fn_start_time: field_value(fields.fn_start_time),
            fn_end_time: field_value(fields.fn_end_time),
            receive_resp_time,
        }
    }

    /// The metric of a call whose response must carry the function's start and
    /// end; an arrival, pre-execution or recovery time that is missing or 0
    /// falls back to the function's start.
    pub fn from_response_filled(
        start_call_time: u64,
        fields: &ResponseFields,
        receive_resp_time: u64,
    ) -> (r: Metric)
        requires
            field_usable(fields.req_arrive_time),
            field_usable(fields.bf_exec_time),
            field_usable(fields.recover_begin_time),
            fields.fn_start_time is Number,
            fields.fn_end_time is Number,
        ensures
            r.start_call_time == start_call_time,
            r.fn_start_time == field_or_zero(fields.fn_start_time),
            r.fn_end_time == field_or_zero(fields.fn_end_time),
            r.req_arrive_time == or_start(field_or_zero(fields.req_arrive_time), r.fn_start_time),
            r.bf_exec_time == or_start(field_or_zero(fields.bf_exec_time), r.fn_start_time),
            r.recover_begin_time == or_start(
                field_or_zero(fields.recover_begin_time),
                r.fn_start_time,
            ),
            r.receive_resp_time == receive_resp_time,
    {
        let mut req_arrive_time = field_value(fields.req_arrive_time);
        let mut bf_exec_time = field_value(fields.bf_exec_time);
        let mut recover_begin_time = field_value(fields.recover_begin_time);
        let fn_start_time = field_value(fields.fn_start_time);
        if req_arrive_time == 0 {
            req_arrive_time = fn_start_time;
        }
        if bf_exec_time == 0 {
            bf_exec_time = fn_start_time;
        }
        if recover_begin_time == 0 {
            recover_begin_time = fn_start_time;
        }
        Metric {
            start_call_time,
            req_arrive_time,
            bf_exec_time,
            recover_begin_time,
            fn_start_time,
            fn_end_time: field_value(fields.fn_end_time),
            receive_resp_time,
        }
    }

    /// The metric of a call whose response must carry every timestamp.
    pub fn from_complete_response(
        start_call_time: u64,
        fields: &ResponseFields,
        receive_resp_time: u64,
    ) -> (r: Metric)
        requires
            fields.req_arrive_time is Number,
            fields.bf_exec_time is Number,
            fields.recover_begin_time is Number,
            fields.fn_start_time is Number,
            fields.fn_end_time is Number,
        ensures
            r == Metric::from_fields(start_call_time, *fields, receive_resp_time),
    {
        Metric::from_response(start_call_time, fields, receive_resp_time)
    }

    /// The metric made of the numbers of `fields` (0 for a missing one).
    pub open spec fn from_fields(start_call_time: u64, fields: ResponseFields, receive_resp_time: u64) -> Metric {
        Metric {
            start_call_time,
            req_arrive_time: field_or_zero(fields.req_arrive_time),
            bf_exec_time: field_or_zero(fields.bf_exec_time),
            recover_begin_time: field_or_zero(fields.recover_begin_time),
            fn_start_time: field_or_zero(fields.fn_start_time),
            fn_end_time: field_or_zero(fields.fn_end_time),
            receive_resp_time,
        }
    }
}

/// The latencies of one call as `debug_print` reports them.
#[derive(Clone, Copy, Debug)]
pub struct LatencyBreakdown {
    /// Transfer and cold start together.
    pub cold_trans: u64,
    /// Execution.
    pub exec_time: u64,
    /// The whole request.
    pub total_req: u64,
}

/// For ordered timestamps the stages add up to the whole request: transfer,
/// verification, both cold-start parts, execution, and the response's way back.
pub proof fn lemma_stages_add_up(m: Metric)
    requires
        m.ordered(),
    ensures
        m.total_req() == m.req_trans() + m.app_verify() + m.cold_start() + m.cold_start2()
            + m.execution() + (m.receive_resp_time - m.fn_end_time),
        m.req_trans() >= 0 && m.app_verify() >= 0 && m.cold_start() >= 0 && m.cold_start2() >= 0
            && m.execution() >= 0,
        m.execution() <= m.total_req(),
{
}

/// The breakdown's parts add up to the whole request.
pub proof fn lemma_breakdown_adds_up(m: Metric, b: LatencyBreakdown)
    requires
        b.exec_time == m.execution(),
        b.total_req == m.total_req(),
        b.cold_trans == m.total_req() - m.execution(),
    ensures
        b.cold_trans + b.exec_time == b.total_req,
{
}

/// One latency of a call.
#[derive(Clone, Copy, Debug, PartialEq, Eq, Structural)]
pub enum Stage {
    TotalReq,
    ReqTrans,
    AppVerify,
    ColdStart,
    ColdStart2,
    Exec,
}

/// The latency `stage` of `m`.
pub open spec fn stage_of(m: Metric, stage: Stage) -> int {
    match stage {
        Stage::TotalReq => m.total_req(),
        Stage::ReqTrans => m.req_trans(),
        Stage::AppVerify => m.app_verify(),
        Stage::ColdStart => m.cold_start(),
        Stage::ColdStart2 => m.cold_start2(),
        Stage::Exec => m.execution(),
    }
}

/// The latency `stage` of `m` is defined (not negative).
pub open spec fn stage_defined(m: Metric, stage: Stage) -> bool {
    stage_of(m, stage) >= 0
}

/// Sum of the latency `stage` over `ms`.
pub open spec fn stage_sum(ms: Seq<Metric>, stage: Stage) -> int
    decreases ms.len(),
{
    if ms.len() == 0 {
        0
    } else {
        stage_sum(ms.drop_last(), stage) + stage_of(ms.last(), stage)
    }
}

/// With defined latencies, a prefix sums to no more than the whole.
pub proof fn lemma_stage_sum_prefix(ms: Seq<Metric>, stage: Stage, i: int)
    requires
        0 <= i <= ms.len(),
        forall|j: int| 0 <= j < ms.len() ==> stage_defined(#[trigger] ms[j], stage),
    ensures
        0 <= stage_sum(ms.take(i), stage) <= stage_sum(ms, stage),
    decreases ms.len(),
{
    if i == ms.len() {
        assert(ms.take(i) =~= ms);
        if ms.len() > 0 {
            lemma_stage_sum_prefix(ms.drop_last(), stage, i - 1);
            assert(ms.drop_last().take(i - 1) =~= ms.drop_last());
        }
    } else {
        let init = ms.drop_last();
        assert(ms.take(i) =~= init.take(i));
        assert(stage_defined(ms[ms.len() - 1], stage));
        lemma_stage_sum_prefix(init, stage, i);
    }
}

/// The latency `stage` of `m`.
pub fn stage_value(m: &Metric, stage: Stage) -> (r: u64)
    requires
        stage_defined(*m, stage),
    ensures
        r == stage_of(*m, stage),
{
    match stage {
        Stage::TotalReq => m.get_total_req(),
        Stage::ReqTrans => m.get_req_trans_time(),
        Stage::AppVerify => m.get_app_verify_time(),
        Stage::ColdStart => m.get_cold_start_time(),
        Stage::ColdStart2 => m.get_cold_start_time2(),
        Stage::Exec => m.get_exec_time(),
    }
}

/// Sum of the latency `stage` over `metrics`.
pub fn sum_stage(metrics: &Vec<Metric>, stage: Stage) -> (r: u64)
    requires
        forall|j: int| 0 <= j < metrics@.len() ==> stage_defined(#[trigger] metrics@[j], stage),
        stage_sum(metrics@, stage) <= u64::MAX,
    ensures
        r == stage_sum(metrics@, stage),
{
    let mut total: u64 = 0;
    let mut i: usize = 0;
    assert(metrics@.take(0) =~= Seq::<Metric>::empty());
    while i < metrics.len()
        invariant
            i <= metrics@.len(),
            forall|j: int| 0 <= j < metrics@.len() ==> stage_defined(#[trigger] metrics@[j], stage),
            stage_sum(metrics@, stage) <= u64::MAX,
            total == stage_sum(metrics@.take(i as int), stage),
        decreases metrics@.len() - i,
    {
        assert(metrics@.take(i + 1).drop_last() =~= metrics@.take(i as int));
        proof {
            lemma_stage_sum_prefix(metrics@, stage, i + 1);
        }
        let v = stage_value(&metrics[i], stage);
        total = total + v;
        i = i + 1;
    }
    assert(metrics@.take(metrics@.len() as int) =~= metrics@);
    total
}

/// Sums of each latency over a series of calls, and the number of calls.
#[derive(Clone, Copy, Debug, PartialEq, Eq)]
pub struct MetricTotals {
    pub count: usize,
    pub total_req: u64,
    pub req_trans: u64,
    pub app_verify: u64,
    pub cold_start: u64,
    pub cold_start2: u64,
    pub exec_time: u64,
}

/// Every latency of every call is defined and each sum fits in 64 bits.
pub open spec fn summable(ms: Seq<Metric>) -> bool {
    &&& forall|j: int| 0 <= j < ms.len() ==> (#[trigger] ms[j]).latencies_defined()
    &&& stage_sum(ms, Stage::TotalReq) <= u64::MAX
    &&& stage_sum(ms, Stage::ReqTrans) <= u64::MAX
    &&& stage_sum(ms, Stage::AppVerify) <= u64::MAX
    &&& stage_sum(ms, Stage::ColdStart) <= u64::MAX
    &&& stage_sum(ms, Stage::ColdStart2) <= u64::MAX
    &&& stage_sum(ms, Stage::Exec) <= u64::MAX
}

/// The sums of each latency over `metrics`, from which the averages of a
/// first-call series are taken.
pub fn metric_totals(metrics: &Vec<Metric>) -> (r: MetricTotals)
    requires
        summable(metrics@),
    ensures
        r.count == metrics@.len(),
        r.total_req == stage_sum(metrics@, Stage::TotalReq),
        r.req_trans == stage_sum(metrics@, Stage::ReqTrans),
        r.app_verify == stage_sum(metrics@, Stage::AppVerify),
        r.cold_start == stage_sum(metrics@, Stage::ColdStart),
        r.cold_start2 == stage_sum(metrics@, Stage::ColdStart2),
        r.exec_time == stage_sum(metrics@, Stage::Exec),
{
    assert forall|stage: Stage, j: int| 0 <= j < metrics@.len() implies #[trigger] stage_defined(
        metrics@[j],
        stage,
    ) by {
        assert(metrics@[j].latencies_defined());
    }
    MetricTotals {
        count: metrics.len(),
        total_req: sum_stage(metrics, Stage::TotalReq),
        req_trans: sum_stage(metrics, Stage::ReqTrans),
        app_verify: sum_stage(metrics, Stage::AppVerify),
        cold_start: sum_stage(metrics, Stage::ColdStart),
        cold_start2: sum_stage(metrics, Stage::ColdStart2),
        exec_time: sum_stage(metrics, Stage::Exec),
    }
}

/// Collects the metrics of one function under one mode and platform.
#[derive(Clone, Debug)]
pub struct Recorder {
    pub func: String,
    pub metrics: Vec<Metric>,
    pub mode: TestMode,
    pub platform: Platform,
}

impl Recorder {
    /// An empty recorder.
    pub fn new(func: String, mode: TestMode, platform: Platform) -> (r: Recorder)
        ensures
            r.func == func,
            r.metrics@.len() == 0,
            r.mode == mode,
            r.platform == platform,
    {
        Recorder { func, metrics: Vec::new(), mode, platform }
    }

    /// Appends a metric.
    pub fn record(&mut self, metric: Metric)
        ensures
            final(self).metrics@ == old(self).metrics@.push(metric),
            final(self).func == old(self).func,
            final(self).mode == old(self).mode,
            final(self).platform == old(self).platform,
    {
        self.metrics.push(metric);
    }

    /// Name of the record: `func.mode.platform`.
    pub open spec fn name(&self) -> Seq<char> {
        self.func@ + seq!['.'] + self.mode.name() + seq!['.'] + self.platform.name()
    }

    /// Name of the record: `func.mode.platform`.
    pub fn record_name(&self) -> (r: String)
        ensures
            r@ == self.name(),
    {
        let mut r = self.func.clone();
        proof {
            reveal_strlit(".");
        }
        r.append(".");
        r.append(self.mode.to_string().as_str());
        r.append(".");
        r.append(self.platform.to_string().as_str());
        r
    }

    /// Where the record is persisted: `records/` followed by its name.
    pub fn persist_path(&self) -> (r: String)
        ensures
            r@ == "records/"@ + self.name(),
    {
        let mut r = "records/".to_owned();
        r.append(self.record_name().as_str());
        r
    }
}

/// The Pushgateway command that uploads the latencies of one call of `fnname`.
pub open spec fn call_metric_command(fnname: Seq<char>, m: Metric) -> Seq<char> {
    "echo \"total_request_latency{fnname=\\\""@ + fnname + "\\\"} "@ + decimal(
        m.total_req() as nat,
    ) + "\nreq_trans_time{fnname=\\\""@ + fnname + "\\\"} "@ + decimal(m.req_trans() as nat)
        + "\napp_verify_time{fnname=\\\""@ + fnname + "\\\"} "@ + decimal(m.app_verify() as nat)
        + "\ncold_start_time{fnname=\\\""@ + fnname + "\\\"} "@ + decimal(m.cold_start() as nat)
        + "\ncold_start_time2{fnname=\\\""@ + fnname + "\\\"} "@ + decimal(
        m.cold_start2() as nat,
    ) + "\nexec_time{fnname=\\\""@ + fnname + "\\\"} "@ + decimal(m.execution() as nat)
        + "\" | curl --data-binary @- http://localhost:9091/metrics/job/serverless_benchmark_plus"@
}

/// The shell command that pushes the latencies of one call of `fnname` to the
/// metrics gateway.
pub fn upload_fn_call_metric_command(fnname: &str, metric: &Metric) -> (r: String)
    requires
        metric.latencies_defined(),
    ensures
        r@ == call_metric_command(fnname@, *metric),
{
    let mut r = "echo \"total_request_latency{fnname=\\\"".to_owned();
    r.append(fnname);
    r.append("\\\"} ");
    push_decimal(&mut r, metric.get_total_req());
    r.append("\nreq_trans_time{fnname=\\\"");
    r.append(fnname);
    r.append("\\\"} ");
    push_decimal(&mut r, metric.get_req_trans_time());
    r.append("\napp_verify_time{fnname=\\\"");
    r.append(fnname);
    r.append("\\\"} ");
    push_decimal(&mut r, metric.get_app_verify_time());
    r.append("\ncold_start_time{fnname=\\\"");
    r.append(fnname);
    r.append("\\\"} ");
    push_decimal(&mut r, metric.get_cold_start_time());
    r.append("\ncold_start_time2{fnname=\\\"");
    r.append(fnname);
    r.append("\\\"} ");
    push_decimal(&mut r, metric.get_cold_start_time2());
    r.append("\nexec_time{fnname=\\\"");
    r.append(fnname);
    r.append("\\\"} ");
    push_decimal(&mut r, metric.get_exec_time());
    r.append("\" | curl --data-binary @- http://localhost:9091/metrics/job/serverless_benchmark_plus");
    r
}

/// No mode name holds a `.`.
proof fn lemma_mode_name_no_dot(m: TestMode)
    ensures
        !has_char(m.name(), '.'),
{
    reveal_strlit("once");
    reveal_strlit("first_call");
    reveal_strlit("bench");
    assert forall|j: int| 0 <= j < m.name().len() implies m.name()[j] != '.' by {
        match m {
            TestMode::Once => {
                assert(0 <= j < 4);
                assert(j == 0 || j == 1 || j == 2 || j == 3);
            },
            TestMode::FirstCall => {
                assert(0 <= j < 10);
                assert(j == 0 || j == 1 || j == 2 || j == 3 || j == 4 || j == 5 || j == 6 || j == 7
                    || j == 8 || j == 9);
            },
            TestMode::Bench => {
                assert(0 <= j < 5);
                assert(j == 0 || j == 1 || j == 2 || j == 3 || j == 4);
            },
        }
    }
}

/// Records of one function under different modes or platforms have different
/// names, so one never overwrites another.
pub proof fn lemma_record_names_distinct(
    func: Seq<char>,
    m1: TestMode,
    p1: Platform,
    m2: TestMode,
    p2: Platform,
)
    requires
        m1 != m2 || p1 != p2,
    ensures
        func + seq!['.'] + m1.name() + seq!['.'] + p1.name() != func + seq!['.'] + m2.name()
            + seq!['.'] + p2.name(),
{
    let n1 = func + seq!['.'] + m1.name() + seq!['.'] + p1.name();
    let n2 = func + seq!['.'] + m2.name() + seq!['.'] + p2.name();
    if n1 == n2 {
        let s1 = m1.name() + seq!['.'] + p1.name();
        let s2 = m2.name() + seq!['.'] + p2.name();
        assert(n1.skip(func.len() as int + 1) =~= s1);
        assert(n2.skip(func.len() as int + 1) =~= s2);
        assert(s1 == s2);
        lemma_mode_name_no_dot(m1);
        lemma_mode_name_no_dot(m2);
        assert(s1[m1.name().len() as int] == '.');
        assert forall|j: int| 0 <= j < m1.name().len() implies s1[j] != '.' by {
            assert(s1[j] == m1.name()[j]);
        }
        lemma_first_pos(s1, '.', m1.name().len() as int);
        assert(s2[m2.name().len() as int] == '.');
        assert forall|j: int| 0 <= j < m2.name().len() implies s2[j] != '.' by {
            assert(s2[j] == m2.name()[j]);
        }
        lemma_first_pos(s2, '.', m2.name().len() as int);
        assert(s1.take(m1.name().len() as int) =~= m1.name());
        assert(s2.take(m2.name().len() as int) =~= m2.name());
        assert(m1.name() == m2.name());
        if m1 != m2 {
            lemma_mode_names_distinct(m1, m2);
        }
        assert(s1.skip(m1.name().len() as int + 1) =~= p1.name());
        assert(s2.skip(m2.name().len() as int + 1) =~= p2.name());
        if p1 != p2 {
            lemma_platform_names_distinct(p1, p2);
        }
    }
}

} // verus!
