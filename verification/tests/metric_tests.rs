use bencher::metric::{metric_totals, upload_fn_call_metric_command, FieldValue, Metric, Recorder, ResponseFields};
use bencher::metric::FieldValue::{Absent, Number};
use bencher::modes::{Platform, TestMode};

fn metric() -> Metric {
    Metric {
        start_call_time: 1000,
        req_arrive_time: 1010,
        bf_exec_time: 1015,
        recover_begin_time: 1100,
        fn_start_time: 1300,
        fn_end_time: 1350,
        receive_resp_time: 1400,
    }
}

#[test]
fn getters_compute_each_latency() {
    let m = metric();
    assert_eq!(m.get_total_req(), 400);
    assert_eq!(m.get_req_trans_time(), 10);
    assert_eq!(m.get_app_verify_time(), 5);
    assert_eq!(m.get_cold_start_time(), 85);
    assert_eq!(m.get_cold_start_time2(), 200);
    assert_eq!(m.get_exec_time(), 50);
}

#[test]
fn stages_add_up_to_the_whole_request() {
    let m = metric();
    let back = m.receive_resp_time - m.fn_end_time;
    assert_eq!(
        m.get_req_trans_time() + m.get_app_verify_time() + m.get_cold_start_time() + m.get_cold_start_time2()
            + m.get_exec_time() + back,
        m.get_total_req()
    );
}

#[test]
fn debug_print_breaks_down_latency() {
    let b = metric().debug_print();
    assert_eq!(b.exec_time, 50);
    assert_eq!(b.total_req, 400);
    assert_eq!(b.cold_trans, 350);
    assert_eq!(b.cold_trans + b.exec_time, b.total_req);
}

#[test]
fn totals_sum_each_latency() {
    let mut second = metric();
    second.receive_resp_time = 1500;
    let t = metric_totals(&vec![metric(), second]);
    assert_eq!(t.count, 2);
    assert_eq!(t.total_req, 900);
    assert_eq!(t.req_trans, 20);
    assert_eq!(t.app_verify, 10);
    assert_eq!(t.cold_start, 170);
    assert_eq!(t.cold_start2, 400);
    assert_eq!(t.exec_time, 100);
    let empty = metric_totals(&vec![]);
    assert_eq!(empty.count, 0);
    assert_eq!(empty.total_req, 0);
}

#[test]
fn recorder_names_and_collects() {
    let mut r = Recorder::new("img_resize".to_string(), TestMode::FirstCall, Platform::Waverless);
    assert_eq!(r.record_name(), "img_resize.first_call.wl");
    assert_eq!(r.persist_path(), "records/img_resize.first_call.wl");
    r.record(metric());
    r.record(metric());
    assert_eq!(r.metrics.len(), 2);
    assert_eq!(r.metrics[1].fn_end_time, 1350);
}

#[test]
fn pushgateway_command_text() {
    let cmd = upload_fn_call_metric_command("simple_demo", &metric());
    let expected = r#"echo "total_request_latency{fnname=\"simple_demo\"} 400
req_trans_time{fnname=\"simple_demo\"} 10
app_verify_time{fnname=\"simple_demo\"} 5
cold_start_time{fnname=\"simple_demo\"} 85
cold_start_time2{fnname=\"simple_demo\"} 200
exec_time{fnname=\"simple_demo\"} 50" | curl --data-binary @- http://localhost:9091/metrics/job/serverless_benchmark_plus"#;
    assert_eq!(cmd, expected);
}

fn fields(a: FieldValue, b: FieldValue, c: FieldValue, d: FieldValue, e: FieldValue) -> ResponseFields {
    ResponseFields { req_arrive_time: a, bf_exec_time: b, recover_begin_time: c, fn_start_time: d, fn_end_time: e }
}

#[test]
fn response_fields_default_to_zero() {
    let f = fields(Number(5), Absent, Number(7), Number(8), Absent);
    let m = Metric::from_response(1, &f, 9);
    assert_eq!(m.start_call_time, 1);
    assert_eq!(m.req_arrive_time, 5);
    assert_eq!(m.bf_exec_time, 0);
    assert_eq!(m.recover_begin_time, 7);
    assert_eq!(m.fn_start_time, 8);
    assert_eq!(m.fn_end_time, 0);
    assert_eq!(m.receive_resp_time, 9);
}

#[test]
fn filled_response_falls_back_to_function_start() {
    let f = fields(Absent, Number(0), Number(30), Number(40), Number(50));
    let m = Metric::from_response_filled(10, &f, 60);
    assert_eq!(m.req_arrive_time, 40);
    assert_eq!(m.bf_exec_time, 40);
    assert_eq!(m.recover_begin_time, 30);
    assert_eq!(m.fn_start_time, 40);
    assert_eq!(m.fn_end_time, 50);
}

#[test]
fn complete_response_keeps_every_field() {
    let f = fields(Number(1), Number(2), Number(3), Number(4), Number(5));
    let m = Metric::from_complete_response(0, &f, 6);
    assert_eq!(
        (m.req_arrive_time, m.bf_exec_time, m.recover_begin_time, m.fn_start_time, m.fn_end_time, m.receive_resp_time),
        (1, 2, 3, 4, 5, 6)
    );
}

#[test]
fn metric_from_json_output() {
    let m = bencher::response::metric_from_output(
        1,
        r#"{"req_arrive_time": 2, "fn_start_time": 4, "fn_end_time": 5, "other": "x"}"#,
        9,
    )
    .unwrap();
    assert_eq!(
        (m.start_call_time, m.req_arrive_time, m.bf_exec_time, m.recover_begin_time, m.fn_start_time, m.fn_end_time, m.receive_resp_time),
        (1, 2, 0, 0, 4, 5, 9)
    );
}

#[test]
fn metric_from_output_rejects_bad_text() {
    assert!(bencher::response::metric_from_output(1, "not json", 2).is_none());
    assert!(bencher::response::metric_from_output(1, r#"{"fn_end_time": -1}"#, 2).is_none());
    assert!(bencher::response::metric_from_output(1, r#"{"fn_end_time": "5"}"#, 2).is_none());
}

#[test]
fn metric_from_non_object_output_has_no_fields() {
    let m = bencher::response::metric_from_output(3, "[1, 2]", 4).unwrap();
    assert_eq!((m.req_arrive_time, m.fn_start_time, m.fn_end_time, m.receive_resp_time), (0, 0, 0, 4));
}

#[test]
fn record_names_differ_across_modes_and_platforms() {
    let modes = [TestMode::Once, TestMode::FirstCall, TestMode::Bench];
    let platforms = [Platform::OpenWhisk, Platform::Waverless, Platform::Raw];
    let mut names = vec![];
    for m in modes {
        for p in platforms {
            names.push(Recorder::new("f".to_string(), m, p).record_name());
        }
    }
    let mut sorted = names.clone();
    sorted.sort();
    sorted.dedup();
    assert_eq!(sorted.len(), 9);
}

#[test]
fn response_fields_are_read_by_name() {
    let f = bencher::response::read_response_fields(
        r#"{"fn_end_time": 50, "fn_start_time": 40, "recover_begin_time": 30, "bf_exec_time": 20, "req_arrive_time": 10}"#,
    )
    .unwrap();
    assert_eq!(f.req_arrive_time, Number(10));
    assert_eq!(f.bf_exec_time, Number(20));
    assert_eq!(f.recover_begin_time, Number(30));
    assert_eq!(f.fn_start_time, Number(40));
    assert_eq!(f.fn_end_time, Number(50));
    assert!(bencher::response::read_response_fields("{").is_none());
    let g = bencher::response::read_response_fields(r#"{"fn_start_time": 1.5}"#).unwrap();
    assert_eq!(g.fn_start_time, FieldValue::Invalid);
    assert_eq!(g.fn_end_time, Absent);
}

#[test]
fn read_fields_convert_to_timestamp_fields() {
    assert_eq!(bencher::response::to_field(None), Absent);
    assert_eq!(bencher::response::to_field(Some(Some(7))), Number(7));
    assert_eq!(bencher::response::to_field(Some(None)), FieldValue::Invalid);
}

#[test]
fn metric_from_fields_needs_usable_fields() {
    let usable = ResponseFields {
        req_arrive_time: Number(2),
        bf_exec_time: Absent,
        recover_begin_time: Number(3),
        fn_start_time: Number(4),
        fn_end_time: Number(8),
    };
    let m = bencher::response::metric_from_fields(1, &usable, 9).unwrap();
    assert_eq!(
        (m.start_call_time, m.req_arrive_time, m.bf_exec_time, m.recover_begin_time, m.fn_start_time, m.fn_end_time, m.receive_resp_time),
        (1, 2, 0, 3, 4, 8, 9)
    );
    let bad = ResponseFields { fn_end_time: FieldValue::Invalid, ..usable };
    assert!(bencher::response::metric_from_fields(1, &bad, 9).is_none());
}
