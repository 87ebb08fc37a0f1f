use bencher::bench::{seed_from_str, split_target, summarize_bench, BenchSummary};
use bencher::call_arg::prepare_once_call_arg;
use bencher::config::{AppFnEntry, AppFnReplica, ArgValue, Config, FnDetails, MinioConfig};
use bencher::data::{app_dir, path_join, prepare_script_name, split_big_data_item};
use bencher::metric::Metric;
use bencher::strmap::StrMap;

fn minio() -> MinioConfig {
    MinioConfig {
        endpoint: "e".to_string(),
        access_key: "a".to_string(),
        secret_key: "s".to_string(),
        compose_path: String::new(),
    }
}

#[test]
fn call_args_substitute_request_id() {
    let mut src = StrMap::new();
    src.insert("key_${REQUEST_ID}".to_string(), ArgValue::Text("v_${REQUEST_ID}_${REQUEST_ID}".to_string()));
    src.insert("flag".to_string(), ArgValue::Bool(true));
    src.insert("off".to_string(), ArgValue::Bool(false));
    src.insert("n".to_string(), ArgValue::Other("[1,2]".to_string()));
    src.insert("plain".to_string(), ArgValue::Text("as is".to_string()));
    let (out, id) = prepare_once_call_arg(&src, 17);
    assert_eq!(id, 17);
    assert_eq!(out.get("key_17"), Some(&"v_17_17".to_string()));
    assert_eq!(out.get("key_${REQUEST_ID}"), None);
    assert_eq!(out.get("flag"), Some(&"true".to_string()));
    assert_eq!(out.get("off"), Some(&"false".to_string()));
    assert_eq!(out.get("n"), Some(&"[1,2]".to_string()));
    assert_eq!(out.get("plain"), Some(&"as is".to_string()));
}

#[test]
fn call_args_of_empty_map_are_empty() {
    let src: StrMap<ArgValue> = StrMap::new();
    let (out, id) = prepare_once_call_arg(&src, 1);
    assert_eq!(id, 1);
    assert_eq!(out.len(), 0);
}

#[test]
fn path_join_follows_unix_rules() {
    assert_eq!(path_join("prepare_data", "img"), "prepare_data/img");
    assert_eq!(path_join("prepare_data/", "img"), "prepare_data/img");
    assert_eq!(path_join("", "img"), "img");
    assert_eq!(path_join("prepare_data", "/abs/x"), "/abs/x");
    assert_eq!(path_join("prepare_data", ""), "prepare_data/");
}

#[test]
fn app_dir_is_under_prepare_data() {
    assert_eq!(app_dir("img_resize"), "prepare_data/img_resize");
    assert_eq!(prepare_script_name(0), "prepare_0.py");
    assert_eq!(prepare_script_name(12), "prepare_12.py");
}

#[test]
fn big_data_item_splits_at_colons() {
    assert_eq!(split_big_data_item("in.jpg:out.jpg"), ("in.jpg".to_string(), "out.jpg".to_string()));
    assert_eq!(split_big_data_item("a:b:c"), ("a".to_string(), "b".to_string()));
    assert_eq!(split_big_data_item("a:"), ("a".to_string(), String::new()));
}

fn details(use_minio: Option<ArgValue>, big: Option<Vec<&str>>) -> FnDetails {
    let mut args = StrMap::new();
    if let Some(v) = use_minio {
        args.insert("use_minio".to_string(), v);
    }
    FnDetails { args: Some(args), big_data: big.map(|v| v.into_iter().map(|s| s.to_string()).collect()) }
}

#[test]
fn use_minio_needs_non_empty_string() {
    assert!(details(Some(ArgValue::Text("e,a,s".to_string())), None).use_minio());
    assert!(!details(Some(ArgValue::Text(String::new())), None).use_minio());
    assert!(!details(Some(ArgValue::Bool(true)), None).use_minio());
    assert!(!details(None, None).use_minio());
    assert!(!FnDetails { args: None, big_data: None }.use_minio());
}

#[test]
fn big_data_writes_read_under_app_dir() {
    let d = details(None, Some(vec!["img.jpg:key1", "x/y.bin:key2"]));
    let w = d.big_data_writes("img");
    assert_eq!(w.len(), 2);
    assert_eq!(w[0].read_path, "prepare_data/img/img.jpg");
    assert_eq!(w[0].write_key, "key1");
    assert_eq!(w[1].read_path, "prepare_data/img/x/y.bin");
    assert_eq!(w[1].write_key, "key2");
    assert!(details(None, None).big_data_writes("img").is_empty());
}

fn config() -> Config {
    let mut fns = StrMap::new();
    fns.insert("f".to_string(), FnDetails { args: Some(StrMap::new()), big_data: None });
    let mut models = StrMap::new();
    models.insert(
        "m".to_string(),
        AppFnEntry {
            prepare_data: vec!["d1".to_string(), "d2".to_string()],
            prepare_scripts: vec!["s0".to_string(), "s1".to_string()],
            fns,
        },
    );
    let mut rfns = StrMap::new();
    rfns.insert("f".to_string(), FnDetails { args: Some(StrMap::new()), big_data: None });
    let mut replicas = StrMap::new();
    replicas.insert("r".to_string(), AppFnReplica { source: "m".to_string(), fns: rfns });
    let mut benchlist = StrMap::new();
    benchlist.insert("m/f".to_string(), ());
    benchlist.insert("r/f".to_string(), ());
    Config { models, replicas, benchlist, minio: minio() }
}

#[test]
fn model_apps_keeps_configured_apps_in_order() {
    let c = config();
    let apps = vec!["r".to_string(), "m".to_string(), "x".to_string(), "m".to_string()];
    assert_eq!(c.model_apps(&apps), vec!["m".to_string(), "m".to_string()]);
}

#[test]
fn prepare_plan_lists_scripts_and_data() {
    let c = config();
    let plan = c.prepare_plan(&vec!["m".to_string(), "r".to_string()]);
    assert_eq!(plan.len(), 1);
    assert_eq!(plan[0].app, "m");
    assert_eq!(plan[0].dir, "prepare_data/m");
    assert_eq!(plan[0].scripts.len(), 2);
    assert_eq!(plan[0].scripts[1].name, "prepare_1.py");
    assert_eq!(plan[0].scripts[1].path, "prepare_data/m/prepare_1.py");
    assert_eq!(plan[0].scripts[1].content, "s1");
    assert_eq!(plan[0].data_paths, vec!["prepare_data/m/d1".to_string(), "prepare_data/m/d2".to_string()]);
}

#[test]
fn bench_targets_split_and_classify() {
    let c = config();
    assert_eq!(split_target("a/b/c"), ("a".to_string(), "b/c".to_string()));
    assert_eq!(c.bench_source_targets(), vec!["m/f".to_string()]);
    assert_eq!(c.bench_replica_targets(), vec![("m".to_string(), "r".to_string(), "f".to_string())]);
    let list = c.bench_fn_list();
    assert_eq!(list.len(), 2);
    assert_eq!(list[0].0, "m");
    assert_eq!(list[1].0, "r");
    assert_eq!(list[1].1, "f");
    assert!(list[1].2.args.as_ref().unwrap().len() == 0);
}

#[test]
fn seed_pads_with_zeros() {
    let s = seed_from_str("helloworld");
    assert_eq!(&s[..10], b"helloworld");
    assert!(s[10..].iter().all(|b| *b == 0));
    assert_eq!(seed_from_str(""), [0u8; 32]);
}

fn m(start: u64, end: u64) -> Metric {
    Metric {
        start_call_time: start,
        req_arrive_time: start,
        bf_exec_time: start,
        recover_begin_time: start,
        fn_start_time: start + 1,
        fn_end_time: start + 3,
        receive_resp_time: end,
    }
}

#[test]
fn bench_summary_counts_every_attempt() {
    let tasks = vec![
        Some(vec![Some(m(0, 100)), None, Some(m(0, 10001)), Some(m(0, 10000))]),
        None,
        Some(vec![]),
        Some(vec![Some(m(5, 25))]),
    ];
    let s = summarize_bench(&tasks);
    assert_eq!(
        s,
        BenchSummary { total_count: 3, failed_count: 3, total_req_time: 100 + 10000 + 20, total_exec_time: 6 }
    );
    assert_eq!(s.total_count + s.failed_count, 6);
}

#[test]
fn placeholder_alone_becomes_request_id() {
    let mut src = StrMap::new();
    src.insert("${REQUEST_ID}".to_string(), ArgValue::Text("${REQUEST_ID}".to_string()));
    let (out, _) = prepare_once_call_arg(&src, 305);
    assert_eq!(out.get("305"), Some(&"305".to_string()));
    assert_eq!(out.len(), 1);
}
