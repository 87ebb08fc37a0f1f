use bencher::config::{AppFnEntry, AppFnReplica, ArgValue, Config, FnDetails, MinioConfig};
use bencher::strmap::StrMap;

fn minio() -> MinioConfig {
    MinioConfig {
        endpoint: "http://127.0.0.1:9000".to_string(),
        access_key: "ak".to_string(),
        secret_key: "sk".to_string(),
        compose_path: "../middlewares/minio".to_string(),
    }
}

fn args(pairs: Vec<(&str, ArgValue)>) -> StrMap<ArgValue> {
    let mut m = StrMap::new();
    for (k, v) in pairs {
        m.insert(k.to_string(), v);
    }
    m
}

fn text(s: &str) -> ArgValue {
    ArgValue::Text(s.to_string())
}

fn details(pairs: Vec<(&str, ArgValue)>) -> FnDetails {
    FnDetails { args: Some(args(pairs)), big_data: None }
}

fn config() -> Config {
    let mut img_fns = StrMap::new();
    img_fns.insert(
        "resize".to_string(),
        FnDetails {
            args: Some(args(vec![
                ("use_minio", ArgValue::Bool(true)),
                ("image", text("a.jpg")),
                ("width", ArgValue::Other("50".to_string())),
            ])),
            big_data: Some(vec!["a.jpg:in/a.jpg".to_string()]),
        },
    );
    img_fns.insert("noargs".to_string(), FnDetails { args: None, big_data: None });
    let mut wc_fns = StrMap::new();
    wc_fns.insert("count".to_string(), details(vec![("use_minio", ArgValue::Bool(false)), ("n", text("1"))]));
    let mut models = StrMap::new();
    models.insert(
        "img".to_string(),
        AppFnEntry { prepare_data: vec!["a.jpg".to_string()], prepare_scripts: vec!["print(1)".to_string()], fns: img_fns },
    );
    models.insert(
        "wc".to_string(),
        AppFnEntry { prepare_data: vec![], prepare_scripts: vec![], fns: wc_fns },
    );
    let mut rep_fns = StrMap::new();
    rep_fns.insert("resize".to_string(), details(vec![("image", text("b.jpg")), ("extra", text("x"))]));
    let mut rep2_fns = StrMap::new();
    rep2_fns.insert("resize".to_string(), details(vec![("use_minio", ArgValue::Bool(true))]));
    let mut replicas = StrMap::new();
    replicas.insert("img2".to_string(), AppFnReplica { source: "img".to_string(), fns: rep_fns });
    replicas.insert("img3".to_string(), AppFnReplica { source: "img2".to_string(), fns: rep2_fns });
    let mut benchlist = StrMap::new();
    benchlist.insert("img/resize".to_string(), ());
    benchlist.insert("img2/resize".to_string(), ());
    Config {
        models,
        replicas,
        benchlist,
        minio: minio(),
    }
}

fn text_of(d: &FnDetails, key: &str) -> Option<String> {
    match d.args.as_ref().unwrap().get(key) {
        Some(ArgValue::Text(s)) => Some(s.clone()),
        Some(ArgValue::Other(s)) => Some(format!("other:{}", s)),
        Some(ArgValue::Bool(b)) => Some(format!("bool:{}", b)),
        Some(ArgValue::Tagged) => Some("tagged".to_string()),
        None => None,
    }
}

#[test]
fn one_line_joins_settings_with_commas() {
    assert_eq!(minio().one_line(), "http://127.0.0.1:9000,ak,sk");
}

#[test]
fn get_returns_configured_app_only() {
    let c = config();
    assert!(c.get("img").is_some());
    assert!(c.get("img2").is_none());
    assert!(c.get("missing").is_none());
}

#[test]
fn model_function_resolves_minio_switch_to_settings_line() {
    let c = config();
    let d = c.get_fn_details("img", "resize").unwrap();
    assert_eq!(text_of(&d, "use_minio"), Some("http://127.0.0.1:9000,ak,sk".to_string()));
    assert_eq!(text_of(&d, "image"), Some("a.jpg".to_string()));
    assert_eq!(text_of(&d, "width"), Some("other:50".to_string()));
    assert_eq!(d.big_data, Some(vec!["a.jpg:in/a.jpg".to_string()]));
}

#[test]
fn false_minio_switch_is_dropped() {
    let c = config();
    let d = c.get_fn_details("wc", "count").unwrap();
    assert_eq!(text_of(&d, "use_minio"), None);
    assert_eq!(text_of(&d, "n"), Some("1".to_string()));
}

#[test]
fn replica_overrides_source_arguments() {
    let c = config();
    let d = c.get_fn_details("img2", "resize").unwrap();
    assert_eq!(text_of(&d, "image"), Some("b.jpg".to_string()));
    assert_eq!(text_of(&d, "extra"), Some("x".to_string()));
    assert_eq!(text_of(&d, "width"), Some("other:50".to_string()));
    // the source's switch became the settings line, which is not a flag, so it is dropped
    assert_eq!(text_of(&d, "use_minio"), None);
    assert_eq!(d.big_data, Some(vec!["a.jpg:in/a.jpg".to_string()]));
}

#[test]
fn replica_of_replica_resolves_through_both() {
    let c = config();
    let d = c.get_fn_details("img3", "resize").unwrap();
    assert_eq!(text_of(&d, "image"), Some("b.jpg".to_string()));
    assert_eq!(text_of(&d, "use_minio"), Some("http://127.0.0.1:9000,ak,sk".to_string()));
}

#[test]
fn unknown_app_or_function_gives_none() {
    let c = config();
    assert!(c.get_fn_details("nope", "resize").is_none());
    assert!(c.get_fn_details("img", "nope").is_none());
    assert!(c.get_fn_details("img2", "nope").is_none());
}

#[test]
fn fn_details_duplicate_is_equal() {
    let d = config().get_fn_details("img", "resize").unwrap();
    let e = d.duplicate();
    assert_eq!(text_of(&e, "image"), text_of(&d, "image"));
    assert_eq!(e.big_data, d.big_data);
}

#[test]
fn can_resolve_detects_cycles_and_missing_args() {
    let mut c = config();
    assert!(c.can_resolve("img", "resize", 0));
    assert!(!c.can_resolve("img", "noargs", 5));
    assert!(!c.can_resolve("img2", "resize", 0));
    assert!(c.can_resolve("img2", "resize", 1));
    assert!(!c.can_resolve("img3", "resize", 1));
    assert!(c.can_resolve("img3", "resize", 2));
    assert!(c.can_resolve("nope", "resize", 0));
    c.replicas.insert("loop".to_string(), AppFnReplica { source: "loop".to_string(), fns: StrMap::new() });
    assert!(!c.can_resolve("loop", "resize", 10));
}

#[test]
fn settings_line_splits_back_into_its_parts() {
    let line = minio().one_line();
    let endpoint = bencher::text::text_before(&line, ',');
    let rest = bencher::text::text_after(&line, ',').unwrap();
    assert_eq!(endpoint, "http://127.0.0.1:9000");
    assert_eq!(bencher::text::text_before(&rest, ','), "ak");
    assert_eq!(bencher::text::text_after(&rest, ','), Some("sk".to_string()));
}

#[test]
fn resolves_decides_whether_a_lookup_ends() {
    let mut c = config();
    assert!(c.resolves("img", "resize"));
    assert!(c.resolves("img3", "resize"));
    assert!(c.resolves("nope", "resize"));
    assert!(!c.resolves("img", "noargs"));
    c.replicas.insert("a".to_string(), AppFnReplica { source: "b".to_string(), fns: StrMap::new() });
    c.replicas.insert("b".to_string(), AppFnReplica { source: "a".to_string(), fns: StrMap::new() });
    assert!(!c.resolves("a", "resize"));
    assert!(!c.resolves("b", "resize"));
    assert!(c.resolves("img3", "resize"));
}
