use bencher::cli::{is_bench_mode, is_first_call_mode, is_once_mode, is_prepare_mode, Cli, TargetError};
use bencher::config::{AppFnEntry, Config, FnDetails, MinioConfig};
use bencher::logging::{keep_event, TraceLevel};
use bencher::modes::{App, Platform, TestMode};
use bencher::strmap::StrMap;

fn cli(app_fn: &str, ow: u8, wl: u8, bench: u8, first: u8) -> Cli {
    Cli {
        app_fn: app_fn.to_string(),
        prepare: 0,
        with_ow: ow,
        with_wl: wl,
        bench_mode: bench,
        first_call_mode: first,
        config: "../middlewares/cluster_config.yml".to_string(),
    }
}

#[test]
fn app_and_func_split_target() {
    let c = cli("img_resize/resize", 1, 0, 0, 0);
    assert_eq!(c.app(), Some("img_resize".to_string()));
    assert_eq!(c.func(), Some("resize".to_string()));
    assert_eq!(c.target_apps(), vec!["img_resize".to_string()]);
}

#[test]
fn func_stops_at_second_slash() {
    let c = cli("a/b/c", 1, 0, 0, 0);
    assert_eq!(c.app(), Some("a".to_string()));
    assert_eq!(c.func(), Some("b".to_string()));
}

#[test]
fn target_without_slash_names_nothing() {
    let c = cli("img_resize", 1, 0, 0, 0);
    assert_eq!(c.app(), None);
    assert_eq!(c.func(), None);
}

#[test]
fn empty_parts_are_kept() {
    let c = cli("/f", 1, 0, 0, 0);
    assert_eq!(c.app(), Some(String::new()));
    assert_eq!(c.func(), Some("f".to_string()));
}

#[test]
fn checks_return_the_command_line() {
    let c = cli("app/f", 1, 0, 1, 0);
    let mut fns = StrMap::new();
    fns.insert("f".to_string(), FnDetails { args: None, big_data: None });
    let mut models = StrMap::new();
    models.insert("app".to_string(), AppFnEntry { prepare_data: vec![], prepare_scripts: vec![], fns });
    let config = Config {
        models,
        replicas: StrMap::new(),
        benchlist: StrMap::new(),
        minio: MinioConfig {
            endpoint: String::new(),
            access_key: String::new(),
            secret_key: String::new(),
            compose_path: String::new(),
        },
    };
    let r = c.check_app_fn(&config).check_platform().check_mode();
    assert_eq!(r.app_fn, "app/f");
    assert_eq!(r.cluster_config(), "../middlewares/cluster_config.yml");
}

#[test]
fn mode_predicates() {
    let c = cli("a/b", 0, 0, 2, 0);
    assert!(is_bench_mode(&c));
    assert!(!is_first_call_mode(&c));
    assert!(!is_once_mode(&c));
    assert!(!is_prepare_mode(&c));
    let c = cli("a/b", 0, 0, 0, 1);
    assert!(is_first_call_mode(&c));
    assert!(!is_once_mode(&c));
    let c = cli("a/b", 0, 0, 0, 0);
    assert!(is_once_mode(&c));
}

#[test]
fn platform_from_prefers_openwhisk() {
    assert_eq!(Platform::from(&cli("a/b", 1, 1, 0, 0)), Platform::OpenWhisk);
    assert_eq!(Platform::from(&cli("a/b", 0, 3, 0, 0)), Platform::Waverless);
    assert_eq!(Platform::from(&cli("a/b", 0, 0, 0, 0)), Platform::Raw);
}

#[test]
fn test_mode_from_prefers_bench() {
    assert_eq!(TestMode::from(&cli("a/b", 0, 0, 1, 1)), TestMode::Bench);
    assert_eq!(TestMode::from(&cli("a/b", 0, 0, 0, 1)), TestMode::FirstCall);
    assert_eq!(TestMode::from(&cli("a/b", 0, 0, 0, 0)), TestMode::Once);
}

#[test]
fn names_of_modes_platforms_and_apps() {
    assert_eq!(Platform::OpenWhisk.to_string(), "ow");
    assert_eq!(Platform::Waverless.to_string(), "wl");
    assert_eq!(Platform::Raw.to_string(), "raw");
    assert_eq!(TestMode::Once.to_string(), "once");
    assert_eq!(TestMode::FirstCall.to_string(), "first_call");
    assert_eq!(TestMode::Bench.to_string(), "bench");
    assert_eq!(App::ImgResize.to_string(), "img_resize");
    assert_eq!(App::WordCount.to_string(), "word_count");
    assert_eq!(App::Parallel.to_string(), "parallel");
    assert_eq!(App::Sequential.to_string(), "sequential");
}

#[test]
fn log_filter_hides_trace_and_noisy_modules() {
    assert!(keep_event(Some("bencher::mode"), TraceLevel::Debug));
    assert!(!keep_event(Some("bencher::mode"), TraceLevel::Trace));
    assert!(!keep_event(Some("hyper::client::conn"), TraceLevel::Error));
    assert!(!keep_event(Some("async_raft::core"), TraceLevel::Info));
    assert!(keep_event(None, TraceLevel::Warn));
    assert!(!keep_event(None, TraceLevel::Trace));
}

#[test]
fn target_check_names_each_refusal() {
    let mut fns = StrMap::new();
    fns.insert("f".to_string(), FnDetails { args: None, big_data: None });
    let mut models = StrMap::new();
    models.insert("app".to_string(), AppFnEntry { prepare_data: vec![], prepare_scripts: vec![], fns });
    let config = Config {
        models,
        replicas: StrMap::new(),
        benchlist: StrMap::new(),
        minio: MinioConfig {
            endpoint: String::new(),
            access_key: String::new(),
            secret_key: String::new(),
            compose_path: String::new(),
        },
    };
    assert_eq!(cli("app/f", 1, 0, 0, 0).validate_app_fn(&config), Ok(()));
    assert_eq!(cli("app", 1, 0, 0, 0).validate_app_fn(&config), Err(TargetError::MissingApp));
    assert_eq!(cli("other/f", 1, 0, 0, 0).validate_app_fn(&config), Err(TargetError::UnknownApp));
    assert_eq!(cli("app/g", 1, 0, 0, 0).validate_app_fn(&config), Err(TargetError::UnknownFunc));
}

#[test]
fn platform_and_mode_choices_are_checked() {
    assert!(cli("a/f", 1, 0, 0, 0).platform_choice_ok());
    assert!(cli("a/f", 0, 0, 0, 0).platform_choice_ok());
    assert!(!cli("a/f", 1, 2, 0, 0).platform_choice_ok());
    assert!(cli("a/f", 1, 0, 1, 0).mode_choice_ok());
    assert!(cli("a/f", 1, 0, 0, 0).mode_choice_ok());
    assert!(!cli("a/f", 1, 0, 1, 1).mode_choice_ok());
    assert!(!cli("a/f", 1, 0, 2, 0).mode_choice_ok());
}
