use bencher::cli::Cli;
use bencher::config::{Config, MinioConfig};
use bencher::demos::{ImgResize, Sequential};
use bencher::modes::App;
use bencher::platform::{wsk_invoke_args, ClusterNode, PlatformOpsBind, PlatfromOw, PlatfromWl};
use bencher::strmap::StrMap;

fn cli() -> Cli {
    Cli {
        app_fn: "a/f".to_string(),
        prepare: 0,
        with_ow: 0,
        with_wl: 1,
        bench_mode: 0,
        first_call_mode: 0,
        config: "cluster.yml".to_string(),
    }
}

fn config() -> Config {
    Config {
        models: StrMap::new(),
        replicas: StrMap::new(),
        benchlist: StrMap::new(),
        minio: MinioConfig {
            endpoint: String::new(),
            access_key: String::new(),
            secret_key: String::new(),
            compose_path: String::new(),
        },
    }
}

fn node(master: bool, ip: &str) -> ClusterNode {
    ClusterNode { is_master: master, ip: Some(ip.to_string()) }
}

#[test]
fn waverless_urls_come_from_cluster_nodes() {
    let nodes = vec![node(false, "10.0.0.2:2500"), node(true, "10.0.0.1:2500"), node(false, "10.0.0.3:2500")];
    let p = PlatfromWl::new(cli(), config(), &nodes);
    assert_eq!(p.master_url, "http://10.0.0.1:2500");
    assert_eq!(p.worker_url, "http://10.0.0.3:2500");
    assert_eq!(p.upload_url, "http://10.0.0.1:2500/upload");
    assert_eq!(p.call_url("img", "resize"), "http://10.0.0.1:2500/img/resize");
    assert_eq!(p.upload_data_url(), "http://10.0.0.1:2500/upload_data");
    assert_eq!(p.cli().config, "cluster.yml");
}

#[test]
fn waverless_without_master_has_empty_master_url() {
    let p = PlatfromWl::new(cli(), config(), &vec![node(false, "w")]);
    assert_eq!(p.master_url, "");
    assert_eq!(p.upload_url, "/upload");
    assert_eq!(p.worker_url, "http://w");
}

#[test]
fn wsk_arguments_name_action_and_params() {
    let params = vec![("a".to_string(), "1".to_string()), ("b".to_string(), "x y".to_string())];
    let args = wsk_invoke_args("img", "resize", &params);
    assert_eq!(
        args,
        vec!["action", "invoke", "--result", "img_resize", "--param", "a", "1", "--param", "b", "x y"]
    );
    assert_eq!(wsk_invoke_args("a", "b", &vec![]), vec!["action", "invoke", "--result", "a_b"]);
}

#[test]
fn openwhisk_remembers_generated_demos() {
    let mut p = PlatfromOw::new(cli(), config());
    assert!(p.needs_gen("simple_demo"));
    p.mark_generated("simple_demo".to_string());
    assert!(!p.needs_gen("simple_demo"));
    assert!(p.needs_gen("other"));
    assert_eq!(p.cli().app_fn, "a/f");
}

#[test]
fn demos_bind_platforms() {
    let mut d = ImgResize::default();
    assert!(d.0.is_none());
    assert_eq!(d.app(), App::ImgResize);
    d.set_platform(PlatformOpsBind::PlatfromOw(PlatfromOw::new(cli(), config())));
    assert_eq!(d.get_platform().cli().with_wl, 1);
    let mut s = Sequential::default();
    assert_eq!(s.app(), App::Sequential);
    s.set_platform(PlatformOpsBind::PlatfromWl(PlatfromWl::new(cli(), config(), &vec![node(true, "m")])));
    match s.get_platform() {
        PlatformOpsBind::PlatfromWl(p) => assert_eq!(p.master_url, "http://m"),
        PlatformOpsBind::PlatfromOw(_) => panic!("wrong platform"),
    }
}

#[test]
fn openwhisk_upload_generates_sources_once() {
    let mut p = PlatfromOw::new(cli(), config());
    let first = p.upload_steps("simple_demo", "simple");
    assert_eq!(
        first,
        vec![
            vec!["python3", "../demos/scripts/1.gen_ow_app.py", "simple_demo"],
            vec!["python3", "../middlewares/openwhisk/8.add_func.py", "simple_demo", "simple"],
        ]
    );
    let again = p.upload_steps("simple_demo", "other_name");
    assert_eq!(again, vec![vec!["python3", "../middlewares/openwhisk/8.add_func.py", "simple_demo", "other_name"]]);
    assert!(!p.needs_gen("simple_demo"));
}
