//! Where prepared data lives and how large inputs reach a function: paths
//! under the data directory, the preparation plan of each application, and
//! the writes of a function's large inputs.
use vstd::prelude::*;
use crate::config::{ArgValue, ArgValueView, Config, FnDetails, minio_key};
use crate::text::{has_char, before_first, after_first, text_before, text_after, decimal, push_decimal};

verus! {

/// `rel` appended to `base` as a path is on Unix: an absolute `rel` replaces
/// `base`; otherwise a `/` separates them unless `base` is empty or already
/// ends with one.
pub open spec fn join_path(base: Seq<char>, rel: Seq<char>) -> Seq<char> {
    if rel.len() > 0 && rel[0] == '/' {
        rel
    } else if base.len() == 0 || base.last() == '/' {
        base + rel
    } else {
        base + seq!['/'] + rel
    }
}

/// `rel` appended to `base` as a path.
pub fn path_join(base: &str, rel: &str) -> (r: String)
    ensures
        r@ == join_path(base@, rel@),
{
    let rn = rel.unicode_len();
    if rn > 0 && rel.get_char(0) == '/' {
        return rel.to_owned();
    }
    let bn = base.unicode_len();
    let mut r = base.to_owned();
    if bn == 0 || base.get_char(bn - 1) == '/' {
        r.append(rel);
    } else {
        proof {
            reveal_strlit("/");
        }
        r.append("/");
        r.append(rel);
    }
    r
}

/// The directory of an application's prepared data.
pub open spec fn app_dir_path(app: Seq<char>) -> Seq<char> {
    join_path("prepare_data"@, app)
}

/// The directory of an application's prepared data: `prepare_data/<app>`.
pub fn app_dir(app: &str) -> (r: String)
    ensures
        r@ == app_dir_path(app@),
{
    path_join("prepare_data", app)
}

/// The file name of the `i`-th preparation script: `prepare_<i>.py`.
pub open spec fn script_name(i: nat) -> Seq<char> {
    "prepare_"@ + decimal(i) + ".py"@
}

/// The file name of the `i`-th preparation script.
pub fn prepare_script_name(i: usize) -> (r: String)
    ensures
        r@ == script_name(i as nat),
{
    let mut r = "prepare_".to_owned();
    push_decimal(&mut r, i as u64);
    r.append(".py");
    r
}

/// The applications of `apps` that are configured (not replicas), in order.
pub open spec fn models_among(cfg: Config, apps: Seq<String>) -> Seq<String>
    decreases apps.len(),
{
    if apps.len() == 0 {
        Seq::empty()
    } else if cfg.models@.contains_key(apps.last()@) {
        models_among(cfg, apps.drop_last()).push(apps.last())
    } else {
        models_among(cfg, apps.drop_last())
    }
}

/// One preparation script of an application: where it is written and what it holds.
#[derive(Clone, Debug)]
pub struct ScriptPlan {
    pub path: String,
    pub name: String,
    pub content: String,
}

/// What preparing one application's data takes.
#[derive(Clone, Debug)]
pub struct AppPreparation {
    /// The application.
    pub app: String,
    /// Its data directory.
    pub dir: String,
    /// The scripts to write there and run, in order.
    pub scripts: Vec<ScriptPlan>,
    /// The files that must exist afterwards.
    pub data_paths: Vec<String>,
}

impl Config {
    /// The applications of `apps` that are configured, in order.
    pub fn model_apps(&self, apps: &Vec<String>) -> (r: Vec<String>)
        ensures
            r@ == models_among(*self, apps@),
    {
        let mut r: Vec<String> = Vec::new();
        let mut i: usize = 0;
        assert(apps@.take(0) =~= Seq::<String>::empty());
        while i < apps.len()
            invariant
                i <= apps@.len(),
                r@ == models_among(*self, apps@.take(i as int)),
            decreases apps@.len() - i,
        {
            assert(apps@.take(i + 1).drop_last() =~= apps@.take(i as int));
            if self.models.contains_key(apps[i].as_str()) {
                r.push(apps[i].clone());
            }
            i = i + 1;
        }
        assert(apps@.take(apps@.len() as int) =~= apps@);
        r
    }

    /// The preparation of each configured application among `target_apps`, in
    /// order: its data directory, its scripts as `prepare_<i>.py` there, and
    /// the paths of the data the scripts must produce.
    pub fn prepare_plan(&self, target_apps: &Vec<String>) -> (r: Vec<AppPreparation>)
        ensures
            r@.len() == models_among(*self, target_apps@).len(),
            forall|i: int|
                0 <= i < r@.len() ==> {
                    let app = models_among(*self, target_apps@)[i]@;
                    let entry = self.models@[app];
                    &&& (#[trigger] r@[i]).app@ == app
                    &&& r@[i].dir@ == app_dir_path(app)
                    &&& r@[i].scripts@.len() == entry.prepare_scripts@.len()
                    &&& forall|j: int|
                        0 <= j < r@[i].scripts@.len() ==> {
                            &&& (#[trigger] r@[i].scripts@[j]).name@ == script_name(j as nat)
                            &&& r@[i].scripts@[j].path@ == join_path(
                                app_dir_path(app),
                                script_name(j as nat),
                            )
                            &&& r@[i].scripts@[j].content@ == entry.prepare_scripts@[j]@
                        }
                    &&& r@[i].data_paths@.len() == entry.prepare_data@.len()
                    &&& forall|j: int|
                        0 <= j < r@[i].data_paths@.len() ==> (#[trigger] r@[i].data_paths@[j])@
                            == join_path(app_dir_path(app), entry.prepare_data@[j]@)
                },
    {
        let apps = self.model_apps(target_apps);
        proof {
            lemma_models_among(*self, target_apps@);
        }
        let mut r: Vec<AppPreparation> = Vec::new();
        let mut i: usize = 0;
        while i < apps.len()
            invariant
                apps@ == models_among(*self, target_apps@),
                i <= apps@.len(),
                r@.len() == i,
                forall|k: int| 0 <= k < apps@.len() ==> self.models@.contains_key(#[trigger] apps@[k]@),
                forall|k: int|
                    0 <= k < i ==> {
                        let app = apps@[k]@;
                        let entry = self.models@[app];
                        &&& (#[trigger] r@[k]).app@ == app
                        &&& r@[k].dir@ == app_dir_path(app)
                        &&& r@[k].scripts@.len() == entry.prepare_scripts@.len()
                        &&& forall|j: int|
                            0 <= j < r@[k].scripts@.len() ==> {
                                &&& (#[trigger] r@[k].scripts@[j]).name@ == script_name(j as nat)
                                &&& r@[k].scripts@[j].path@ == join_path(
                                    app_dir_path(app),
                                    script_name(j as nat),
                                )
                                &&& r@[k].scripts@[j].content@ == entry.prepare_scripts@[j]@
                            }
                        &&& r@[k].data_paths@.len() == entry.prepare_data@.len()
                        &&& forall|j: int|
                            0 <= j < r@[k].data_paths@.len() ==> (#[trigger] r@[k].data_paths@[j])@
                                == join_path(app_dir_path(app), entry.prepare_data@[j]@)
                    },
            decreases apps@.len() - i,
        {
            let app = &apps[i];
            let entry = self.models.get(app.as_str()).unwrap();
            let dir = app_dir(app.as_str());
            let mut scripts: Vec<ScriptPlan> = Vec::new();
            let mut j: usize = 0;
            while j < entry.prepare_scripts.len()
                invariant
                    j <= entry.prepare_scripts@.len(),
                    scripts@.len() == j,
                    dir@ == app_dir_path(app@),
                    forall|l: int|
                        0 <= l < j ==> {
                            &&& (#[trigger] scripts@[l]).name@ == script_name(l as nat)
                            &&& scripts@[l].path@ == join_path(app_dir_path(app@), script_name(l as nat))
                            &&& scripts@[l].content@ == entry.prepare_scripts@[l]@
                        },
                decreases entry.prepare_scripts@.len() - j,
            {
                let name = prepare_script_name(j);
                let path = path_join(dir.as_str(), name.as_str());
                scripts.push(ScriptPlan { path, name, content: entry.prepare_scripts[j].clone() });
                j = j + 1;
            }
            let mut data_paths: Vec<String> = Vec::new();
            let mut j: usize = 0;
            while j < entry.prepare_data.len()
                invariant
                    j <= entry.prepare_data@.len(),
                    data_paths@.len() == j,
                    dir@ == app_dir_path(app@),
                    forall|l: int|
                        0 <= l < j ==> (#[trigger] data_paths@[l])@ == join_path(
                            app_dir_path(app@),
                            entry.prepare_data@[l]@,
                        ),
                decreases entry.prepare_data@.len() - j,
            {
                data_paths.push(path_join(dir.as_str(), entry.prepare_data[j].as_str()));
                j = j + 1;
            }
            r.push(AppPreparation { app: app.clone(), dir, scripts, data_paths });
            i = i + 1;
        }
        r
    }
}

/// Every application that `models_among` keeps is configured.
pub proof fn lemma_models_among(cfg: Config, apps: Seq<String>)
    ensures
        forall|k: int|
            0 <= k < models_among(cfg, apps).len() ==> cfg.models@.contains_key(
                #[trigger] models_among(cfg, apps)[k]@,
            ),
        models_among(cfg, apps).len() <= apps.len(),
    decreases apps.len(),
{
    if apps.len() > 0 {
        lemma_models_among(cfg, apps.drop_last());
    }
}

/// Large inputs go to the object store: the `use_minio` argument is a non-empty string.
pub open spec fn uses_minio(d: FnDetails) -> bool {
    match d.args {
        Some(args) => args@.contains_key(minio_key()) && match args@[minio_key()]@ {
            ArgValueView::Text(s) => s.len() > 0,
            _ => false,
        },
        None => false,
    }
}

/// The read path of a large-input item `read:write`: its text before the first `:`.
pub open spec fn item_read(item: Seq<char>) -> Seq<char> {
    before_first(item, ':')
}

/// The write key of a large-input item `read:write`: its text after the first
/// `:` up to the next `:` or the end.
pub open spec fn item_write(item: Seq<char>) -> Seq<char> {
    before_first(after_first(item, ':'), ':')
}

/// One large input: the file to read and the key to write it under.
#[derive(Clone, Debug)]
pub struct BigDataWrite {
    pub read_path: String,
    pub write_key: String,
}

/// The two parts of a large-input item `read:write`.
pub fn split_big_data_item(item: &str) -> (r: (String, String))
    requires
        has_char(item@, ':'),
    ensures
        r.0@ == item_read(item@),
        r.1@ == item_write(item@),
{
    let read = text_before(item, ':');
    let rest = text_after(item, ':').unwrap();
    let write = text_before(rest.as_str(), ':');
    (read, write)
}

impl FnDetails {
    /// Whether the large inputs go to the object store rather than to the
    /// platform's own storage.
    pub fn use_minio(&self) -> (r: bool)
        ensures
            r == uses_minio(*self),
    {
        match &self.args {
            Some(args) => match args.get("use_minio") {
                Some(ArgValue::Text(s)) => s.as_str().unicode_len() > 0,
                _ => false,
            },
            None => false,
        }
    }

    /// The large inputs of the function of application `app_name`, in order:
    /// each item's read part as a path under the application's data
    /// directory, and its write part as the key.
    pub fn big_data_writes(&self, app_name: &str) -> (r: Vec<BigDataWrite>)
        requires
            self.big_data matches Some(items) ==> forall|j: int|
                0 <= j < items@.len() ==> has_char(#[trigger] items@[j]@, ':'),
        ensures
            match self.big_data {
                Some(items) => {
                    &&& r@.len() == items@.len()
                    &&& forall|j: int|
                        0 <= j < r@.len() ==> {
                            &&& (#[trigger] r@[j]).read_path@ == join_path(
                                app_dir_path(app_name@),
                                item_read(items@[j]@),
                            )
                            &&& r@[j].write_key@ == item_write(items@[j]@)
                        }
                },
                None => r@.len() == 0,
            },
    {
        let mut r: Vec<BigDataWrite> = Vec::new();
        match &self.big_data {
            Some(items) => {
                let dir = app_dir(app_name);
                let mut j: usize = 0;
                while j < items.len()
                    invariant
                        j <= items@.len(),
                        r@.len() == j,
                        dir@ == app_dir_path(app_name@),
                        forall|l: int| 0 <= l < items@.len() ==> has_char(#[trigger] items@[l]@, ':'),
                        forall|l: int|
                            0 <= l < j ==> {
                                &&& (#[trigger] r@[l]).read_path@ == join_path(
                                    app_dir_path(app_name@),
                                    item_read(items@[l]@),
                                )
                                &&& r@[l].write_key@ == item_write(items@[l]@)
                            },
                    decreases items@.len() - j,
                {
                    let (read, write) = split_big_data_item(items[j].as_str());
                    let read_path = path_join(dir.as_str(), read.as_str());
                    r.push(BigDataWrite { read_path, write_key: write });
                    j = j + 1;
                }
            },
            None => {},
        }
        r
    }
}

/// A relative application name lies directly under `prepare_data/`.
pub proof fn lemma_app_dir_relative(app: Seq<char>)
    requires
        !(app.len() > 0 && app[0] == '/'),
    ensures
        app_dir_path(app) == "prepare_data/"@ + app,
{
    reveal_strlit("prepare_data");
    reveal_strlit("prepare_data/");
    assert("prepare_data"@ + seq!['/'] =~= "prepare_data/"@);
    assert("prepare_data"@ + seq!['/'] + app =~= "prepare_data/"@ + app);
}

} // verus!
