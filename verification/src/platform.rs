//! The platforms under test: OpenWhisk, driven through its `wsk` command line,
//! and Waverless, driven over HTTP; what each needs to call a function.
use vstd::prelude::*;
use crate::cli::Cli;
use crate::config::Config;

verus! {

/// The OpenWhisk platform.
#[derive(Clone, Debug)]
pub struct PlatfromOw {
    /// Demo applications whose OpenWhisk sources were already generated.
    pub gen_demos: Vec<String>,
    pub cli: Cli,
    pub config: Config,
}

/// The names in `v`.
pub open spec fn names(v: Seq<String>) -> Set<Seq<char>> {
    Set::new(|n: Seq<char>| exists|i: int| 0 <= i < v.len() && v[i]@ == n)
}

/// The `wsk` action name of `func` in `app`: `app_func`.
pub open spec fn action_name(app: Seq<char>, func: Seq<char>) -> Seq<char> {
    app + seq!['_'] + func
}

/// The `--param` arguments for `params`, in order.
pub open spec fn param_args(params: Seq<(String, String)>) -> Seq<Seq<char>>
    decreases params.len(),
{
    if params.len() == 0 {
        Seq::empty()
    } else {
        param_args(params.drop_last()) + seq!["--param"@, params.last().0@, params.last().1@]
    }
}

/// The `wsk` arguments that invoke `func` of `app` and print its result.
pub open spec fn invoke_args(app: Seq<char>, func: Seq<char>, params: Seq<(String, String)>) -> Seq<
    Seq<char>,
> {
    seq!["action"@, "invoke"@, "--result"@, action_name(app, func)] + param_args(params)
}

/// The views of a list of strings.
pub open spec fn views(v: Seq<String>) -> Seq<Seq<char>> {
    v.map_values(|s: String| s@)
}

/// The command that generates the OpenWhisk sources of `demo`.
pub open spec fn gen_demo_command(demo: Seq<char>) -> Seq<Seq<char>> {
    seq!["python3"@, "../demos/scripts/1.gen_ow_app.py"@, demo]
}

/// The command that adds `demo` to OpenWhisk under the name `rename_sub`.
pub open spec fn add_func_command(demo: Seq<char>, rename_sub: Seq<char>) -> Seq<Seq<char>> {
    seq!["python3"@, "../middlewares/openwhisk/8.add_func.py"@, demo, rename_sub]
}

/// The commands that uploading `demo` as `rename_sub` runs, in order, when the
/// demos in `generated` already have their sources: the sources are generated
/// first unless they already are.
pub open spec fn upload_commands(generated: Set<Seq<char>>, demo: Seq<char>, rename_sub: Seq<char>) -> Seq<
    Seq<Seq<char>>,
> {
    if generated.contains(demo) {
        seq![add_func_command(demo, rename_sub)]
    } else {
        seq![gen_demo_command(demo), add_func_command(demo, rename_sub)]
    }
}

/// The views of a list of commands.
pub open spec fn command_views(v: Seq<Vec<String>>) -> Seq<Seq<Seq<char>>> {
    v.map_values(|c: Vec<String>| views(c@))
}

/// Once a demo was uploaded, uploading it again, under any name, only adds
/// the function: its sources are generated at most once over the platform's
/// life, and every upload ends by adding the function.
pub proof fn lemma_demo_generated_once(
    generated: Set<Seq<char>>,
    demo: Seq<char>,
    first_name: Seq<char>,
    next_name: Seq<char>,
)
    ensures
        upload_commands(generated, demo, first_name).last() == add_func_command(demo, first_name),
        upload_commands(generated.insert(demo), demo, next_name) == seq![
            add_func_command(demo, next_name),
        ],
{
}

impl PlatfromOw {
    /// The platform for a command line and a configuration, with no demo generated yet.
    pub fn new(cli: Cli, config: Config) -> (r: PlatfromOw)
        ensures
            r.gen_demos@.len() == 0,
            r.cli == cli,
            r.config == config,
    {
        PlatfromOw { gen_demos: Vec::new(), cli, config }
    }

    /// The command line.
    pub fn cli(&self) -> (r: &Cli)
        ensures
            *r == self.cli,
    {
        &self.cli
    }

    /// Whether the sources of `demo` still have to be generated.
    pub fn needs_gen(&self, demo: &str) -> (r: bool)
        ensures
            r == !names(self.gen_demos@).contains(demo@),
    {
        let mut i: usize = 0;
        while i < self.gen_demos.len()
            invariant
                i <= self.gen_demos@.len(),
                forall|j: int| 0 <= j < i ==> self.gen_demos@[j]@ != demo@,
            decreases self.gen_demos@.len() - i,
        {
            if crate::strmap::string_is(&self.gen_demos[i], demo) {
                assert(names(self.gen_demos@).contains(demo@));
                return false;
            }
            i = i + 1;
        }
        true
    }

    /// The commands that upload `demo` as `rename_sub`, in order; `demo` then
    /// counts as generated. Each must succeed.
    pub fn upload_steps(&mut self, demo: &str, rename_sub: &str) -> (r: Vec<Vec<String>>)
        ensures
            command_views(r@) == upload_commands(names(old(self).gen_demos@), demo@, rename_sub@),
            names(final(self).gen_demos@) == names(old(self).gen_demos@).insert(demo@),
            final(self).cli == old(self).cli,
            final(self).config == old(self).config,
    {
        let mut r: Vec<Vec<String>> = Vec::new();
        if self.needs_gen(demo) {
            let mut gen: Vec<String> = Vec::new();
            gen.push("python3".to_owned());
            gen.push("../demos/scripts/1.gen_ow_app.py".to_owned());
            gen.push(demo.to_owned());
            assert(views(gen@) =~= gen_demo_command(demo@));
            r.push(gen);
            self.mark_generated(demo.to_owned());
        } else {
            assert(names(self.gen_demos@).insert(demo@) =~= names(self.gen_demos@));
        }
        let mut add: Vec<String> = Vec::new();
        add.push("python3".to_owned());
        add.push("../middlewares/openwhisk/8.add_func.py".to_owned());
        add.push(demo.to_owned());
        add.push(rename_sub.to_owned());
        assert(views(add@) =~= add_func_command(demo@, rename_sub@));
        let ghost before = r@;
        r.push(add);
        assert(command_views(r@) =~= upload_commands(
            names(old(self).gen_demos@),
            demo@,
            rename_sub@,
        )) by {
            assert(command_views(r@) =~= command_views(before).push(views(add@)));
        }
        r
    }

    /// Remembers that the sources of `demo` were generated.
    pub fn mark_generated(&mut self, demo: String)
        ensures
            names(final(self).gen_demos@) == names(old(self).gen_demos@).insert(demo@),
            final(self).cli == old(self).cli,
            final(self).config == old(self).config,
    {
        let ghost d = demo@;
        self.gen_demos.push(demo);
        assert forall|n: Seq<char>| names(self.gen_demos@).contains(n) <==> names(
            old(self).gen_demos@,
        ).insert(d).contains(n) by {
            if names(self.gen_demos@).contains(n) {
                let i = choose|i: int| 0 <= i < self.gen_demos@.len() && self.gen_demos@[i]@ == n;
                if i < old(self).gen_demos@.len() {
                    assert(old(self).gen_demos@[i] == self.gen_demos@[i]);
                }
            }
            if names(old(self).gen_demos@).contains(n) {
                let i = choose|i: int|
                    0 <= i < old(self).gen_demos@.len() && old(self).gen_demos@[i]@ == n;
                assert(self.gen_demos@[i] == old(self).gen_demos@[i]);
            }
            if n == d {
                assert(self.gen_demos@[self.gen_demos@.len() - 1]@ == d);
            }
        }
        assert(names(self.gen_demos@) =~= names(old(self).gen_demos@).insert(d));
    }
}

/// The `wsk` arguments that invoke `func` of `app` with `params` (name, value)
/// and print its result.
pub fn wsk_invoke_args(app: &str, func: &str, params: &Vec<(String, String)>) -> (r: Vec<String>)
    ensures
        views(r@) == invoke_args(app@, func@, params@),
{
    let mut r: Vec<String> = Vec::new();
    let mut action = app.to_owned();
    proof {
        reveal_strlit("_");
    }
    action.append("_");
    action.append(func);
    r.push("action".to_owned());
    r.push("invoke".to_owned());
    r.push("--result".to_owned());
    r.push(action);
    assert(views(r@) =~= invoke_args(app@, func@, params@.take(0))) by {
        assert(params@.take(0) =~= Seq::<(String, String)>::empty());
        assert(param_args(params@.take(0)) =~= Seq::<Seq<char>>::empty());
        assert(views(r@)[0] == "action"@);
        assert(views(r@)[1] == "invoke"@);
        assert(views(r@)[2] == "--result"@);
        assert(views(r@)[3] == action_name(app@, func@));
    }
    let mut i: usize = 0;
    while i < params.len()
        invariant
            i <= params@.len(),
            views(r@) == invoke_args(app@, func@, params@.take(i as int)),
        decreases params@.len() - i,
    {
        let ghost before = r@;
        r.push("--param".to_owned());
        r.push(params[i].0.clone());
        r.push(params[i].1.clone());
        assert(params@.take(i + 1).drop_last() =~= params@.take(i as int));
        assert(views(r@) =~= views(before) + seq![
            "--param"@,
            params@[i as int].0@,
            params@[i as int].1@,
        ]);
        i = i + 1;
    }
    assert(params@.take(params@.len() as int) =~= params@);
    r
}

/// One node of the Waverless cluster as its configuration file describes it.
#[derive(Clone, Debug)]
pub struct ClusterNode {
    /// The node is the master.
    pub is_master: bool,
    /// Its address, when given as a string.
    pub ip: Option<String>,
}

/// The Waverless platform.
#[derive(Clone, Debug)]
pub struct PlatfromWl {
    pub cli: Cli,
    pub master_url: String,
    pub worker_url: String,
    pub upload_url: String,
    pub config: Config,
}

/// The URL of a node of address `ip`.
pub open spec fn node_url(ip: Seq<char>) -> Seq<char> {
    "http://"@ + ip
}

/// The URL of the last node of `nodes` with the given role, or empty when none has it.
pub open spec fn last_url(nodes: Seq<ClusterNode>, master: bool) -> Seq<char>
    decreases nodes.len(),
{
    if nodes.len() == 0 {
        Seq::empty()
    } else if nodes.last().is_master == master {
        node_url(nodes.last().ip.unwrap()@)
    } else {
        last_url(nodes.drop_last(), master)
    }
}

impl PlatfromWl {
    /// The platform for a command line, a configuration and the nodes of the
    /// cluster configuration file: the master's URL, a worker's URL (the last
    /// of each role in `nodes`), and the master's upload URL.
    pub fn new(cli: Cli, config: Config, nodes: &Vec<ClusterNode>) -> (r: PlatfromWl)
        requires
            forall|i: int| 0 <= i < nodes@.len() ==> (#[trigger] nodes@[i]).ip is Some,
        ensures
            r.cli == cli,
            r.config == config,
            r.master_url@ == last_url(nodes@, true),
            r.worker_url@ == last_url(nodes@, false),
            r.upload_url@ == last_url(nodes@, true) + "/upload"@,
    {
        let mut master_url = String::new();
        let mut worker_url = String::new();
        let mut i: usize = 0;
        assert(nodes@.take(0) =~= Seq::<ClusterNode>::empty());
        while i < nodes.len()
            invariant
                i <= nodes@.len(),
                forall|k: int| 0 <= k < nodes@.len() ==> (#[trigger] nodes@[k]).ip is Some,
                master_url@ == last_url(nodes@.take(i as int), true),
                worker_url@ == last_url(nodes@.take(i as int), false),
            decreases nodes@.len() - i,
        {
            assert(nodes@.take(i + 1).drop_last() =~= nodes@.take(i as int));
            assert(nodes@.take(i + 1).last() == nodes@[i as int]);
            let node = &nodes[i];
            let ip = node.ip.as_ref().unwrap();
            let mut url = "http://".to_owned();
            url.append(ip.as_str());
            if node.is_master {
                master_url = url;
            } else {
                worker_url = url;
            }
            i = i + 1;
        }
        assert(nodes@.take(nodes@.len() as int) =~= nodes@);
        let mut upload_url = master_url.clone();
        upload_url.append("/upload");
        PlatfromWl { cli, master_url, worker_url, upload_url, config }
    }

    /// The command line.
    pub fn cli(&self) -> (r: &Cli)
        ensures
            *r == self.cli,
    {
        &self.cli
    }

    /// The URL that calls `func` of `app`: `master/app/func`.
    pub fn call_url(&self, app: &str, func: &str) -> (r: String)
        ensures
            r@ == self.master_url@ + seq!['/'] + app@ + seq!['/'] + func@,
    {
        let mut r = self.master_url.clone();
        proof {
            reveal_strlit("/");
        }
        r.append("/");
        r.append(app);
        r.append("/");
        r.append(func);
        r
    }

    /// The URL that takes a function's data: `master/upload_data`.
    pub fn upload_data_url(&self) -> (r: String)
        ensures
            r@ == self.master_url@ + "/upload_data"@,
    {
        let mut r = self.master_url.clone();
        r.append("/upload_data");
        r
    }
}

/// A platform under test.
#[derive(Clone, Debug)]
pub enum PlatformOpsBind {
    PlatfromOw(PlatfromOw),
    PlatfromWl(PlatfromWl),
}

impl PlatformOpsBind {
    /// The command line of the platform.
    pub fn cli(&self) -> (r: &Cli)
        ensures
            *r == match self {
                PlatformOpsBind::PlatfromOw(p) => p.cli,
                PlatformOpsBind::PlatfromWl(p) => p.cli,
            },
    {
        match self {
            PlatformOpsBind::PlatfromOw(p) => p.cli(),
            PlatformOpsBind::PlatfromWl(p) => p.cli(),
        }
    }
}

} // verus!
