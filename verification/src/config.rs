//! Benchmark configuration: applications, their functions and per-function
//! arguments, replicas that reuse another application's functions, and the
//! object-store settings.
use vstd::prelude::*;
use crate::strmap::{StrMap, map_of, lemma_map_of_size};
use crate::text::{has_char, before_first, after_first, lemma_first_pos};

verus! {

/// A configured argument value, holding what the benchmark reads of it.
#[derive(Debug)]
pub enum ArgValue {
    /// A boolean.
    Bool(bool),
    /// A string.
    Text(String),
    /// Any other value (null, number, sequence or mapping), held as its JSON text.
    Other(String),
    /// A tagged value, which has no JSON form.
    Tagged,
}

/// What an argument value stands for.
pub enum ArgValueView {
    Bool(bool),
    Text(Seq<char>),
    Other(Seq<char>),
    Tagged,
}

impl View for ArgValue {
    type V = ArgValueView;

    open spec fn view(&self) -> ArgValueView {
        match self {
            ArgValue::Bool(b) => ArgValueView::Bool(*b),
            ArgValue::Text(s) => ArgValueView::Text(s@),
            ArgValue::Other(s) => ArgValueView::Other(s@),
            ArgValue::Tagged => ArgValueView::Tagged,
        }
    }
}

impl Clone for ArgValue {
    fn clone(&self) -> (r: Self)
        ensures
            r == *self,
    {
        match self {
            ArgValue::Bool(b) => ArgValue::Bool(*b),
            ArgValue::Text(s) => ArgValue::Text(s.clone()),
            ArgValue::Other(s) => ArgValue::Other(s.clone()),
            ArgValue::Tagged => ArgValue::Tagged,
        }
    }
}

/// Views of the values of an argument map.
pub open spec fn args_view(m: Map<Seq<char>, ArgValue>) -> Map<Seq<char>, ArgValueView> {
    m.map_values(|v: ArgValue| v@)
}

/// Configuration of one function.
#[derive(Clone, Debug)]
pub struct FnDetails {
    /// Named arguments handed to the function on each call.
    pub args: Option<StrMap<ArgValue>>,
    /// Large inputs, each `read_path:write_key`.
    pub big_data: Option<Vec<String>>,
}

/// What the configuration of one function stands for.
pub struct FnDetailsView {
    pub args: Option<Map<Seq<char>, ArgValueView>>,
    pub big_data: Option<Seq<String>>,
}

impl View for FnDetails {
    type V = FnDetailsView;

    open spec fn view(&self) -> FnDetailsView {
        FnDetailsView {
            args: match self.args {
                Some(m) => Some(args_view(m@)),
                None => None,
            },
            big_data: match self.big_data {
                Some(v) => Some(v@),
                None => None,
            },
        }
    }
}

/// View of an optional function configuration.
pub open spec fn opt_details_view(d: Option<FnDetails>) -> Option<FnDetailsView> {
    match d {
        Some(d) => Some(d@),
        None => None,
    }
}

/// An exact copy of an argument map.
pub fn copy_args(m: &StrMap<ArgValue>) -> (r: StrMap<ArgValue>)
    ensures
        r@ == m@,
{
    let mut entries: Vec<(String, ArgValue)> = Vec::new();
    let n = m.len();
    let mut i: usize = 0;
    while i < n
        invariant
            n == m.entries().len(),
            i <= n,
            entries@ == m.entries().take(i as int),
        decreases n - i,
    {
        let k = m.key_at(i).clone();
        let v = m.value_at(i).clone();
        entries.push((k, v));
        assert(entries@ =~= m.entries().take(i + 1));
        i = i + 1;
    }
    assert(m.entries().take(n as int) =~= m.entries());
    proof {
        m.lemma_view();
    }
    StrMap::from_entries(entries)
}

/// An exact copy of a list of strings.
pub fn copy_strings(v: &Vec<String>) -> (r: Vec<String>)
    ensures
        r@ == v@,
{
    let mut out: Vec<String> = Vec::new();
    let mut i: usize = 0;
    while i < v.len()
        invariant
            i <= v@.len(),
            out@ == v@.take(i as int),
        decreases v@.len() - i,
    {
        out.push(v[i].clone());
        assert(out@ =~= v@.take(i + 1));
        i = i + 1;
    }
    assert(v@.take(v@.len() as int) =~= v@);
    out
}

impl FnDetails {
    /// An exact copy.
    pub fn duplicate(&self) -> (r: FnDetails)
        ensures
            r@ == self@,
    {
        FnDetails {
            args: match &self.args {
                Some(m) => Some(copy_args(m)),
                None => None,
            },
            big_data: match &self.big_data {
                Some(v) => Some(copy_strings(v)),
                None => None,
            },
        }
    }
}

/// Connection settings of the object store.
#[derive(Clone, Debug)]
pub struct MinioConfig {
    pub endpoint: String,
    pub access_key: String,
    pub secret_key: String,
    pub compose_path: String,
}

impl MinioConfig {
    /// The settings as handed to functions: `endpoint,access_key,secret_key`.
    pub open spec fn line(&self) -> Seq<char> {
        self.endpoint@ + seq![','] + self.access_key@ + seq![','] + self.secret_key@
    }

    /// `endpoint,access_key,secret_key`.
    pub fn one_line(&self) -> (r: String)
        ensures
            r@ == self.line(),
    {
        let mut r = self.endpoint.clone();
        proof {
            reveal_strlit(",");
        }
        r.append(",");
        r.append(self.access_key.as_str());
        r.append(",");
        r.append(self.secret_key.as_str());
        r
    }
}

/// A benchmarked application.
#[derive(Clone, Debug)]
pub struct AppFnEntry {
    /// Files that the preparation scripts must produce.
    pub prepare_data: Vec<String>,
    /// Scripts that produce the data.
    pub prepare_scripts: Vec<String>,
    /// The application's functions.
    pub fns: StrMap<FnDetails>,
}

/// An application that reuses another application's functions under its own
/// name, with argument overrides.
#[derive(Clone, Debug)]
pub struct AppFnReplica {
    /// The application whose functions are reused.
    pub source: String,
    /// Argument overrides per function.
    pub fns: StrMap<FnDetails>,
}

/// The whole benchmark configuration.
#[derive(Clone, Debug)]
pub struct Config {
    pub models: StrMap<AppFnEntry>,
    pub replicas: StrMap<AppFnReplica>,
    /// Benchmark targets, each `app/func` and each at most once.
    pub benchlist: StrMap<()>,
    pub minio: MinioConfig,
}

impl Config {
    /// The bench targets, in order.
    pub open spec fn bench_targets(self) -> Seq<String> {
        self.benchlist.entries().map_values(|e: (String, ())| e.0)
    }
}

/// The key of the object-store switch among a function's arguments.
pub open spec fn minio_key() -> Seq<char> {
    "use_minio"@
}

/// The object-store switch resolved: a `true` flag becomes the store's
/// settings line, anything else drops the key.
pub open spec fn resolve_minio(
    args: Map<Seq<char>, ArgValueView>,
    line: Seq<char>,
) -> Map<Seq<char>, ArgValueView> {
    if args.contains_key(minio_key()) && args[minio_key()] == ArgValueView::Bool(true) {
        args.insert(minio_key(), ArgValueView::Text(line))
    } else {
        args.remove(minio_key())
    }
}

/// The configuration of `func` in `app`, as found by following replicas to
/// their sources at most `fuel` times. Each level overrides its source's
/// arguments with its own and then resolves the object-store switch.
pub open spec fn details(cfg: Config, app: Seq<char>, func: Seq<char>, fuel: nat) -> Option<
    FnDetailsView,
>
    decreases fuel,
{
    let raw: Option<FnDetailsView> = if cfg.models@.contains_key(app) {
        let fns = cfg.models@[app].fns@;
        if fns.contains_key(func) {
            Some(fns[func]@)
        } else {
            None
        }
    } else if cfg.replicas@.contains_key(app) && fuel > 0 {
        let replica = cfg.replicas@[app];
        match details(cfg, replica.source@, func, (fuel - 1) as nat) {
            Some(src) => Some(
                FnDetailsView {
                    args: Some(
                        src.args.unwrap().union_prefer_right(replica.fns@[func]@.args.unwrap()),
                    ),
                    big_data: src.big_data,
                },
            ),
            None => None,
        }
    } else {
        None
    };
    match raw {
        Some(d) => Some(
            FnDetailsView {
                args: Some(resolve_minio(d.args.unwrap(), cfg.minio.line())),
                big_data: d.big_data,
            },
        ),
        None => None,
    }
}

/// Looking up `func` in `app` within `fuel` replica steps neither loops nor
/// meets a missing argument map.
pub open spec fn resolvable(cfg: Config, app: Seq<char>, func: Seq<char>, fuel: nat) -> bool
    decreases fuel,
{
    if cfg.models@.contains_key(app) {
        let fns = cfg.models@[app].fns@;
        fns.contains_key(func) ==> fns[func]@.args is Some
    } else if cfg.replicas@.contains_key(app) {
        let replica = cfg.replicas@[app];
        &&& fuel > 0
        &&& resolvable(cfg, replica.source@, func, (fuel - 1) as nat)
        &&& details(cfg, replica.source@, func, (fuel - 1) as nat) is Some ==> {
            &&& replica.fns@.contains_key(func)
            &&& replica.fns@[func]@.args is Some
        }
    } else {
        true
    }
}

/// More fuel changes nothing once the lookup is resolvable.
pub proof fn lemma_details_fuel(cfg: Config, app: Seq<char>, func: Seq<char>, f: nat, g: nat)
    requires
        resolvable(cfg, app, func, f),
        f <= g,
    ensures
        resolvable(cfg, app, func, g),
        details(cfg, app, func, f) == details(cfg, app, func, g),
    decreases f,
{
    if cfg.models@.contains_key(app) {
    } else if cfg.replicas@.contains_key(app) {
        let replica = cfg.replicas@[app];
        lemma_details_fuel(cfg, replica.source@, func, (f - 1) as nat, (g - 1) as nat);
    }
}

/// A found configuration always has arguments.
pub proof fn lemma_details_args(cfg: Config, app: Seq<char>, func: Seq<char>, f: nat)
    requires
        resolvable(cfg, app, func, f),
    ensures
        details(cfg, app, func, f) matches Some(d) ==> d.args is Some,
{
}

/// `a` is a replica and not also configured directly: a lookup there moves on
/// to the replica's source.
pub open spec fn replica_step(cfg: Config, a: Seq<char>) -> bool {
    !cfg.models@.contains_key(a) && cfg.replicas@.contains_key(a)
}

/// The application reached from `a` after `n` moves from a replica to its source.
pub open spec fn follow(cfg: Config, a: Seq<char>, n: nat) -> Seq<char>
    decreases n,
{
    if n == 0 {
        a
    } else {
        follow(cfg, cfg.replicas@[a].source@, (n - 1) as nat)
    }
}

/// A lookup from `a` stops after exactly `n` moves.
pub open spec fn stops_after(cfg: Config, a: Seq<char>, n: nat) -> bool {
    &&& !replica_step(cfg, follow(cfg, a, n))
    &&& forall|i: nat| i < n ==> replica_step(cfg, #[trigger] follow(cfg, a, i))
}

/// The first `n` applications met from `a`.
pub open spec fn visited(cfg: Config, a: Seq<char>, n: nat) -> Set<Seq<char>>
    decreases n,
{
    if n == 0 {
        Set::empty()
    } else {
        visited(cfg, a, (n - 1) as nat).insert(follow(cfg, a, (n - 1) as nat))
    }
}

proof fn lemma_stop(cfg: Config, a: Seq<char>, func: Seq<char>, f: nat) -> (n: nat)
    requires
        resolvable(cfg, a, func, f),
    ensures
        n <= f,
        stops_after(cfg, a, n),
    decreases f,
{
    if !replica_step(cfg, a) {
        0
    } else {
        let src = cfg.replicas@[a].source@;
        let m = lemma_stop(cfg, src, func, (f - 1) as nat);
        assert forall|i: nat| i < m + 1 implies replica_step(cfg, #[trigger] follow(cfg, a, i)) by {
            if i > 0 {
                assert(follow(cfg, a, i) == follow(cfg, src, (i - 1) as nat));
            }
        }
        assert(follow(cfg, a, m + 1) == follow(cfg, src, m));
        m + 1
    }
}

proof fn lemma_stop_fuel(cfg: Config, a: Seq<char>, func: Seq<char>, f: nat, n: nat)
    requires
        resolvable(cfg, a, func, f),
        stops_after(cfg, a, n),
        n <= f,
    ensures
        resolvable(cfg, a, func, n),
        details(cfg, a, func, n) == details(cfg, a, func, f),
    decreases n,
{
    assert(follow(cfg, a, 0) == a);
    if n > 0 {
        assert(replica_step(cfg, follow(cfg, a, 0)));
        let src = cfg.replicas@[a].source@;
        assert forall|i: nat| i < n - 1 implies replica_step(cfg, #[trigger] follow(cfg, src, i)) by {
            assert(replica_step(cfg, follow(cfg, a, i + 1)));
            assert(follow(cfg, a, i + 1) == follow(cfg, src, i));
        }
        assert(follow(cfg, a, n) == follow(cfg, src, (n - 1) as nat));
        lemma_stop_fuel(cfg, src, func, (f - 1) as nat, (n - 1) as nat);
    }
}

proof fn lemma_follow_add(cfg: Config, a: Seq<char>, i: nat, k: nat)
    ensures
        follow(cfg, a, i + k) == follow(cfg, follow(cfg, a, i), k),
    decreases i,
{
    if i > 0 {
        let src = cfg.replicas@[a].source@;
        lemma_follow_add(cfg, src, (i - 1) as nat, k);
        assert(follow(cfg, a, i + k) == follow(cfg, src, (i - 1 + k) as nat));
    }
}

proof fn lemma_chain_distinct(cfg: Config, a: Seq<char>, n: nat)
    requires
        stops_after(cfg, a, n),
    ensures
        forall|i: nat, j: nat| i < j < n ==> follow(cfg, a, i) != follow(cfg, a, j),
{
    assert forall|i: nat, j: nat| i < j < n implies follow(cfg, a, i) != follow(cfg, a, j) by {
        if follow(cfg, a, i) == follow(cfg, a, j) {
            let k = (n - j) as nat;
            lemma_follow_add(cfg, a, j, k);
            lemma_follow_add(cfg, a, i, k);
            assert(replica_step(cfg, follow(cfg, a, i + k)));
        }
    }
}

proof fn lemma_visited(cfg: Config, a: Seq<char>, n: nat, m: nat)
    requires
        n <= m,
        stops_after(cfg, a, m),
    ensures
        visited(cfg, a, n).finite(),
        visited(cfg, a, n).len() == n,
        visited(cfg, a, n).subset_of(cfg.replicas@.dom()),
        forall|x: Seq<char>|
            #[trigger] visited(cfg, a, n).contains(x) ==> exists|i: nat|
                i < n && x == follow(cfg, a, i),
    decreases n,
{
    if n > 0 {
        let p = (n - 1) as nat;
        lemma_visited(cfg, a, p, m);
        lemma_chain_distinct(cfg, a, m);
        assert(replica_step(cfg, follow(cfg, a, p)));
        assert(!visited(cfg, a, p).contains(follow(cfg, a, p))) by {
            if visited(cfg, a, p).contains(follow(cfg, a, p)) {
                let i = choose|i: nat| i < p && follow(cfg, a, p) == follow(cfg, a, i);
            }
        }
        assert forall|x: Seq<char>| #[trigger] visited(cfg, a, n).contains(x) implies exists|i: nat|
            i < n && x == follow(cfg, a, i) by {
            if x != follow(cfg, a, p) {
                assert(visited(cfg, a, p).contains(x));
            }
        }
    }
}

/// A lookup that ends at all moves from a replica to its source at most as
/// many times as there are replicas: with that bound it ends the same way.
pub proof fn lemma_replica_steps_bounded(cfg: Config, app: Seq<char>, func: Seq<char>, f: nat)
    requires
        resolvable(cfg, app, func, f),
    ensures
        resolvable(cfg, app, func, cfg.replicas@.dom().len()),
        details(cfg, app, func, cfg.replicas@.dom().len()) == details(cfg, app, func, f),
{
    let n = lemma_stop(cfg, app, func, f);
    lemma_stop_fuel(cfg, app, func, f, n);
    lemma_visited(cfg, app, n, n);
    cfg.replicas.lemma_view();
    lemma_map_of_size(cfg.replicas.entries());
    vstd::set_lib::lemma_len_subset(visited(cfg, app, n), cfg.replicas@.dom());
    lemma_details_fuel(cfg, app, func, n, cfg.replicas@.dom().len());
}

/// `dst` overridden by every entry of `src`.
pub fn overlay_args(dst: &mut StrMap<ArgValue>, src: &StrMap<ArgValue>)
    ensures
        final(dst)@ == old(dst)@.union_prefer_right(src@),
{
    let n = src.len();
    let mut i: usize = 0;
    let ghost base = dst@;
    assert(map_of(src.entries().take(0)) =~= Map::<Seq<char>, ArgValue>::empty());
    assert(base.union_prefer_right(map_of(src.entries().take(0))) =~= base);
    while i < n
        invariant
            n == src.entries().len(),
            i <= n,
            dst@ == base.union_prefer_right(map_of(src.entries().take(i as int))),
        decreases n - i,
    {
        let k = src.key_at(i).clone();
        let v = src.value_at(i).clone();
        dst.insert(k, v);
        assert(src.entries().take(i + 1).drop_last() =~= src.entries().take(i as int));
        assert(dst@ =~= base.union_prefer_right(map_of(src.entries().take(i + 1))));
        i = i + 1;
    }
    assert(src.entries().take(n as int) =~= src.entries());
    proof {
        src.lemma_view();
    }
}

/// The arguments with the object-store switch resolved.
pub fn apply_minio(args: &mut StrMap<ArgValue>, minio: &MinioConfig)
    ensures
        args_view(final(args)@) == resolve_minio(args_view(old(args)@), minio.line()),
{
    let flag = match args.get("use_minio") {
        Some(ArgValue::Bool(b)) => *b,
        _ => false,
    };
    if flag {
        args.insert("use_minio".to_owned(), ArgValue::Text(minio.one_line()));
        assert(args_view(args@) =~= resolve_minio(args_view(old(args)@), minio.line()));
    } else {
        args.remove("use_minio");
        assert(args_view(args@) =~= resolve_minio(args_view(old(args)@), minio.line()));
    }
}

impl Config {
    /// The configuration of application `app`, replicas not included.
    pub fn get(&self, app: &str) -> (r: Option<&AppFnEntry>)
        ensures
            match r {
                Some(e) => self.models@.contains_key(app@) && *e == self.models@[app@],
                None => !self.models@.contains_key(app@),
            },
    {
        self.models.get(app)
    }

    fn get_fn_details_within(&self, app: &str, func: &str, Ghost(fuel): Ghost<nat>) -> (r: Option<
        FnDetails,
    >)
        requires
            resolvable(*self, app@, func@, fuel),
        ensures
            opt_details_view(r) == details(*self, app@, func@, fuel),
        decreases fuel,
    {
        let raw: Option<FnDetails> = if self.models.contains_key(app) {
            match self.models.get(app) {
                Some(entry) => match entry.fns.get(func) {
                    Some(d) => Some(d.duplicate()),
                    None => None,
                },
                None => None,
            }
        } else if let Some(replica) = self.replicas.get(app) {
            let source = replica.source.clone();
            match self.get_fn_details_within(source.as_str(), func, Ghost((fuel - 1) as nat)) {
                Some(src) => {
                    proof {
                        lemma_details_args(*self, source@, func@, (fuel - 1) as nat);
                    }
                    let mut args = src.args.unwrap();
                    let over = replica.fns.get(func).unwrap();
                    overlay_args(&mut args, over.args.as_ref().unwrap());
                    proof {
                        let a = args_view(args@);
                        assert(a =~= args_view(src.args.unwrap()@).union_prefer_right(
                            args_view(over.args.unwrap()@),
                        ));
                    }
                    Some(FnDetails { args: Some(args), big_data: src.big_data })
                },
                None => None,
            }
        } else {
            None
        };
        match raw {
            Some(d) => {
                let mut args = d.args.unwrap();
                apply_minio(&mut args, &self.minio);
                Some(FnDetails { args: Some(args), big_data: d.big_data })
            },
            None => None,
        }
    }

    /// Whether looking up `func` in `app` within `fuel` replica steps neither
    /// loops nor meets a missing argument map.
    pub fn can_resolve(&self, app: &str, func: &str, fuel: u64) -> (r: bool)
        ensures
            r == resolvable(*self, app@, func@, fuel as nat),
        decreases fuel,
    {
        if self.models.contains_key(app) {
            match self.models.get(app) {
                Some(entry) => match entry.fns.get(func) {
                    Some(d) => d.args.is_some(),
                    None => true,
                },
                None => true,
            }
        } else {
            match self.replicas.get(app) {
                Some(replica) => {
                    if fuel == 0 {
                        return false;
                    }
                    let source = replica.source.as_str();
                    if !self.can_resolve(source, func, fuel - 1) {
                        return false;
                    }
                    let found = self.get_fn_details_within(source, func, Ghost((fuel - 1) as nat));
                    if found.is_some() {
                        match replica.fns.get(func) {
                            Some(d) => d.args.is_some(),
                            None => false,
                        }
                    } else {
                        true
                    }
                },
                None => true,
            }
        }
    }

    /// Whether looking up `func` in `app` ends at all without meeting a
    /// missing argument map, which is what `get_fn_details` asks.
    pub fn resolves(&self, app: &str, func: &str) -> (r: bool)
        ensures
            r == exists|f: nat| resolvable(*self, app@, func@, f),
    {
        let n = self.replicas.len();
        let r = self.can_resolve(app, func, n as u64);
        proof {
            self.replicas.lemma_view();
            lemma_map_of_size(self.replicas.entries());
            if exists|f: nat| resolvable(*self, app@, func@, f) {
                let f = choose|f: nat| resolvable(*self, app@, func@, f);
                lemma_replica_steps_bounded(*self, app@, func@, f);
                lemma_details_fuel(*self, app@, func@, self.replicas@.dom().len(), n as nat);
            }
        }
        r
    }

    /// The configuration of `func` in `app`. A replica takes its source's
    /// configuration (resolved the same way), overrides the arguments with its
    /// own, and the object-store switch is then resolved: a `true` flag becomes
    /// the store's settings line, anything else is dropped. The lookup moves
    /// from a replica to its source at most as many times as there are replicas.
    pub fn get_fn_details(&self, app: &str, func: &str) -> (r: Option<FnDetails>)
        requires
            exists|f: nat| resolvable(*self, app@, func@, f),
        ensures
            resolvable(*self, app@, func@, self.replicas@.dom().len()),
            forall|f: nat|
                #![trigger resolvable(*self, app@, func@, f)]
                resolvable(*self, app@, func@, f) ==> opt_details_view(r) == details(
                    *self,
                    app@,
                    func@,
                    f,
                ),
    {
        let ghost f0 = choose|f: nat| resolvable(*self, app@, func@, f);
        let r = self.get_fn_details_within(app, func, Ghost(f0));
        proof {
            lemma_replica_steps_bounded(*self, app@, func@, f0);
            assert forall|f: nat| #[trigger] resolvable(*self, app@, func@, f) implies opt_details_view(
                r,
            ) == details(*self, app@, func@, f) by {
                if f <= f0 {
                    lemma_details_fuel(*self, app@, func@, f, f0);
                } else {
                    lemma_details_fuel(*self, app@, func@, f0, f);
                }
            }
        }
        r
    }
}

/// After resolution the object-store switch is either absent or the store's
/// settings line; it is never left as a flag.
pub proof fn lemma_minio_resolved(cfg: Config, app: Seq<char>, func: Seq<char>, f: nat)
    requires
        resolvable(cfg, app, func, f),
    ensures
        details(cfg, app, func, f) matches Some(d) ==> {
            let args = d.args.unwrap();
            args.contains_key(minio_key()) ==> args[minio_key()] == ArgValueView::Text(
                cfg.minio.line(),
            )
        },
{
}

/// A configured (non-replica) function keeps its arguments, the object-store
/// switch aside.
pub proof fn lemma_model_args_kept(
    cfg: Config,
    app: Seq<char>,
    func: Seq<char>,
    f: nat,
    k: Seq<char>,
)
    requires
        resolvable(cfg, app, func, f),
        cfg.models@.contains_key(app),
        cfg.models@[app].fns@.contains_key(func),
        k != minio_key(),
    ensures
        details(cfg, app, func, f) is Some,
        ({
            let given = cfg.models@[app].fns@[func]@.args.unwrap();
            let got = details(cfg, app, func, f).unwrap().args.unwrap();
            &&& got.contains_key(k) == given.contains_key(k)
            &&& given.contains_key(k) ==> got[k] == given[k]
        }),
{
}

/// A replica's own argument wins over its source's, the object-store switch
/// aside; an argument it does not set comes from its source.
pub proof fn lemma_replica_overrides(
    cfg: Config,
    app: Seq<char>,
    func: Seq<char>,
    f: nat,
    k: Seq<char>,
)
    requires
        resolvable(cfg, app, func, f),
        !cfg.models@.contains_key(app),
        cfg.replicas@.contains_key(app),
        details(cfg, cfg.replicas@[app].source@, func, (f - 1) as nat) is Some,
        k != minio_key(),
    ensures
        details(cfg, app, func, f) is Some,
        ({
            let own = cfg.replicas@[app].fns@[func]@.args.unwrap();
            let src = details(cfg, cfg.replicas@[app].source@, func, (f - 1) as nat).unwrap().args.unwrap();
            let got = details(cfg, app, func, f).unwrap().args.unwrap();
            &&& own.contains_key(k) ==> got.contains_key(k) && got[k] == own[k]
            &&& !own.contains_key(k) ==> (got.contains_key(k) == src.contains_key(k) && (
            src.contains_key(k) ==> got[k] == src[k]))
        }),
{
    lemma_details_args(cfg, cfg.replicas@[app].source@, func, (f - 1) as nat);
}

/// A replica's object-store switch comes from its own arguments alone: it is
/// set exactly when the replica itself sets it to `true`. A switch that its
/// source sets does not carry over, since there it is already the settings
/// line and no longer a flag.
pub proof fn lemma_replica_switch_own(cfg: Config, app: Seq<char>, func: Seq<char>, f: nat)
    requires
        resolvable(cfg, app, func, f),
        !cfg.models@.contains_key(app),
        cfg.replicas@.contains_key(app),
        details(cfg, cfg.replicas@[app].source@, func, (f - 1) as nat) is Some,
    ensures
        details(cfg, app, func, f) is Some,
        ({
            let own = cfg.replicas@[app].fns@[func]@.args.unwrap();
            let got = details(cfg, app, func, f).unwrap().args.unwrap();
            got.contains_key(minio_key()) <==> (own.contains_key(minio_key()) && own[minio_key()]
                == ArgValueView::Bool(true))
        }),
{
    lemma_details_args(cfg, cfg.replicas@[app].source@, func, (f - 1) as nat);
}

/// A replica keeps the large inputs of its source's resolved configuration,
/// whether that source is configured directly or is itself a replica.
pub proof fn lemma_replica_big_data(cfg: Config, app: Seq<char>, func: Seq<char>, f: nat)
    requires
        resolvable(cfg, app, func, f),
        !cfg.models@.contains_key(app),
        cfg.replicas@.contains_key(app),
        details(cfg, cfg.replicas@[app].source@, func, (f - 1) as nat) is Some,
    ensures
        details(cfg, app, func, f) is Some,
        details(cfg, app, func, f).unwrap().big_data == details(
            cfg,
            cfg.replicas@[app].source@,
            func,
            (f - 1) as nat,
        ).unwrap().big_data,
{
}

/// A found configuration has the large inputs configured for the function at
/// the application where the lookup ends, however many replicas lie between.
pub proof fn lemma_big_data_from_end(cfg: Config, app: Seq<char>, func: Seq<char>, f: nat)
    requires
        resolvable(cfg, app, func, f),
        details(cfg, app, func, f) is Some,
    ensures
        exists|n: nat|
            n <= f && cfg.models@.contains_key(#[trigger] follow(cfg, app, n)) && cfg.models@[follow(
                cfg,
                app,
                n,
            )].fns@.contains_key(func) && details(cfg, app, func, f).unwrap().big_data
                == cfg.models@[follow(cfg, app, n)].fns@[func]@.big_data,
    decreases f,
{
    if cfg.models@.contains_key(app) {
        assert(follow(cfg, app, 0) == app);
    } else {
        let src = cfg.replicas@[app].source@;
        lemma_big_data_from_end(cfg, src, func, (f - 1) as nat);
        let m = choose|n: nat|
            n <= (f - 1) as nat && cfg.models@.contains_key(#[trigger] follow(cfg, src, n))
                && cfg.models@[follow(cfg, src, n)].fns@.contains_key(func) && details(
                cfg,
                src,
                func,
                (f - 1) as nat,
            ).unwrap().big_data == cfg.models@[follow(cfg, src, n)].fns@[func]@.big_data;
        assert(follow(cfg, app, m + 1) == follow(cfg, src, m));
    }
}

/// An application that is neither configured nor a replica has no functions.
pub proof fn lemma_unknown_app(cfg: Config, app: Seq<char>, func: Seq<char>, f: nat)
    requires
        !cfg.models@.contains_key(app),
        !cfg.replicas@.contains_key(app),
    ensures
        details(cfg, app, func, f) is None,
{
}

/// When the endpoint and the access key hold no comma, the settings line
/// splits back at its commas into endpoint, access key and secret key.
pub proof fn lemma_line_splits(m: MinioConfig)
    requires
        !has_char(m.endpoint@, ','),
        !has_char(m.access_key@, ','),
    ensures
        before_first(m.line(), ',') == m.endpoint@,
        before_first(after_first(m.line(), ','), ',') == m.access_key@,
        after_first(after_first(m.line(), ','), ',') == m.secret_key@,
{
    let e = m.endpoint@;
    let a = m.access_key@;
    let sk = m.secret_key@;
    let line = m.line();
    assert(line[e.len() as int] == ',');
    assert forall|j: int| 0 <= j < e.len() implies line[j] != ',' by {
        assert(line[j] == e[j]);
    }
    lemma_first_pos(line, ',', e.len() as int);
    assert(line.take(e.len() as int) =~= e);
    let rest = after_first(line, ',');
    assert(rest =~= a + seq![','] + sk);
    assert(rest[a.len() as int] == ',');
    assert forall|j: int| 0 <= j < a.len() implies rest[j] != ',' by {
        assert(rest[j] == a[j]);
    }
    lemma_first_pos(rest, ',', a.len() as int);
    assert(rest.take(a.len() as int) =~= a);
    assert(rest.skip(a.len() as int + 1) =~= sk);
}

} // verus!
