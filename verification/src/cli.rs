//! The command line of the benchmark driver and what it selects: the target
//! `app/func`, the platform, and the test mode.
use vstd::prelude::*;
use crate::text::{has_char, before_first, after_first, text_before, text_after, find_char, lemma_first_pos};
use crate::config::Config;

verus! {

/// The parsed command line.
#[derive(Clone, Debug)]
pub struct Cli {
    /// The target, `app/func`.
    pub app_fn: String,
    /// How often `--prepare` was given.
    pub prepare: u8,
    /// How often `--with-ow` (OpenWhisk) was given.
    pub with_ow: u8,
    /// How often `--with-wl` (Waverless) was given.
    pub with_wl: u8,
    /// How often `--bench-mode` was given.
    pub bench_mode: u8,
    /// How often `--first-call-mode` was given.
    pub first_call_mode: u8,
    /// Path of the cluster configuration file.
    pub config: String,
}

/// The application part of a target: the text before its first `/`, when there is one.
pub open spec fn target_app(app_fn: Seq<char>) -> Option<Seq<char>> {
    if has_char(app_fn, '/') {
        Some(before_first(app_fn, '/'))
    } else {
        None
    }
}

/// The function part of a target: the text after the first `/` up to the next
/// `/` or the end, when there is a `/`.
pub open spec fn target_func(app_fn: Seq<char>) -> Option<Seq<char>> {
    if has_char(app_fn, '/') {
        Some(before_first(after_first(app_fn, '/'), '/'))
    } else {
        None
    }
}

/// Why a command line's target is refused.
#[derive(Clone, Copy, Debug, PartialEq, Eq, Structural)]
pub enum TargetError {
    /// The target holds no `/`, so it names no application.
    MissingApp,
    /// The target holds no `/`, so it names no function.
    MissingFunc,
    /// The application is not configured.
    UnknownApp,
    /// The application has no such function.
    UnknownFunc,
}

/// What checking the target `app_fn` against `cfg` gives.
pub open spec fn target_check(app_fn: Seq<char>, cfg: Config) -> Result<(), TargetError> {
    match (target_app(app_fn), target_func(app_fn)) {
        (None, _) => Err(TargetError::MissingApp),
        (_, None) => Err(TargetError::MissingFunc),
        (Some(a), Some(f)) => if !cfg.models@.contains_key(a) {
            Err(TargetError::UnknownApp)
        } else if !cfg.models@[a].fns@.contains_key(f) {
            Err(TargetError::UnknownFunc)
        } else {
            Ok(())
        },
    }
}

impl Cli {
    /// The path of the cluster configuration file.
    pub open spec fn config_path(&self) -> Seq<char> {
        self.config@
    }

    /// The target applications: the one named by the target.
    pub fn target_apps(&self) -> (r: Vec<String>)
        requires
            target_app(self.app_fn@) is Some,
        ensures
            r@.len() == 1,
            r@[0]@ == target_app(self.app_fn@).unwrap(),
    {
        let app = self.app();
        let a = app.unwrap();
        let mut r: Vec<String> = Vec::new();
        r.push(a);
        r
    }

    /// The application named by the target.
    pub fn app(&self) -> (r: Option<String>)
        ensures
            match r {
                Some(a) => target_app(self.app_fn@) == Some(a@),
                None => target_app(self.app_fn@) is None,
            },
    {
        let s = self.app_fn.as_str();
        if find_char(s, '/').is_none() {
            return None;
        }
        Some(text_before(s, '/'))
    }

    /// The function named by the target.
    pub fn func(&self) -> (r: Option<String>)
        ensures
            match r {
                Some(f) => target_func(self.app_fn@) == Some(f@),
                None => target_func(self.app_fn@) is None,
            },
    {
        let s = self.app_fn.as_str();
        match text_after(s, '/') {
            Some(rest) => Some(text_before(rest.as_str(), '/')),
            None => None,
        }
    }

    /// Whether the target names a configured application and one of its
    /// functions, and if not, why.
    pub fn validate_app_fn(&self, config: &Config) -> (r: Result<(), TargetError>)
        ensures
            r == target_check(self.app_fn@, *config),
    {
        let app = match self.app() {
            Some(a) => a,
            None => return Err(TargetError::MissingApp),
        };
        let func = match self.func() {
            Some(f) => f,
            None => return Err(TargetError::MissingFunc),
        };
        match config.get(app.as_str()) {
            None => Err(TargetError::UnknownApp),
            Some(entry) => if entry.fns.contains_key(func.as_str()) {
                Ok(())
            } else {
                Err(TargetError::UnknownFunc)
            },
        }
    }

    /// Whether at most one platform was chosen.
    pub fn platform_choice_ok(&self) -> (r: bool)
        ensures
            r == !(self.with_ow > 0 && self.with_wl > 0),
    {
        !(self.with_ow > 0 && self.with_wl > 0)
    }

    /// Whether at most one test mode was chosen.
    pub fn mode_choice_ok(&self) -> (r: bool)
        ensures
            r == (self.bench_mode + self.first_call_mode <= 1),
    {
        (self.bench_mode as u16) + (self.first_call_mode as u16) <= 1
    }

    /// Confirms that the target names a configured application and one of its
    /// functions; returns the command line itself.
    pub fn check_app_fn(&self, config: &Config) -> (r: &Self)
        requires
            target_check(self.app_fn@, *config) is Ok,
        ensures
            r == self,
    {
        self
    }

    /// Confirms that at most one platform was chosen; returns the command line itself.
    pub fn check_platform(&self) -> (r: &Self)
        requires
            !(self.with_ow > 0 && self.with_wl > 0),
        ensures
            r == self,
    {
        self
    }

    /// Confirms that at most one test mode was chosen; returns the command line itself.
    pub fn check_mode(&self) -> (r: &Self)
        requires
            self.bench_mode + self.first_call_mode <= 1,
        ensures
            r == self,
    {
        self
    }

    /// The path of the cluster configuration file.
    pub fn cluster_config(&self) -> (r: String)
        ensures
            r@ == self.config_path(),
    {
        self.config.clone()
    }
}

/// A target made of an application and a function joined by one `/` is split
/// back into that application and that function.
pub proof fn lemma_target_split(app: Seq<char>, func: Seq<char>)
    requires
        !has_char(app, '/'),
        !has_char(func, '/'),
    ensures
        target_app(app + seq!['/'] + func) == Some(app),
        target_func(app + seq!['/'] + func) == Some(func),
{
    let s = app + seq!['/'] + func;
    assert(s[app.len() as int] == '/');
    assert forall|j: int| 0 <= j < app.len() implies s[j] != '/' by {
        assert(s[j] == app[j]);
    }
    lemma_first_pos(s, '/', app.len() as int);
    assert(s.take(app.len() as int) =~= app);
    assert(s.skip(app.len() as int + 1) =~= func);
    assert(func.take(func.len() as int) =~= func);
    assert(!has_char(func, '/'));
}

/// A target without `/` names neither an application nor a function.
pub proof fn lemma_target_without_slash(app_fn: Seq<char>)
    requires
        !has_char(app_fn, '/'),
    ensures
        target_app(app_fn) is None,
        target_func(app_fn) is None,
{
}

/// The benchmark runs in bench mode.
pub fn is_bench_mode(cli: &Cli) -> (r: bool)
    ensures
        r == (cli.bench_mode > 0),
{
    cli.bench_mode > 0
}

/// The benchmark measures first (cold) calls.
pub fn is_first_call_mode(cli: &Cli) -> (r: bool)
    ensures
        r == (cli.first_call_mode > 0),
{
    cli.first_call_mode > 0
}

/// The benchmark prepares data and binaries.
pub fn is_prepare_mode(cli: &Cli) -> (r: bool)
    ensures
        r == (cli.prepare > 0),
{
    cli.prepare > 0
}

/// The benchmark makes single calls: neither bench nor first-call mode.
pub fn is_once_mode(cli: &Cli) -> (r: bool)
    ensures
        r == (cli.bench_mode == 0 && cli.first_call_mode == 0),
{
    !is_bench_mode(cli) && !is_first_call_mode(cli)
}

} // verus!
