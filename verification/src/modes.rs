//! The benchmarked platform, test mode and application, as selected on the
//! command line, and their names in result records.
use vstd::prelude::*;
use crate::cli::Cli;

verus! {

/// The serverless platform under test.
#[derive(Clone, Copy, Debug, PartialEq, Eq, Structural)]
pub enum Platform {
    OpenWhisk,
    Waverless,
    Raw,
}

/// How functions are called.
#[derive(Clone, Copy, Debug, PartialEq, Eq, Structural)]
pub enum TestMode {
    Once,
    FirstCall,
    Bench,
}

/// A benchmark application.
#[derive(Clone, Copy, Debug, PartialEq, Eq, Structural)]
pub enum App {
    ImgResize,
    WordCount,
    Parallel,
    Sequential,
}

impl Platform {
    /// The platform chosen on the command line: OpenWhisk first, then
    /// Waverless, otherwise none (raw).
    pub fn from(cli: &Cli) -> (r: Platform)
        ensures
            r == (if cli.with_ow > 0 {
                Platform::OpenWhisk
            } else if cli.with_wl > 0 {
                Platform::Waverless
            } else {
                Platform::Raw
            }),
    {
        if cli.with_ow > 0 {
            Platform::OpenWhisk
        } else if cli.with_wl > 0 {
            Platform::Waverless
        } else {
            Platform::Raw
        }
    }

    /// Short name of the platform.
    pub open spec fn name(self) -> Seq<char> {
        match self {
            Platform::OpenWhisk => "ow"@,
            Platform::Waverless => "wl"@,
            Platform::Raw => "raw"@,
        }
    }

    /// Short name of the platform: `ow`, `wl` or `raw`.
    pub fn to_string(&self) -> (r: String)
        ensures
            r@ == self.name(),
    {
        match self {
            Platform::OpenWhisk => "ow".to_owned(),
            Platform::Waverless => "wl".to_owned(),
            Platform::Raw => "raw".to_owned(),
        }
    }
}

impl TestMode {
    /// The mode chosen on the command line: bench first, then first-call,
    /// otherwise single calls.
    pub fn from(cli: &Cli) -> (r: TestMode)
        ensures
            r == mode_of(*cli),
    {
        if cli.bench_mode > 0 {
            TestMode::Bench
        } else if cli.first_call_mode > 0 {
            TestMode::FirstCall
        } else {
            TestMode::Once
        }
    }

    /// Name of the mode.
    pub open spec fn name(self) -> Seq<char> {
        match self {
            TestMode::Once => "once"@,
            TestMode::FirstCall => "first_call"@,
            TestMode::Bench => "bench"@,
        }
    }

    /// Name of the mode: `once`, `first_call` or `bench`.
    pub fn to_string(&self) -> (r: String)
        ensures
            r@ == self.name(),
    {
        match self {
            TestMode::Once => "once".to_owned(),
            TestMode::FirstCall => "first_call".to_owned(),
            TestMode::Bench => "bench".to_owned(),
        }
    }
}

impl App {
    /// Name of the application.
    pub open spec fn name(self) -> Seq<char> {
        match self {
            App::ImgResize => "img_resize"@,
            App::WordCount => "word_count"@,
            App::Parallel => "parallel"@,
            App::Sequential => "sequential"@,
        }
    }

    /// Name of the application: `img_resize`, `word_count`, `parallel` or `sequential`.
    pub fn to_string(&self) -> (r: String)
        ensures
            r@ == self.name(),
    {
        match self {
            App::ImgResize => "img_resize".to_owned(),
            App::WordCount => "word_count".to_owned(),
            App::Parallel => "parallel".to_owned(),
            App::Sequential => "sequential".to_owned(),
        }
    }
}

/// Different platforms have different names.
pub proof fn lemma_platform_names_distinct(a: Platform, b: Platform)
    requires
        a != b,
    ensures
        a.name() != b.name(),
{
    reveal_strlit("ow");
    reveal_strlit("wl");
    reveal_strlit("raw");
    assert(a.name().len() != b.name().len() || a.name()[0] != b.name()[0]);
}

/// Different modes have different names.
pub proof fn lemma_mode_names_distinct(a: TestMode, b: TestMode)
    requires
        a != b,
    ensures
        a.name() != b.name(),
{
    reveal_strlit("once");
    reveal_strlit("first_call");
    reveal_strlit("bench");
    assert(a.name().len() != b.name().len() || a.name()[0] != b.name()[0]);
}

/// Different applications have different names.
pub proof fn lemma_app_names_distinct(a: App, b: App)
    requires
        a != b,
    ensures
        a.name() != b.name(),
{
    reveal_strlit("img_resize");
    reveal_strlit("word_count");
    reveal_strlit("parallel");
    reveal_strlit("sequential");
    assert(a.name().len() != b.name().len() || a.name()[0] != b.name()[0]);
}

/// The mode selected by a command line: bench first, then first-call,
/// otherwise single calls.
pub open spec fn mode_of(cli: Cli) -> TestMode {
    if cli.bench_mode > 0 {
        TestMode::Bench
    } else if cli.first_call_mode > 0 {
        TestMode::FirstCall
    } else {
        TestMode::Once
    }
}

/// The selected mode and the mode predicates agree: the mode is `Bench`
/// exactly in bench mode, `Once` exactly in once mode, and `FirstCall`
/// exactly in first-call mode without bench mode.
pub proof fn lemma_mode_agrees(cli: Cli)
    ensures
        (mode_of(cli) == TestMode::Bench) <==> cli.bench_mode > 0,
        (mode_of(cli) == TestMode::Once) <==> (cli.bench_mode == 0 && cli.first_call_mode == 0),
        (mode_of(cli) == TestMode::FirstCall) <==> (cli.bench_mode == 0 && cli.first_call_mode > 0),
{
}

} // verus!
