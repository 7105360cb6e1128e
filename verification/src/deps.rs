//! Which external tools a configuration needs, and which of them to install.
use vstd::prelude::*;
use crate::config::{Config, TranscribeProvider, TtsProvider};
use crate::link::{push_arg, views};

verus! {

/// How a dependency is installed.
#[derive(Debug, Clone, Copy, PartialEq, Eq)]
pub enum DepKind {
    /// A Homebrew formula.
    Brew(&'static str),
    /// A pip package in the managed virtual environment.
    Pip(&'static str),
}

/// How a dependency is found to be installed.
#[derive(Debug, Clone, Copy, PartialEq, Eq)]
pub enum Check {
    /// A binary on the `PATH` (`which <binary>`).
    Binary(&'static str),
    /// A pip package in the virtual environment (`pip show <pkg>`).
    PipPkg(&'static str),
}

/// A dependency that may need to be installed.
#[derive(Debug, Clone, Copy)]
pub struct Dep {
    pub name: &'static str,
    pub kind: DepKind,
    pub check: Check,
}

/// A dependency in plain terms: its name, whether pip installs it (else
/// Homebrew), and the formula or package name. How its presence is checked
/// follows from the kind (see [`required_dependencies`]).
pub open spec fn dep_view(d: Dep) -> (Seq<char>, bool, Seq<char>) {
    match d.kind {
        DepKind::Brew(f) => (d.name@, false, f@),
        DepKind::Pip(p) => (d.name@, true, p@),
    }
}

/// The dependencies of `c`: ffmpeg and yt-dlp always, then the speech
/// recognition tool, then the speech synthesis tool.
pub open spec fn required(c: Config) -> Seq<(Seq<char>, bool, Seq<char>)> {
    let base = seq![("ffmpeg"@, false, "ffmpeg"@), ("yt-dlp"@, false, "yt-dlp"@)];
    let asr = match c.transcribe.provider {
        TranscribeProvider::Fasterwhisper => seq![("faster-whisper"@, true, "faster-whisper"@)],
        TranscribeProvider::Whispercpp => seq![("whisper-cpp"@, false, "whisper-cpp"@)],
        TranscribeProvider::Whisperkit => seq![("whisperkit-cli"@, false, "whisperkit-cli"@)],
        TranscribeProvider::MlxWhisper => seq![("mlx-whisper"@, true, "mlx-whisper"@)],
        _ => Seq::empty(),
    };
    let tts = match c.tts.provider {
        TtsProvider::EdgeTts => seq![("edge-tts"@, true, "edge-tts"@)],
        TtsProvider::MlxAudio => seq![("mlx-audio"@, true, "mlx-audio"@)],
        _ => Seq::empty(),
    };
    base + asr + tts
}

/// The tool a speech recognition provider runs on this machine, if any.
pub open spec fn local_asr_tool(p: TranscribeProvider) -> bool {
    p == TranscribeProvider::Fasterwhisper || p == TranscribeProvider::Whispercpp || p
        == TranscribeProvider::Whisperkit || p == TranscribeProvider::MlxWhisper
}

/// Every tool the configured providers run here is required, installed the
/// way it is distributed (pip for Python packages, Homebrew otherwise);
/// ffmpeg and yt-dlp always are; and nothing else is: remote providers
/// (OpenAI, Aliyun) need no tool.
pub proof fn local_tools_are_required(c: Config)
    ensures
        required(c).contains(("ffmpeg"@, false, "ffmpeg"@)),
        required(c).contains(("yt-dlp"@, false, "yt-dlp"@)),
        c.transcribe.provider == TranscribeProvider::Fasterwhisper ==> required(c).contains(
            ("faster-whisper"@, true, "faster-whisper"@),
        ),
        c.transcribe.provider == TranscribeProvider::Whispercpp ==> required(c).contains(
            ("whisper-cpp"@, false, "whisper-cpp"@),
        ),
        c.transcribe.provider == TranscribeProvider::Whisperkit ==> required(c).contains(
            ("whisperkit-cli"@, false, "whisperkit-cli"@),
        ),
        c.transcribe.provider == TranscribeProvider::MlxWhisper ==> required(c).contains(
            ("mlx-whisper"@, true, "mlx-whisper"@),
        ),
        c.tts.provider == TtsProvider::EdgeTts ==> required(c).contains(
            ("edge-tts"@, true, "edge-tts"@),
        ),
        c.tts.provider == TtsProvider::MlxAudio ==> required(c).contains(
            ("mlx-audio"@, true, "mlx-audio"@),
        ),
        required(c).len() == 2 + (if local_asr_tool(c.transcribe.provider) { 1int } else { 0int })
            + (if c.tts.provider == TtsProvider::EdgeTts || c.tts.provider == TtsProvider::MlxAudio {
            1int
        } else {
            0int
        }),
{
    let r = required(c);
    assert(r[0] == ("ffmpeg"@, false, "ffmpeg"@));
    assert(r[1] == ("yt-dlp"@, false, "yt-dlp"@));
    if local_asr_tool(c.transcribe.provider) {
        assert(r.contains(r[2]));
    }
    if c.tts.provider == TtsProvider::EdgeTts || c.tts.provider == TtsProvider::MlxAudio {
        assert(r.contains(r[r.len() - 1]));
    }
}

fn brew(name: &'static str) -> (d: Dep)
    ensures
        dep_view(d) == (name@, false, name@),
        d.check == Check::Binary(name),
        d.kind == DepKind::Brew(name),
{
    Dep { name, kind: DepKind::Brew(name), check: Check::Binary(name) }
}

fn pip(name: &'static str) -> (d: Dep)
    ensures
        dep_view(d) == (name@, true, name@),
        d.check == Check::PipPkg(name),
        d.kind == DepKind::Pip(name),
{
    Dep { name, kind: DepKind::Pip(name), check: Check::PipPkg(name) }
}

/// The dependencies that the configured providers need; tools installed by
/// Homebrew are checked on the `PATH`, pip packages in the environment.
pub fn required_dependencies(config: &Config) -> (r: Vec<Dep>)
    ensures
        r@.map_values(|d: Dep| dep_view(d)) == required(*config),
        forall|i: int|
            0 <= i < r@.len() ==> match (#[trigger] r@[i]).kind {
                DepKind::Brew(f) => r@[i].check == Check::Binary(f),
                DepKind::Pip(p) => r@[i].check == Check::PipPkg(p),
            },
{
    let mut r: Vec<Dep> = Vec::new();
    r.push(brew("ffmpeg"));
    r.push(brew("yt-dlp"));
    match config.transcribe.provider {
        TranscribeProvider::Fasterwhisper => r.push(pip("faster-whisper")),
        TranscribeProvider::Whispercpp => r.push(brew("whisper-cpp")),
        TranscribeProvider::Whisperkit => r.push(brew("whisperkit-cli")),
        TranscribeProvider::MlxWhisper => r.push(pip("mlx-whisper")),
        _ => {},
    }
    match config.tts.provider {
        TtsProvider::EdgeTts => r.push(pip("edge-tts")),
        TtsProvider::MlxAudio => r.push(pip("mlx-audio")),
        _ => {},
    }
    assert(r@.map_values(|d: Dep| dep_view(d)) =~= required(*config));
    r
}

/// Whether any dependency is a pip package, so that a virtual environment
/// is needed.
pub fn needs_venv(deps: &Vec<Dep>) -> (r: bool)
    ensures
        r == exists|i: int| 0 <= i < deps@.len() && (#[trigger] deps@[i]).kind is Pip,
{
    let mut i: usize = 0;
    while i < deps.len()
        invariant
            i <= deps@.len(),
            forall|k: int| 0 <= k < i ==> !((#[trigger] deps@[k]).kind is Pip),
        decreases deps@.len() - i,
    {
        if let DepKind::Pip(_) = deps[i].kind {
            return true;
        }
        i = i + 1;
    }
    false
}

/// The dependencies of `deps` not found installed (`installed[i]` tells for
/// `deps[i]`) that pip installs (`pip`) or that Homebrew does (`!pip`).
pub open spec fn missing(deps: Seq<Dep>, installed: Seq<bool>, pip: bool) -> Seq<Dep>
    decreases deps.len(),
{
    if deps.len() == 0 {
        Seq::empty()
    } else {
        let rest = missing(deps.drop_last(), installed, pip);
        let i = deps.len() - 1;
        if !installed[i] && (deps.last().kind is Pip) == pip {
            rest.push(deps.last())
        } else {
            rest
        }
    }
}

/// The dependencies still to install, split into Homebrew formulas and pip
/// packages, given which of them were found installed (`installed[i]` for
/// `deps[i]`); each list keeps the order of `deps`.
pub fn missing_dependencies(deps: &Vec<Dep>, installed: &Vec<bool>) -> (r: (Vec<Dep>, Vec<Dep>))
    requires
        installed@.len() == deps@.len(),
    ensures
        r.0@ == missing(deps@, installed@, false),
        r.1@ == missing(deps@, installed@, true),
{
    let mut brew_list: Vec<Dep> = Vec::new();
    let mut pip_list: Vec<Dep> = Vec::new();
    let mut i: usize = 0;
    while i < deps.len()
        invariant
            i <= deps@.len(),
            installed@.len() == deps@.len(),
            brew_list@ == missing(deps@.take(i as int), installed@, false),
            pip_list@ == missing(deps@.take(i as int), installed@, true),
        decreases deps@.len() - i,
    {
        assert(deps@.take(i + 1).drop_last() == deps@.take(i as int));
        if !installed[i] {
            match deps[i].kind {
                DepKind::Brew(_) => brew_list.push(deps[i]),
                DepKind::Pip(_) => pip_list.push(deps[i]),
            }
        }
        i = i + 1;
    }
    assert(deps@.take(deps@.len() as int) == deps@);
    (brew_list, pip_list)
}


/// Where the managed Python environment lives.
pub const VENV_DIR: &'static str = "./venv";

/// Its programs.
pub const VENV_BIN: &'static str = "./venv/bin";

/// Its pip.
pub const VENV_PIP: &'static str = "./venv/bin/pip";

/// The pip package names of the pip dependencies among `deps`, in order.
pub open spec fn pip_packages(deps: Seq<Dep>) -> Seq<Seq<char>>
    decreases deps.len(),
{
    if deps.len() == 0 {
        seq![]
    } else {
        pip_packages(deps.drop_last()) + match deps.last().kind {
            DepKind::Pip(p) => seq![p@],
            DepKind::Brew(_) => seq![],
        }
    }
}

/// pip arguments that install all the pip dependencies among `deps` in one
/// go.
pub fn pip_install_args(deps: &Vec<Dep>) -> (r: Vec<String>)
    ensures
        views(r@) == seq!["install"@] + pip_packages(deps@),
{
    let mut r: Vec<String> = Vec::new();
    push_arg(&mut r, "install");
    let mut i: usize = 0;
    while i < deps.len()
        invariant
            i <= deps@.len(),
            views(r@) == seq!["install"@] + pip_packages(deps@.take(i as int)),
        decreases deps@.len() - i,
    {
        assert(deps@.take(i + 1).drop_last() =~= deps@.take(i as int));
        let ghost before = views(r@);
        match deps[i].kind {
            DepKind::Pip(p) => push_arg(&mut r, p),
            DepKind::Brew(_) => {},
        }
        assert(views(r@) =~= seq!["install"@] + pip_packages(deps@.take(i + 1)));
        i = i + 1;
    }
    assert(deps@.take(deps@.len() as int) =~= deps@);
    r
}

/// Arguments that install one package (`brew install <f>`, `pip install <p>`).
pub fn install_one_args(name: &str) -> (r: Vec<String>)
    ensures
        views(r@) == seq!["install"@, name@],
{
    let mut r: Vec<String> = Vec::new();
    push_arg(&mut r, "install");
    push_arg(&mut r, name);
    assert(views(r@) =~= seq!["install"@, name@]);
    r
}

/// `python3` arguments that create the managed environment.
pub fn venv_create_args() -> (r: Vec<String>)
    ensures
        views(r@) == seq!["-m"@, "venv"@, VENV_DIR@],
{
    let mut r: Vec<String> = Vec::new();
    push_arg(&mut r, "-m");
    push_arg(&mut r, "venv");
    push_arg(&mut r, VENV_DIR);
    assert(views(r@) =~= seq!["-m"@, "venv"@, VENV_DIR@]);
    r
}

/// pip arguments that upgrade pip itself.
pub fn pip_upgrade_args() -> (r: Vec<String>)
    ensures
        views(r@) == seq!["install"@, "--upgrade"@, "pip"@],
{
    let mut r: Vec<String> = Vec::new();
    push_arg(&mut r, "install");
    push_arg(&mut r, "--upgrade");
    push_arg(&mut r, "pip");
    assert(views(r@) =~= seq!["install"@, "--upgrade"@, "pip"@]);
    r
}

/// The environment's `bin` directory to use for tool lookup: only when some
/// dependency needs the environment and it exists.
pub fn venv_bin_for(needs_venv: bool, venv_exists: bool) -> (r: Option<&'static str>)
    ensures
        r == if needs_venv && venv_exists {
            Some(VENV_BIN)
        } else {
            None::<&'static str>
        },
{
    if needs_venv && venv_exists {
        Some(VENV_BIN)
    } else {
        None
    }
}

} // verus!
