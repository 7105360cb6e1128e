//! Where the external programs are: each tool is looked for in the virtual
//! environment's `bin`, then in `./bin/`, and otherwise left to `PATH`.
//!
//! Looking at the disk is the caller's part: it checks the paths that
//! [`probe_targets`] lists and hands the answers over as a [`ToolProbe`].
use vstd::prelude::*;
use crate::link::{push_arg, views};
use crate::providers::{join_path, path_join};
use crate::strings::{cat, owned, str_eq};

verus! {

/// The programs the pipeline runs.
#[derive(Debug, Clone)]
pub struct BinPaths {
    pub ffmpeg: String,
    pub ffprobe: String,
    pub ytdlp: String,
    pub fasterwhisper: String,
    pub whisperx: String,
    pub whisperkit: String,
    pub whispercpp: String,
    pub edge_tts: String,
    pub mlx_whisper: String,
    pub mlx_audio: String,
}

impl Default for BinPaths {
    fn default() -> (r: Self)
        ensures
            r.ffmpeg@.len() == 0 && r.ffprobe@.len() == 0 && r.ytdlp@.len() == 0
                && r.fasterwhisper@.len() == 0 && r.whisperx@.len() == 0 && r.whisperkit@.len()
                == 0 && r.whispercpp@.len() == 0 && r.edge_tts@.len() == 0 && r.mlx_whisper@.len()
                == 0 && r.mlx_audio@.len() == 0,
    {
        BinPaths {
            ffmpeg: String::new(),
            ffprobe: String::new(),
            ytdlp: String::new(),
            fasterwhisper: String::new(),
            whisperx: String::new(),
            whisperkit: String::new(),
            whispercpp: String::new(),
            edge_tts: String::new(),
            mlx_whisper: String::new(),
            mlx_audio: String::new(),
        }
    }
}

/// What the caller found out about the paths of [`probe_targets`]: those
/// that exist on disk, and those that `which` resolves on `PATH`.
#[derive(Debug, Clone)]
pub struct ToolProbe {
    pub existing: Vec<String>,
    pub on_path: Vec<String>,
}

/// Whether `p` is one of the strings of `v`.
pub open spec fn listed(v: Seq<String>, p: Seq<char>) -> bool {
    exists|i: int| 0 <= i < v.len() && (#[trigger] v[i])@ == p
}

fn is_listed(v: &Vec<String>, p: &str) -> (r: bool)
    ensures
        r == listed(v@, p@),
{
    let mut i: usize = 0;
    while i < v.len()
        invariant
            i <= v@.len(),
            forall|k: int| 0 <= k < i ==> (#[trigger] v@[k])@ != p@,
        decreases v@.len() - i,
    {
        if str_eq(v[i].as_str(), p) {
            return true;
        }
        i = i + 1;
    }
    false
}

impl ToolProbe {
    /// `p` exists on disk.
    pub open spec fn exists_at(&self, p: Seq<char>) -> bool {
        listed(self.existing@, p)
    }

    /// `p` is a program that `which` finds.
    pub open spec fn on_path_has(&self, p: Seq<char>) -> bool {
        listed(self.on_path@, p)
    }
}

/// The places a tool called `name` is looked for, in order.
pub open spec fn candidates(name: Seq<char>, venv_bin: Option<Seq<char>>) -> Seq<Seq<char>> {
    match venv_bin {
        Some(v) => seq![path_join(v, name), "./bin/"@ + name, name],
        None => seq!["./bin/"@ + name, name],
    }
}

/// Where a tool called `name` is taken from: the virtual environment's copy
/// if it exists, else the copy in `./bin/` if it exists, else the bare name.
pub open spec fn which_spec(name: Seq<char>, venv_bin: Option<Seq<char>>, probe: ToolProbe) -> Seq<
    char,
> {
    match venv_bin {
        Some(v) if probe.exists_at(path_join(v, name)) => path_join(v, name),
        _ => if probe.exists_at("./bin/"@ + name) {
            "./bin/"@ + name
        } else {
            name
        },
    }
}

/// A tool at `path` can run: the file exists or `which` finds it.
pub open spec fn available(path: Seq<char>, probe: ToolProbe) -> bool {
    probe.exists_at(path) || probe.on_path_has(path)
}

/// Where a tool called `name` is taken from (see [`which_spec`]).
pub fn which(name: &str, venv_bin: Option<&str>, probe: &ToolProbe) -> (r: String)
    ensures
        r@ == which_spec(
            name@,
            match venv_bin {
                Some(v) => Some(v@),
                None => None,
            },
            *probe,
        ),
{
    match venv_bin {
        Some(vbin) => {
            let venv_path = join_path(vbin, name);
            if is_listed(&probe.existing, venv_path.as_str()) {
                return venv_path;
            }
        },
        None => {},
    }
    let local = cat("./bin/", name);
    if is_listed(&probe.existing, local.as_str()) {
        local
    } else {
        owned(name)
    }
}

/// Whether the tool at `path` can run.
pub fn is_available(path: &str, probe: &ToolProbe) -> (r: bool)
    ensures
        r == available(path@, *probe),
{
    is_listed(&probe.existing, path) || is_listed(&probe.on_path, path)
}

/// The first of `names` whose location can run, if any.
pub open spec fn first_available(
    names: Seq<Seq<char>>,
    venv_bin: Option<Seq<char>>,
    probe: ToolProbe,
) -> Option<Seq<char>>
    decreases names.len(),
{
    if names.len() == 0 {
        None
    } else if available(which_spec(names[0], venv_bin, probe), probe) {
        Some(which_spec(names[0], venv_bin, probe))
    } else {
        first_available(names.drop_first(), venv_bin, probe)
    }
}

/// The location of the first of `names` that can run, or the first name.
pub open spec fn which_any_spec(
    names: Seq<Seq<char>>,
    venv_bin: Option<Seq<char>>,
    probe: ToolProbe,
) -> Seq<char> {
    match first_available(names, venv_bin, probe) {
        Some(p) => p,
        None => names[0],
    }
}

/// The location of the first of `names` that can run, or the first name.
pub fn which_any(names: &[&str], venv_bin: Option<&str>, probe: &ToolProbe) -> (r: String)
    requires
        names@.len() > 0,
    ensures
        r@ == which_any_spec(
            names@.map_values(|n: &str| n@),
            match venv_bin {
                Some(v) => Some(v@),
                None => None,
            },
            *probe,
        ),
{
    let ghost all = names@.map_values(|n: &str| n@);
    let ghost venv = match venv_bin {
        Some(v) => Some(v@),
        None => None,
    };
    let mut i: usize = 0;
    assert(all.skip(0) =~= all);
    while i < names.len()
        invariant
            i <= names@.len(),
            names@.len() > 0,
            all == names@.map_values(|n: &str| n@),
            venv == match venv_bin {
                Some(v) => Some(v@),
                None => None::<Seq<char>>,
            },
            first_available(all, venv, *probe) == first_available(all.skip(i as int), venv, *probe),
        decreases names@.len() - i,
    {
        assert(all.skip(i as int)[0] == names@[i as int]@);
        assert(all.skip(i as int).drop_first() =~= all.skip(i + 1));
        let path = which(names[i], venv_bin, probe);
        if is_available(path.as_str(), probe) {
            return path;
        }
        i = i + 1;
    }
    assert(all.skip(i as int) =~= Seq::<Seq<char>>::empty());
    owned(names[0])
}


/// The tools looked for, by name.
pub open spec fn tool_names() -> Seq<Seq<char>> {
    seq!["ffmpeg"@, "ffprobe"@, "yt-dlp"@, "fasterwhisper"@, "whisperx"@, "whisperkit-cli"@,
        "whisperkit"@, "whisper-cpp"@, "edge-tts"@, "mlx_whisper"@, "mlx_audio"@, "python3"@]
}

/// The places of all of `names`, one name after another.
pub open spec fn all_candidates(names: Seq<Seq<char>>, venv_bin: Option<Seq<char>>) -> Seq<
    Seq<char>,
>
    decreases names.len(),
{
    if names.len() == 0 {
        seq![]
    } else {
        all_candidates(names.drop_last(), venv_bin) + candidates(names.last(), venv_bin)
    }
}

fn tool_name_list() -> (r: [&'static str; 12])
    ensures
        r@.map_values(|n: &str| n@) == tool_names(),
{
    let r = ["ffmpeg", "ffprobe", "yt-dlp", "fasterwhisper", "whisperx", "whisperkit-cli",
        "whisperkit", "whisper-cpp", "edge-tts", "mlx_whisper", "mlx_audio", "python3"];
    assert(r@.map_values(|n: &str| n@) =~= tool_names());
    r
}

/// The paths and names whose presence decides the detection: each tool's
/// place in the virtual environment (when there is one), in `./bin/`, and
/// its bare name.
pub fn probe_targets(venv_bin: Option<&str>) -> (r: Vec<String>)
    ensures
        views(r@) == all_candidates(
            tool_names(),
            match venv_bin {
                Some(v) => Some(v@),
                None => None,
            },
        ),
{
    let ghost venv = match venv_bin {
        Some(v) => Some(v@),
        None => None,
    };
    let names = tool_name_list();
    let ghost all = tool_names();
    let mut r: Vec<String> = Vec::new();
    let mut i: usize = 0;
    while i < names.len()
        invariant
            i <= 12,
            names@.len() == 12,
            names@.map_values(|n: &str| n@) == all,
            all == tool_names(),
            venv == match venv_bin {
                Some(v) => Some(v@),
                None => None::<Seq<char>>,
            },
            views(r@) == all_candidates(all.take(i as int), venv),
        decreases 12 - i,
    {
        let name = names[i];
        assert(all.take(i + 1).drop_last() =~= all.take(i as int));
        assert(all.take(i + 1).last() == name@);
        let ghost before = views(r@);
        match venv_bin {
            Some(v) => {
                let p = join_path(v, name);
                push_arg(&mut r, p.as_str());
            },
            None => {},
        }
        let local = cat("./bin/", name);
        push_arg(&mut r, local.as_str());
        push_arg(&mut r, name);
        assert(views(r@) =~= before + candidates(name@, venv));
        i = i + 1;
    }
    assert(all.take(12) =~= all);
    r
}

/// `b` holds where each tool is taken from (see [`which_spec`]); WhisperKit
/// is `whisperkit-cli` or `whisperkit`, MLX Audio is `mlx_audio` or
/// `python3`, whichever comes first that can run.
pub open spec fn located(b: BinPaths, venv: Option<Seq<char>>, probe: ToolProbe) -> bool {
    &&& b.ffmpeg@ == which_spec("ffmpeg"@, venv, probe)
    &&& b.ffprobe@ == which_spec("ffprobe"@, venv, probe)
    &&& b.ytdlp@ == which_spec("yt-dlp"@, venv, probe)
    &&& b.fasterwhisper@ == which_spec("fasterwhisper"@, venv, probe)
    &&& b.whisperx@ == which_spec("whisperx"@, venv, probe)
    &&& b.whisperkit@ == which_any_spec(seq!["whisperkit-cli"@, "whisperkit"@], venv, probe)
    &&& b.whispercpp@ == which_spec("whisper-cpp"@, venv, probe)
    &&& b.edge_tts@ == which_spec("edge-tts"@, venv, probe)
    &&& b.mlx_whisper@ == which_spec("mlx_whisper"@, venv, probe)
    &&& b.mlx_audio@ == which_any_spec(seq!["mlx_audio"@, "python3"@], venv, probe)
}

impl BinPaths {
    /// Locate every tool: the virtual environment's `bin` first, then
    /// `./bin/`, then `PATH`.
    pub fn detect_with_venv(venv_bin: Option<&str>, probe: &ToolProbe) -> (r: Self)
        ensures
            located(
                r,
                match venv_bin {
                    Some(v) => Some(v@),
                    None => None,
                },
                *probe,
            ),
    {
        let kit = ["whisperkit-cli", "whisperkit"];
        let mlx = ["mlx_audio", "python3"];
        proof {
            reveal_strlit("whisperkit-cli");
            reveal_strlit("mlx_audio");
        }
        assert(kit@.map_values(|n: &str| n@) =~= seq!["whisperkit-cli"@, "whisperkit"@]);
        assert(mlx@.map_values(|n: &str| n@) =~= seq!["mlx_audio"@, "python3"@]);
        BinPaths {
            ffmpeg: which("ffmpeg", venv_bin, probe),
            ffprobe: which("ffprobe", venv_bin, probe),
            ytdlp: which("yt-dlp", venv_bin, probe),
            fasterwhisper: which("fasterwhisper", venv_bin, probe),
            whisperx: which("whisperx", venv_bin, probe),
            whisperkit: which_any(kit.as_slice(), venv_bin, probe),
            whispercpp: which("whisper-cpp", venv_bin, probe),
            edge_tts: which("edge-tts", venv_bin, probe),
            mlx_whisper: which("mlx_whisper", venv_bin, probe),
            mlx_audio: which_any(mlx.as_slice(), venv_bin, probe),
        }
    }

    /// Locate every tool without a virtual environment.
    pub fn detect(probe: &ToolProbe) -> (r: Self)
        ensures
            located(r, None, *probe),
    {
        Self::detect_with_venv(None, probe)
    }

    /// The tools to report as found, with their locations: those whose
    /// location exists or whose name `which` finds.
    pub fn detected(&self, probe: &ToolProbe) -> (r: Vec<(String, String)>)
        ensures
            r@.map_values(|p: (String, String)| (p.0@, p.1@)) == found_tools(
                seq![("ffmpeg"@, self.ffmpeg@), ("ffprobe"@, self.ffprobe@), ("yt-dlp"@,
                self.ytdlp@), ("fasterwhisper"@, self.fasterwhisper@), ("whisperkit"@,
                self.whisperkit@), ("whisper-cpp"@, self.whispercpp@), ("edge-tts"@,
                self.edge_tts@), ("mlx_whisper"@, self.mlx_whisper@)],
                *probe,
            ),
    {
        let ghost all = seq![("ffmpeg"@, self.ffmpeg@), ("ffprobe"@, self.ffprobe@), (
            "yt-dlp"@,
            self.ytdlp@,
        ), ("fasterwhisper"@, self.fasterwhisper@), ("whisperkit"@, self.whisperkit@), (
            "whisper-cpp"@,
            self.whispercpp@,
        ), ("edge-tts"@, self.edge_tts@), ("mlx_whisper"@, self.mlx_whisper@)];
        let names = ["ffmpeg", "ffprobe", "yt-dlp", "fasterwhisper", "whisperkit", "whisper-cpp",
            "edge-tts", "mlx_whisper"];
        let paths = [&self.ffmpeg, &self.ffprobe, &self.ytdlp, &self.fasterwhisper,
            &self.whisperkit, &self.whispercpp, &self.edge_tts, &self.mlx_whisper];
        let mut r: Vec<(String, String)> = Vec::new();
        let mut i: usize = 0;
        while i < 8
            invariant
                i <= 8,
                names@.len() == 8,
                paths@.len() == 8,
                forall|k: int| 0 <= k < 8 ==> (#[trigger] all[k]) == (names@[k]@, paths@[k]@),
                all.len() == 8,
                r@.map_values(|p: (String, String)| (p.0@, p.1@)) == found_tools(
                    all.take(i as int),
                    *probe,
                ),
            decreases 8 - i,
        {
            assert(all.take(i + 1).drop_last() =~= all.take(i as int));
            assert(all.take(i + 1).last() == all[i as int]);
            report_if_found(&mut r, names[i], paths[i], probe);
            i = i + 1;
        }
        assert(all.take(8) =~= all);
        r
    }

    /// Warnings for missing tools: `ffmpeg` and `ffprobe` are required,
    /// `yt-dlp` only for downloads.
    pub fn validate(&self, probe: &ToolProbe) -> (r: Vec<String>)
        ensures
            views(r@) == (if available(self.ffmpeg@, *probe) {
                seq![]
            } else {
                seq!["⚠️  ffmpeg not found — required for audio/video processing"@]
            }) + (if available(self.ffprobe@, *probe) {
                seq![]
            } else {
                seq!["⚠️  ffprobe not found — required for media analysis"@]
            }) + (if available(self.ytdlp@, *probe) {
                seq![]
            } else {
                seq!["ℹ️  yt-dlp not found — URL downloads will not work"@]
            }),
    {
        let mut r: Vec<String> = Vec::new();
        let ghost s0 = views(r@);
        if !is_available(self.ffmpeg.as_str(), probe) {
            push_arg(&mut r, "⚠️  ffmpeg not found — required for audio/video processing");
        }
        let ghost s1 = views(r@);
        if !is_available(self.ffprobe.as_str(), probe) {
            push_arg(&mut r, "⚠️  ffprobe not found — required for media analysis");
        }
        let ghost s2 = views(r@);
        if !is_available(self.ytdlp.as_str(), probe) {
            push_arg(&mut r, "ℹ️  yt-dlp not found — URL downloads will not work");
        }
        assert(views(r@) =~= (if available(self.ffmpeg@, *probe) {
            seq![]
        } else {
            seq!["⚠️  ffmpeg not found — required for audio/video processing"@]
        }) + (if available(self.ffprobe@, *probe) {
            seq![]
        } else {
            seq!["⚠️  ffprobe not found — required for media analysis"@]
        }) + (if available(self.ytdlp@, *probe) {
            seq![]
        } else {
            seq!["ℹ️  yt-dlp not found — URL downloads will not work"@]
        }));
        r
    }
}

/// The pairs (name, location) of `tools` whose location exists or whose
/// name `which` finds, in order.
pub open spec fn found_tools(tools: Seq<(Seq<char>, Seq<char>)>, probe: ToolProbe) -> Seq<
    (Seq<char>, Seq<char>),
>
    decreases tools.len(),
{
    if tools.len() == 0 {
        seq![]
    } else {
        let t = tools.last();
        found_tools(tools.drop_last(), probe) + if probe.exists_at(t.1) || probe.on_path_has(t.0) {
            seq![t]
        } else {
            seq![]
        }
    }
}

fn report_if_found(r: &mut Vec<(String, String)>, name: &str, path: &String, probe: &ToolProbe)
    ensures
        final(r)@.map_values(|p: (String, String)| (p.0@, p.1@)) == old(r)@.map_values(
            |p: (String, String)| (p.0@, p.1@),
        ) + if probe.exists_at(path@) || probe.on_path_has(name@) {
            seq![(name@, path@)]
        } else {
            seq![]
        },
{
    if is_listed(&probe.existing, path.as_str()) || is_listed(&probe.on_path, name) {
        r.push((owned(name), owned(path.as_str())));
    }
    assert(r@.map_values(|p: (String, String)| (p.0@, p.1@)) =~= old(r)@.map_values(
        |p: (String, String)| (p.0@, p.1@),
    ) + if probe.exists_at(path@) || probe.on_path_has(name@) {
        seq![(name@, path@)]
    } else {
        seq![]
    });
}

} // verus!
