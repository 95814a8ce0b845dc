//! Sharing out the arguments of a run between this tool, the launcher and the script.
use vstd::prelude::*;
use vstd::string::*;
use crate::text::{ends_with, seq_ends_with, str_eq, views};

verus! {

/// Where one argument of a run went.
#[derive(Debug, Clone, Copy, PartialEq, Eq, Structural)]
pub enum ArgClass {
    /// Read by this tool: a flag, a flag's value, the separator, the target or the entry point.
    ToolFlag,
    /// Handed to the launcher.
    LauncherArg,
    /// Handed to the script.
    ScriptArg,
}

/// The state of the scan over a run's arguments.
pub struct ScanState {
    pub target: Option<Seq<char>>,
    pub entry: Option<Seq<char>>,
    pub password: Option<Seq<char>>,
    /// `None`: no key asked for; `Some(None)`: asked for without a value.
    pub key: Option<Option<Seq<char>>>,
    pub separated: bool,
    pub launcher: Seq<Seq<char>>,
    pub script: Seq<Seq<char>>,
    pub classes: Seq<ArgClass>,
    pub launcher_help: bool,
}

/// The state before the first argument.
pub open spec fn initial_state() -> ScanState {
    ScanState {
        target: None,
        entry: None,
        password: None,
        key: None,
        separated: false,
        launcher: Seq::empty(),
        script: Seq::empty(),
        classes: Seq::empty(),
        launcher_help: false,
    }
}

/// The argument looks like a flag.
pub open spec fn is_flag_like(t: Seq<char>) -> bool {
    t.len() > 0 && t[0] == '-'
}

/// `n` copies of `ArgClass::ToolFlag`.
pub open spec fn tool_flags(n: nat) -> Seq<ArgClass> {
    Seq::new(n, |k: int| ArgClass::ToolFlag)
}

/// The scan from position `i` on, one rule per argument, the first that applies:
/// `--signed` takes the next argument as key path if there is one; `--password`
/// or `-p` must take the next argument; the first `--` separates; right after
/// the target, an argument that is not flag-like names the entry point; after
/// the separator or the target an argument goes to the script; the first
/// argument that is not flag-like is the target; `--uv-run-help` or `-hh` asks
/// the launcher for its help and ends the scan; anything else goes to the
/// launcher. `None` when a password flag has no value.
pub open spec fn scan(toks: Seq<Seq<char>>, i: nat, st: ScanState) -> Option<ScanState>
    decreases toks.len() - i,
{
    if i >= toks.len() {
        Some(st)
    } else {
        let t = toks[i as int];
        if t == "--signed"@ {
            if i + 1 < toks.len() {
                scan(
                    toks,
                    i + 2,
                    ScanState {
                        key: Some(Some(toks[i + 1 as int])),
                        classes: st.classes + seq![ArgClass::ToolFlag, ArgClass::ToolFlag],
                        ..st
                    },
                )
            } else {
                scan(
                    toks,
                    i + 1,
                    ScanState { key: Some(None), classes: st.classes.push(ArgClass::ToolFlag), ..st },
                )
            }
        } else if t == "--password"@ || t == "-p"@ {
            if i + 1 < toks.len() {
                scan(
                    toks,
                    i + 2,
                    ScanState {
                        password: Some(toks[i + 1 as int]),
                        classes: st.classes + seq![ArgClass::ToolFlag, ArgClass::ToolFlag],
                        ..st
                    },
                )
            } else {
                None
            }
        } else if t == "--"@ && !st.separated {
            scan(
                toks,
                i + 1,
                ScanState { separated: true, classes: st.classes.push(ArgClass::ToolFlag), ..st },
            )
        } else if st.target is Some && st.entry is None && !st.separated && st.script.len() == 0
            && !is_flag_like(t) {
            scan(
                toks,
                i + 1,
                ScanState { entry: Some(t), classes: st.classes.push(ArgClass::ToolFlag), ..st },
            )
        } else if st.separated || st.target is Some {
            scan(
                toks,
                i + 1,
                ScanState {
                    script: st.script.push(t),
                    classes: st.classes.push(ArgClass::ScriptArg),
                    ..st
                },
            )
        } else if !is_flag_like(t) {
            scan(
                toks,
                i + 1,
                ScanState { target: Some(t), classes: st.classes.push(ArgClass::ToolFlag), ..st },
            )
        } else if t == "--uv-run-help"@ || t == "-hh"@ {
            Some(
                ScanState {
                    launcher: st.launcher.push("--help"@),
                    launcher_help: true,
                    classes: st.classes + tool_flags((toks.len() - i) as nat),
                    ..st
                },
            )
        } else {
            scan(
                toks,
                i + 1,
                ScanState {
                    launcher: st.launcher.push(t),
                    classes: st.classes.push(ArgClass::LauncherArg),
                    ..st
                },
            )
        }
    }
}

/// The archive run when no target is given.
pub open spec fn default_target() -> Seq<char> {
    "robot.zip"@
}

/// The script run when no entry point is given.
pub open spec fn default_entry() -> Seq<char> {
    "main.py"@
}

/// The key file beside an archive: a trailing `.zip` becomes `.key`; a path
/// without it gets `.key` added.
pub open spec fn key_path_for(target: Seq<char>) -> Seq<char> {
    if seq_ends_with(target, ".zip"@) {
        target.subrange(0, target.len() - 4) + ".key"@
    } else {
        target + ".key"@
    }
}

/// The key path once the scan is over: the value given after `--signed`; else,
/// when `--signed` came without one, the environment's value, else the path
/// beside the target.
pub open spec fn resolve_key(
    key: Option<Option<Seq<char>>>,
    env_key: Option<Seq<char>>,
    target: Seq<char>,
) -> Option<Seq<char>> {
    match key {
        None => None,
        Some(Some(k)) => Some(k),
        Some(None) => match env_key {
            Some(e) => Some(e),
            None => Some(key_path_for(target)),
        },
    }
}

/// The view of an optional string.
pub open spec fn opt_string_view(s: Option<String>) -> Option<Seq<char>> {
    match s {
        Some(t) => Some(t@),
        None => None,
    }
}

/// Why the arguments could not be read.
#[derive(Debug)]
pub enum ArgError {
    /// A flag that takes a value came last.
    MissingValue(String),
    /// A flag that is not known.
    UnknownFlag(String),
    /// A second positional argument where one is taken.
    UnexpectedArgument(String),
    /// No subcommand was given.
    MissingCommand,
    /// The subcommand is not known.
    UnknownCommand(String),
}

/// The outcome of sharing out a run's arguments.
pub struct RunArgs {
    /// The archive (or script) to run.
    pub target: String,
    /// The script to run from the archive.
    pub entry: String,
    pub password: Option<String>,
    /// Where to find the public key, when verification was asked for.
    pub key_path: Option<String>,
    pub launcher_args: Vec<String>,
    pub script_args: Vec<String>,
    /// The launcher's own help was asked for; nothing is to be run.
    pub launcher_help: bool,
    /// Where each argument went, by position.
    pub classes: Vec<ArgClass>,
}

/// `a` is what the finished scan `f` gives, with `env_key` as the environment's key path.
pub open spec fn run_args_from(a: RunArgs, f: ScanState, env_key: Option<Seq<char>>) -> bool {
    let target = match f.target {
        Some(t) => t,
        None => default_target(),
    };
    &&& a.target@ == target
    &&& a.entry@ == match f.entry {
        Some(e) => e,
        None => default_entry(),
    }
    &&& opt_string_view(a.password) == f.password
    &&& opt_string_view(a.key_path) == resolve_key(f.key, env_key, target)
    &&& views(a.launcher_args@) == f.launcher
    &&& views(a.script_args@) == f.script
    &&& a.launcher_help == f.launcher_help
    &&& a.classes@ == f.classes
}

/// The key file that belongs to an archive: a trailing `.zip` becomes `.key`,
/// any other path gets `.key` added.
pub fn key_path_beside(target: &str) -> (r: String)
    ensures
        r@ == key_path_for(target@),
{
    proof {
        reveal_strlit(".zip");
    }
    if ends_with(target, ".zip") {
        let n = target.unicode_len();
        let mut r = String::from_str(target.substring_char(0, n - 4));
        r.append(".key");
        r
    } else {
        let mut r = String::from_str(target);
        r.append(".key");
        r
    }
}

fn is_flag_arg(t: &str) -> (r: bool)
    ensures
        r == is_flag_like(t@),
{
    t.unicode_len() > 0 && t.get_char(0) == '-'
}

/// Shares out the arguments that follow `run`. `env_key` is the key path from
/// the environment, used when `--signed` comes without a value. Fails when a
/// password flag has no value.
pub fn partition_run_args(toks: &Vec<String>, env_key: Option<String>) -> (r: Result<
    RunArgs,
    ArgError,
>)
    ensures
        r is Err <==> scan(views(toks@), 0, initial_state()) is None,
        r matches Ok(a) ==> run_args_from(
            a,
            scan(views(toks@), 0, initial_state())->Some_0,
            opt_string_view(env_key),
        ),
{
    let ghost tv = views(toks@);
    let n = toks.len();
    let mut target: Option<String> = None;
    let mut entry: Option<String> = None;
    let mut password: Option<String> = None;
    let mut key: Option<Option<String>> = None;
    let mut separated = false;
    let mut launcher: Vec<String> = Vec::new();
    let mut script: Vec<String> = Vec::new();
    let mut classes: Vec<ArgClass> = Vec::new();
    let mut launcher_help = false;
    let ghost mut st = initial_state();
    proof {
        assert(views(launcher@) =~= Seq::<Seq<char>>::empty());
        assert(views(script@) =~= Seq::<Seq<char>>::empty());
    }
    let mut i: usize = 0;
    while i < n
        invariant
            n == toks@.len(),
            tv == views(toks@),
            i <= n,
            !launcher_help,
            scan(tv, i as nat, st) == scan(tv, 0, initial_state()),
            opt_string_view(target) == st.target,
            opt_string_view(entry) == st.entry,
            opt_string_view(password) == st.password,
            match key {
                None => st.key is None,
                Some(k) => st.key == Some(opt_string_view(k)),
            },
            separated == st.separated,
            views(launcher@) == st.launcher,
            views(script@) == st.script,
            classes@ == st.classes,
            launcher_help == st.launcher_help,
        decreases n - i,
    {
        let t = toks[i].as_str();
        assert(tv[i as int] == t@);
        if str_eq(t, "--signed") {
            if i + 1 < n {
                assert(tv[i + 1] == toks@[i + 1]@);
                key = Some(Some(toks[i + 1].clone()));
                classes.push(ArgClass::ToolFlag);
                classes.push(ArgClass::ToolFlag);
                proof {
                    st = ScanState {
                        key: Some(Some(tv[i + 1])),
                        classes: st.classes + seq![ArgClass::ToolFlag, ArgClass::ToolFlag],
                        ..st
                    };
                    assert(classes@ =~= st.classes);
                }
                i = i + 2;
            } else {
                key = Some(None);
                classes.push(ArgClass::ToolFlag);
                proof {
                    st = ScanState {
                        key: Some(None),
                        classes: st.classes.push(ArgClass::ToolFlag),
                        ..st
                    };
                }
                i = i + 1;
            }
        } else if str_eq(t, "--password") || str_eq(t, "-p") {
            if i + 1 < n {
                assert(tv[i + 1] == toks@[i + 1]@);
                password = Some(toks[i + 1].clone());
                classes.push(ArgClass::ToolFlag);
                classes.push(ArgClass::ToolFlag);
                proof {
                    st = ScanState {
                        password: Some(tv[i + 1]),
                        classes: st.classes + seq![ArgClass::ToolFlag, ArgClass::ToolFlag],
                        ..st
                    };
                    assert(classes@ =~= st.classes);
                }
                i = i + 2;
            } else {
                return Err(ArgError::MissingValue(String::from_str(t)));
            }
        } else if str_eq(t, "--") && !separated {
            separated = true;
            classes.push(ArgClass::ToolFlag);
            proof {
                st = ScanState {
                    separated: true,
                    classes: st.classes.push(ArgClass::ToolFlag),
                    ..st
                };
            }
            i = i + 1;
        } else if target.is_some() && entry.is_none() && !separated && script.len() == 0
            && !is_flag_arg(t) {
            entry = Some(String::from_str(t));
            classes.push(ArgClass::ToolFlag);
            proof {
                st = ScanState {
                    entry: Some(t@),
                    classes: st.classes.push(ArgClass::ToolFlag),
                    ..st
                };
            }
            i = i + 1;
        } else if separated || target.is_some() {
            script.push(String::from_str(t));
            classes.push(ArgClass::ScriptArg);
            proof {
                assert(views(script@) =~= st.script.push(t@));
                st = ScanState {
                    script: st.script.push(t@),
                    classes: st.classes.push(ArgClass::ScriptArg),
                    ..st
                };
            }
            i = i + 1;
        } else if !is_flag_arg(t) {
            target = Some(String::from_str(t));
            classes.push(ArgClass::ToolFlag);
            proof {
                st = ScanState {
                    target: Some(t@),
                    classes: st.classes.push(ArgClass::ToolFlag),
                    ..st
                };
            }
            i = i + 1;
        } else if str_eq(t, "--uv-run-help") || str_eq(t, "-hh") {
            let help = String::from_str("--help");
            launcher.push(help);
            let ghost before = classes@;
            let mut j: usize = i;
            while j < n
                invariant
                    i <= j <= n,
                    classes@ == before + tool_flags((j - i) as nat),
                decreases n - j,
            {
                classes.push(ArgClass::ToolFlag);
                assert(classes@ =~= before + tool_flags((j + 1 - i) as nat));
                j = j + 1;
            }
            proof {
                assert(views(launcher@) =~= st.launcher.push(help@));
                st = ScanState {
                    launcher: st.launcher.push("--help"@),
                    launcher_help: true,
                    classes: st.classes + tool_flags((n - i) as nat),
                    ..st
                };
            }
            return Ok(
                finish_run_args(target, entry, password, key, launcher, script, true, classes, env_key, Ghost(st)),
            );
        } else {
            launcher.push(String::from_str(t));
            classes.push(ArgClass::LauncherArg);
            proof {
                assert(views(launcher@) =~= st.launcher.push(t@));
                st = ScanState {
                    launcher: st.launcher.push(t@),
                    classes: st.classes.push(ArgClass::LauncherArg),
                    ..st
                };
            }
            i = i + 1;
        }
    }
    Ok(finish_run_args(target, entry, password, key, launcher, script, false, classes, env_key, Ghost(st)))
}

fn finish_run_args(
    target: Option<String>,
    entry: Option<String>,
    password: Option<String>,
    key: Option<Option<String>>,
    launcher_args: Vec<String>,
    script_args: Vec<String>,
    launcher_help: bool,
    classes: Vec<ArgClass>,
    env_key: Option<String>,
    st: Ghost<ScanState>,
) -> (r: RunArgs)
    requires
        opt_string_view(target) == st@.target,
        opt_string_view(entry) == st@.entry,
        opt_string_view(password) == st@.password,
        match key {
            None => st@.key is None,
            Some(k) => st@.key == Some(opt_string_view(k)),
        },
        views(launcher_args@) == st@.launcher,
        views(script_args@) == st@.script,
        classes@ == st@.classes,
        launcher_help == st@.launcher_help,
    ensures
        run_args_from(r, st@, opt_string_view(env_key)),
{
    let target = match target {
        Some(t) => t,
        None => String::from_str("robot.zip"),
    };
    let entry = match entry {
        Some(e) => e,
        None => String::from_str("main.py"),
    };
    let key_path = match key {
        None => None,
        Some(Some(k)) => Some(k),
        Some(None) => match env_key {
            Some(e) => Some(e),
            None => Some(key_path_beside(target.as_str())),
        },
    };
    RunArgs { target, entry, password, key_path, launcher_args, script_args, launcher_help, classes }
}

/// The arguments at the positions that `classes` marks with `c`, in order.
pub open spec fn select(toks: Seq<Seq<char>>, classes: Seq<ArgClass>, c: ArgClass) -> Seq<Seq<char>>
    decreases classes.len(),
{
    if classes.len() == 0 {
        Seq::empty()
    } else {
        let rest = select(toks, classes.drop_last(), c);
        if classes.last() == c {
            rest.push(toks[classes.len() - 1])
        } else {
            rest
        }
    }
}

/// The streams of a finished scan, given as positions marked in `classes`.
pub open spec fn partitions(toks: Seq<Seq<char>>, f: ScanState) -> bool {
    &&& f.classes.len() == toks.len()
    &&& f.script == select(toks, f.classes, ArgClass::ScriptArg)
    &&& f.launcher == if f.launcher_help {
        select(toks, f.classes, ArgClass::LauncherArg).push("--help"@)
    } else {
        select(toks, f.classes, ArgClass::LauncherArg)
    }
}

proof fn lemma_select_push(toks: Seq<Seq<char>>, classes: Seq<ArgClass>, x: ArgClass, c: ArgClass)
    ensures
        select(toks, classes.push(x), c) == if x == c {
            select(toks, classes, c).push(toks[classes.len() as int])
        } else {
            select(toks, classes, c)
        },
{
    assert(classes.push(x).drop_last() =~= classes);
}

proof fn lemma_select_tool_flags(toks: Seq<Seq<char>>, classes: Seq<ArgClass>, m: nat, c: ArgClass)
    requires
        c != ArgClass::ToolFlag,
    ensures
        select(toks, classes + tool_flags(m), c) == select(toks, classes, c),
    decreases m,
{
    if m == 0 {
        assert(classes + tool_flags(0) =~= classes);
    } else {
        lemma_select_tool_flags(toks, classes, (m - 1) as nat, c);
        assert(classes + tool_flags(m) =~= (classes + tool_flags((m - 1) as nat)).push(
            ArgClass::ToolFlag,
        ));
        lemma_select_push(toks, classes + tool_flags((m - 1) as nat), ArgClass::ToolFlag, c);
    }
}

proof fn lemma_select_two_flags(toks: Seq<Seq<char>>, classes: Seq<ArgClass>, c: ArgClass)
    requires
        c != ArgClass::ToolFlag,
    ensures
        select(toks, classes + seq![ArgClass::ToolFlag, ArgClass::ToolFlag], c) == select(
            toks,
            classes,
            c,
        ),
{
    assert(classes + seq![ArgClass::ToolFlag, ArgClass::ToolFlag] =~= classes.push(
        ArgClass::ToolFlag,
    ).push(ArgClass::ToolFlag));
    lemma_select_push(toks, classes, ArgClass::ToolFlag, c);
    lemma_select_push(toks, classes.push(ArgClass::ToolFlag), ArgClass::ToolFlag, c);
}

proof fn lemma_scan_partitions(toks: Seq<Seq<char>>, i: nat, st: ScanState)
    requires
        i <= toks.len(),
        !st.launcher_help,
        st.classes.len() == i,
        st.script == select(toks, st.classes, ArgClass::ScriptArg),
        st.launcher == select(toks, st.classes, ArgClass::LauncherArg),
    ensures
        scan(toks, i, st) matches Some(f) ==> partitions(toks, f),
    decreases toks.len() - i,
{
    if i < toks.len() {
        let t = toks[i as int];
        let s = ArgClass::ScriptArg;
        let l = ArgClass::LauncherArg;
        let tf = ArgClass::ToolFlag;
        if t == "--signed"@ {
            if i + 1 < toks.len() {
                lemma_select_two_flags(toks, st.classes, s);
                lemma_select_two_flags(toks, st.classes, l);
                lemma_scan_partitions(
                    toks,
                    i + 2,
                    ScanState {
                        key: Some(Some(toks[i + 1 as int])),
                        classes: st.classes + seq![tf, tf],
                        ..st
                    },
                );
            } else {
                lemma_select_push(toks, st.classes, tf, s);
                lemma_select_push(toks, st.classes, tf, l);
                lemma_scan_partitions(
                    toks,
                    i + 1,
                    ScanState { key: Some(None), classes: st.classes.push(tf), ..st },
                );
            }
        } else if t == "--password"@ || t == "-p"@ {
            if i + 1 < toks.len() {
                lemma_select_two_flags(toks, st.classes, s);
                lemma_select_two_flags(toks, st.classes, l);
                lemma_scan_partitions(
                    toks,
                    i + 2,
                    ScanState {
                        password: Some(toks[i + 1 as int]),
                        classes: st.classes + seq![tf, tf],
                        ..st
                    },
                );
            }
        } else if t == "--"@ && !st.separated {
            lemma_select_push(toks, st.classes, tf, s);
            lemma_select_push(toks, st.classes, tf, l);
            lemma_scan_partitions(
                toks,
                i + 1,
                ScanState { separated: true, classes: st.classes.push(tf), ..st },
            );
        } else if st.target is Some && st.entry is None && !st.separated && st.script.len() == 0
            && !is_flag_like(t) {
            lemma_select_push(toks, st.classes, tf, s);
            lemma_select_push(toks, st.classes, tf, l);
            lemma_scan_partitions(
                toks,
                i + 1,
                ScanState { entry: Some(t), classes: st.classes.push(tf), ..st },
            );
        } else if st.separated || st.target is Some {
            lemma_select_push(toks, st.classes, s, s);
            lemma_select_push(toks, st.classes, s, l);
            lemma_scan_partitions(
                toks,
                i + 1,
                ScanState { script: st.script.push(t), classes: st.classes.push(s), ..st },
            );
        } else if !is_flag_like(t) {
            lemma_select_push(toks, st.classes, tf, s);
            lemma_select_push(toks, st.classes, tf, l);
            lemma_scan_partitions(
                toks,
                i + 1,
                ScanState { target: Some(t), classes: st.classes.push(tf), ..st },
            );
        } else if t == "--uv-run-help"@ || t == "-hh"@ {
            lemma_select_tool_flags(toks, st.classes, (toks.len() - i) as nat, s);
            lemma_select_tool_flags(toks, st.classes, (toks.len() - i) as nat, l);
        } else {
            lemma_select_push(toks, st.classes, l, s);
            lemma_select_push(toks, st.classes, l, l);
            lemma_scan_partitions(
                toks,
                i + 1,
                ScanState { launcher: st.launcher.push(t), classes: st.classes.push(l), ..st },
            );
        }
    }
}

/// Every argument of a run is classified exactly once, by position: there are as
/// many classes as arguments, the script receives exactly the arguments marked
/// for it and the launcher exactly those marked for it, in their original
/// order. When the launcher's help was asked for, its single `--help` follows.
pub proof fn lemma_partition_is_total(toks: Seq<Seq<char>>)
    ensures
        scan(toks, 0, initial_state()) matches Some(f) ==> partitions(toks, f),
{
    lemma_scan_partitions(toks, 0, initial_state());
}

} // verus!
