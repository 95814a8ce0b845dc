//! The command line: `zip` packs a directory, `run` runs a script from an archive.
use vstd::prelude::*;
use vstd::string::*;
use crate::args::{
    default_entry, default_target, initial_state, is_flag_like, opt_string_view, partition_run_args,
    resolve_key, run_args_from, scan, ArgError, RunArgs, ScanState,
};
use crate::text::{split_on, split_spec, str_eq, views};

verus! {

/// A parsed command line.
pub struct Cli {
    pub command: Commands,
}

/// The subcommands.
pub enum Commands {
    /// Pack a directory into an archive.
    Zip {
        /// Directory to pack.
        directory: String,
        /// Archive to write.
        output: String,
        /// Patterns to exclude besides the ignore file; a single empty string drops the defaults.
        ignore_patterns: Option<Vec<String>>,
        /// Password that encrypts every entry.
        password: Option<String>,
        /// Sign the archive once it is written.
        sign: bool,
    },
    /// Run a script from an archive, or a script directly.
    Run {
        zipfile: String,
        script: String,
        password: Option<String>,
        /// Key file to verify the archive's signature with.
        signed: Option<String>,
        uv_args: Vec<String>,
        script_args: Vec<String>,
        /// The launcher's own help was asked for.
        uv_help: bool,
    },
}

/// The options of `zip` read so far.
pub struct ZipState {
    pub directory: Option<Seq<char>>,
    pub output: Option<Seq<char>>,
    pub patterns: Option<Seq<Seq<char>>>,
    pub password: Option<Seq<char>>,
    pub sign: bool,
}

/// What went wrong, over views.
pub enum CliFault {
    MissingValue(Seq<char>),
    UnknownFlag(Seq<char>),
    UnexpectedArgument(Seq<char>),
    MissingCommand,
    UnknownCommand(Seq<char>),
}

/// The fault that an error reports.
pub open spec fn fault_of(e: ArgError) -> CliFault {
    match e {
        ArgError::MissingValue(s) => CliFault::MissingValue(s@),
        ArgError::UnknownFlag(s) => CliFault::UnknownFlag(s@),
        ArgError::UnexpectedArgument(s) => CliFault::UnexpectedArgument(s@),
        ArgError::MissingCommand => CliFault::MissingCommand,
        ArgError::UnknownCommand(s) => CliFault::UnknownCommand(s@),
    }
}

/// No option of `zip` given yet.
pub open spec fn empty_zip_state() -> ZipState {
    ZipState { directory: None, output: None, patterns: None, password: None, sign: false }
}

/// The options of `zip` from position `i` on: `-o`/`--output`, `-p`/`--password`
/// and `-i`/`--ignore-patterns` take the next argument, the last one split at
/// commas and added to those before; `--sign` asks for a signature; one
/// argument that is not flag-like names the directory.
pub open spec fn scan_zip(toks: Seq<Seq<char>>, i: nat, st: ZipState) -> Result<ZipState, CliFault>
    decreases toks.len() - i,
{
    if i >= toks.len() {
        Ok(st)
    } else {
        let t = toks[i as int];
        let has_value = i + 1 < toks.len();
        if t == "-o"@ || t == "--output"@ {
            if has_value {
                scan_zip(toks, i + 2, ZipState { output: Some(toks[i + 1 as int]), ..st })
            } else {
                Err(CliFault::MissingValue(t))
            }
        } else if t == "-p"@ || t == "--password"@ {
            if has_value {
                scan_zip(toks, i + 2, ZipState { password: Some(toks[i + 1 as int]), ..st })
            } else {
                Err(CliFault::MissingValue(t))
            }
        } else if t == "-i"@ || t == "--ignore-patterns"@ {
            if has_value {
                let before = match st.patterns {
                    Some(p) => p,
                    None => Seq::empty(),
                };
                scan_zip(
                    toks,
                    i + 2,
                    ZipState {
                        patterns: Some(before + split_spec(toks[i + 1 as int], ',')),
                        ..st
                    },
                )
            } else {
                Err(CliFault::MissingValue(t))
            }
        } else if t == "--sign"@ {
            scan_zip(toks, i + 1, ZipState { sign: true, ..st })
        } else if is_flag_like(t) {
            Err(CliFault::UnknownFlag(t))
        } else if st.directory is None {
            scan_zip(toks, i + 1, ZipState { directory: Some(t), ..st })
        } else {
            Err(CliFault::UnexpectedArgument(t))
        }
    }
}

/// The views of an optional list of strings.
pub open spec fn opt_vec_views(v: Option<Vec<String>>) -> Option<Seq<Seq<char>>> {
    match v {
        Some(w) => Some(views(w@)),
        None => None,
    }
}

/// `c` is the `zip` command that the finished scan `z` gives.
pub open spec fn zip_command_from(c: Commands, z: ZipState) -> bool {
    match c {
        Commands::Zip { directory, output, ignore_patterns, password, sign } => {
            &&& directory@ == match z.directory {
                Some(d) => d,
                None => "."@,
            }
            &&& output@ == match z.output {
                Some(o) => o,
                None => "robot.zip"@,
            }
            &&& opt_vec_views(ignore_patterns) == z.patterns
            &&& opt_string_view(password) == z.password
            &&& sign == z.sign
        },
        _ => false,
    }
}

/// `c` is the `run` command that the finished scan `f` gives, with no key path
/// from the environment.
pub open spec fn run_command_from(c: Commands, f: ScanState) -> bool {
    match c {
        Commands::Run { zipfile, script, password, signed, uv_args, script_args, uv_help } => {
            let target = match f.target {
                Some(t) => t,
                None => default_target(),
            };
            &&& zipfile@ == target
            &&& script@ == match f.entry {
                Some(e) => e,
                None => default_entry(),
            }
            &&& opt_string_view(password) == f.password
            &&& opt_string_view(signed) == resolve_key(f.key, None, target)
            &&& views(uv_args@) == f.launcher
            &&& views(script_args@) == f.script
            &&& uv_help == f.launcher_help
        },
        _ => false,
    }
}

/// The arguments after `zip`.
pub fn parse_zip_args(toks: &Vec<String>) -> (r: Result<Commands, ArgError>)
    ensures
        match scan_zip(views(toks@), 0, empty_zip_state()) {
            Ok(z) => r matches Ok(c) && zip_command_from(c, z),
            Err(f) => r matches Err(e) && fault_of(e) == f,
        },
{
    let ghost tv = views(toks@);
    let n = toks.len();
    let mut directory: Option<String> = None;
    let mut output: Option<String> = None;
    let mut patterns: Option<Vec<String>> = None;
    let mut password: Option<String> = None;
    let mut sign = false;
    let ghost mut st = empty_zip_state();
    let mut i: usize = 0;
    while i < n
        invariant
            n == toks@.len(),
            tv == views(toks@),
            i <= n,
            scan_zip(tv, i as nat, st) == scan_zip(tv, 0, empty_zip_state()),
            opt_string_view(directory) == st.directory,
            opt_string_view(output) == st.output,
            opt_vec_views(patterns) == st.patterns,
            opt_string_view(password) == st.password,
            sign == st.sign,
        decreases n - i,
    {
        let t = toks[i].as_str();
        assert(tv[i as int] == t@);
        let has_value = i + 1 < n;
        if str_eq(t, "-o") || str_eq(t, "--output") {
            if !has_value {
                return Err(ArgError::MissingValue(String::from_str(t)));
            }
            assert(tv[i + 1] == toks@[i + 1]@);
            output = Some(toks[i + 1].clone());
            proof {
                st = ZipState { output: Some(tv[i + 1]), ..st };
            }
            i = i + 2;
        } else if str_eq(t, "-p") || str_eq(t, "--password") {
            if !has_value {
                return Err(ArgError::MissingValue(String::from_str(t)));
            }
            assert(tv[i + 1] == toks@[i + 1]@);
            password = Some(toks[i + 1].clone());
            proof {
                st = ZipState { password: Some(tv[i + 1]), ..st };
            }
            i = i + 2;
        } else if str_eq(t, "-i") || str_eq(t, "--ignore-patterns") {
            if !has_value {
                return Err(ArgError::MissingValue(String::from_str(t)));
            }
            assert(tv[i + 1] == toks@[i + 1]@);
            let pieces = split_on(toks[i + 1].as_str(), ',');
            let mut all = match patterns {
                Some(p) => p,
                None => Vec::new(),
            };
            let ghost before = views(all@);
            let mut k: usize = 0;
            while k < pieces.len()
                invariant
                    k <= pieces@.len(),
                    views(all@) == before + views(pieces@).subrange(0, k as int),
                decreases pieces@.len() - k,
            {
                let ghost prev = views(all@);
                let p = pieces[k].clone();
                all.push(p);
                assert(views(pieces@)[k as int] == pieces@[k as int]@);
                assert(views(all@) =~= prev.push(p@));
                assert(before + views(pieces@).subrange(0, k + 1) =~= (before + views(
                    pieces@,
                ).subrange(0, k as int)).push(pieces@[k as int]@));
                k = k + 1;
            }
            assert(views(pieces@).subrange(0, pieces@.len() as int) =~= views(pieces@));
            patterns = Some(all);
            proof {
                st = ZipState { patterns: Some(before + split_spec(tv[i + 1], ',')), ..st };
            }
            i = i + 2;
        } else if str_eq(t, "--sign") {
            sign = true;
            proof {
                st = ZipState { sign: true, ..st };
            }
            i = i + 1;
        } else if t.unicode_len() > 0 && t.get_char(0) == '-' {
            return Err(ArgError::UnknownFlag(String::from_str(t)));
        } else if directory.is_none() {
            directory = Some(String::from_str(t));
            proof {
                st = ZipState { directory: Some(t@), ..st };
            }
            i = i + 1;
        } else {
            return Err(ArgError::UnexpectedArgument(String::from_str(t)));
        }
    }
    let directory = match directory {
        Some(d) => d,
        None => String::from_str("."),
    };
    let output = match output {
        Some(o) => o,
        None => String::from_str("robot.zip"),
    };
    Ok(Commands::Zip { directory, output, ignore_patterns: patterns, password, sign })
}

fn run_command(a: RunArgs) -> (r: Commands)
    ensures
        r matches Commands::Run { zipfile, script, password, signed, uv_args, script_args, uv_help }
            && zipfile == a.target && script == a.entry && password == a.password && signed
            == a.key_path && uv_args == a.launcher_args && script_args == a.script_args && uv_help
            == a.launcher_help,
{
    Commands::Run {
        zipfile: a.target,
        script: a.entry,
        password: a.password,
        signed: a.key_path,
        uv_args: a.launcher_args,
        script_args: a.script_args,
        uv_help: a.launcher_help,
    }
}

impl Cli {
    /// Reads a whole command line, program name first. `zip` takes its options
    /// as `scan_zip` says; `run` shares out its arguments as `scan` says, with the
    /// key path, when asked for without a value, taken beside the archive.
    pub fn parse_from(args: Vec<String>) -> (r: Result<Cli, ArgError>)
        ensures
            args@.len() < 2 ==> (r matches Err(e) && fault_of(e) == CliFault::MissingCommand),
            args@.len() >= 2 && args@[1]@ == "zip"@ ==> match scan_zip(
                views(args@).subrange(2, args@.len() as int),
                0,
                empty_zip_state(),
            ) {
                Ok(z) => r matches Ok(c) && zip_command_from(c.command, z),
                Err(f) => r matches Err(e) && fault_of(e) == f,
            },
            args@.len() >= 2 && args@[1]@ == "run"@ ==> match scan(
                views(args@).subrange(2, args@.len() as int),
                0,
                initial_state(),
            ) {
                Some(f) => r matches Ok(c) && run_command_from(c.command, f),
                None => r is Err,
            },
            args@.len() >= 2 && args@[1]@ != "zip"@ && args@[1]@ != "run"@ ==> (r matches Err(e)
                && fault_of(e) == CliFault::UnknownCommand(args@[1]@)),
    {
        proof {
            reveal_strlit("zip");
            reveal_strlit("run");
            assert("zip"@ != "run"@) by {
                assert("zip"@[0] != "run"@[0]);
            }
        }
        if args.len() < 2 {
            return Err(ArgError::MissingCommand);
        }
        let mut rest: Vec<String> = Vec::new();
        let mut i: usize = 2;
        while i < args.len()
            invariant
                2 <= i <= args@.len(),
                views(rest@) == views(args@).subrange(2, i as int),
            decreases args@.len() - i,
        {
            let ghost prev = views(rest@);
            let a = args[i].clone();
            rest.push(a);
            assert(views(rest@) =~= prev.push(a@));
            assert(views(args@).subrange(2, i + 1) =~= views(args@).subrange(2, i as int).push(
                args@[i as int]@,
            ));
            i = i + 1;
        }
        assert(views(args@).subrange(2, args@.len() as int) == views(rest@));
        let sub = args[1].as_str();
        if str_eq(sub, "zip") {
            match parse_zip_args(&rest) {
                Ok(c) => Ok(Cli { command: c }),
                Err(e) => Err(e),
            }
        } else if str_eq(sub, "run") {
            match partition_run_args(&rest, None) {
                Ok(a) => {
                    let ghost f = scan(views(rest@), 0, initial_state())->Some_0;
                    let ghost a0 = a;
                    let c = run_command(a);
                    assert(run_args_from(a0, f, None));
                    Ok(Cli { command: c })
                },
                Err(e) => Err(e),
            }
        } else {
            Err(ArgError::UnknownCommand(String::from_str(sub)))
        }
    }
}

} // verus!
