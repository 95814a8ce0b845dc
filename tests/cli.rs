use pytron::args::{partition_run_args, ArgClass, ArgError, RunArgs};
use pytron::{Cli, Commands};

fn strings(v: &[&str]) -> Vec<String> {
    v.iter().map(|s| s.to_string()).collect()
}

fn parse(v: &[&str]) -> Cli {
    Cli::parse_from(strings(v)).expect("command line should parse")
}

fn run(v: &[&str]) -> RunArgs {
    partition_run_args(&strings(v), None).expect("run arguments should parse")
}

#[test]
fn tests_test_cli_parsing() {
    // Test the Zip command with defaults
    let cli = parse(&["pytron", "zip"]);
    if let Commands::Zip { directory, output, ignore_patterns, .. } = cli.command {
        assert_eq!(directory, ".", "Default directory should be '.'");
        assert_eq!(output, "robot.zip", "Default output file should be 'robot.zip'");
        assert!(ignore_patterns.is_none(), "Default ignore_patterns should be None");
    } else {
        panic!("Expected Zip command");
    }

    // Test the Zip command with custom ignore patterns
    let cli = parse(&["pytron", "zip", "--ignore-patterns", "node_modules,*.log,*.tmp"]);
    if let Commands::Zip { directory, output, ignore_patterns, .. } = cli.command {
        assert_eq!(directory, ".", "Default directory should be '.'");
        assert_eq!(output, "robot.zip", "Default output file should be 'robot.zip'");
        assert!(ignore_patterns.is_some(), "Custom ignore_patterns should be Some");
        let patterns = ignore_patterns.unwrap();
        assert_eq!(patterns.len(), 3, "Expected 3 ignore patterns");
        assert_eq!(patterns[0], "node_modules", "First pattern should be 'node_modules'");
        assert_eq!(patterns[1], "*.log", "Second pattern should be '*.log'");
        assert_eq!(patterns[2], "*.tmp", "Third pattern should be '*.tmp'");
    } else {
        panic!("Expected Zip command");
    }

    // Test the Zip command with empty string to override defaults
    let cli = parse(&["pytron", "zip", "--ignore-patterns", ""]);
    if let Commands::Zip { directory, output, ignore_patterns, .. } = cli.command {
        assert_eq!(directory, ".", "Default directory should be '.'");
        assert_eq!(output, "robot.zip", "Default output file should be 'robot.zip'");
        assert!(ignore_patterns.is_some(), "Empty ignore_patterns should be Some");
        let patterns = ignore_patterns.unwrap();
        assert_eq!(patterns.len(), 1, "Expected 1 empty string");
        assert_eq!(patterns[0], "", "Pattern should be empty string");
    } else {
        panic!("Expected Zip command");
    }

    // Test the Run command with defaults
    let cli = parse(&["pytron", "run"]);
    if let Commands::Run { zipfile, script, script_args, .. } = cli.command {
        assert_eq!(zipfile, "robot.zip", "Default zip file should be 'robot.zip'");
        assert_eq!(script, "main.py", "Default script should be 'main.py'");
        assert_eq!(script_args.len(), 0, "No script arguments expected");
    } else {
        panic!("Expected Run command");
    }

    // Test the Run command with custom values
    let cli = parse(&["pytron", "run", "custom.zip", "custom.py", "arg1", "arg2"]);
    if let Commands::Run { zipfile, script, script_args, .. } = cli.command {
        assert_eq!(zipfile, "custom.zip", "Custom zip file name not matched");
        assert_eq!(script, "custom.py", "Custom script name not matched");
        assert_eq!(script_args.len(), 2, "Expected 2 script arguments");
        assert_eq!(script_args[0], "arg1", "First argument should be 'arg1'");
        assert_eq!(script_args[1], "arg2", "Second argument should be 'arg2'");
    } else {
        panic!("Expected Run command");
    }
}

#[test]
fn test_cli_test_cli_parsing() {
    let cli = parse(&["pytron", "zip"]);
    if let Commands::Zip { directory, output, ignore_patterns, password, sign } = cli.command {
        assert_eq!(directory, ".", "Default directory should be '.'");
        assert_eq!(output, "robot.zip", "Default output file should be 'robot.zip'");
        assert!(ignore_patterns.is_none(), "Default ignore_patterns should be None");
        assert!(password.is_none(), "No password expected");
        assert!(!sign);
    } else {
        panic!("Expected Zip command");
    }

    let cli = parse(&["pytron", "zip", "--ignore-patterns", "node_modules,*.log,*.tmp"]);
    if let Commands::Zip { directory, output, ignore_patterns, password, .. } = cli.command {
        assert_eq!(directory, ".", "Default directory should be '.'");
        assert_eq!(output, "robot.zip", "Default output file should be 'robot.zip'");
        let patterns = ignore_patterns.expect("Custom ignore_patterns should be Some");
        assert_eq!(patterns, vec!["node_modules", "*.log", "*.tmp"]);
        assert!(password.is_none(), "No password expected");
    } else {
        panic!("Expected Zip command");
    }

    let cli = parse(&["pytron", "zip", "--ignore-patterns", ""]);
    if let Commands::Zip { directory, output, ignore_patterns, password, .. } = cli.command {
        assert_eq!(directory, ".", "Default directory should be '.'");
        assert_eq!(output, "robot.zip", "Default output file should be 'robot.zip'");
        let patterns = ignore_patterns.expect("Empty ignore_patterns should be Some");
        assert_eq!(patterns.len(), 1, "Expected 1 empty string");
        assert_eq!(patterns[0], "", "Pattern should be empty string");
        assert!(password.is_none(), "No password expected");
    } else {
        panic!("Expected Zip command");
    }

    let cli = parse(&["pytron", "run"]);
    if let Commands::Run { zipfile, script, password, uv_args, script_args, .. } = cli.command {
        assert_eq!(zipfile, "robot.zip", "Default zip file should be 'robot.zip'");
        assert_eq!(script, "main.py", "Default script should be 'main.py'");
        assert_eq!(uv_args.len(), 0, "No UV arguments expected");
        assert_eq!(script_args.len(), 0, "No script arguments expected");
        assert!(password.is_none(), "No password expected");
    } else {
        panic!("Expected Run command");
    }

    // After the target and the entry point, every argument belongs to the script.
    let cli = parse(&["pytron", "run", "custom.zip", "custom.py", "fooPass", "arg1", "arg2"]);
    if let Commands::Run { zipfile, script, password, uv_args, script_args, .. } = cli.command {
        assert_eq!(zipfile, "custom.zip", "Custom zip file name not matched");
        assert_eq!(script, "custom.py", "Custom script name not matched");
        assert!(password.is_none(), "No password expected");
        assert_eq!(uv_args.len(), 0, "No UV args expected");
        assert_eq!(script_args, vec!["fooPass", "arg1", "arg2"]);
    } else {
        panic!("Expected Run command");
    }

    let cli = parse(&["pytron", "run", "custom.zip", "script.py"]);
    if let Commands::Run { zipfile, script, password, uv_args, script_args, .. } = cli.command {
        assert_eq!(zipfile, "custom.zip", "Custom zip file should be 'custom.zip'");
        assert_eq!(script, "script.py", "Custom script should be 'script.py'");
        assert_eq!(uv_args.len(), 0, "No UV args expected");
        assert_eq!(script_args.len(), 0, "No script args expected");
        assert!(password.is_none(), "No password expected");
    } else {
        panic!("Expected Run command");
    }
}

#[test]
fn run_separator_sends_the_rest_to_the_script() {
    let a = run(&["custom.zip", "custom.py", "--", "--verbose"]);
    assert_eq!(a.target, "custom.zip");
    assert_eq!(a.entry, "custom.py");
    assert!(a.launcher_args.is_empty());
    assert_eq!(a.script_args, vec!["--verbose"]);
}

#[test]
fn run_password_before_target() {
    let a = run(&["-p", "secret", "script.zip", "main.py"]);
    assert_eq!(a.password.as_deref(), Some("secret"));
    assert_eq!(a.target, "script.zip");
    assert_eq!(a.entry, "main.py");
    assert!(a.script_args.is_empty());
    assert!(a.launcher_args.is_empty());
}

#[test]
fn run_flags_before_target_go_to_launcher() {
    let a = run(&["-v", "--with-pip", "app.zip", "--", "x", "--", "y"]);
    assert_eq!(a.launcher_args, vec!["-v", "--with-pip"]);
    assert_eq!(a.target, "app.zip");
    assert_eq!(a.entry, "main.py");
    assert_eq!(a.script_args, vec!["x", "--", "y"]);
}

#[test]
fn run_classes_cover_every_argument_once() {
    let toks = ["-v", "--password", "pw", "app.zip", "entry.py", "a", "--", "b"];
    let a = run(&toks);
    let (t, l, s) = (ArgClass::ToolFlag, ArgClass::LauncherArg, ArgClass::ScriptArg);
    assert_eq!(a.classes, vec![l, t, t, t, t, s, t, s]);
    assert_eq!(a.classes.len(), toks.len());
    let script: Vec<&str> = toks
        .iter()
        .zip(a.classes.iter())
        .filter(|(_, c)| **c == ArgClass::ScriptArg)
        .map(|(t, _)| *t)
        .collect();
    assert_eq!(a.script_args, script);
    let launcher: Vec<&str> = toks
        .iter()
        .zip(a.classes.iter())
        .filter(|(_, c)| **c == ArgClass::LauncherArg)
        .map(|(t, _)| *t)
        .collect();
    assert_eq!(a.launcher_args, launcher);
}

#[test]
fn run_launcher_help_ends_the_scan() {
    let a = run(&["-hh", "app.zip", "x"]);
    assert!(a.launcher_help);
    assert_eq!(a.launcher_args, vec!["--help"]);
    assert_eq!(a.target, "robot.zip");
    assert!(a.script_args.is_empty());
    assert_eq!(a.classes, vec![ArgClass::ToolFlag; 3]);
    let b = run(&["--uv-run-help"]);
    assert!(b.launcher_help);
}

#[test]
fn run_password_without_value_fails() {
    match partition_run_args(&strings(&["app.zip", "-p"]), None) {
        Err(ArgError::MissingValue(flag)) => assert_eq!(flag, "-p"),
        _ => panic!("expected a missing value"),
    }
}

#[test]
fn run_signed_key_resolution() {
    let a = run(&["--signed", "keys/pub.key", "app.zip"]);
    assert_eq!(a.key_path.as_deref(), Some("keys/pub.key"));
    let b = partition_run_args(&strings(&["app.zip", "--signed"]), Some("env.key".to_string())).unwrap();
    assert_eq!(b.key_path.as_deref(), Some("env.key"));
    let c = run(&["app.zip", "--signed"]);
    assert_eq!(c.key_path.as_deref(), Some("app.key"));
    let d = run(&["app.zip"]);
    assert!(d.key_path.is_none());
}

#[test]
fn zip_options_and_errors() {
    let cli = parse(&["pytron", "zip", "src", "-o", "out.zip", "-p", "pw", "-i", "a,b", "--sign", "--ignore-patterns", "c"]);
    if let Commands::Zip { directory, output, ignore_patterns, password, sign } = cli.command {
        assert!(sign);
        assert_eq!(directory, "src");
        assert_eq!(output, "out.zip");
        assert_eq!(password.as_deref(), Some("pw"));
        assert_eq!(ignore_patterns.unwrap(), vec!["a", "b", "c"]);
    } else {
        panic!("Expected Zip command");
    }
    assert!(matches!(Cli::parse_from(strings(&["pytron", "zip", "-o"])), Err(ArgError::MissingValue(f)) if f == "-o"));
    assert!(matches!(Cli::parse_from(strings(&["pytron", "zip", "--bogus"])), Err(ArgError::UnknownFlag(f)) if f == "--bogus"));
    assert!(matches!(Cli::parse_from(strings(&["pytron", "zip", "a", "b"])), Err(ArgError::UnexpectedArgument(f)) if f == "b"));
    assert!(matches!(Cli::parse_from(strings(&["pytron"])), Err(ArgError::MissingCommand)));
    assert!(matches!(Cli::parse_from(strings(&["pytron", "pack"])), Err(ArgError::UnknownCommand(f)) if f == "pack"));
    assert!(matches!(Cli::parse_from(strings(&["pytron", "run", "x.zip", "--password"])), Err(ArgError::MissingValue(_))));
}
