use o_o::args::{Args, unpack_shorthand_args};
use o_o::compile::{split_command_line, compile_pipelines};
use o_o::engine::{
    plan_redirections, should_replace_stdin_file, chain_continues, sequence_outcome,
    passthrough_fds, reform_pipeline_for_2nd_or_later_oo_command_line, StdinSpec, StdoutSpec,
    StderrSpec,
};
use o_o::errors::{OOError, FileIOError};
use o_o::textsub::replace_tempdir_name;
use o_o::validate::{do_validate_fds, normalize_fds, split_append_flag};

fn owned(stages: Vec<Vec<&str>>) -> Vec<Vec<String>> {
    stages.into_iter().map(|s| s.into_iter().map(|t| t.to_string()).collect()).collect()
}

#[test]
fn compile_round_trip_counts() {
    let tokens: Vec<&str> = vec!["cat", "a.txt", "I", "wc", "J", "echo", "hi"];
    let chains = split_command_line(&tokens, "I", "J").unwrap();
    assert_eq!(chains.len(), 2);
    assert_eq!(chains[0].len(), 2);
    assert_eq!(chains[1].len(), 1);
    assert_eq!(chains[0][0], vec!["cat".to_string(), "a.txt".to_string()]);
    assert_eq!(chains[0][1], vec!["wc".to_string()]);
    assert_eq!(chains[1][0], vec!["echo".to_string(), "hi".to_string()]);

    let mut rejoined: Vec<String> = Vec::new();
    for (i, chain) in chains.iter().enumerate() {
        if i > 0 {
            rejoined.push("J".to_string());
        }
        for (j, stage) in chain.iter().enumerate() {
            if j > 0 {
                rejoined.push("I".to_string());
            }
            rejoined.extend(stage.iter().cloned());
        }
    }
    let tokens_owned: Vec<String> = tokens.iter().map(|t| t.to_string()).collect();
    assert_eq!(rejoined, tokens_owned);
}

#[test]
fn compile_rejects_empty_stages() {
    let tokens: Vec<&str> = vec!["J", "echo", "hi"];
    assert!(split_command_line(&tokens, "I", "J").is_err());

    let tokens: Vec<&str> = vec!["echo", "hi", "J", "J", "wc"];
    assert!(split_command_line(&tokens, "I", "J").is_err());

    let tokens: Vec<&str> = vec!["echo", "hi", "I"];
    assert!(split_command_line(&tokens, "I", "J").is_err());
}

#[test]
fn compile_empty_token_disables_splitting() {
    let tokens: Vec<&str> = vec!["echo", "I", "J"];
    let chains = split_command_line(&tokens, "", "").unwrap();
    assert_eq!(chains, vec![owned(vec![vec!["echo", "I", "J"]])]);
}

#[test]
fn placeholder_substitution_same_path_everywhere() {
    let tokens: Vec<&str> = vec!["cp", "T/a.txt", "T/b.txt"];
    let compiled = compile_pipelines(&tokens, "I", "J", "T").unwrap();
    let path = compiled.temp_dir_path.clone().unwrap();
    assert!(compiled.temp_dir.is_some());
    assert_eq!(compiled.chains[0][0][1], format!("{}/a.txt", path));
    assert_eq!(compiled.chains[0][0][2], format!("{}/b.txt", path));
    assert_eq!(compiled.replaced.len(), 2);
}

#[test]
fn placeholder_never_in_valid_position_creates_no_tempdir() {
    let tokens: Vec<&str> = vec!["echo", "T", "xT/y", "Tail"];
    let compiled = compile_pipelines(&tokens, "I", "J", "T").unwrap();
    assert!(compiled.temp_dir.is_none());
    assert!(compiled.temp_dir_path.is_none());
    assert_eq!(compiled.chains, vec![owned(vec![vec!["echo", "T", "xT/y", "Tail"]])]);
}

#[test]
fn replace_tempdir_name_cases() {
    assert_eq!(replace_tempdir_name("T/hoge.txt", "T", "/tmp/z"), Some("/tmp/z/hoge.txt".to_string()));
    assert_eq!(replace_tempdir_name("xT/hoge", "T", "/tmp/z"), None);
    assert_eq!(replace_tempdir_name("=T/x", "T", "Z"), Some("=Z/x".to_string()));
    assert_eq!(replace_tempdir_name("T", "T", "Z"), None);
    assert_eq!(replace_tempdir_name("Thing/x", "T", "Z"), None);
    assert_eq!(replace_tempdir_name("T/a", "", "Z"), None);
}

#[test]
fn validator_accepts_plain_triple() {
    let fds: Vec<&str> = vec!["in.dat", "out.dat", "err.dat"];
    assert!(do_validate_fds(&fds, false).is_ok());

    let fds: Vec<&str> = vec!["-", "-", "-"];
    assert!(do_validate_fds(&fds, false).is_ok());
}

#[test]
fn validator_rejects_command_looking_slot() {
    let fds: Vec<&str> = vec!["-", "ls", "-"];
    assert!(do_validate_fds(&fds, false).is_err());
}

#[test]
fn validator_rejects_append_on_special_values() {
    let fds: Vec<&str> = vec!["a", "+.", "b"];
    assert!(do_validate_fds(&fds, false).is_err());

    let fds: Vec<&str> = vec!["a", "b", "+."];
    assert!(do_validate_fds(&fds, false).is_err());
}

#[test]
fn validator_allows_append_duplicate_only_via_alias() {
    let fds: Vec<&str> = vec!["a.txt", "+a.txt", "c.txt"];
    assert!(do_validate_fds(&fds, false).is_err());
}

#[test]
fn normalization_turns_alias_on_passthrough_stdin_into_passthrough() {
    let mut fds: Vec<&str> = vec!["-", "=", "-"];
    normalize_fds(&mut fds);
    assert_eq!(fds, vec!["-", "-", "-"]);

    let mut fds: Vec<&str> = vec!["a.txt", "=", "-"];
    normalize_fds(&mut fds);
    assert_eq!(fds, vec!["a.txt", "=", "-"]);
}

#[test]
fn split_append_flag_cases() {
    assert_eq!(split_append_flag("+abc"), ("abc", true));
    assert_eq!(split_append_flag("abc"), ("abc", false));
    assert_eq!(split_append_flag(""), ("", false));
}

#[test]
fn shorthand_unpacking() {
    assert_eq!(unpack_shorthand_args("-.="), Some(vec!["-", ".", "="]));
    assert_eq!(unpack_shorthand_args("---"), Some(vec!["-", "-", "-"]));
    assert_eq!(unpack_shorthand_args("--"), None);
    assert_eq!(unpack_shorthand_args("-.x"), None);
}

#[test]
fn parse_reports_help_and_version() {
    let argv: Vec<&str> = vec!["exec", "-h"];
    assert!(matches!(Args::parse(&argv), Err(OOError::HelpRequested)));

    let argv: Vec<&str> = vec!["exec", "--version"];
    assert!(matches!(Args::parse(&argv), Err(OOError::VersionRequested)));
}

#[test]
fn parse_rejects_missing_command_line() {
    let argv: Vec<&str> = vec!["exec", "a", "b", "c"];
    assert!(matches!(Args::parse(&argv), Err(OOError::CLIError { .. })));
}

#[test]
fn parse_rejects_env_without_assignment() {
    let argv: Vec<&str> = vec!["exec", "-e", "FOO", "--", "cmd"];
    assert!(matches!(Args::parse(&argv), Err(OOError::CLIError { .. })));
}

#[test]
fn parse_collects_envs_and_options() {
    let argv: Vec<&str> = vec!["exec", "-e", "A=1", "-e", "B=x=y", "-d", "/tmp", "-k", "-F", "--", "cmd"];
    let a = Args::parse(&argv).unwrap();
    assert_eq!(a.envs, vec![("A", "1"), ("B", "x=y")]);
    assert_eq!(a.working_directory, Some("/tmp"));
    assert!(a.keep_going);
    assert!(a.force_overwrite);
    assert_eq!(a.fds, vec!["-", "-", "-"]);
    assert_eq!(a.command_line, vec!["cmd"]);
}

#[test]
fn parse_accepts_inline_option_values() {
    let argv: Vec<&str> = vec!["exec", "-tHOGE", "---", "cat", "HOGE/x"];
    let a = Args::parse(&argv).unwrap();
    assert_eq!(a.tempdir_placeholder, Some("HOGE"));
    assert_eq!(a.command_line, vec!["cat", "HOGE/x"]);

    let argv: Vec<&str> = vec!["exec", "--working-directory=/w", "---", "cmd"];
    let a = Args::parse(&argv).unwrap();
    assert_eq!(a.working_directory, Some("/w"));

    let argv: Vec<&str> = vec!["exec", "--pipe=%%", "---", "a", "%%", "b"];
    let a = Args::parse(&argv).unwrap();
    assert_eq!(a.pipe_str, Some("%%"));
}

#[test]
fn parse_rejects_unknown_option() {
    let argv: Vec<&str> = vec!["exec", "--a-option-ls-must-not-have", "--", "cmd"];
    assert!(matches!(Args::parse(&argv), Err(OOError::CLIError { .. })));
}

#[test]
fn error_message_carries_prefix() {
    let argv: Vec<&str> = vec!["exec", "a", "b", "c"];
    let e = Args::parse(&argv).unwrap_err();
    assert_eq!(e.message(), "o-o: no command line specified");

    assert_eq!(OOError::HelpRequested.message(), "o-o: help requested");
    assert_eq!(OOError::VersionRequested.message(), "o-o: version information requested");
}

#[test]
fn redirection_plan_for_simple_output_capture() {
    let fds: Vec<&str> = vec!["-", "out.txt", "-"];
    let plan = plan_redirections(&fds);
    assert_eq!(plan.stdin, StdinSpec::Inherit);
    assert_eq!(plan.stdout, StdoutSpec::ToFile { path: "out.txt".to_string(), append: false });
    assert_eq!(plan.stderr, StderrSpec::Inherit);
}

#[test]
fn redirection_plan_for_atomic_overwrite() {
    let fds: Vec<&str> = vec!["in.txt", "=", "-"];
    let plan = plan_redirections(&fds);
    assert_eq!(plan.stdin, StdinSpec::FromFile("in.txt".to_string()));
    assert_eq!(plan.stdout, StdoutSpec::CaptureForOverwrite);
    assert_eq!(plan.stderr, StderrSpec::Inherit);
}

#[test]
fn redirection_plan_for_append_merge_and_null() {
    let fds: Vec<&str> = vec!["-", "+log.txt", "="];
    let plan = plan_redirections(&fds);
    assert_eq!(plan.stdout, StdoutSpec::ToFile { path: "log.txt".to_string(), append: true });
    assert_eq!(plan.stderr, StderrSpec::MergeIntoStdout);

    let fds: Vec<&str> = vec!["-", ".", "."];
    let plan = plan_redirections(&fds);
    assert_eq!(plan.stdout, StdoutSpec::Null);
    assert_eq!(plan.stderr, StderrSpec::Null);
}

#[test]
fn overwrite_decision() {
    assert!(should_replace_stdin_file(true, false));
    assert!(should_replace_stdin_file(false, true));
    assert!(should_replace_stdin_file(true, true));
    assert!(!should_replace_stdin_file(false, false));
}

#[test]
fn sequencing_stops_at_first_failure_without_keep_going() {
    let codes: Vec<i32> = vec![0, 12, 7];
    assert_eq!(sequence_outcome(&codes, false), (2, 12));
    assert!(!chain_continues(12, false));
}

#[test]
fn sequencing_runs_all_with_keep_going() {
    let codes: Vec<i32> = vec![0, 12, 7];
    assert_eq!(sequence_outcome(&codes, true), (3, 7));
    assert!(chain_continues(12, true));

    let codes: Vec<i32> = vec![0, 0, 0];
    assert_eq!(sequence_outcome(&codes, false), (3, 0));
}

#[test]
fn later_chains_run_with_passthrough_slots() {
    assert_eq!(passthrough_fds(), vec!["-", "-", "-"]);
}

#[test]
fn reform_merges_nested_model() {
    let outer_argv: Vec<&str> = vec!["exec", "-e", "A=1", "-d", "/outer", "---", "cmd"];
    let outer = Args::parse(&outer_argv).unwrap();

    let pl = owned(vec![vec!["o-o", "-e", "B=2", "in.txt", "=", "-", "wc"], vec!["echo", "x"]]);
    let (sub_pl, sub_a) = reform_pipeline_for_2nd_or_later_oo_command_line(&pl, &outer).unwrap();
    assert_eq!(sub_pl, owned(vec![vec!["wc"], vec!["echo", "x"]]));
    assert_eq!(sub_a.fds, vec!["in.txt", "=", "-"]);
    assert_eq!(sub_a.envs, vec![("A", "1"), ("B", "2")]);
    assert_eq!(sub_a.working_directory, Some("/outer"));
    assert_eq!(sub_a.command_line, vec!["wc"]);
}

#[test]
fn reform_rejects_nested_pipe_option() {
    let outer_argv: Vec<&str> = vec!["exec", "---", "cmd"];
    let outer = Args::parse(&outer_argv).unwrap();

    let pl = owned(vec![vec!["o-o", "--pipe", "%%", "---", "cat"]]);
    let r = reform_pipeline_for_2nd_or_later_oo_command_line(&pl, &outer);
    assert!(matches!(r, Err(OOError::CLIError { .. })));
}

#[test]
fn file_io_error_accessors() {
    let e = FileIOError::WriteFailedError("a.txt".to_string(), 500);
    assert_eq!(e.file_name().as_str(), "a.txt");
    assert_eq!(e.timeout_millis(), 500);
}
