//! The operations, one behaviour per test.

use skoczek::cli::{CmdCommand, CmdDefault, CmdGet, CmdLs, CmdMv, CmdRm, CmdSet, Commands};
use skoczek::cmd::{
    command_cmd, command_default, command_get, command_ls, command_mv, command_rm, command_set, run,
};
use skoczek::outcome::{Failure, Outcome, FAILURE_STATUS};
use skoczek::registry::{CommandDef, Config, Destination};
use skoczek::workdir::{CwdError, WorkingDir};

fn cwd() -> Result<WorkingDir, CwdError> {
    Ok(WorkingDir { path: "/home/me/work".to_string(), name: Some("work".to_string()) })
}

fn set(config: &mut Config, alias: &str, path: &str, force: bool) -> Result<Outcome, Failure> {
    let args = CmdSet {
        alias: Some(alias.to_string()),
        path: Some(path.to_string()),
        force,
        remote: None,
    };
    command_set(args, config, cwd())
}

fn set_remote(
    config: &mut Config,
    alias: &str,
    path: &str,
    host: &str,
) -> Result<Outcome, Failure> {
    let args = CmdSet {
        alias: Some(alias.to_string()),
        path: Some(path.to_string()),
        force: false,
        remote: Some(host.to_string()),
    };
    command_set(args, config, cwd())
}

fn get(config: &Config, alias: &str) -> Result<Outcome, Failure> {
    command_get(CmdGet { alias: alias.to_string() }, config)
}

fn ls(config: &Config, show_paths: bool, all: bool, remote_only: bool) -> Vec<String> {
    let out = command_ls(CmdLs { show_paths, all, remote_only }, config).unwrap();
    assert!(!out.persist);
    out.lines
}

fn printed(lines: &[&str]) -> Outcome {
    Outcome { lines: lines.iter().map(|l| l.to_string()).collect(), persist: false }
}

fn saved(lines: &[&str]) -> Outcome {
    Outcome { lines: lines.iter().map(|l| l.to_string()).collect(), persist: true }
}

#[test]
fn set_then_get_yields_the_local_path() {
    let mut config = Config::default();
    assert_eq!(set(&mut config, "proj", "/srv/proj", false), Ok(saved(&["proj\t/srv/proj"])));
    assert_eq!(get(&config, "proj"), Ok(printed(&["/srv/proj"])));
    assert_eq!(
        config.aliases.get("proj"),
        Some(&Destination::Local("/srv/proj".to_string()))
    );
}

#[test]
fn set_remote_then_get_yields_path_tab_host() {
    let mut config = Config::default();
    assert_eq!(
        set_remote(&mut config, "box", "/var/www", "web1"),
        Ok(saved(&["box\t/var/www\tweb1"]))
    );
    assert_eq!(get(&config, "box"), Ok(printed(&["/var/www\tweb1"])));
    assert_eq!(
        config.aliases.get("box"),
        Some(&Destination::Remote { remote: "web1".to_string(), path: "/var/www".to_string() })
    );
}

#[test]
fn set_on_a_bound_alias_needs_force() {
    let mut config = Config::default();
    set(&mut config, "a", "/one", false).unwrap();
    assert_eq!(set(&mut config, "a", "/two", false), Err(Failure::AliasExists));
    assert_eq!(get(&config, "a"), Ok(printed(&["/one"])));
    assert_eq!(set(&mut config, "a", "/two", true), Ok(saved(&["a\t/two"])));
    assert_eq!(get(&config, "a"), Ok(printed(&["/two"])));
    assert_eq!(config.aliases.names(), vec!["a".to_string()]);
}

#[test]
fn set_without_alias_takes_the_last_segment_of_the_working_directory() {
    let mut config = Config::default();
    let args = CmdSet { alias: None, path: Some("/data".to_string()), force: false, remote: None };
    assert_eq!(command_set(args, &mut config, cwd()), Ok(saved(&["work\t/data"])));
    assert_eq!(get(&config, "work"), Ok(printed(&["/data"])));
}

#[test]
fn set_without_path_binds_the_working_directory() {
    let mut config = Config::default();
    let args = CmdSet { alias: Some("here".to_string()), path: None, force: false, remote: None };
    assert_eq!(command_set(args, &mut config, cwd()), Ok(saved(&["here\t/home/me/work"])));
}

#[test]
fn set_without_alias_and_path_binds_the_working_directory_under_its_name() {
    let mut config = Config::default();
    let args = CmdSet { alias: None, path: None, force: false, remote: None };
    assert_eq!(command_set(args, &mut config, cwd()), Ok(saved(&["work\t/home/me/work"])));
}

#[test]
fn set_without_alias_fails_where_the_working_directory_has_no_last_segment() {
    let mut config = Config::default();
    let args = CmdSet { alias: None, path: Some("/data".to_string()), force: false, remote: None };
    let root = Ok(WorkingDir { path: "/".to_string(), name: None });
    assert_eq!(command_set(args, &mut config, root), Err(Failure::NoLastSegment));
    assert!(config.aliases.names().is_empty());
}

#[test]
fn set_remote_needs_a_path() {
    let mut config = Config::default();
    let args = CmdSet {
        alias: Some("box".to_string()),
        path: None,
        force: false,
        remote: Some("web1".to_string()),
    };
    assert_eq!(command_set(args, &mut config, cwd()), Err(Failure::RemoteWithoutPath));
    assert!(!config.aliases.contains_key("box"));
}

#[test]
fn set_fails_without_a_working_directory_whatever_was_given() {
    for kind in [CwdError::NotFound, CwdError::PermissionDenied, CwdError::Other] {
        let mut config = Config::default();
        let args = CmdSet {
            alias: Some("a".to_string()),
            path: Some("/p".to_string()),
            force: true,
            remote: None,
        };
        assert_eq!(command_set(args, &mut config, Err(kind)), Err(Failure::WorkingDir(kind)));
        assert!(!config.aliases.contains_key("a"));
    }
}

#[test]
fn set_checks_the_missing_segment_before_the_missing_path_and_the_bound_alias() {
    let mut config = Config::default();
    let args = CmdSet { alias: None, path: None, force: false, remote: Some("h".to_string()) };
    let root = Ok(WorkingDir { path: "/".to_string(), name: None });
    assert_eq!(command_set(args, &mut config, root), Err(Failure::NoLastSegment));

    set(&mut config, "work", "/w", false).unwrap();
    let args = CmdSet { alias: None, path: None, force: false, remote: Some("h".to_string()) };
    assert_eq!(command_set(args, &mut config, cwd()), Err(Failure::RemoteWithoutPath));
}

#[test]
fn get_of_an_unbound_alias_fails_without_a_message() {
    let config = Config::default();
    assert_eq!(get(&config, "nope"), Err(Failure::Absent));
    assert_eq!(Failure::Absent.message(), None);
}

#[test]
fn ls_of_an_empty_registry_prints_nothing() {
    let config = Config::default();
    assert_eq!(command_ls(CmdLs { show_paths: true, all: true, remote_only: false }, &config),
        Ok(printed(&[])));
}

#[test]
fn ls_is_sorted_whatever_the_order_of_binding() {
    let mut first = Config::default();
    for name in ["pear", "apple", "zoo", "mango"] {
        set(&mut first, name, "/x", false).unwrap();
    }
    let mut second = Config::default();
    for name in ["zoo", "mango", "pear", "apple"] {
        set(&mut second, name, "/x", false).unwrap();
    }
    let expected = vec!["apple", "mango", "pear", "zoo"];
    assert_eq!(ls(&first, false, false, false), expected);
    assert_eq!(ls(&second, false, false, false), expected);
}

#[test]
fn ls_orders_by_code_point() {
    let mut config = Config::default();
    for name in ["b", "a", "B", "ab", "", "é", "z", "a b", "10", "9"] {
        set(&mut config, name, "/x", false).unwrap();
    }
    assert_eq!(
        ls(&config, false, false, false),
        vec!["", "10", "9", "B", "a", "a b", "ab", "b", "z", "é"]
    );
}

#[test]
fn ls_filters_by_kind() {
    let mut config = Config::default();
    set(&mut config, "loc", "/l", false).unwrap();
    set_remote(&mut config, "rem", "/r", "host").unwrap();
    set(&mut config, "alpha", "/a", false).unwrap();
    assert_eq!(ls(&config, false, false, false), vec!["alpha", "loc"]);
    assert_eq!(ls(&config, false, true, false), vec!["alpha", "loc", "rem"]);
    assert_eq!(ls(&config, false, false, true), vec!["rem"]);
    assert_eq!(ls(&config, false, true, true), vec!["rem"]);
}

#[test]
fn ls_with_paths_prints_alias_path_and_host() {
    let mut config = Config::default();
    set(&mut config, "loc", "/l", false).unwrap();
    set_remote(&mut config, "rem", "/r", "host").unwrap();
    assert_eq!(ls(&config, true, true, false), vec!["loc\t/l", "rem\t/r\thost"]);
    assert_eq!(ls(&config, true, false, false), vec!["loc\t/l"]);
    assert_eq!(ls(&config, true, false, true), vec!["rem\t/r\thost"]);
}

#[test]
fn rm_removes_the_alias_and_asks_to_save() {
    let mut config = Config::default();
    set(&mut config, "a", "/a", false).unwrap();
    assert_eq!(command_rm(CmdRm { alias: "a".to_string() }, &mut config), Ok(saved(&[])));
    assert_eq!(get(&config, "a"), Err(Failure::Absent));
}

#[test]
fn rm_of_an_unbound_alias_fails_without_a_message() {
    let mut config = Config::default();
    set(&mut config, "a", "/a", false).unwrap();
    assert_eq!(command_rm(CmdRm { alias: "b".to_string() }, &mut config), Err(Failure::Absent));
    assert_eq!(get(&config, "a"), Ok(printed(&["/a"])));
}

#[test]
fn rm_leaves_the_command_of_the_alias_behind() {
    let mut config = Config::default();
    set(&mut config, "a", "/a", false).unwrap();
    command_cmd(
        CmdCommand { alias: "a".to_string(), command: Some("make".to_string()) },
        &mut config,
    )
    .unwrap();
    command_rm(CmdRm { alias: "a".to_string() }, &mut config).unwrap();
    assert_eq!(config.commands.get("a"), Some(&CommandDef { on_enter: "make".to_string() }));
    assert_eq!(
        command_cmd(CmdCommand { alias: "a".to_string(), command: None }, &mut config),
        Err(Failure::AliasNotFound)
    );
}

fn mv(config: &mut Config, from: &str, to: &str, force: bool) -> Result<Outcome, Failure> {
    command_mv(
        CmdMv { alias_from: from.to_string(), alias_to: to.to_string(), force },
        config,
    )
}

#[test]
fn mv_carries_the_destination_and_the_command() {
    let mut config = Config::default();
    set(&mut config, "a", "/p", false).unwrap();
    command_cmd(
        CmdCommand { alias: "a".to_string(), command: Some("echo hi".to_string()) },
        &mut config,
    )
    .unwrap();
    assert_eq!(mv(&mut config, "a", "b", false), Ok(saved(&[])));
    assert_eq!(get(&config, "b"), Ok(printed(&["/p"])));
    assert_eq!(get(&config, "a"), Err(Failure::Absent));
    assert_eq!(
        command_cmd(CmdCommand { alias: "b".to_string(), command: None }, &mut config),
        Ok(printed(&["echo hi"]))
    );
    let gone = command_cmd(CmdCommand { alias: "a".to_string(), command: None }, &mut config);
    assert_eq!(gone, Err(Failure::AliasNotFound));
    assert_eq!(gone.unwrap_err().message(), Some("Alias not found".to_string()));
    assert!(!config.commands.contains_key("a"));
}

#[test]
fn mv_without_a_command_leaves_the_commands_alone() {
    let mut config = Config::default();
    set(&mut config, "a", "/p", false).unwrap();
    set(&mut config, "b", "/q", false).unwrap();
    command_cmd(
        CmdCommand { alias: "b".to_string(), command: Some("ls".to_string()) },
        &mut config,
    )
    .unwrap();
    assert_eq!(mv(&mut config, "a", "b", true), Ok(saved(&[])));
    assert_eq!(get(&config, "b"), Ok(printed(&["/p"])));
    assert_eq!(config.commands.get("b"), Some(&CommandDef { on_enter: "ls".to_string() }));
}

#[test]
fn mv_onto_a_bound_name_needs_force() {
    let mut config = Config::default();
    set(&mut config, "a", "/p", false).unwrap();
    set(&mut config, "b", "/q", false).unwrap();
    assert_eq!(mv(&mut config, "a", "b", false), Err(Failure::TargetExists));
    assert_eq!(get(&config, "a"), Ok(printed(&["/p"])));
    assert_eq!(get(&config, "b"), Ok(printed(&["/q"])));
    assert_eq!(mv(&mut config, "a", "b", true), Ok(saved(&[])));
    assert_eq!(get(&config, "b"), Ok(printed(&["/p"])));
    assert_eq!(get(&config, "a"), Err(Failure::Absent));
}

#[test]
fn mv_of_an_unbound_alias_names_it_in_the_message() {
    let mut config = Config::default();
    set(&mut config, "b", "/q", false).unwrap();
    let failed = mv(&mut config, "ghost", "c", false);
    assert_eq!(failed, Err(Failure::SourceNotFound("ghost".to_string())));
    assert_eq!(failed.unwrap_err().message(), Some("Alias not found: ghost".to_string()));
    assert_eq!(config.aliases.names(), vec!["b".to_string()]);
}

#[test]
fn mv_checks_the_new_name_before_the_old_one() {
    let mut config = Config::default();
    set(&mut config, "b", "/q", false).unwrap();
    assert_eq!(mv(&mut config, "ghost", "b", false), Err(Failure::TargetExists));
    assert_eq!(
        mv(&mut config, "ghost", "b", true),
        Err(Failure::SourceNotFound("ghost".to_string()))
    );
    assert_eq!(get(&config, "b"), Ok(printed(&["/q"])));
}

#[test]
fn mv_onto_itself_needs_force_and_changes_nothing() {
    let mut config = Config::default();
    set(&mut config, "a", "/p", false).unwrap();
    assert_eq!(mv(&mut config, "a", "a", false), Err(Failure::TargetExists));
    assert_eq!(mv(&mut config, "a", "a", true), Ok(saved(&[])));
    assert_eq!(get(&config, "a"), Ok(printed(&["/p"])));
}

#[test]
fn mv_does_not_move_the_default() {
    let mut config = Config::default();
    set(&mut config, "a", "/p", false).unwrap();
    command_default(CmdDefault { alias: Some("a".to_string()) }, &mut config).unwrap();
    mv(&mut config, "a", "b", false).unwrap();
    assert_eq!(config.default, Some("a".to_string()));
    assert_eq!(
        command_default(CmdDefault { alias: None }, &mut config),
        Err(Failure::DanglingDefault)
    );
}

#[test]
fn default_is_set_and_read() {
    let mut config = Config::default();
    set(&mut config, "a", "/p", false).unwrap();
    set_remote(&mut config, "r", "/q", "host").unwrap();
    assert_eq!(
        command_default(CmdDefault { alias: Some("a".to_string()) }, &mut config),
        Ok(saved(&["a\t/p"]))
    );
    assert_eq!(command_default(CmdDefault { alias: None }, &mut config), Ok(printed(&["a\t/p"])));
    assert_eq!(
        command_default(CmdDefault { alias: Some("r".to_string()) }, &mut config),
        Ok(saved(&["r\t/q\thost"]))
    );
    assert_eq!(
        command_default(CmdDefault { alias: None }, &mut config),
        Ok(printed(&["r\t/q\thost"]))
    );
}

#[test]
fn default_of_an_unbound_alias_is_refused() {
    let mut config = Config::default();
    set(&mut config, "a", "/p", false).unwrap();
    assert_eq!(
        command_default(CmdDefault { alias: Some("zz".to_string()) }, &mut config),
        Err(Failure::UnknownAlias)
    );
    assert_eq!(config.default, None);
}

#[test]
fn default_that_is_not_set_says_so() {
    let mut config = Config::default();
    assert_eq!(
        command_default(CmdDefault { alias: None }, &mut config),
        Err(Failure::DefaultNotSet)
    );
}

#[test]
fn default_that_dangles_after_rm_is_a_config_error() {
    let mut config = Config::default();
    set(&mut config, "a", "/p", false).unwrap();
    command_default(CmdDefault { alias: Some("a".to_string()) }, &mut config).unwrap();
    command_rm(CmdRm { alias: "a".to_string() }, &mut config).unwrap();
    let failed = command_default(CmdDefault { alias: None }, &mut config);
    assert_eq!(failed, Err(Failure::DanglingDefault));
    assert_ne!(failed, Err(Failure::DefaultNotSet));
    assert_eq!(
        failed.unwrap_err().message(),
        Some("Config error: default alias is not defined!".to_string())
    );
}

#[test]
fn command_is_set_and_read() {
    let mut config = Config::default();
    set(&mut config, "a", "/p", false).unwrap();
    assert_eq!(
        command_cmd(CmdCommand { alias: "a".to_string(), command: None }, &mut config),
        Ok(printed(&[]))
    );
    assert_eq!(
        command_cmd(
            CmdCommand { alias: "a".to_string(), command: Some("echo hi".to_string()) },
            &mut config
        ),
        Ok(saved(&[]))
    );
    assert_eq!(
        command_cmd(CmdCommand { alias: "a".to_string(), command: None }, &mut config),
        Ok(printed(&["echo hi"]))
    );
    assert_eq!(
        command_cmd(
            CmdCommand { alias: "a".to_string(), command: Some("true".to_string()) },
            &mut config
        ),
        Ok(saved(&[]))
    );
    assert_eq!(
        command_cmd(CmdCommand { alias: "a".to_string(), command: None }, &mut config),
        Ok(printed(&["true"]))
    );
}

#[test]
fn command_on_a_remote_alias_is_refused_either_way() {
    let mut config = Config::default();
    set_remote(&mut config, "r", "/q", "host").unwrap();
    assert_eq!(
        command_cmd(CmdCommand { alias: "r".to_string(), command: None }, &mut config),
        Err(Failure::RemoteCommand)
    );
    assert_eq!(
        command_cmd(
            CmdCommand { alias: "r".to_string(), command: Some("x".to_string()) },
            &mut config
        ),
        Err(Failure::RemoteCommand)
    );
    assert!(!config.commands.contains_key("r"));
}

#[test]
fn command_on_an_unbound_alias_is_refused() {
    let mut config = Config::default();
    assert_eq!(
        command_cmd(
            CmdCommand { alias: "a".to_string(), command: Some("x".to_string()) },
            &mut config
        ),
        Err(Failure::AliasNotFound)
    );
    assert!(!config.commands.contains_key("a"));
}

#[test]
fn every_failure_has_its_message() {
    let cases = [
        (Failure::Absent, None),
        (Failure::AliasExists, Some("Alias already exists. Use -f to replace it anyway.")),
        (Failure::RemoteWithoutPath, Some("CWD cannot be used for --remote")),
        (Failure::WorkingDir(CwdError::NotFound), Some("CWD cannot be used: path not found")),
        (
            Failure::WorkingDir(CwdError::PermissionDenied),
            Some("CWD cannot be used: permission denied"),
        ),
        (Failure::WorkingDir(CwdError::Other), None),
        (Failure::NoLastSegment, Some("Last part of CWD could not be retrieved")),
        (Failure::TargetExists, Some("Destination alias exists. Use -f to replace it anyway.")),
        (Failure::SourceNotFound("x y".to_string()), Some("Alias not found: x y")),
        (Failure::UnknownAlias, Some("Alias not known.")),
        (Failure::DanglingDefault, Some("Config error: default alias is not defined!")),
        (Failure::DefaultNotSet, Some("Default alias not set")),
        (Failure::RemoteCommand, Some("Remote commands not supported")),
        (Failure::AliasNotFound, Some("Alias not found")),
    ];
    for (failure, message) in cases {
        assert_eq!(failure.message(), message.map(|m| m.to_string()));
    }
    assert_eq!(FAILURE_STATUS, 1);
}

#[test]
fn run_dispatches_each_subcommand() {
    let mut config = Config::default();
    let bound = run(
        Commands::Assign(CmdSet {
            alias: Some("a".to_string()),
            path: Some("/p".to_string()),
            force: false,
            remote: None,
        }),
        &mut config,
        cwd(),
    );
    assert_eq!(bound, Ok(saved(&["a\t/p"])));
    let no_cwd = || Err(CwdError::NotFound);
    assert_eq!(
        run(Commands::Get(CmdGet { alias: "a".to_string() }), &mut config, no_cwd()),
        Ok(printed(&["/p"]))
    );
    assert_eq!(
        run(
            Commands::Ls(CmdLs { show_paths: true, all: false, remote_only: false }),
            &mut config,
            no_cwd()
        ),
        Ok(printed(&["a\t/p"]))
    );
    assert_eq!(
        run(
            Commands::Command(CmdCommand {
                alias: "a".to_string(),
                command: Some("echo hi".to_string())
            }),
            &mut config,
            no_cwd()
        ),
        Ok(saved(&[]))
    );
    assert_eq!(
        run(Commands::Default(CmdDefault { alias: Some("a".to_string()) }), &mut config, no_cwd()),
        Ok(saved(&["a\t/p"]))
    );
    assert_eq!(
        run(
            Commands::Mv(CmdMv {
                alias_from: "a".to_string(),
                alias_to: "b".to_string(),
                force: false
            }),
            &mut config,
            no_cwd()
        ),
        Ok(saved(&[]))
    );
    assert_eq!(
        run(Commands::Rm(CmdRm { alias: "b".to_string() }), &mut config, no_cwd()),
        Ok(saved(&[]))
    );
    assert_eq!(
        run(
            Commands::Assign(CmdSet { alias: None, path: None, force: false, remote: None }),
            &mut config,
            no_cwd()
        ),
        Err(Failure::WorkingDir(CwdError::NotFound))
    );
    assert!(config.aliases.names().is_empty());
    assert_eq!(config.default, Some("a".to_string()));
}
