use gm_cli::commands::Operation;
use gm_cli::config::{AccountConfig, ApplicationsConfig};
use gm_cli::params::ParameterMap;
use gm_cli::shell::{Shell, ShellAction};

fn session() -> Shell {
    let mut map = ParameterMap::new();
    map.insert("token".to_string(), "t".to_string());
    Shell::new(map, "/home".to_string()).0
}

#[test]
fn new_keeps_rooted_path() {
    let (shell, corrected) = Shell::new(ParameterMap::new(), "/a/b".to_string());
    assert_eq!(shell.path, "/a/b");
    assert!(!corrected);
}

#[test]
fn new_replaces_unrooted_path_by_root() {
    let (shell, corrected) = Shell::new(ParameterMap::new(), "a/b".to_string());
    assert_eq!(shell.path, "/");
    assert!(corrected);
    let (shell, corrected) = Shell::new(ParameterMap::new(), String::new());
    assert_eq!(shell.path, "/");
    assert!(corrected);
}

#[test]
fn cd_resolves_from_working_path() {
    let mut shell = session();
    assert!(matches!(shell.step("cd docs"), ShellAction::Moved));
    assert_eq!(shell.path, "/home/docs");
    assert!(matches!(shell.step("cd ../pics/./new"), ShellAction::Moved));
    assert_eq!(shell.path, "/home/pics/new");
    assert!(matches!(shell.step("cd /etc"), ShellAction::Moved));
    assert_eq!(shell.path, "/etc");
    assert!(matches!(shell.step("cd ../../.."), ShellAction::Moved));
    assert_eq!(shell.path, "/");
    assert!(matches!(shell.step("cd .."), ShellAction::Moved));
    assert_eq!(shell.path, "/");
}

#[test]
fn cd_needs_exactly_one_path() {
    let mut shell = session();
    assert!(matches!(shell.step("cd"), ShellAction::Unknown));
    assert!(matches!(shell.step("cd a b"), ShellAction::Unknown));
    assert_eq!(shell.path, "/home");
}

#[test]
fn pwd_prints_working_path() {
    let mut shell = session();
    shell.step("cd x");
    match shell.step(" pwd \n") {
        ShellAction::Print(path) => assert_eq!(path, "/home/x"),
        _ => panic!("no path printed"),
    }
}

#[test]
fn exit_leaves() {
    let mut shell = session();
    assert!(matches!(shell.step("exit"), ShellAction::Exit));
    assert!(matches!(shell.step("exit now"), ShellAction::Unknown));
}

#[test]
fn storage_command_is_delegated_with_prefix() {
    let mut shell = session();
    match shell.step("ls docs --http --prefix /elsewhere") {
        ShellAction::Delegate { operation, map, args } => {
            assert_eq!(operation, Operation::Ls);
            assert_eq!(args, vec!["docs".to_string()]);
            assert_eq!(map.get("prefix"), Some(&"/home".to_string()));
            assert_eq!(map.get("http"), Some(&String::new()));
            assert_eq!(map.get("token"), Some(&"t".to_string()));
            assert_eq!(map.len(), 3);
        }
        _ => panic!("not delegated"),
    }
    assert_eq!(shell.map.len(), 1);
    assert_eq!(shell.path, "/home");
}

#[test]
fn every_storage_command_but_the_shell_is_delegated() {
    let mut shell = session();
    let table = [
        ("ls", Operation::Ls),
        ("cat", Operation::Cat),
        ("upload", Operation::Upload),
        ("cp", Operation::Cp),
        ("mv", Operation::Mv),
        ("mkdir", Operation::Mkdir),
        ("rm", Operation::Rm),
        ("touch", Operation::Touch),
        ("vis", Operation::Vis),
    ];
    for (name, wanted) in table {
        match shell.step(name) {
            ShellAction::Delegate { operation, args, .. } => {
                assert_eq!(operation, wanted);
                assert!(args.is_empty());
            }
            _ => panic!("{name} was not delegated"),
        }
    }
    assert!(matches!(shell.step("fs"), ShellAction::Unknown));
    assert!(matches!(shell.step("login"), ShellAction::Unknown));
    assert!(matches!(shell.step(""), ShellAction::Nothing));
    assert!(matches!(shell.step("  \n"), ShellAction::Nothing));
    assert!(matches!(shell.step("\tcd \t sub\n"), ShellAction::Moved));
    assert_eq!(shell.path, "/home/sub");
}

#[test]
fn flag_token_overrides_session_value() {
    let mut shell = session();
    match shell.step("rm --token other x") {
        ShellAction::Delegate { map, args, .. } => {
            assert_eq!(map.get("token"), Some(&"other".to_string()));
            assert_eq!(args, vec!["x".to_string()]);
        }
        _ => panic!("not delegated"),
    }
    assert_eq!(shell.map.get("token"), Some(&"t".to_string()));
}

#[test]
fn line_of_flags_only_does_nothing() {
    let mut shell = session();
    assert!(matches!(shell.step("--http"), ShellAction::Nothing));
    assert!(matches!(shell.step("--user 7"), ShellAction::Nothing));
}

#[test]
fn repeated_flag_aborts() {
    let mut shell = session();
    match shell.step("ls --http --x 1 --http") {
        ShellAction::Abort(name) => assert_eq!(name, "http"),
        _ => panic!("not aborted"),
    }
    assert_eq!(shell.path, "/home");
}

#[test]
fn account_logged_in() {
    let account = AccountConfig { id: "1".to_string(), instance: "i".to_string(), token: "t".to_string() };
    assert!(account.is_loggedin());
    assert!(!AccountConfig::default().is_loggedin());
    assert!(!AccountConfig { id: String::new(), instance: "i".to_string(), token: "t".to_string() }.is_loggedin());
    assert!(!AccountConfig { id: "1".to_string(), instance: String::new(), token: "t".to_string() }.is_loggedin());
    assert!(!AccountConfig { id: "1".to_string(), instance: "i".to_string(), token: String::new() }.is_loggedin());
}

#[test]
fn account_in_map() {
    let account = AccountConfig { id: "1".to_string(), instance: "i".to_string(), token: "t".to_string() };
    let map = account.to_map();
    assert_eq!(map.len(), 3);
    assert_eq!(map.get("id"), Some(&"1".to_string()));
    assert_eq!(map.get("instance"), Some(&"i".to_string()));
    assert_eq!(map.get("token"), Some(&"t".to_string()));
    assert!(AccountConfig::is_loggedin_map(&map));
    assert!(!AccountConfig::is_loggedin_map(&ParameterMap::new()));
    assert!(!AccountConfig::is_loggedin_map(&AccountConfig::default().to_map()));
    let mut partial = ParameterMap::new();
    partial.insert("id".to_string(), "1".to_string());
    partial.insert("token".to_string(), "t".to_string());
    assert!(!AccountConfig::is_loggedin_map(&partial));
    partial.insert("instance".to_string(), String::new());
    assert!(!AccountConfig::is_loggedin_map(&partial));
    account.extend_map(&mut partial);
    assert!(AccountConfig::is_loggedin_map(&partial));
    assert_eq!(partial.len(), 3);
}

#[test]
fn applications_sorted_by_dots_then_length() {
    let pair = |k: &str, v: &str| (k.to_string(), v.to_string());
    let mut config = ApplicationsConfig {
        entries: vec![
            pair("md", "a"),
            pair("tar.gz", "b"),
            pair("html", "c"),
            pair("a.b.c", "d"),
            pair("rs", "e"),
            pair("x.y", "f"),
            pair("", "g"),
        ],
    };
    config.sort();
    assert_eq!(
        config.entries,
        vec![
            pair("a.b.c", "d"),
            pair("tar.gz", "b"),
            pair("x.y", "f"),
            pair("html", "c"),
            pair("md", "a"),
            pair("rs", "e"),
            pair("", "g"),
        ]
    );
}

#[test]
fn applications_sort_is_stable_and_agrees_with_std() {
    let keys = ["b", "a", "a.b", "c", "é", "zz", ".", "..", "a.b", "b"];
    let entries: Vec<(String, String)> =
        keys.iter().enumerate().map(|(i, k)| (k.to_string(), i.to_string())).collect();
    let mut expected = entries.clone();
    expected.sort_by(|this, other| {
        let dots = |s: &str| s.bytes().filter(|b| *b == b'.').count();
        if dots(&this.0) != dots(&other.0) {
            return dots(&other.0).cmp(&dots(&this.0));
        }
        other.0.len().cmp(&this.0.len())
    });
    let mut config = ApplicationsConfig { entries };
    config.sort();
    assert_eq!(config.entries, expected);
}

#[test]
fn applications_get_first_match() {
    let pair = |k: &str, v: &str| (k.to_string(), v.to_string());
    let config = ApplicationsConfig { entries: vec![pair("md", "glow {path}"), pair("pdf", "zathura {path}"), pair("md", "cat {path}")] };
    assert_eq!(config.get("md"), Some("glow {path}"));
    assert_eq!(config.get("pdf"), Some("zathura {path}"));
    assert_eq!(config.get("txt"), None);
    assert_eq!(ApplicationsConfig { entries: Vec::new() }.get("md"), None);
}

#[test]
fn applications_double_entry() {
    let pair = |k: &str| (k.to_string(), String::new());
    let config = ApplicationsConfig { entries: vec![pair("md"), pair("pdf"), pair("txt")] };
    assert_eq!(config.double_entry(), None);
    let config = ApplicationsConfig { entries: vec![pair("md"), pair("pdf"), pair("md"), pair("pdf")] };
    assert_eq!(config.double_entry(), Some(2));
    assert_eq!(ApplicationsConfig { entries: Vec::new() }.double_entry(), None);
}
