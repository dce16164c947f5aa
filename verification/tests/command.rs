use gm_cli::command::{Command, Outcome};
use gm_cli::commands::{accounts, commands, jobs, storage, tex, utils, Login, Operation, Refusal};
use gm_cli::error::Error;
use gm_cli::params::ParameterMap;

type Handler = Box<dyn Fn(ParameterMap, Vec<String>) -> Result<String, Error>>;

fn words(list: &[&str]) -> Vec<String> {
    list.iter().map(|s| s.to_string()).collect()
}

fn echo(tag: &'static str) -> Handler {
    Box::new(move |map: ParameterMap, args: Vec<String>| {
        Ok(format!("{tag}:{}:{}", map.len(), args.join(",")))
    })
}

fn failing() -> Handler {
    Box::new(|_map: ParameterMap, _args: Vec<String>| Err(Error::StrErr("no luck")))
}

fn tree() -> Command<Handler> {
    let group = Command::from_leaves(vec![
        ("leaf".to_string(), echo("leaf")),
        ("bad".to_string(), failing()),
    ]);
    Command::category(vec![("grp".to_string(), group), ("top".to_string(), Command::leaf(echo("top")))])
}

#[test]
fn run_invokes_leaf_with_what_is_left() {
    let mut map = ParameterMap::new();
    map.insert("k".to_string(), "v".to_string());
    match tree().run(map, words(&["grp", "leaf", "x"])) {
        Outcome::Finished(msg) => assert_eq!(msg, "leaf:1:x"),
        _ => panic!("the leaf was not run"),
    }
}

#[test]
fn run_category_without_more_tokens_is_not_found() {
    assert!(matches!(tree().run(ParameterMap::new(), words(&["grp"])), Outcome::NotFound));
}

#[test]
fn run_without_tokens_is_not_found() {
    assert!(matches!(tree().run(ParameterMap::new(), Vec::new()), Outcome::NotFound));
}

#[test]
fn run_unknown_name_is_not_found() {
    assert!(matches!(tree().run(ParameterMap::new(), words(&["nope", "leaf"])), Outcome::NotFound));
    assert!(matches!(tree().run(ParameterMap::new(), words(&["grp", "nope"])), Outcome::NotFound));
}

#[test]
fn run_leaf_gets_all_trailing_tokens() {
    match tree().run(ParameterMap::new(), words(&["top", "a", "b", "c"])) {
        Outcome::Finished(msg) => assert_eq!(msg, "top:0:a,b,c"),
        _ => panic!("the leaf was not run"),
    }
}

#[test]
fn run_reports_failure_of_leaf() {
    match tree().run(ParameterMap::new(), words(&["grp", "bad"])) {
        Outcome::Failed(e) => assert_eq!(e.message(), "no luck"),
        _ => panic!("the failure was not reported"),
    }
}

#[test]
fn run_on_a_leaf_invokes_it() {
    let leaf: Command<Handler> = Command::leaf(echo("solo"));
    match leaf.run(ParameterMap::new(), words(&["x", "y"])) {
        Outcome::Finished(msg) => assert_eq!(msg, "solo:0:x,y"),
        _ => panic!("the leaf was not run"),
    }
}

#[test]
fn find_returns_leaf_and_rest() {
    let tree: Command<u8> = Command::category(vec![
        ("a".to_string(), Command::leaf(1)),
        ("b".to_string(), Command::from_leaves(vec![("c".to_string(), 2)])),
    ]);
    assert_eq!(tree.find(words(&["a", "x"])), Some((&1, words(&["x"]))));
    assert_eq!(tree.find(words(&["b", "c"])), Some((&2, Vec::new())));
    assert_eq!(tree.find(words(&["b"])), None);
    assert_eq!(tree.find(words(&["c"])), None);
}

#[test]
fn from_leaves_last_of_a_name_stays() {
    let tree: Command<u8> =
        Command::from_leaves(vec![("a".to_string(), 1), ("b".to_string(), 2), ("a".to_string(), 3)]);
    assert_eq!(tree.find(words(&["a"])), Some((&3, Vec::new())));
    assert_eq!(tree.find(words(&["b"])), Some((&2, Vec::new())));
}

#[test]
fn extend_map_later_category_wins() {
    let mut map: Vec<(String, Command<u8>)> = Vec::new();
    Command::from_leaves(vec![("a".to_string(), 1), ("b".to_string(), 2)]).extend_map(&mut map);
    Command::from_leaves(vec![("b".to_string(), 3), ("c".to_string(), 4)]).extend_map(&mut map);
    assert_eq!(map.len(), 3);
    let tree = Command::category(map);
    assert_eq!(tree.find(words(&["a"])), Some((&1, Vec::new())));
    assert_eq!(tree.find(words(&["b"])), Some((&3, Vec::new())));
    assert_eq!(tree.find(words(&["c"])), Some((&4, Vec::new())));
}

#[test]
fn all_commands_are_in_the_tree() {
    let tree = commands();
    let names = [
        ("create", Operation::Create),
        ("login", Operation::Login),
        ("logout", Operation::Logout),
        ("regen", Operation::Regen),
        ("rename", Operation::Rename),
        ("delete", Operation::Delete),
        ("status", Operation::Status),
        ("jobs", Operation::Jobs),
        ("unqueue", Operation::Unqueue),
        ("ls", Operation::Ls),
        ("cat", Operation::Cat),
        ("upload", Operation::Upload),
        ("cp", Operation::Cp),
        ("mv", Operation::Mv),
        ("mkdir", Operation::Mkdir),
        ("rm", Operation::Rm),
        ("touch", Operation::Touch),
        ("vis", Operation::Vis),
        ("fs", Operation::Fs),
        ("tprofile", Operation::Profile),
        ("tpfedit", Operation::SetProfile),
        ("tpfpedit", Operation::PfpEdit),
        ("compile", Operation::Compile),
        ("publish", Operation::Publish),
        ("publishes", Operation::Publishes),
        ("clean", Operation::Clean),
        ("help", Operation::Help),
        ("version", Operation::Version),
    ];
    for (name, operation) in names {
        assert_eq!(tree.find(words(&[name, "x"])), Some((&operation, words(&["x"]))));
    }
    assert_eq!(tree.find(words(&["tex", "compile"])), None);
    match tree {
        Command::Category(children) => assert_eq!(children.len(), names.len()),
        Command::Command(_) => panic!("the tree is a leaf"),
    }
}

#[test]
fn group_tables() {
    assert_eq!(accounts::commands().len(), 7);
    assert_eq!(jobs::commands().len(), 2);
    assert_eq!(storage::commands().len(), 10);
    assert_eq!(tex::commands().len(), 6);
    assert_eq!(utils::commands().len(), 3);
    assert_eq!(jobs::commands(), vec![("jobs".to_string(), Operation::Jobs), ("unqueue".to_string(), Operation::Unqueue)]);
    for (name, operation) in storage::commands() {
        assert_eq!(storage::lookup(&name), Some(operation));
    }
    for (name, _) in accounts::commands() {
        assert_eq!(storage::lookup(&name), None);
    }
    assert_eq!(storage::lookup("l"), None);
    assert_eq!(storage::lookup("lss"), None);
}

fn account() -> ParameterMap {
    let mut map = ParameterMap::new();
    map.insert("id".to_string(), "1".to_string());
    map.insert("instance".to_string(), "example.com".to_string());
    map.insert("token".to_string(), "t".to_string());
    map
}

#[test]
fn declared_parameters() {
    assert_eq!(Operation::Create.parameters(), Some(vec!["username", "email", "password"]));
    assert_eq!(Operation::Compile.parameters(), Some(vec!["path", "from", "to", "compiler"]));
    assert_eq!(Operation::Publishes.parameters(), Some(vec!["username", "page", "per_page"]));
    assert_eq!(Operation::Mv.parameters(), Some(vec!["from", "to"]));
    assert_eq!(Operation::Fs.parameters(), Some(vec!["path"]));
    assert_eq!(Operation::Cp.parameters(), None);
    assert_eq!(Operation::Help.parameters(), None);
    assert_eq!(Operation::SetProfile.parameters(), None);
}

#[test]
fn who_needs_an_account() {
    assert_eq!(Operation::Create.login(), Login::Free);
    assert_eq!(Operation::Logout.login(), Login::Free);
    assert_eq!(Operation::Profile.login(), Login::Free);
    assert_eq!(Operation::Version.login(), Login::Free);
    assert_eq!(Operation::Delete.login(), Login::Account);
    assert_eq!(Operation::Vis.login(), Login::Account);
    assert_eq!(Operation::SetProfile.login(), Login::Account);
    assert_eq!(Operation::Ls.login(), Login::Files);
    assert_eq!(Operation::Fs.login(), Login::Files);
    assert_eq!(Operation::Compile.login(), Login::Files);
}

#[test]
fn prepare_binds_positional_values() {
    let mut map = account();
    assert_eq!(Operation::Vis.prepare(&mut map, words(&["/a", "public"])), Ok(()));
    assert_eq!(map.get("path"), Some(&"/a".to_string()));
    assert_eq!(map.get("vis"), Some(&"public".to_string()));
    assert_eq!(map.len(), 5);
}

#[test]
fn prepare_refuses_too_many_values_and_leaves_the_map() {
    let mut map = account();
    assert_eq!(
        Operation::Vis.prepare(&mut map, words(&["/a", "public", "x"])),
        Err(Refusal::TooManyArguments)
    );
    assert_eq!(map.len(), 3);
    let mut map = ParameterMap::new();
    assert_eq!(Operation::Rm.prepare(&mut map, words(&["a", "b"])), Err(Refusal::TooManyArguments));
    assert_eq!(Refusal::TooManyArguments.into_error().message(), "Too many arguments");
}

#[test]
fn prepare_refuses_without_account() {
    let mut map = ParameterMap::new();
    assert_eq!(
        Operation::Rm.prepare(&mut map, words(&["/a"])),
        Err(Refusal::NotLoggedIn(Login::Account))
    );
    assert_eq!(map.get("path"), Some(&"/a".to_string()));
    assert_eq!(Operation::Ls.prepare(&mut map, Vec::new()), Err(Refusal::NotLoggedIn(Login::Files)));
    assert_eq!(Refusal::NotLoggedIn(Login::Account).into_error().message(), "Not logged in");
    assert_eq!(Refusal::NotLoggedIn(Login::Files).into_error().message(), "not logged in");
}

#[test]
fn prepare_account_given_by_position_counts() {
    let mut map = ParameterMap::new();
    map.insert("id".to_string(), "1".to_string());
    map.insert("instance".to_string(), "i".to_string());
    assert_eq!(Operation::Regen.prepare(&mut map, words(&["pw"])), Err(Refusal::NotLoggedIn(Login::Account)));
    map.insert("token".to_string(), "t".to_string());
    assert_eq!(Operation::Regen.prepare(&mut map, words(&["pw"])), Ok(()));
}

#[test]
fn prepare_ignores_values_of_commands_without_parameters() {
    let mut map = ParameterMap::new();
    assert_eq!(Operation::Help.prepare(&mut map, words(&["a", "b", "c"])), Ok(()));
    assert_eq!(map.len(), 0);
    assert_eq!(Operation::Login.prepare(&mut map, words(&["a"])), Ok(()));
    assert_eq!(Operation::Create.prepare(&mut map, words(&["u:i"])), Ok(()));
    assert_eq!(map.get("username"), Some(&"u:i".to_string()));
    let mut map = account();
    assert_eq!(Operation::Cp.prepare(&mut map, words(&["a", "b", "c"])), Ok(()));
    assert_eq!(map.len(), 3);
}
