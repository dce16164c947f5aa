use gm_cli::config::open_command;
use gm_cli::listing::{
    comes_before, diritem_line, diritem_tostring, display_publish_item, longest_size,
    month_abbrev, sort_by_name, DirItem, Stamp, TexUserPublish, Visibility,
};
use gm_cli::number::{append_signed, parse_signed, NumberFault};
use gm_cli::params::ParameterMap;
use gm_cli::prompt::{
    command_tokens, confirmed, password_label, password_presence, presence, prompt_label,
    store_answer, typed_yes, Presence,
};
use gm_cli::request::{
    check_status, endpoint, parse_compiler, parse_from_format, parse_to_format, parse_visibility,
    remote_path, request_url, split_username, without_root, Compiler, FromFormat, ItemVisibility,
    ToFormat, VisibilityChange,
};

#[test]
fn labels() {
    assert_eq!(prompt_label(""), "Enter a value: ");
    assert_eq!(prompt_label("Path"), "Path: ");
    assert_eq!(password_label(""), "Password: ");
    assert_eq!(password_label("Enter your password"), "Enter your password: ");
}

#[test]
fn present_value_is_echoed_and_kept() {
    let mut map = ParameterMap::new();
    map.insert("path".to_string(), "/a".to_string());
    assert_eq!(presence("Path", "path", &map), Presence::Present("Path: /a".to_string()));
    assert_eq!(presence("Path", "path", &map), Presence::Present("Path: /a".to_string()));
    assert_eq!(map.get("path"), Some(&"/a".to_string()));
    assert_eq!(map.len(), 1);
}

#[test]
fn missing_value_is_asked_for_and_stored_trimmed() {
    let mut map = ParameterMap::new();
    assert_eq!(presence("Path", "path", &map), Presence::Missing("Path: ".to_string()));
    assert_eq!(presence("", "path", &map), Presence::Missing("Enter a value: ".to_string()));
    store_answer(&mut map, "path", "  /a b \n");
    assert_eq!(map.get("path"), Some(&"/a b".to_string()));
    assert_eq!(presence("Path", "path", &map), Presence::Present("Path: /a b".to_string()));
}

#[test]
fn present_password_is_never_echoed() {
    let mut map = ParameterMap::new();
    assert_eq!(password_presence("Password", "password", &map), Presence::Missing("Password: ".to_string()));
    assert_eq!(password_presence("", "password", &map), Presence::Missing("Password: ".to_string()));
    map.insert("password".to_string(), "hunter2".to_string());
    assert_eq!(password_presence("Password", "password", &map), Presence::Present("Password:".to_string()));
}

#[test]
fn command_line_tokens() {
    assert_eq!(command_tokens(" cd  /a \n"), vec!["cd", "/a"]);
    assert!(command_tokens("\n").is_empty());
    assert_eq!(command_tokens("exit"), vec!["exit"]);
}

#[test]
fn confirmation() {
    let mut map = ParameterMap::new();
    assert!(!confirmed(&map));
    map.insert("yes".to_string(), String::new());
    assert!(confirmed(&map));
    assert!(typed_yes("yes\n"));
    assert!(typed_yes("  yes  "));
    assert!(!typed_yes("y"));
    assert!(!typed_yes("Yes"));
    assert!(!typed_yes(""));
}

#[test]
fn addresses() {
    assert_eq!(request_url("example.com/api", false), "https://example.com/api");
    assert_eq!(request_url("example.com/api", true), "http://example.com/api");
    assert_eq!(endpoint("example.com", "/api/accounts/v1/create"), "example.com/api/accounts/v1/create");
}

#[test]
fn username_with_instance() {
    assert_eq!(split_username("user:example.com").ok(), Some(("user".to_string(), "example.com".to_string())));
    assert_eq!(split_username("a:b:c").ok(), Some(("a".to_string(), "b:c".to_string())));
    match split_username("user") {
        Err(e) => assert_eq!(e.message(), "Invalid username string `user`"),
        Ok(_) => panic!("accepted"),
    }
}

#[test]
fn status_length() {
    assert!(check_status("").is_ok());
    assert!(check_status(&"x".repeat(128)).is_ok());
    match check_status(&"x".repeat(129)) {
        Err(e) => assert_eq!(e.message(), "exceeds maximum length"),
        Ok(()) => panic!("accepted"),
    }
    assert!(check_status(&"é".repeat(64)).is_ok());
    assert!(check_status(&"é".repeat(65)).is_err());
}

#[test]
fn remote_paths() {
    let prefix = "/home".to_string();
    assert_eq!(remote_path(Some(&prefix), "docs").ok(), Some("/home/docs".to_string()));
    assert_eq!(remote_path(Some(&prefix), "/docs").ok(), Some("/docs".to_string()));
    assert_eq!(remote_path(None, "/docs").ok(), Some("/docs".to_string()));
    assert_eq!(remote_path(Some(&String::new()), "/docs").ok(), Some("/docs".to_string()));
    match remote_path(None, "docs") {
        Err(e) => assert_eq!(e.message(), "invalid file path"),
        Ok(_) => panic!("accepted"),
    }
    assert!(remote_path(Some(&String::new()), "docs").is_err());
    assert!(remote_path(Some(&"rel".to_string()), "docs").is_err());
    assert_eq!(without_root("/a/b"), "a/b");
    assert_eq!(without_root("/"), "");
}

#[test]
fn visibility_options() {
    assert_eq!(parse_visibility("private").ok(), Some(VisibilityChange::Own(ItemVisibility::Private)));
    assert_eq!(parse_visibility("public").ok(), Some(VisibilityChange::Own(ItemVisibility::Public)));
    assert_eq!(parse_visibility("hidden").ok(), Some(VisibilityChange::Own(ItemVisibility::Hidden)));
    assert_eq!(parse_visibility("inherit").ok(), Some(VisibilityChange::Inherit));
    match parse_visibility("Public") {
        Err(e) => assert_eq!(e.message(), "Invalid option `Public`"),
        Ok(_) => panic!("accepted"),
    }
}

#[test]
fn compile_options() {
    assert_eq!(parse_from_format("md").ok(), Some(FromFormat::Markdown));
    assert_eq!(parse_from_format("markdown").ok(), Some(FromFormat::Markdown));
    assert_eq!(parse_from_format("latex").ok(), Some(FromFormat::Latex));
    assert_eq!(parse_from_format("tex").err().map(|e| e.message()), Some("invalid from format".to_string()));
    assert_eq!(parse_to_format("html").ok(), Some(ToFormat::Html));
    assert_eq!(parse_to_format("pdf").ok(), Some(ToFormat::Pdf));
    assert_eq!(parse_to_format("").err().map(|e| e.message()), Some("invalid to format".to_string()));
    assert_eq!(parse_compiler("").ok(), Some(None));
    assert_eq!(parse_compiler("pulldown").ok(), Some(Some(Compiler::PulldownCmark)));
    assert_eq!(parse_compiler("pulldown-cmark").ok(), Some(Some(Compiler::PulldownCmark)));
    assert_eq!(parse_compiler("pdflatex").ok(), Some(Some(Compiler::Pdflatex)));
    assert_eq!(parse_compiler("xelatex").err().map(|e| e.message()), Some("Invalid compiler".to_string()));
}

#[test]
fn signed_numbers() {
    assert_eq!(parse_signed("0"), Ok(0));
    assert_eq!(parse_signed("-0"), Ok(0));
    assert_eq!(parse_signed("+12"), Ok(12));
    assert_eq!(parse_signed("-12"), Ok(-12));
    assert_eq!(parse_signed("9223372036854775807"), Ok(i64::MAX));
    assert_eq!(parse_signed("-9223372036854775808"), Ok(i64::MIN));
    assert_eq!(parse_signed("9223372036854775808"), Err(NumberFault::TooLarge));
    assert_eq!(parse_signed("-9223372036854775809"), Err(NumberFault::TooSmall));
    assert_eq!(parse_signed(""), Err(NumberFault::Empty));
    assert_eq!(parse_signed("-"), Err(NumberFault::InvalidDigit));
    assert_eq!(parse_signed("+"), Err(NumberFault::InvalidDigit));
    assert_eq!(parse_signed("--1"), Err(NumberFault::InvalidDigit));
    assert_eq!(parse_signed("-+1"), Err(NumberFault::InvalidDigit));
    assert_eq!(parse_signed("1-"), Err(NumberFault::InvalidDigit));
    assert_eq!(NumberFault::TooSmall.into_error().message(), "number too small to fit in target type");
    for s in ["", "-", "7", "-7", "+7", "-99999999999999999999", "99999999999999999999", "-1x", "1_000"] {
        match (parse_signed(s), s.parse::<i64>()) {
            (Ok(a), Ok(b)) => assert_eq!(a, b),
            (Err(fault), Err(e)) => assert_eq!(fault.into_error().message(), e.to_string()),
            _ => panic!("disagreement on {s:?}"),
        }
    }
    let mut out = String::new();
    append_signed(&mut out, -45);
    append_signed(&mut out, 6);
    append_signed(&mut out, i64::MIN);
    assert_eq!(out, "-456-9223372036854775808");
}

#[test]
fn month_names() {
    let names = ["Jan", "Feb", "Mar", "Apr", "May", "Jun", "Jul", "Aug", "Sept", "Oct", "Nov", "Dec"];
    for (i, name) in names.iter().enumerate() {
        assert_eq!(month_abbrev(i as u8 + 1), *name);
    }
}

fn item(name: &str, size: u64, is_file: bool, inherited: bool, visibility: ItemVisibility) -> DirItem {
    DirItem { visibility: Visibility { inherited, visibility }, is_file, name: name.to_string(), last_modified: 0, size }
}

#[test]
fn directory_lines() {
    let stamp = Stamp { year: 2024, month: 9, day: 5, hour: 7, minute: 3 };
    let file = item("notes.md", 1234, true, false, ItemVisibility::Public);
    assert_eq!(diritem_line(&file, 6, &stamp, "\"/a/notes.md\""), "file public  *   1234 24 Sept 5  07:03 \"/a/notes.md\"");
    let dir = item("pics", 0, false, true, ItemVisibility::Private);
    let stamp = Stamp { year: 1999, month: 12, day: 31, hour: 23, minute: 59 };
    assert_eq!(diritem_line(&dir, 1, &stamp, "x"), "dir  private   0 99 Dec  31 23:59 x");
    let hidden = item("h", 42, true, true, ItemVisibility::Hidden);
    let stamp = Stamp { year: 7, month: 5, day: 1, hour: 0, minute: 0 };
    assert_eq!(diritem_line(&hidden, 0, &stamp, "x"), "file hidden    42 7 May  1  00:00 x");
    let stamp = Stamp { year: -5, month: 1, day: 10, hour: 10, minute: 10 };
    assert_eq!(diritem_line(&hidden, 2, &stamp, "x"), "file hidden    42 -5 Jan  10 10:10 x");
}

#[test]
fn directory_line_quotes_the_path() {
    let stamp = Stamp { year: 2024, month: 1, day: 2, hour: 3, minute: 4 };
    let file = item("my \"file\"", 5, true, true, ItemVisibility::Public);
    assert_eq!(
        diritem_tostring(&file, 1, "/docs", &stamp),
        "file public    5 24 Jan  2  03:04 \"/docs/my \\\"file\\\"\""
    );
}

#[test]
fn width_of_size_column() {
    assert_eq!(longest_size(&Vec::new()), 0);
    let items = vec![
        item("a", 5, true, true, ItemVisibility::Public),
        item("b", 12345, true, true, ItemVisibility::Public),
        item("c", 99, true, true, ItemVisibility::Public),
    ];
    assert_eq!(longest_size(&items), 5);
    assert_eq!(longest_size(&vec![item("z", 0, false, true, ItemVisibility::Hidden)]), 1);
}

#[test]
fn published_document_line() {
    let publish = TexUserPublish { id: 12, title: "Notes".to_string(), desc: "about things".to_string(), ext: "pdf".to_string() };
    assert_eq!(display_publish_item(&publish), "12. Notes (pdf):\nabout things");
}

#[test]
fn command_line_that_opens_a_file() {
    assert_eq!(open_command("firefox {path}", "/tmp/a.html"), "firefox /tmp/a.html");
    assert_eq!(open_command("cp {path} {path}.bak", "x"), "cp x x.bak");
    assert_eq!(open_command("true", "x"), "true");
    assert_eq!(open_command("echo {Path} {path", "x"), "echo {Path} {path");
}

#[test]
fn order_of_names() {
    assert!(comes_before("a", "b"));
    assert!(!comes_before("b", "a"));
    assert!(!comes_before("a", "a"));
    assert!(comes_before("", "a"));
    assert!(!comes_before("a", ""));
    assert!(!comes_before("", ""));
    assert!(comes_before("ab", "abc"));
    assert!(comes_before("Z", "a"));
    assert!(comes_before("z", "é"));
    for (a, b) in [("a", "B"), ("é", "z"), ("日本", "日本語"), ("x1", "x10"), ("😀", "é")] {
        assert_eq!(comes_before(a, b), a < b);
        assert_eq!(comes_before(b, a), b < a);
    }
}

#[test]
fn items_sorted_by_name() {
    let names = ["pics", "Notes", "a.txt", "pics", "", "z", "a"];
    let mut items: Vec<DirItem> = names
        .iter()
        .enumerate()
        .map(|(i, name)| item(name, i as u64, true, true, ItemVisibility::Public))
        .collect();
    let mut expected: Vec<(String, u64)> = items.iter().map(|i| (i.name.clone(), i.size)).collect();
    expected.sort_by(|this, other| this.0.cmp(&other.0));
    sort_by_name(&mut items);
    let got: Vec<(String, u64)> = items.iter().map(|i| (i.name.clone(), i.size)).collect();
    assert_eq!(got, expected);
    assert_eq!(got[0], (String::new(), 4));
    assert_eq!(got[4], ("pics".to_string(), 0));
    assert_eq!(got[5], ("pics".to_string(), 3));
    let mut none: Vec<DirItem> = Vec::new();
    sort_by_name(&mut none);
    assert!(none.is_empty());
}
