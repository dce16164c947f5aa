use gm_cli::editor::{help_text, Editor, EditorAction, EditorMode};
use gm_cli::profile::{BirthDayDetail, CakeDayDetail, ContactDetail, ProfileCustomisable, ProfileDetail};
use gm_cli::validation::{profile_error, profile_fault, ProfileFault, MAX_DESCRIPTION, MAX_DETAILS};

fn empty() -> ProfileCustomisable {
    ProfileCustomisable { description: String::new(), details: Vec::new() }
}

fn cake(day: u8, month: u8) -> ProfileDetail {
    ProfileDetail::CakeDay { value: CakeDayDetail { day, month } }
}

fn location(name: &str) -> ProfileDetail {
    ProfileDetail::Location { value: name.to_string() }
}

#[test]
fn detail_dialogue_then_write_saves_one_cake_day() {
    let mut editor = Editor::new(empty());
    let mut saved: Vec<ProfileCustomisable> = Vec::new();
    let mut actions = Vec::new();
    for line in ["detail", "1", "20/7", "write"] {
        let action = editor.step(line, None);
        if let EditorAction::Save(profile) = &action {
            saved.push(profile.clone());
        }
        actions.push(action);
    }
    assert!(matches!(actions[0], EditorAction::ChooseDetail));
    match &actions[1] {
        EditorAction::AskValue(prompt) => {
            assert_eq!(prompt, "Enter your cake day in format `day/month`, for exmaple `20/7`")
        }
        other => panic!("expected a prompt, got {other:?}"),
    }
    assert!(matches!(actions[2], EditorAction::Added));
    assert_eq!(editor.profile.details, vec![cake(20, 7)]);
    assert_eq!(saved.len(), 1);
    assert_eq!(saved[0], ProfileCustomisable { description: String::new(), details: vec![cake(20, 7)] });
    assert_eq!(editor.mode, EditorMode::Command);
}

#[test]
fn rm_removes_the_only_detail() {
    let mut editor = Editor::new(ProfileCustomisable { description: "d".to_string(), details: vec![cake(1, 1)] });
    assert!(matches!(editor.step("rm 1", None), EditorAction::Removed));
    assert!(editor.profile.details.is_empty());
    assert_eq!(editor.profile.description, "d");
}

#[test]
fn rm_on_empty_draft_reports_and_changes_nothing() {
    let mut editor = Editor::new(empty());
    assert!(matches!(editor.step("rm 1", None), EditorAction::InvalidIndex));
    assert_eq!(editor.profile, empty());
    assert_eq!(editor.mode, EditorMode::Command);
}

#[test]
fn rm_counts_from_one() {
    let details = vec![location("a"), location("b"), location("c")];
    let mut editor = Editor::new(ProfileCustomisable { description: String::new(), details });
    assert!(matches!(editor.step("rm 0", None), EditorAction::InvalidIndex));
    assert!(matches!(editor.step("rm 4", None), EditorAction::InvalidIndex));
    assert!(matches!(editor.step("rm 2", None), EditorAction::Removed));
    assert_eq!(editor.profile.details, vec![location("a"), location("c")]);
    assert!(matches!(editor.step("rm +2", None), EditorAction::Removed));
    assert_eq!(editor.profile.details, vec![location("a")]);
}

#[test]
fn rm_with_bad_number() {
    let mut editor = Editor::new(ProfileCustomisable { description: String::new(), details: vec![location("a")] });
    match editor.step("rm x", None) {
        EditorAction::BadNumber(e) => assert_eq!(e.message(), "invalid digit found in string"),
        other => panic!("got {other:?}"),
    }
    match editor.step("rm -1", None) {
        EditorAction::BadNumber(e) => assert_eq!(e.message(), "invalid digit found in string"),
        other => panic!("got {other:?}"),
    }
    match editor.step("rm 99999999999999999999999", None) {
        EditorAction::BadNumber(e) => assert_eq!(e.message(), "number too large to fit in target type"),
        other => panic!("got {other:?}"),
    }
    match editor.step("rm ", None) {
        EditorAction::Unknown => {}
        other => panic!("got {other:?}"),
    }
    match editor.step("rm 1 2", None) {
        EditorAction::Unknown => {}
        other => panic!("got {other:?}"),
    }
    assert_eq!(editor.profile.details.len(), 1);
    assert!(matches!(editor.step(" rm \t 1 ", None), EditorAction::Removed));
    assert!(editor.profile.details.is_empty());
}

#[test]
fn desc_accepts_any_length_and_write_refuses_too_long() {
    let long = "x".repeat(2001);
    let mut editor = Editor::new(empty());
    assert!(matches!(editor.step(&format!("desc {long}"), None), EditorAction::Described));
    assert_eq!(editor.profile.description, long);
    match editor.step("write", None) {
        EditorAction::Refused(message) => assert_eq!(message, "Description is too long (2000 max)"),
        other => panic!("got {other:?}"),
    }
    assert_eq!(editor.profile.description, long);
    let fits = "y".repeat(2000);
    assert!(matches!(editor.step(&format!("desc {fits}"), None), EditorAction::Described));
    match editor.step("write", None) {
        EditorAction::Save(profile) => assert_eq!(profile.description, fits),
        other => panic!("got {other:?}"),
    }
}

#[test]
fn description_length_is_counted_in_bytes() {
    let text = "é".repeat(1001);
    let mut editor = Editor::new(empty());
    assert!(matches!(editor.step(&format!("desc {text}"), None), EditorAction::Described));
    assert!(matches!(editor.step("write", None), EditorAction::Refused(_)));
    let text = "é".repeat(1000);
    assert!(matches!(editor.step(&format!("desc {text}"), None), EditorAction::Described));
    assert!(matches!(editor.step("write", None), EditorAction::Save(_)));
}

#[test]
fn desc_joins_tokens_with_single_spaces() {
    let mut editor = Editor::new(empty());
    assert!(matches!(editor.step("  desc hello  world \n", None), EditorAction::Described));
    assert_eq!(editor.profile.description, "hello world");
    assert!(matches!(editor.step("desc", None), EditorAction::Described));
    assert_eq!(editor.profile.description, "");
}

#[test]
fn second_date_is_added_but_refused_at_write() {
    let mut editor = Editor::new(ProfileCustomisable { description: String::new(), details: vec![location("x"), cake(20, 7)] });
    assert!(matches!(editor.step("detail", None), EditorAction::ChooseDetail));
    assert!(matches!(editor.step("2", None), EditorAction::AskValue(_)));
    assert!(matches!(editor.step("1/2/2003", None), EditorAction::Added));
    assert_eq!(editor.profile.details.len(), 3);
    assert_eq!(
        editor.profile.details[2],
        ProfileDetail::BirthDay { value: BirthDayDetail { day: 1, month: 2, year: 2003 } }
    );
    assert_eq!(profile_fault(&editor.profile, None), Some(ProfileFault::SecondDate { index: 2 }));
    match editor.step("write", None) {
        EditorAction::Refused(message) => assert_eq!(
            message,
            "Only one birthday or cake day allowed, try running command `rm 3` to remove it"
        ),
        other => panic!("got {other:?}"),
    }
    assert_eq!(editor.profile.details.len(), 3);
    assert!(matches!(editor.step("rm 3", None), EditorAction::Removed));
    assert!(matches!(editor.step("write", None), EditorAction::Save(_)));
}

#[test]
fn contact_dialogue_adds_contact() {
    let mut editor = Editor::new(empty());
    assert!(matches!(editor.step("contact", None), EditorAction::ChooseContact));
    assert_eq!(editor.mode, EditorMode::ContactKind);
    match editor.step(" 12 ", None) {
        EditorAction::AskValue(prompt) => assert_eq!(prompt, "Enter your odysee username (e.g. user:1)"),
        other => panic!("got {other:?}"),
    }
    assert_eq!(editor.mode, EditorMode::ContactValue { index: 12 });
    assert!(matches!(editor.step("me:42\n", None), EditorAction::Added));
    assert_eq!(
        editor.profile.details,
        vec![ProfileDetail::Contact { value: ContactDetail::Odysee { name: "me".to_string(), discriminator: 42 } }]
    );
    assert_eq!(editor.mode, EditorMode::Command);
}

#[test]
fn dialogue_ends_on_bad_kind() {
    let mut editor = Editor::new(empty());
    editor.step("detail", None);
    assert!(matches!(editor.step("8", None), EditorAction::NoSuchKind(8)));
    assert_eq!(editor.mode, EditorMode::Command);
    editor.step("detail", None);
    assert!(matches!(editor.step("0", None), EditorAction::NoSuchKind(0)));
    editor.step("contact", None);
    assert!(matches!(editor.step("14", None), EditorAction::NoSuchKind(14)));
    editor.step("contact", None);
    match editor.step("one", None) {
        EditorAction::Rejected(e) => assert_eq!(e.message(), "invalid digit found in string"),
        other => panic!("got {other:?}"),
    }
    assert_eq!(editor.mode, EditorMode::Command);
    editor.step("detail", None);
    match editor.step("", None) {
        EditorAction::Rejected(e) => assert_eq!(e.message(), "cannot parse integer from empty string"),
        other => panic!("got {other:?}"),
    }
    assert_eq!(editor.profile, empty());
}

#[test]
fn dialogue_ends_on_bad_value_without_asking_again() {
    let mut editor = Editor::new(empty());
    editor.step("detail", None);
    editor.step("1", None);
    match editor.step("20-7", None) {
        EditorAction::Rejected(e) => assert_eq!(e.message(), "expected pattern `day/month`"),
        other => panic!("got {other:?}"),
    }
    assert_eq!(editor.mode, EditorMode::Command);
    assert!(editor.profile.details.is_empty());
    assert!(matches!(editor.step("20/7", None), EditorAction::Unknown));
}

#[test]
fn other_commands() {
    let mut editor = Editor::new(empty());
    assert!(matches!(editor.step("help", None), EditorAction::Help));
    assert!(matches!(editor.step("exit", None), EditorAction::Exit));
    assert!(matches!(editor.step("", None), EditorAction::Nothing));
    assert!(matches!(editor.step(" \n", None), EditorAction::Nothing));
    assert!(matches!(editor.step("detail 1", None), EditorAction::Unknown));
    assert!(matches!(editor.step("write now", None), EditorAction::Unknown));
    assert!(matches!(editor.step("describe", None), EditorAction::Unknown));
    assert!(matches!(editor.step("exit ", None), EditorAction::Exit));
    assert_eq!(editor.profile, empty());
}

#[test]
fn write_refuses_detail_that_the_service_rejects() {
    let details = vec![location("a"), cake(40, 13)];
    let mut editor = Editor::new(ProfileCustomisable { description: String::new(), details });
    match editor.step("write", Some(1)) {
        EditorAction::Refused(message) => assert_eq!(
            message,
            "Invalid detail 2 = \"cake day: 40/13\", try running command `rm 2` to remove it"
        ),
        other => panic!("got {other:?}"),
    }
    assert!(matches!(editor.step("write", Some(5)), EditorAction::Save(_)));
    assert!(matches!(editor.step("write", None), EditorAction::Save(_)));
}

#[test]
fn validation_rules_in_order() {
    let many: Vec<ProfileDetail> = (0..21).map(|_| cake(1, 1)).collect();
    let profile = ProfileCustomisable { description: "x".repeat(MAX_DESCRIPTION + 1), details: many.clone() };
    assert_eq!(profile_fault(&profile, Some(0)), Some(ProfileFault::DescriptionTooLong));
    let profile = ProfileCustomisable { description: String::new(), details: many };
    assert_eq!(profile_fault(&profile, Some(0)), Some(ProfileFault::TooManyDetails));
    assert_eq!(profile_error(&profile, Some(0)), Some("Details are too many (20 max)".to_string()));
    let twenty: Vec<ProfileDetail> = (0..MAX_DETAILS).map(|i| location(&i.to_string())).collect();
    let profile = ProfileCustomisable { description: String::new(), details: twenty };
    assert_eq!(profile_fault(&profile, None), None);
    assert_eq!(profile_error(&profile, None), None);
    assert_eq!(profile_fault(&profile, Some(19)), Some(ProfileFault::InvalidDetail { index: 19 }));
    assert_eq!(profile_fault(&profile, Some(20)), None);
    let profile = ProfileCustomisable { description: String::new(), details: vec![cake(1, 1), location("a"), cake(2, 2), cake(3, 3)] };
    assert_eq!(profile_fault(&profile, Some(0)), Some(ProfileFault::SecondDate { index: 2 }));
    let profile = ProfileCustomisable { description: String::new(), details: vec![cake(1, 1)] };
    assert_eq!(profile_fault(&profile, None), None);
    assert_eq!(profile_fault(&profile, Some(0)), Some(ProfileFault::InvalidDetail { index: 0 }));
}

#[test]
fn fault_messages() {
    let profile = ProfileCustomisable { description: String::new(), details: vec![location("a"), location("b")] };
    assert_eq!(ProfileFault::DescriptionTooLong.message(&profile), "Description is too long (2000 max)");
    assert_eq!(ProfileFault::TooManyDetails.message(&profile), "Details are too many (20 max)");
    assert_eq!(
        ProfileFault::SecondDate { index: 1 }.message(&profile),
        "Only one birthday or cake day allowed, try running command `rm 2` to remove it"
    );
    assert_eq!(
        ProfileFault::InvalidDetail { index: 0 }.message(&profile),
        "Invalid detail 1 = \"locaton: a\", try running command `rm 1` to remove it"
    );
}

#[test]
fn help_lists_the_commands() {
    assert_eq!(
        help_text(),
        "[Commands]\n1. write\n2. exit\n3. rm [index]: remove detail\n4. detail: add detail\n5. desc [replace]: replace description with string\n6. contact: add contact\n7. help\n"
    );
}
