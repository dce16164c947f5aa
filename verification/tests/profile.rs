use gm_cli::display::{display_profile, display_profile_joined, display_profile_only};
use gm_cli::profile::{CakeDayDetail, ProfileAccount, ProfileCustomisable, ProfileDetail};

fn draft() -> ProfileCustomisable {
    ProfileCustomisable {
        description: "hello".to_string(),
        details: vec![ProfileDetail::CakeDay { value: CakeDayDetail { day: 20, month: 7 } }],
    }
}

fn account(created: u64, verified: bool) -> ProfileAccount {
    ProfileAccount { id: 42, username: "user".to_string(), verified, created, status: "busy".to_string() }
}

#[test]
fn editable_part_as_shown() {
    assert_eq!(
        display_profile_only(&draft(), 42, "example.com"),
        "\nProfile image: `https://example.com/api/tex/generic/v1/pfp/id/42`\n\nDescription:\nhello\n\nDetails\n1: cake day: 20/7\n"
    );
}

#[test]
fn empty_draft_as_shown() {
    let empty = ProfileCustomisable { description: String::new(), details: Vec::new() };
    assert_eq!(
        display_profile_only(&empty, -1, "i"),
        "\nProfile image: `https://i/api/tex/generic/v1/pfp/id/-1`\n\nDescription:\n\x1B[38;5;8m[empty string]\x1B[0m\n\nDetails\n\x1B[38;5;8m[empty list]\x1B[0m\n"
    );
}

#[test]
fn whole_profile_with_given_date() {
    assert_eq!(
        display_profile_joined(&draft(), &account(0, false), "example.com", "2015-05-15"),
        "[Not verified]user (joined 2015-05-15)\n\nStatus: busy\n\nProfile image: `https://example.com/api/tex/generic/v1/pfp/id/42`\n\nDescription:\nhello\n\nDetails\n1: cake day: 20/7\n"
    );
}

#[test]
fn whole_profile_with_date_from_timestamp() {
    assert_eq!(
        display_profile(&draft(), &account(1431648000, true), "example.com"),
        Some(
            "user (joined 2015-05-15)\n\nStatus: busy\n\nProfile image: `https://example.com/api/tex/generic/v1/pfp/id/42`\n\nDescription:\nhello\n\nDetails\n1: cake day: 20/7\n"
                .to_string()
        )
    );
    let shown = display_profile(&draft(), &account(0, true), "example.com");
    assert_eq!(shown.map(|s| s.starts_with("user (joined 1970-01-01)")), Some(true));
    let shown = display_profile(&draft(), &account(u64::MAX, true), "example.com");
    assert_eq!(shown.map(|s| s.starts_with("user (joined 1969-12-31)")), Some(true));
}

#[test]
fn whole_profile_without_date() {
    assert_eq!(display_profile(&draft(), &account(i64::MAX as u64, true), "example.com"), None);
}
