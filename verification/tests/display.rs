use gm_cli::display::{
    contacts_from_string, contacts_list, contacts_prompt, contacts_to_string, contacts_to_url,
    details_from_string, details_list, details_prompt, details_to_string, display_details,
};
use gm_cli::profile::{BirthDayDetail, CakeDayDetail, ContactDetail, ProfileDetail};

fn detail_error(index: usize, value: &str) -> String {
    match details_from_string(index, value.to_string()) {
        Err(e) => e.message(),
        Ok(d) => panic!("accepted as {d:?}"),
    }
}

fn contact_error(index: usize, value: &str) -> String {
    match contacts_from_string(index, value.to_string()) {
        Err(e) => e.message(),
        Ok(c) => panic!("accepted as {c:?}"),
    }
}

fn detail(index: usize, value: &str) -> ProfileDetail {
    match details_from_string(index, value.to_string()) {
        Ok(d) => d,
        Err(e) => panic!("refused: {}", e.message()),
    }
}

fn contact(index: usize, value: &str) -> ContactDetail {
    match contacts_from_string(index, value.to_string()) {
        Ok(c) => c,
        Err(e) => panic!("refused: {}", e.message()),
    }
}

#[test]
fn details_list_text() {
    assert_eq!(
        details_list(),
        "1: cake day\n2: birthday\n3: location\n4: occupation\n5: company\n6: school\n7: education level"
    );
}

#[test]
fn contacts_list_text() {
    assert_eq!(
        contacts_list(),
        "1: email\n2: matrix\n3: mastodon\n4: lemmy\n5: github\n6: gitlab\n7: bitbucket\n8: reddit\n9: discord\n10: twitter\n11: youtube\n12: odysee\n13: website"
    );
}

#[test]
fn details_prompt_texts() {
    let expected = [
        "Enter your cake day in format `day/month`, for exmaple `20/7`",
        "Enter your birthday in format `day/month/year`, for example 20/7/2027",
        "Enter your location name",
        "Enter your occupation title",
        "Enter your company name",
        "Enter your school name",
        "Enter your education level",
    ];
    for (i, text) in expected.iter().enumerate() {
        assert_eq!(details_prompt(i + 1).ok(), Some(text.to_string()));
    }
}

#[test]
fn details_prompt_out_of_range() {
    for index in [0, 8, 100, usize::MAX] {
        match details_prompt(index) {
            Err(e) => assert_eq!(e.message(), "invalid option"),
            Ok(p) => panic!("prompt {p:?} for {index}"),
        }
    }
}

#[test]
fn contacts_prompt_texts() {
    let expected = [
        "Enter your email address (e.g. user@example.com)",
        "Enter your matrix user id (e.g. user:example.com)",
        "Enter your mastodon user id (e.g. user:example.com)",
        "Enter your lemmy user id (e.g. user:example.com)",
        "Enter your github username (e.g. user)",
        "Enter your gitlab username (e.g. user)",
        "Enter your bitbucket username (e.g. user)",
        "Enter your reddit username (e.g. user)",
        "Enter your discord username (e.g. user)",
        "Enter your twitter username (e.g. user)",
        "Enter your youtube username (e.g. user)",
        "Enter your odysee username (e.g. user:1)",
        "Enter your website (e.g. example.com without `https://`)",
    ];
    for (i, text) in expected.iter().enumerate() {
        assert_eq!(contacts_prompt(i + 1).ok(), Some(text.to_string()));
    }
    for index in [0, 14] {
        match contacts_prompt(index) {
            Err(e) => assert_eq!(e.message(), "invalid option"),
            Ok(p) => panic!("prompt {p:?} for {index}"),
        }
    }
}

#[test]
fn cake_day_from_text() {
    assert_eq!(
        detail(1, "20/7"),
        ProfileDetail::CakeDay { value: CakeDayDetail { day: 20, month: 7 } }
    );
    assert_eq!(
        detail(1, "+1/012"),
        ProfileDetail::CakeDay { value: CakeDayDetail { day: 1, month: 12 } }
    );
    assert_eq!(
        detail(1, "255/0"),
        ProfileDetail::CakeDay { value: CakeDayDetail { day: 255, month: 0 } }
    );
}

#[test]
fn cake_day_errors() {
    assert_eq!(detail_error(1, "20"), "expected pattern `day/month`");
    assert_eq!(detail_error(1, ""), "expected pattern `day/month`");
    assert_eq!(detail_error(1, "/7"), "cannot parse integer from empty string");
    assert_eq!(detail_error(1, "20/"), "cannot parse integer from empty string");
    assert_eq!(detail_error(1, "x/7"), "invalid digit found in string");
    assert_eq!(detail_error(1, "20/7/1"), "invalid digit found in string");
    assert_eq!(detail_error(1, "256/7"), "number too large to fit in target type");
    assert_eq!(detail_error(1, "1/300"), "number too large to fit in target type");
    assert_eq!(detail_error(1, "300/x"), "number too large to fit in target type");
    assert_eq!(detail_error(1, " 20/7"), "invalid digit found in string");
}

#[test]
fn birthday_from_text() {
    assert_eq!(
        detail(2, "20/7/2027"),
        ProfileDetail::BirthDay { value: BirthDayDetail { day: 20, month: 7, year: 2027 } }
    );
    assert_eq!(
        detail(2, "1/1/65535"),
        ProfileDetail::BirthDay { value: BirthDayDetail { day: 1, month: 1, year: 65535 } }
    );
}

#[test]
fn birthday_errors() {
    assert_eq!(detail_error(2, "20/7"), "expected pattern `day/month/year`");
    assert_eq!(detail_error(2, "20"), "expected pattern `day/month/year`");
    assert_eq!(detail_error(2, "1/1/65536"), "number too large to fit in target type");
    assert_eq!(detail_error(2, "1/1/2000/3"), "invalid digit found in string");
    assert_eq!(detail_error(2, "//"), "cannot parse integer from empty string");
    assert_eq!(detail_error(2, "1/x/"), "invalid digit found in string");
}

#[test]
fn text_details_are_taken_as_they_are() {
    assert_eq!(detail(3, "Hong Kong"), ProfileDetail::Location { value: "Hong Kong".to_string() });
    assert_eq!(detail(4, "a/b"), ProfileDetail::Occupation { value: "a/b".to_string() });
    assert_eq!(detail(5, ""), ProfileDetail::Company { value: String::new() });
    assert_eq!(detail(6, "s"), ProfileDetail::School { value: "s".to_string() });
    assert_eq!(detail(7, "phd"), ProfileDetail::EducationLevel { value: "phd".to_string() });
}

#[test]
fn detail_kind_out_of_range() {
    assert_eq!(detail_error(0, "20/7"), "invalid option");
    assert_eq!(detail_error(8, "x"), "invalid option");
    assert_eq!(detail_error(usize::MAX, "x"), "invalid option");
}

#[test]
fn contacts_from_text() {
    let s = |t: &str| t.to_string();
    assert_eq!(contact(1, "user@example.com"), ContactDetail::Email { name: s("user"), instance: s("example.com") });
    assert_eq!(contact(1, "a@b@c"), ContactDetail::Email { name: s("a"), instance: s("b@c") });
    assert_eq!(contact(2, "user:example.com"), ContactDetail::Matrix { name: s("user"), instance: s("example.com") });
    assert_eq!(contact(3, "user:example.com"), ContactDetail::Mastodon { name: s("user"), instance: s("example.com") });
    assert_eq!(contact(4, "user:example.com"), ContactDetail::Lemmy { name: s("user"), instance: s("example.com") });
    assert_eq!(contact(5, "user"), ContactDetail::Github { value: s("user") });
    assert_eq!(contact(6, "user"), ContactDetail::Gitlab { value: s("user") });
    assert_eq!(contact(7, "user"), ContactDetail::Bitbucket { value: s("user") });
    assert_eq!(contact(8, "user"), ContactDetail::Reddit { value: s("user") });
    assert_eq!(contact(9, "user"), ContactDetail::Discord { value: s("user") });
    assert_eq!(contact(10, "user"), ContactDetail::Twitter { value: s("user") });
    assert_eq!(contact(11, "user"), ContactDetail::Youtube { value: s("user") });
    assert_eq!(contact(12, "user:1"), ContactDetail::Odysee { name: s("user"), discriminator: 1 });
    assert_eq!(contact(13, "example.com"), ContactDetail::Website { value: s("example.com") });
}

#[test]
fn contact_errors() {
    let pattern = "invalid format, expected `username@instance.com`";
    assert_eq!(contact_error(1, "user:example.com"), pattern);
    assert_eq!(contact_error(2, "user@example.com"), pattern);
    assert_eq!(contact_error(3, "user"), pattern);
    assert_eq!(contact_error(4, ""), pattern);
    assert_eq!(contact_error(12, "user"), pattern);
    assert_eq!(contact_error(12, "user:x"), "invalid digit found in string");
    assert_eq!(contact_error(12, "user:"), "cannot parse integer from empty string");
    assert_eq!(contact_error(12, "user:65536"), "number too large to fit in target type");
    assert_eq!(contact_error(12, "user:1:2"), "invalid digit found in string");
    assert_eq!(contact_error(0, "user"), "invalid option");
    assert_eq!(contact_error(14, "user"), "invalid option");
}

#[test]
fn contact_urls() {
    let s = |t: &str| t.to_string();
    let u = |c: ContactDetail| contacts_to_url(&c);
    assert_eq!(u(ContactDetail::Email { name: s("n"), instance: s("i") }), None);
    assert_eq!(u(ContactDetail::Discord { value: s("v") }), None);
    assert_eq!(u(ContactDetail::Matrix { name: s("n"), instance: s("i") }), Some(s("https://matrix.to/#/n:i")));
    assert_eq!(u(ContactDetail::Mastodon { name: s("n"), instance: s("i") }), Some(s("https://i/@n")));
    assert_eq!(u(ContactDetail::Lemmy { name: s("n"), instance: s("i") }), Some(s("https://i/u/n")));
    assert_eq!(u(ContactDetail::Github { value: s("v") }), Some(s("https://github.com/v")));
    assert_eq!(u(ContactDetail::Gitlab { value: s("v") }), Some(s("https://gitlab.com/v")));
    assert_eq!(u(ContactDetail::Bitbucket { value: s("v") }), Some(s("https://bitbucket.com/v")));
    assert_eq!(u(ContactDetail::Reddit { value: s("v") }), Some(s("https://reddit.com/u/v")));
    assert_eq!(u(ContactDetail::Twitter { value: s("v") }), Some(s("https://twitter.com/v")));
    assert_eq!(u(ContactDetail::Youtube { value: s("v") }), Some(s("https://youtube.com/@v")));
    assert_eq!(u(ContactDetail::Odysee { name: s("n"), discriminator: 12 }), Some(s("https://odysee.com/@n:12")));
    assert_eq!(u(ContactDetail::Website { value: s("v.org") }), Some(s("https://v.org")));
}

#[test]
fn contact_lines() {
    let s = |t: &str| t.to_string();
    let t = |c: ContactDetail| contacts_to_string(&c);
    assert_eq!(t(ContactDetail::Email { name: s("n"), instance: s("i") }), "email: n@i");
    assert_eq!(t(ContactDetail::Discord { value: s("v") }), "discord: v");
    assert_eq!(t(ContactDetail::Matrix { name: s("n"), instance: s("i") }), "matrix: n:i (https://matrix.to/#/n:i)");
    assert_eq!(t(ContactDetail::Mastodon { name: s("n"), instance: s("i") }), "mastodon: n:i (https://i/@n)");
    assert_eq!(t(ContactDetail::Lemmy { name: s("n"), instance: s("i") }), "lemmy: n:i (https://i/u/n)");
    assert_eq!(t(ContactDetail::Github { value: s("v") }), "github: v (https://github.com/v)");
    assert_eq!(t(ContactDetail::Gitlab { value: s("v") }), "gitlab: v (https://gitlab.com/v)");
    assert_eq!(t(ContactDetail::Bitbucket { value: s("v") }), "bitbucket: v (https://bitbucket.com/v)");
    assert_eq!(t(ContactDetail::Reddit { value: s("v") }), "reddit: v (https://reddit.com/u/v)");
    assert_eq!(t(ContactDetail::Twitter { value: s("v") }), "twitter: v (https://twitter.com/v)");
    assert_eq!(t(ContactDetail::Youtube { value: s("v") }), "youtube: v (https://youtube.com/@v)");
    assert_eq!(t(ContactDetail::Odysee { name: s("n"), discriminator: 0 }), "odysee: n:0 (https://odysee.com/@n:0)");
    assert_eq!(t(ContactDetail::Website { value: s("v.org") }), "website: v.org (https://v.org)");
}

#[test]
fn detail_lines() {
    let s = |t: &str| t.to_string();
    let t = |d: ProfileDetail| details_to_string(&d);
    assert_eq!(t(ProfileDetail::CakeDay { value: CakeDayDetail { day: 20, month: 7 } }), "cake day: 20/7");
    assert_eq!(t(ProfileDetail::BirthDay { value: BirthDayDetail { day: 1, month: 12, year: 2027 } }), "birthday: 1/12/2027");
    assert_eq!(t(ProfileDetail::Location { value: s("here") }), "locaton: here");
    assert_eq!(t(ProfileDetail::Occupation { value: s("x") }), "occupation: x");
    assert_eq!(t(ProfileDetail::Company { value: s("x") }), "company: x");
    assert_eq!(t(ProfileDetail::School { value: s("x") }), "school: x");
    assert_eq!(t(ProfileDetail::EducationLevel { value: s("x") }), "education level: x");
    assert_eq!(
        t(ProfileDetail::Contact { value: ContactDetail::Github { value: s("v") } }),
        "github: v (https://github.com/v)"
    );
}

#[test]
fn display_details_numbers_the_lines() {
    assert_eq!(display_details(&Vec::new()), "\x1B[38;5;8m[empty list]\x1B[0m");
    let details = vec![
        ProfileDetail::CakeDay { value: CakeDayDetail { day: 20, month: 7 } },
        ProfileDetail::Location { value: "here".to_string() },
        ProfileDetail::Contact { value: ContactDetail::Discord { value: "d".to_string() } },
    ];
    assert_eq!(display_details(&details), "1: cake day: 20/7\n2: locaton: here\n3: discord: d");
    assert_eq!(display_details(&details[..1].to_vec()), "1: cake day: 20/7");
}

#[test]
fn written_detail_reads_back() {
    let d = ProfileDetail::BirthDay { value: BirthDayDetail { day: 9, month: 10, year: 1999 } };
    let line = details_to_string(&d);
    let value = line.strip_prefix("birthday: ");
    assert_eq!(value.map(|v| detail(2, v)), Some(d.clone()));
}
