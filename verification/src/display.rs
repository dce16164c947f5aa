//! Texts for the profile editor: the lists of what can be added, the
//! prompts, and details read from and written as text.

use vstd::prelude::*;
use crate::error::Error;
use crate::number::{append_number, append_signed, decimal, parse_unsigned, signed_decimal, unsigned_of};
use crate::profile::{
    BirthDayDetail, CakeDayDetail, ContactDetail, ContactView, DetailView, ProfileAccount,
    ProfileCustomisable, ProfileDetail, ProfileView,
};
use crate::text::{split_once, split_once_on};

verus! {

/// How many kinds of detail can be added by number.
pub const DETAIL_KINDS: usize = 7;

/// How many kinds of contact can be added by number.
pub const CONTACT_KINDS: usize = 13;

/// The name of the detail kind with the given number, counted from one.
pub open spec fn detail_label_text(index: int) -> Seq<char> {
    if index == 1 {
        "cake day"@
    } else if index == 2 {
        "birthday"@
    } else if index == 3 {
        "location"@
    } else if index == 4 {
        "occupation"@
    } else if index == 5 {
        "company"@
    } else if index == 6 {
        "school"@
    } else {
        "education level"@
    }
}

/// What the user is asked to enter for the detail kind with the given
/// number.
pub open spec fn detail_prompt_text(index: int) -> Seq<char> {
    if index == 1 {
        "cake day in format `day/month`, for exmaple `20/7`"@
    } else if index == 2 {
        "birthday in format `day/month/year`, for example 20/7/2027"@
    } else if index == 3 {
        "location name"@
    } else if index == 4 {
        "occupation title"@
    } else if index == 5 {
        "company name"@
    } else if index == 6 {
        "school name"@
    } else {
        "education level"@
    }
}

/// The name of the contact kind with the given number, counted from one.
pub open spec fn contact_label_text(index: int) -> Seq<char> {
    if index == 1 {
        "email"@
    } else if index == 2 {
        "matrix"@
    } else if index == 3 {
        "mastodon"@
    } else if index == 4 {
        "lemmy"@
    } else if index == 5 {
        "github"@
    } else if index == 6 {
        "gitlab"@
    } else if index == 7 {
        "bitbucket"@
    } else if index == 8 {
        "reddit"@
    } else if index == 9 {
        "discord"@
    } else if index == 10 {
        "twitter"@
    } else if index == 11 {
        "youtube"@
    } else if index == 12 {
        "odysee"@
    } else {
        "website"@
    }
}

/// What the user is asked to enter for the contact kind with the given
/// number.
pub open spec fn contact_prompt_text(index: int) -> Seq<char> {
    if index == 1 {
        "email address (e.g. user@example.com)"@
    } else if index == 2 {
        "matrix user id (e.g. user:example.com)"@
    } else if index == 3 {
        "mastodon user id (e.g. user:example.com)"@
    } else if index == 4 {
        "lemmy user id (e.g. user:example.com)"@
    } else if index == 5 {
        "github username (e.g. user)"@
    } else if index == 6 {
        "gitlab username (e.g. user)"@
    } else if index == 7 {
        "bitbucket username (e.g. user)"@
    } else if index == 8 {
        "reddit username (e.g. user)"@
    } else if index == 9 {
        "discord username (e.g. user)"@
    } else if index == 10 {
        "twitter username (e.g. user)"@
    } else if index == 11 {
        "youtube username (e.g. user)"@
    } else if index == 12 {
        "odysee username (e.g. user:1)"@
    } else {
        "website (e.g. example.com without `https://`)"@
    }
}

/// The name of the detail kind with the given number.
fn detail_label(index: usize) -> (r: &'static str)
    ensures
        r@ == detail_label_text(index as int),
{
    if index == 1 {
        "cake day"
    } else if index == 2 {
        "birthday"
    } else if index == 3 {
        "location"
    } else if index == 4 {
        "occupation"
    } else if index == 5 {
        "company"
    } else if index == 6 {
        "school"
    } else {
        "education level"
    }
}

/// What is asked for the detail kind with the given number.
fn detail_prompt(index: usize) -> (r: &'static str)
    ensures
        r@ == detail_prompt_text(index as int),
{
    if index == 1 {
        "cake day in format `day/month`, for exmaple `20/7`"
    } else if index == 2 {
        "birthday in format `day/month/year`, for example 20/7/2027"
    } else if index == 3 {
        "location name"
    } else if index == 4 {
        "occupation title"
    } else if index == 5 {
        "company name"
    } else if index == 6 {
        "school name"
    } else {
        "education level"
    }
}

/// The name of the contact kind with the given number.
fn contact_label(index: usize) -> (r: &'static str)
    ensures
        r@ == contact_label_text(index as int),
{
    if index == 1 {
        "email"
    } else if index == 2 {
        "matrix"
    } else if index == 3 {
        "mastodon"
    } else if index == 4 {
        "lemmy"
    } else if index == 5 {
        "github"
    } else if index == 6 {
        "gitlab"
    } else if index == 7 {
        "bitbucket"
    } else if index == 8 {
        "reddit"
    } else if index == 9 {
        "discord"
    } else if index == 10 {
        "twitter"
    } else if index == 11 {
        "youtube"
    } else if index == 12 {
        "odysee"
    } else {
        "website"
    }
}

/// What is asked for the contact kind with the given number.
fn contact_prompt(index: usize) -> (r: &'static str)
    ensures
        r@ == contact_prompt_text(index as int),
{
    if index == 1 {
        "email address (e.g. user@example.com)"
    } else if index == 2 {
        "matrix user id (e.g. user:example.com)"
    } else if index == 3 {
        "mastodon user id (e.g. user:example.com)"
    } else if index == 4 {
        "lemmy user id (e.g. user:example.com)"
    } else if index == 5 {
        "github username (e.g. user)"
    } else if index == 6 {
        "gitlab username (e.g. user)"
    } else if index == 7 {
        "bitbucket username (e.g. user)"
    } else if index == 8 {
        "reddit username (e.g. user)"
    } else if index == 9 {
        "discord username (e.g. user)"
    } else if index == 10 {
        "twitter username (e.g. user)"
    } else if index == 11 {
        "youtube username (e.g. user)"
    } else if index == 12 {
        "odysee username (e.g. user:1)"
    } else {
        "website (e.g. example.com without `https://`)"
    }
}

/// The lines `1: ..` to `n: ..` with the given labels, one below the
/// other.
pub open spec fn numbered(labels: spec_fn(int) -> Seq<char>, n: nat) -> Seq<char>
    decreases n,
{
    if n == 0 {
        Seq::empty()
    } else if n == 1 {
        decimal(1) + ": "@ + labels(1)
    } else {
        numbered(labels, (n - 1) as nat) + "\n"@ + decimal(n) + ": "@ + labels(n as int)
    }
}

/// The kinds of detail that can be added, one numbered line for each.
pub fn details_list() -> (out: String)
    ensures
        out@ == numbered(|i: int| detail_label_text(i), DETAIL_KINDS as nat),
{
    let ghost labels = |i: int| detail_label_text(i);
    let mut out = String::new();
    let mut i: usize = 1;
    while i <= DETAIL_KINDS
        invariant
            1 <= i <= DETAIL_KINDS + 1,
            labels == |i: int| detail_label_text(i),
            out@ == numbered(labels, (i - 1) as nat),
        decreases DETAIL_KINDS + 1 - i,
    {
        let ghost before = out@;
        if i > 1 {
            out.append("\n");
        }
        append_number(&mut out, i as u64);
        out.append(": ");
        out.append(detail_label(i));
        proof {
            assert(labels(i as int) == detail_label_text(i as int));
            if i == 1 {
                assert(before == Seq::<char>::empty());
                assert(before + decimal(1) == decimal(1));
            }
        }
        i += 1;
    }
    out
}

/// The kinds of contact that can be added, one numbered line for each.
pub fn contacts_list() -> (out: String)
    ensures
        out@ == numbered(|i: int| contact_label_text(i), CONTACT_KINDS as nat),
{
    let ghost labels = |i: int| contact_label_text(i);
    let mut out = String::new();
    let mut i: usize = 1;
    while i <= CONTACT_KINDS
        invariant
            1 <= i <= CONTACT_KINDS + 1,
            labels == |i: int| contact_label_text(i),
            out@ == numbered(labels, (i - 1) as nat),
        decreases CONTACT_KINDS + 1 - i,
    {
        let ghost before = out@;
        if i > 1 {
            out.append("\n");
        }
        append_number(&mut out, i as u64);
        out.append(": ");
        out.append(contact_label(i));
        proof {
            assert(labels(i as int) == contact_label_text(i as int));
            if i == 1 {
                assert(before == Seq::<char>::empty());
                assert(before + decimal(1) == decimal(1));
            }
        }
        i += 1;
    }
    out
}

/// The error for a number that names no kind.
pub open spec fn invalid_option() -> Seq<char> {
    "invalid option"@
}

/// The prompt for a detail of the kind with the given number; an error
/// where the number names no kind.
pub fn details_prompt(index: usize) -> (r: Result<String, Error>)
    ensures
        match r {
            Ok(prompt) => 1 <= index <= DETAIL_KINDS && prompt@ == "Enter your "@
                + detail_prompt_text(index as int),
            Err(e) => (index == 0 || index > DETAIL_KINDS) && e.text() == invalid_option(),
        },
{
    if index > DETAIL_KINDS || index == 0 {
        return Err(Error::StrErr("invalid option"));
    }
    let mut out = String::from_str("Enter your ");
    out.append(detail_prompt(index));
    Ok(out)
}

/// The prompt for a contact of the kind with the given number; an error
/// where the number names no kind.
pub fn contacts_prompt(index: usize) -> (r: Result<String, Error>)
    ensures
        match r {
            Ok(prompt) => 1 <= index <= CONTACT_KINDS && prompt@ == "Enter your "@
                + contact_prompt_text(index as int),
            Err(e) => (index == 0 || index > CONTACT_KINDS) && e.text() == invalid_option(),
        },
{
    if index > CONTACT_KINDS || index == 0 {
        return Err(Error::StrErr("invalid option"));
    }
    let mut out = String::from_str("Enter your ");
    out.append(contact_prompt(index));
    Ok(out)
}

/// The error for a cake day that lacks its slash.
pub open spec fn cake_day_pattern() -> Seq<char> {
    "expected pattern `day/month`"@
}

/// The error for a birthday that lacks one of its slashes.
pub open spec fn birthday_pattern() -> Seq<char> {
    "expected pattern `day/month/year`"@
}

/// The error for a contact that lacks its separator.
pub open spec fn contact_pattern() -> Seq<char> {
    "invalid format, expected `username@instance.com`"@
}

/// A cake day read from its day and month, the day first.
pub open spec fn parsed_cake_day(day: Seq<char>, month: Seq<char>) -> Result<
    DetailView,
    Seq<char>,
> {
    match unsigned_of(day, u8::MAX as nat) {
        Err(fault) => Err(fault.text()),
        Ok(d) => match unsigned_of(month, u8::MAX as nat) {
            Err(fault) => Err(fault.text()),
            Ok(m) => Ok(DetailView::CakeDay { day: d as u8, month: m as u8 }),
        },
    }
}

/// A birthday read from its day, month and year, in that order.
pub open spec fn parsed_birthday(day: Seq<char>, month: Seq<char>, year: Seq<char>) -> Result<
    DetailView,
    Seq<char>,
> {
    match unsigned_of(day, u8::MAX as nat) {
        Err(fault) => Err(fault.text()),
        Ok(d) => match unsigned_of(month, u8::MAX as nat) {
            Err(fault) => Err(fault.text()),
            Ok(m) => match unsigned_of(year, u16::MAX as nat) {
                Err(fault) => Err(fault.text()),
                Ok(y) => Ok(DetailView::BirthDay { day: d as u8, month: m as u8, year: y as u16 }),
            },
        },
    }
}

/// The detail that a text stands for, read as the kind with the given
/// number, or the message that says why it stands for none.
///
/// A cake day is `day/month`, a birthday `day/month/year`, where the year
/// is all that follows the second slash. Every other kind takes the text
/// as it is.
pub open spec fn parsed_detail(index: int, value: Seq<char>) -> Result<DetailView, Seq<char>> {
    if index <= 0 || index > DETAIL_KINDS {
        Err(invalid_option())
    } else if index == 1 {
        match split_once_on(value, '/') {
            None => Err(cake_day_pattern()),
            Some((day, month)) => parsed_cake_day(day, month),
        }
    } else if index == 2 {
        match split_once_on(value, '/') {
            None => Err(birthday_pattern()),
            Some((day, rest)) => match split_once_on(rest, '/') {
                None => Err(birthday_pattern()),
                Some((month, year)) => parsed_birthday(day, month, year),
            },
        }
    } else if index == 3 {
        Ok(DetailView::Location { value })
    } else if index == 4 {
        Ok(DetailView::Occupation { value })
    } else if index == 5 {
        Ok(DetailView::Company { value })
    } else if index == 6 {
        Ok(DetailView::School { value })
    } else {
        Ok(DetailView::EducationLevel { value })
    }
}

/// Whether a parser's result is what the grammar gives: the same detail,
/// or an error with the same message.
pub open spec fn detail_agrees(r: Result<ProfileDetail, Error>, want: Result<DetailView, Seq<char>>) -> bool {
    match want {
        Ok(view) => r matches Ok(detail) && detail@ == view,
        Err(message) => r matches Err(e) && e.text() == message,
    }
}

/// Whether a parser's result is what the grammar gives: the same contact,
/// or an error with the same message.
pub open spec fn contact_agrees(r: Result<ContactDetail, Error>, want: Result<ContactView, Seq<char>>) -> bool {
    match want {
        Ok(view) => r matches Ok(contact) && contact@ == view,
        Err(message) => r matches Err(e) && e.text() == message,
    }
}

/// Reads a number of at most 255.
fn read_u8(s: &str) -> (r: Result<u8, Error>)
    ensures
        match unsigned_of(s@, u8::MAX as nat) {
            Ok(value) => r matches Ok(n) && n == value,
            Err(fault) => r matches Err(e) && e.text() == fault.text(),
        },
{
    match parse_unsigned(s, 255) {
        Ok(n) => Ok(n as u8),
        Err(fault) => Err(fault.into_error()),
    }
}

/// Reads a number of at most 65535.
fn read_u16(s: &str) -> (r: Result<u16, Error>)
    ensures
        match unsigned_of(s@, u16::MAX as nat) {
            Ok(value) => r matches Ok(n) && n == value,
            Err(fault) => r matches Err(e) && e.text() == fault.text(),
        },
{
    match parse_unsigned(s, 65535) {
        Ok(n) => Ok(n as u16),
        Err(fault) => Err(fault.into_error()),
    }
}

/// Reads a cake day from its day and month.
fn read_cake_day(day: &str, month: &str) -> (r: Result<ProfileDetail, Error>)
    ensures
        detail_agrees(r, parsed_cake_day(day@, month@)),
{
    let d = match read_u8(day) {
        Ok(d) => d,
        Err(e) => {
            return Err(e);
        },
    };
    let m = match read_u8(month) {
        Ok(m) => m,
        Err(e) => {
            return Err(e);
        },
    };
    Ok(ProfileDetail::CakeDay { value: CakeDayDetail { day: d, month: m } })
}

/// Reads a birthday from its day, month and year.
fn read_birthday(day: &str, month: &str, year: &str) -> (r: Result<ProfileDetail, Error>)
    ensures
        detail_agrees(r, parsed_birthday(day@, month@, year@)),
{
    let d = match read_u8(day) {
        Ok(d) => d,
        Err(e) => {
            return Err(e);
        },
    };
    let m = match read_u8(month) {
        Ok(m) => m,
        Err(e) => {
            return Err(e);
        },
    };
    let y = match read_u16(year) {
        Ok(y) => y,
        Err(e) => {
            return Err(e);
        },
    };
    Ok(ProfileDetail::BirthDay { value: BirthDayDetail { day: d, month: m, year: y } })
}

/// Reads a detail of the kind with the given number from what the user
/// typed.
pub fn details_from_string(index: usize, value: String) -> (r: Result<ProfileDetail, Error>)
    ensures
        detail_agrees(r, parsed_detail(index as int, value@)),
{
    if index > DETAIL_KINDS || index == 0 {
        return Err(Error::StrErr("invalid option"));
    }
    if index == 1 {
        match split_once(value.as_str(), '/') {
            None => Err(Error::StrErr("expected pattern `day/month`")),
            Some((day, month)) => read_cake_day(day.as_str(), month.as_str()),
        }
    } else if index == 2 {
        match split_once(value.as_str(), '/') {
            None => Err(Error::StrErr("expected pattern `day/month/year`")),
            Some((day, rest)) => match split_once(rest.as_str(), '/') {
                None => Err(Error::StrErr("expected pattern `day/month/year`")),
                Some((month, year)) => read_birthday(day.as_str(), month.as_str(), year.as_str()),
            },
        }
    } else if index == 3 {
        Ok(ProfileDetail::Location { value })
    } else if index == 4 {
        Ok(ProfileDetail::Occupation { value })
    } else if index == 5 {
        Ok(ProfileDetail::Company { value })
    } else if index == 6 {
        Ok(ProfileDetail::School { value })
    } else {
        Ok(ProfileDetail::EducationLevel { value })
    }
}

/// An odysee contact read from its name and discriminator.
pub open spec fn parsed_odysee(name: Seq<char>, discriminator: Seq<char>) -> Result<
    ContactView,
    Seq<char>,
> {
    match unsigned_of(discriminator, u16::MAX as nat) {
        Err(fault) => Err(fault.text()),
        Ok(d) => Ok(ContactView::Odysee { name, discriminator: d as u16 }),
    }
}

/// The contact that a text stands for, read as the kind with the given
/// number, or the message that says why it stands for none.
///
/// An email address is `name@instance`; matrix, mastodon and lemmy ids are
/// `name:instance`; an odysee name is `name:number`. Each is split at the
/// first separator. Every other kind takes the text as it is.
pub open spec fn parsed_contact(index: int, value: Seq<char>) -> Result<ContactView, Seq<char>> {
    if index <= 0 || index > CONTACT_KINDS {
        Err(invalid_option())
    } else if index == 1 {
        match split_once_on(value, '@') {
            None => Err(contact_pattern()),
            Some((name, instance)) => Ok(ContactView::Email { name, instance }),
        }
    } else if index == 2 {
        match split_once_on(value, ':') {
            None => Err(contact_pattern()),
            Some((name, instance)) => Ok(ContactView::Matrix { name, instance }),
        }
    } else if index == 3 {
        match split_once_on(value, ':') {
            None => Err(contact_pattern()),
            Some((name, instance)) => Ok(ContactView::Mastodon { name, instance }),
        }
    } else if index == 4 {
        match split_once_on(value, ':') {
            None => Err(contact_pattern()),
            Some((name, instance)) => Ok(ContactView::Lemmy { name, instance }),
        }
    } else if index == 5 {
        Ok(ContactView::Github { value })
    } else if index == 6 {
        Ok(ContactView::Gitlab { value })
    } else if index == 7 {
        Ok(ContactView::Bitbucket { value })
    } else if index == 8 {
        Ok(ContactView::Reddit { value })
    } else if index == 9 {
        Ok(ContactView::Discord { value })
    } else if index == 10 {
        Ok(ContactView::Twitter { value })
    } else if index == 11 {
        Ok(ContactView::Youtube { value })
    } else if index == 12 {
        match split_once_on(value, ':') {
            None => Err(contact_pattern()),
            Some((name, discriminator)) => parsed_odysee(name, discriminator),
        }
    } else {
        Ok(ContactView::Website { value })
    }
}

/// Reads an odysee contact from its name and discriminator.
fn read_odysee(name: String, discriminator: &str) -> (r: Result<ContactDetail, Error>)
    ensures
        contact_agrees(r, parsed_odysee(name@, discriminator@)),
{
    match read_u16(discriminator) {
        Ok(d) => Ok(ContactDetail::Odysee { name, discriminator: d }),
        Err(e) => Err(e),
    }
}

/// Reads a contact of the kind with the given number from what the user
/// typed.
pub fn contacts_from_string(index: usize, value: String) -> (r: Result<ContactDetail, Error>)
    ensures
        contact_agrees(r, parsed_contact(index as int, value@)),
{
    if index > CONTACT_KINDS || index == 0 {
        return Err(Error::StrErr("invalid option"));
    }
    if index == 1 {
        match split_once(value.as_str(), '@') {
            Some((name, instance)) => Ok(ContactDetail::Email { name, instance }),
            None => Err(Error::StrErr("invalid format, expected `username@instance.com`")),
        }
    } else if index == 2 {
        match split_once(value.as_str(), ':') {
            Some((name, instance)) => Ok(ContactDetail::Matrix { name, instance }),
            None => Err(Error::StrErr("invalid format, expected `username@instance.com`")),
        }
    } else if index == 3 {
        match split_once(value.as_str(), ':') {
            Some((name, instance)) => Ok(ContactDetail::Mastodon { name, instance }),
            None => Err(Error::StrErr("invalid format, expected `username@instance.com`")),
        }
    } else if index == 4 {
        match split_once(value.as_str(), ':') {
            Some((name, instance)) => Ok(ContactDetail::Lemmy { name, instance }),
            None => Err(Error::StrErr("invalid format, expected `username@instance.com`")),
        }
    } else if index == 5 {
        Ok(ContactDetail::Github { value })
    } else if index == 6 {
        Ok(ContactDetail::Gitlab { value })
    } else if index == 7 {
        Ok(ContactDetail::Bitbucket { value })
    } else if index == 8 {
        Ok(ContactDetail::Reddit { value })
    } else if index == 9 {
        Ok(ContactDetail::Discord { value })
    } else if index == 10 {
        Ok(ContactDetail::Twitter { value })
    } else if index == 11 {
        Ok(ContactDetail::Youtube { value })
    } else if index == 12 {
        match split_once(value.as_str(), ':') {
            Some((name, discriminator)) => read_odysee(name, discriminator.as_str()),
            None => Err(Error::StrErr("invalid format, expected `username@instance.com`")),
        }
    } else {
        Ok(ContactDetail::Website { value })
    }
}

/// The web address of a contact, where its kind has one.
pub open spec fn contact_url(contact: ContactView) -> Option<Seq<char>> {
    match contact {
        ContactView::Email { .. } | ContactView::Discord { .. } => None,
        ContactView::Matrix { name, instance } => Some(
            "https://matrix.to/#/"@ + name + ":"@ + instance,
        ),
        ContactView::Mastodon { name, instance } => Some("https://"@ + instance + "/@"@ + name),
        ContactView::Lemmy { name, instance } => Some("https://"@ + instance + "/u/"@ + name),
        ContactView::Github { value } => Some("https://github.com/"@ + value),
        ContactView::Gitlab { value } => Some("https://gitlab.com/"@ + value),
        ContactView::Bitbucket { value } => Some("https://bitbucket.com/"@ + value),
        ContactView::Reddit { value } => Some("https://reddit.com/u/"@ + value),
        ContactView::Twitter { value } => Some("https://twitter.com/"@ + value),
        ContactView::Youtube { value } => Some("https://youtube.com/@"@ + value),
        ContactView::Odysee { name, discriminator } => Some(
            "https://odysee.com/@"@ + name + ":"@ + decimal(discriminator as nat),
        ),
        ContactView::Website { value } => Some("https://"@ + value),
    }
}

/// A contact as its kind and its address in that kind's notation.
pub open spec fn contact_address(contact: ContactView) -> Seq<char> {
    match contact {
        ContactView::Email { name, instance } => "email: "@ + name + "@"@ + instance,
        ContactView::Matrix { name, instance } => "matrix: "@ + name + ":"@ + instance,
        ContactView::Mastodon { name, instance } => "mastodon: "@ + name + ":"@ + instance,
        ContactView::Lemmy { name, instance } => "lemmy: "@ + name + ":"@ + instance,
        ContactView::Github { value } => "github: "@ + value,
        ContactView::Gitlab { value } => "gitlab: "@ + value,
        ContactView::Bitbucket { value } => "bitbucket: "@ + value,
        ContactView::Reddit { value } => "reddit: "@ + value,
        ContactView::Discord { value } => "discord: "@ + value,
        ContactView::Twitter { value } => "twitter: "@ + value,
        ContactView::Youtube { value } => "youtube: "@ + value,
        ContactView::Odysee { name, discriminator } => "odysee: "@ + name + ":"@ + decimal(
            discriminator as nat,
        ),
        ContactView::Website { value } => "website: "@ + value,
    }
}

/// A contact as one line: kind and address, and the web address in
/// brackets where there is one.
pub open spec fn contact_text(contact: ContactView) -> Seq<char> {
    match contact_url(contact) {
        Some(url) => contact_address(contact) + " ("@ + url + ")"@,
        None => contact_address(contact),
    }
}

/// A detail as one line: its kind and its value.
pub open spec fn detail_text(detail: DetailView) -> Seq<char> {
    match detail {
        DetailView::CakeDay { day, month } => "cake day: "@ + decimal(day as nat) + "/"@ + decimal(
            month as nat,
        ),
        DetailView::BirthDay { day, month, year } => "birthday: "@ + decimal(day as nat) + "/"@
            + decimal(month as nat) + "/"@ + decimal(year as nat),
        DetailView::Location { value } => "locaton: "@ + value,
        DetailView::Occupation { value } => "occupation: "@ + value,
        DetailView::Company { value } => "company: "@ + value,
        DetailView::School { value } => "school: "@ + value,
        DetailView::EducationLevel { value } => "education level: "@ + value,
        DetailView::Contact { value } => contact_text(value),
    }
}

/// Three texts in a row.
fn three(a: &str, b: &str, c: &str) -> (out: String)
    ensures
        out@ == a@ + b@ + c@,
{
    let mut out = String::from_str(a);
    out.append(b);
    out.append(c);
    out
}

/// Two texts in a row.
fn two(a: &str, b: &str) -> (out: String)
    ensures
        out@ == a@ + b@,
{
    let mut out = String::from_str(a);
    out.append(b);
    out
}

/// The web address of a contact, where its kind has one.
pub fn contacts_to_url(contact: &ContactDetail) -> (r: Option<String>)
    ensures
        match contact_url(contact@) {
            Some(url) => r matches Some(s) && s@ == url,
            None => r is None,
        },
{
    match contact {
        ContactDetail::Email { .. } => None,
        ContactDetail::Discord { .. } => None,
        ContactDetail::Matrix { name, instance } => {
            let mut out = three("https://matrix.to/#/", name.as_str(), ":");
            out.append(instance.as_str());
            Some(out)
        },
        ContactDetail::Mastodon { name, instance } => {
            let mut out = three("https://", instance.as_str(), "/@");
            out.append(name.as_str());
            Some(out)
        },
        ContactDetail::Lemmy { name, instance } => {
            let mut out = three("https://", instance.as_str(), "/u/");
            out.append(name.as_str());
            Some(out)
        },
        ContactDetail::Github { value } => Some(two("https://github.com/", value.as_str())),
        ContactDetail::Gitlab { value } => Some(two("https://gitlab.com/", value.as_str())),
        ContactDetail::Bitbucket { value } => Some(two("https://bitbucket.com/", value.as_str())),
        ContactDetail::Reddit { value } => Some(two("https://reddit.com/u/", value.as_str())),
        ContactDetail::Twitter { value } => Some(two("https://twitter.com/", value.as_str())),
        ContactDetail::Youtube { value } => Some(two("https://youtube.com/@", value.as_str())),
        ContactDetail::Odysee { name, discriminator } => {
            let mut out = three("https://odysee.com/@", name.as_str(), ":");
            append_number(&mut out, *discriminator as u64);
            Some(out)
        },
        ContactDetail::Website { value } => Some(two("https://", value.as_str())),
    }
}

/// A contact as its kind and its address in that kind's notation.
fn contact_address_of(contact: &ContactDetail) -> (out: String)
    ensures
        out@ == contact_address(contact@),
{
    match contact {
        ContactDetail::Email { name, instance } => {
            let mut out = three("email: ", name.as_str(), "@");
            out.append(instance.as_str());
            out
        },
        ContactDetail::Matrix { name, instance } => {
            let mut out = three("matrix: ", name.as_str(), ":");
            out.append(instance.as_str());
            out
        },
        ContactDetail::Mastodon { name, instance } => {
            let mut out = three("mastodon: ", name.as_str(), ":");
            out.append(instance.as_str());
            out
        },
        ContactDetail::Lemmy { name, instance } => {
            let mut out = three("lemmy: ", name.as_str(), ":");
            out.append(instance.as_str());
            out
        },
        ContactDetail::Github { value } => two("github: ", value.as_str()),
        ContactDetail::Gitlab { value } => two("gitlab: ", value.as_str()),
        ContactDetail::Bitbucket { value } => two("bitbucket: ", value.as_str()),
        ContactDetail::Reddit { value } => two("reddit: ", value.as_str()),
        ContactDetail::Discord { value } => two("discord: ", value.as_str()),
        ContactDetail::Twitter { value } => two("twitter: ", value.as_str()),
        ContactDetail::Youtube { value } => two("youtube: ", value.as_str()),
        ContactDetail::Odysee { name, discriminator } => {
            let mut out = three("odysee: ", name.as_str(), ":");
            append_number(&mut out, *discriminator as u64);
            out
        },
        ContactDetail::Website { value } => two("website: ", value.as_str()),
    }
}

/// A contact as one line: kind and address, and the web address in
/// brackets where there is one.
pub fn contacts_to_string(contact: &ContactDetail) -> (out: String)
    ensures
        out@ == contact_text(contact@),
{
    let mut out = contact_address_of(contact);
    match contacts_to_url(contact) {
        Some(url) => {
            out.append(" (");
            out.append(url.as_str());
            out.append(")");
        },
        None => {},
    }
    out
}

/// A detail as one line: its kind and its value.
pub fn details_to_string(detail: &ProfileDetail) -> (out: String)
    ensures
        out@ == detail_text(detail@),
{
    match detail {
        ProfileDetail::CakeDay { value } => {
            let mut out = String::from_str("cake day: ");
            append_number(&mut out, value.day as u64);
            out.append("/");
            append_number(&mut out, value.month as u64);
            out
        },
        ProfileDetail::BirthDay { value } => {
            let mut out = String::from_str("birthday: ");
            append_number(&mut out, value.day as u64);
            out.append("/");
            append_number(&mut out, value.month as u64);
            out.append("/");
            append_number(&mut out, value.year as u64);
            out
        },
        ProfileDetail::Location { value } => two("locaton: ", value.as_str()),
        ProfileDetail::Occupation { value } => two("occupation: ", value.as_str()),
        ProfileDetail::Company { value } => two("company: ", value.as_str()),
        ProfileDetail::School { value } => two("school: ", value.as_str()),
        ProfileDetail::EducationLevel { value } => two("education level: ", value.as_str()),
        ProfileDetail::Contact { value } => contacts_to_string(value),
    }
}

/// What is shown in place of an empty list.
pub open spec fn empty_list_text() -> Seq<char> {
    "\x1B[38;5;8m[empty list]\x1B[0m"@
}

/// What is shown in place of an empty text.
pub open spec fn empty_string_text() -> Seq<char> {
    "\x1B[38;5;8m[empty string]\x1B[0m"@
}

/// The first `n` details, each on a line with its number, counted from
/// one.
pub open spec fn detail_lines(details: Seq<DetailView>, n: nat) -> Seq<char>
    decreases n,
{
    if n == 0 {
        Seq::empty()
    } else if n == 1 {
        decimal(1) + ": "@ + detail_text(details[0])
    } else {
        detail_lines(details, (n - 1) as nat) + "\n"@ + decimal(n) + ": "@ + detail_text(
            details[n - 1],
        )
    }
}

/// The details of a profile as they are listed: a numbered line for each,
/// or a note that there are none.
pub open spec fn details_text(details: Seq<DetailView>) -> Seq<char> {
    if details.len() == 0 {
        empty_list_text()
    } else {
        detail_lines(details, details.len())
    }
}

/// The details of a profile as they are listed: a numbered line for each,
/// or a note that there are none.
pub fn display_details(details: &Vec<ProfileDetail>) -> (out: String)
    ensures
        out@ == details_text(crate::profile::detail_views(details@)),
{
    if details.len() == 0 {
        return String::from_str("\x1B[38;5;8m[empty list]\x1B[0m");
    }
    let ghost views = crate::profile::detail_views(details@);
    let mut out = String::new();
    let mut i: usize = 0;
    while i < details.len()
        invariant
            i <= details.len(),
            views == crate::profile::detail_views(details@),
            out@ == detail_lines(views, i as nat),
        decreases details.len() - i,
    {
        let ghost before = out@;
        if i > 0 {
            out.append("\n");
        }
        append_number(&mut out, (i + 1) as u64);
        out.append(": ");
        let line = details_to_string(&details[i]);
        out.append(line.as_str());
        proof {
            assert(views[i as int] == details@[i as int]@);
            if i == 0 {
                assert(before == Seq::<char>::empty());
                assert(before + decimal(1) == decimal(1));
            }
        }
        i += 1;
    }
    out
}

/// Where the profile image of an account is found.
pub open spec fn image_url(instance: Seq<char>, id: int) -> Seq<char> {
    "https://"@ + instance + "/api/tex/generic/v1/pfp/id/"@ + signed_decimal(id)
}

/// The description as it is shown: a note in its place where it is empty.
pub open spec fn shown_description(description: Seq<char>) -> Seq<char> {
    if description.len() == 0 {
        empty_string_text()
    } else {
        description
    }
}

/// The editable part of a profile as it is shown: the address of the
/// image, the description and the details.
pub open spec fn profile_only_text(profile: ProfileView, id: int, instance: Seq<char>) -> Seq<
    char,
> {
    "\n"@ + "Profile image: `"@ + image_url(instance, id) + "`\n\nDescription:\n"@ + shown_description(
        profile.description,
    ) + "\n\nDetails\n"@ + details_text(profile.details) + "\n"@
}

/// Writes the address of the profile image at the end of a string.
fn append_image_url(out: &mut String, instance: &str, id: i64)
    ensures
        final(out)@ == old(out)@ + image_url(instance@, id as int),
{
    let ghost head = out@;
    out.append("https://");
    out.append(instance);
    out.append("/api/tex/generic/v1/pfp/id/");
    append_signed(out, id);
    assert(out@ == head + image_url(instance@, id as int));
}

/// Writes image, description and details at the end of a string, each
/// under its heading.
fn append_profile_body(out: &mut String, profile: &ProfileCustomisable, id: i64, instance: &str)
    ensures
        final(out)@ == old(out)@ + "Profile image: `"@ + image_url(instance@, id as int)
            + "`\n\nDescription:\n"@ + shown_description(profile@.description)
            + "\n\nDetails\n"@ + details_text(profile@.details) + "\n"@,
{
    out.append("Profile image: `");
    append_image_url(out, instance, id);
    out.append("`\n\nDescription:\n");
    if profile.description.as_str().is_empty() {
        out.append("\x1B[38;5;8m[empty string]\x1B[0m");
    } else {
        out.append(profile.description.as_str());
    }
    out.append("\n\nDetails\n");
    let details = display_details(&profile.details);
    out.append(details.as_str());
    out.append("\n");
}

/// The editable part of a profile as it is shown.
pub fn display_profile_only(profile: &ProfileCustomisable, id: i64, instance: &str) -> (out: String)
    ensures
        out@ == profile_only_text(profile@, id as int, instance@),
{
    let mut out = String::from_str("\n");
    append_profile_body(&mut out, profile, id, instance);
    out
}

/// The account's part of a profile: the seconds since 1970 at which it was
/// created are read as a signed number, so that the upper half of the
/// range wraps round to the time before 1970.
pub open spec fn created_secs(created: u64) -> i64 {
    if created <= i64::MAX as u64 {
        created as i64
    } else {
        (created - 0x1_0000_0000_0000_0000) as i64
    }
}

/// The calendar date in UTC of the moment `secs` seconds after the start
/// of 1970, written as year, month and day with hyphens between; `None`
/// where the calendar in use has no such date.
pub uninterp spec fn utc_date_text(secs: i64) -> Option<Seq<char>>;

/// The characters of a string that may be missing.
pub open spec fn text_option(s: Option<String>) -> Option<Seq<char>> {
    match s {
        Some(text) => Some(text@),
        None => None,
    }
}

/// The calendar date in UTC of a moment given in seconds since 1970.
///
/// Calls `chrono`: `Utc.timestamp_opt(secs, 0)`, which gives a single time
/// or none, and on that time `format("%Y-%m-%d")`. The contract only names
/// what comes back; it says nothing of the calendar.
#[verifier::external_body]
fn utc_date(secs: i64) -> (r: Option<String>)
    ensures
        text_option(r) == utc_date_text(secs),
{
    match chrono::TimeZone::timestamp_opt(&chrono::Utc, secs, 0) {
        chrono::LocalResult::Single(time) => Some(time.format("%Y-%m-%d").to_string()),
        _ => None,
    }
}

/// A whole profile as it is shown, given the date on which the account
/// was created.
pub open spec fn profile_text(
    profile: ProfileView,
    account: ProfileAccount,
    instance: Seq<char>,
    joined: Seq<char>,
) -> Seq<char> {
    (if account.verified {
        ""@
    } else {
        "[Not verified]"@
    }) + account.username@ + " (joined "@ + joined + ")\n\nStatus: "@ + account.status@
        + "\n\n"@ + "Profile image: `"@ + image_url(instance, account.id as int)
        + "`\n\nDescription:\n"@ + shown_description(profile.description) + "\n\nDetails\n"@
        + details_text(profile.details) + "\n"@
}

/// A whole profile as it is shown, given the date on which the account
/// was created.
pub fn display_profile_joined(
    profile: &ProfileCustomisable,
    account: &ProfileAccount,
    instance: &str,
    joined: &str,
) -> (out: String)
    ensures
        out@ == profile_text(profile@, *account, instance@, joined@),
{
    let mut out = if account.verified {
        String::from_str("")
    } else {
        String::from_str("[Not verified]")
    };
    out.append(account.username.as_str());
    out.append(" (joined ");
    out.append(joined);
    out.append(")\n\nStatus: ");
    out.append(account.status.as_str());
    out.append("\n\n");
    append_profile_body(&mut out, profile, account.id, instance);
    out
}

/// A whole profile as it is shown; `None` where the time at which the
/// account was created has no calendar date.
pub fn display_profile(profile: &ProfileCustomisable, account: &ProfileAccount, instance: &str) -> (r:
    Option<String>)
    ensures
        match utc_date_text(created_secs(account.created)) {
            Some(joined) => r matches Some(out) && out@ == profile_text(
                profile@,
                *account,
                instance@,
                joined,
            ),
            None => r is None,
        },
{
    let secs: i64 = if account.created <= i64::MAX as u64 {
        account.created as i64
    } else {
        ((account.created - 0x8000_0000_0000_0000) as i64) + i64::MIN
    };
    match utc_date(secs) {
        Some(joined) => Some(display_profile_joined(profile, account, instance, joined.as_str())),
        None => None,
    }
}

} // verus!
