//! The local rules that a profile draft must meet before it is sent.

use vstd::prelude::*;
use crate::display::{detail_text, details_to_string};
use crate::number::{append_number, decimal};
use crate::profile::{detail_views, DetailView, ProfileCustomisable, ProfileDetail, ProfileView};
use crate::text::byte_len;

verus! {

/// The longest description that is accepted, in bytes.
pub const MAX_DESCRIPTION: usize = 2000;

/// The largest number of details that is accepted.
pub const MAX_DETAILS: usize = 20;

/// The first rule that a draft breaks. Positions count from zero.
#[derive(Debug, Clone, Copy, PartialEq, Eq, Structural)]
pub enum ProfileFault {
    /// The description is longer than `MAX_DESCRIPTION` bytes.
    DescriptionTooLong,
    /// There are more than `MAX_DETAILS` details.
    TooManyDetails,
    /// The detail at `index` is a cake day or birthday, and an earlier
    /// detail is one already.
    SecondDate { index: usize },
    /// The detail at `index` fails the check of its own kind.
    InvalidDetail { index: usize },
}

/// Whether a detail is of the kind of which a profile may hold only one:
/// a cake day or a birthday.
pub open spec fn is_date(detail: DetailView) -> bool {
    detail is CakeDay || detail is BirthDay
}

/// How many of the first `n` details are a cake day or birthday.
pub open spec fn date_count(details: Seq<DetailView>, n: int) -> nat
    decreases n,
{
    if n <= 0 {
        0
    } else if is_date(details[n - 1]) {
        date_count(details, n - 1) + 1
    } else {
        date_count(details, n - 1)
    }
}

/// The position of the second cake day or birthday among the first `n`
/// details.
pub open spec fn second_date(details: Seq<DetailView>, n: int) -> Option<int>
    decreases n,
{
    if n <= 0 {
        None
    } else {
        match second_date(details, n - 1) {
            Some(i) => Some(i),
            None => if is_date(details[n - 1]) && date_count(details, n - 1) == 1 {
                Some(n - 1)
            } else {
                None
            },
        }
    }
}

/// There is a second cake day or birthday exactly where more than one
/// detail is of that kind; it stands within the list and is of that kind.
pub proof fn lemma_second_date(details: Seq<DetailView>, n: int)
    requires
        0 <= n <= details.len(),
    ensures
        second_date(details, n) is Some <==> date_count(details, n) > 1,
        second_date(details, n) matches Some(i) ==> 0 < i < n && is_date(details[i]),
    decreases n,
{
    if n > 0 {
        lemma_second_date(details, n - 1);
    }
}

/// The first rule that a draft breaks, where `unsound` is the position of
/// the first detail that fails the check of its own kind, if any does.
///
/// The rules, in the order in which they are tried: the description has at
/// most `MAX_DESCRIPTION` bytes; there are at most `MAX_DETAILS` details;
/// at most one detail is a cake day or birthday; every detail passes the
/// check of its kind.
pub open spec fn fault_of(profile: ProfileView, unsound: Option<usize>) -> Option<ProfileFault> {
    if byte_len(profile.description) > MAX_DESCRIPTION {
        Some(ProfileFault::DescriptionTooLong)
    } else if profile.details.len() > MAX_DETAILS {
        Some(ProfileFault::TooManyDetails)
    } else if second_date(profile.details, profile.details.len() as int) is Some {
        Some(
            ProfileFault::SecondDate {
                index: second_date(profile.details, profile.details.len() as int)->0 as usize,
            },
        )
    } else {
        match unsound {
            Some(index) => if index < profile.details.len() {
                Some(ProfileFault::InvalidDetail { index })
            } else {
                None
            },
            None => None,
        }
    }
}

/// What the user is told about a fault of the given draft.
pub open spec fn fault_text(fault: ProfileFault, profile: ProfileView) -> Seq<char> {
    match fault {
        ProfileFault::DescriptionTooLong => "Description is too long (2000 max)"@,
        ProfileFault::TooManyDetails => "Details are too many (20 max)"@,
        ProfileFault::SecondDate { index } => "Only one birthday or cake day allowed, try running command `rm "@
            + decimal((index + 1) as nat) + "` to remove it"@,
        ProfileFault::InvalidDetail { index } => "Invalid detail "@ + decimal((index + 1) as nat)
            + " = \""@ + detail_text(profile.details[index as int]) + "\", try running command `rm "@
            + decimal((index + 1) as nat) + "` to remove it"@,
    }
}

/// Whether a detail is a cake day or a birthday.
fn date_kind(detail: &ProfileDetail) -> (r: bool)
    ensures
        r == is_date(detail@),
{
    match detail {
        ProfileDetail::CakeDay { .. } => true,
        ProfileDetail::BirthDay { .. } => true,
        _ => false,
    }
}

/// The first rule that the draft breaks, if it breaks one. `unsound` is
/// the position of the first detail that fails the check of its own kind,
/// as the service's own validation reports it.
#[verifier::loop_isolation(false)]
pub fn profile_fault(profile: &ProfileCustomisable, unsound: Option<usize>) -> (r: Option<
    ProfileFault,
>)
    ensures
        r == fault_of(profile@, unsound),
        r matches Some(ProfileFault::SecondDate { index }) ==> 0 < index < profile.details.len(),
        r matches Some(ProfileFault::InvalidDetail { index }) ==> index < profile.details.len(),
{
    if profile.description.as_str().as_bytes().len() > MAX_DESCRIPTION {
        return Some(ProfileFault::DescriptionTooLong);
    }
    if profile.details.len() > MAX_DETAILS {
        return Some(ProfileFault::TooManyDetails);
    }
    let ghost views = detail_views(profile.details@);
    let mut seen: usize = 0;
    let mut i: usize = 0;
    while i < profile.details.len()
        invariant
            i <= profile.details.len(),
            views == detail_views(profile.details@),
            seen == date_count(views, i as int),
            seen <= 1,
            seen <= i,
            second_date(views, i as int) is None,
        decreases profile.details.len() - i,
    {
        assert(views[i as int] == profile.details@[i as int]@);
        if date_kind(&profile.details[i]) {
            if seen == 1 {
                proof {
                    lemma_second_date(views, i + 1);
                    lemma_second_date_stays(views, i + 1, views.len() as int);
                }
                return Some(ProfileFault::SecondDate { index: i });
            }
            seen += 1;
        }
        i += 1;
    }
    match unsound {
        Some(index) => if index < profile.details.len() {
            Some(ProfileFault::InvalidDetail { index })
        } else {
            None
        },
        None => None,
    }
}

/// Once a second cake day or birthday is found, it stays the second one
/// however many details follow.
pub proof fn lemma_second_date_stays(details: Seq<DetailView>, n: int, m: int)
    requires
        0 <= n <= m,
        second_date(details, n) is Some,
    ensures
        second_date(details, m) == second_date(details, n),
    decreases m - n,
{
    if n < m {
        lemma_second_date_stays(details, n, m - 1);
    }
}

impl ProfileFault {
    /// What the user is told about this fault of the given draft.
    pub fn message(&self, profile: &ProfileCustomisable) -> (out: String)
        requires
            self matches ProfileFault::SecondDate { index } ==> index < profile.details.len(),
            self matches ProfileFault::InvalidDetail { index } ==> index < profile.details.len(),
        ensures
            out@ == fault_text(*self, profile@),
    {
        match self {
            ProfileFault::DescriptionTooLong => String::from_str(
                "Description is too long (2000 max)",
            ),
            ProfileFault::TooManyDetails => String::from_str("Details are too many (20 max)"),
            ProfileFault::SecondDate { index } => {
                let mut out = String::from_str(
                    "Only one birthday or cake day allowed, try running command `rm ",
                );
                append_ordinal(&mut out, *index);
                out.append("` to remove it");
                out
            },
            ProfileFault::InvalidDetail { index } => {
                let mut out = String::from_str("Invalid detail ");
                append_ordinal(&mut out, *index);
                out.append(" = \"");
                let line = details_to_string(&profile.details[*index]);
                assert(profile@.details[*index as int] == profile.details@[*index as int]@);
                out.append(line.as_str());
                out.append("\", try running command `rm ");
                append_ordinal(&mut out, *index);
                out.append("` to remove it");
                out
            },
        }
    }
}

/// Writes the number of the position `index`, counted from one.
fn append_ordinal(out: &mut String, index: usize)
    requires
        index < usize::MAX,
    ensures
        final(out)@ == old(out)@ + decimal((index + 1) as nat),
{
    append_number(out, (index + 1) as u64);
}

/// What the user is told about the first rule that the draft breaks, if it
/// breaks one.
pub fn profile_error(profile: &ProfileCustomisable, unsound: Option<usize>) -> (r: Option<String>)
    ensures
        match fault_of(profile@, unsound) {
            Some(fault) => r matches Some(message) && message@ == fault_text(fault, profile@),
            None => r is None,
        },
{
    match profile_fault(profile, unsound) {
        Some(fault) => Some(fault.message(profile)),
        None => None,
    }
}

} // verus!
