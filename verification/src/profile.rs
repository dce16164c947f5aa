//! The profile draft that the profile editor works on.

use vstd::prelude::*;

verus! {

/// A day of the year that is celebrated each year.
#[derive(Debug, Clone, Copy, PartialEq, Eq)]
pub struct CakeDayDetail {
    pub day: u8,
    pub month: u8,
}

/// A date of birth.
#[derive(Debug, Clone, Copy, PartialEq, Eq)]
pub struct BirthDayDetail {
    pub day: u8,
    pub month: u8,
    pub year: u16,
}

/// A way to reach the owner of a profile.
#[derive(Debug, PartialEq, Eq)]
pub enum ContactDetail {
    Email { name: String, instance: String },
    Matrix { name: String, instance: String },
    Mastodon { name: String, instance: String },
    Lemmy { name: String, instance: String },
    Github { value: String },
    Gitlab { value: String },
    Bitbucket { value: String },
    Reddit { value: String },
    Discord { value: String },
    Twitter { value: String },
    Youtube { value: String },
    Odysee { name: String, discriminator: u16 },
    Website { value: String },
}

/// One entry of the details list of a profile.
#[derive(Debug, PartialEq, Eq)]
#[allow(inconsistent_fields)]
pub enum ProfileDetail {
    CakeDay { value: CakeDayDetail },
    BirthDay { value: BirthDayDetail },
    Location { value: String },
    Occupation { value: String },
    Company { value: String },
    School { value: String },
    EducationLevel { value: String },
    Contact { value: ContactDetail },
}

/// The part of a profile that its owner can edit.
#[derive(Debug, PartialEq, Eq)]
pub struct ProfileCustomisable {
    pub description: String,
    pub details: Vec<ProfileDetail>,
}

/// A contact, with its texts as character sequences.
pub ghost enum ContactView {
    Email { name: Seq<char>, instance: Seq<char> },
    Matrix { name: Seq<char>, instance: Seq<char> },
    Mastodon { name: Seq<char>, instance: Seq<char> },
    Lemmy { name: Seq<char>, instance: Seq<char> },
    Github { value: Seq<char> },
    Gitlab { value: Seq<char> },
    Bitbucket { value: Seq<char> },
    Reddit { value: Seq<char> },
    Discord { value: Seq<char> },
    Twitter { value: Seq<char> },
    Youtube { value: Seq<char> },
    Odysee { name: Seq<char>, discriminator: u16 },
    Website { value: Seq<char> },
}

/// A detail, with its texts as character sequences.
#[allow(inconsistent_fields)]
pub ghost enum DetailView {
    CakeDay { day: u8, month: u8 },
    BirthDay { day: u8, month: u8, year: u16 },
    Location { value: Seq<char> },
    Occupation { value: Seq<char> },
    Company { value: Seq<char> },
    School { value: Seq<char> },
    EducationLevel { value: Seq<char> },
    Contact { value: ContactView },
}

/// A profile draft, with its texts as character sequences.
pub ghost struct ProfileView {
    pub description: Seq<char>,
    pub details: Seq<DetailView>,
}

impl View for ContactDetail {
    type V = ContactView;

    open spec fn view(&self) -> ContactView {
        match self {
            ContactDetail::Email { name, instance } => ContactView::Email {
                name: name@,
                instance: instance@,
            },
            ContactDetail::Matrix { name, instance } => ContactView::Matrix {
                name: name@,
                instance: instance@,
            },
            ContactDetail::Mastodon { name, instance } => ContactView::Mastodon {
                name: name@,
                instance: instance@,
            },
            ContactDetail::Lemmy { name, instance } => ContactView::Lemmy {
                name: name@,
                instance: instance@,
            },
            ContactDetail::Github { value } => ContactView::Github { value: value@ },
            ContactDetail::Gitlab { value } => ContactView::Gitlab { value: value@ },
            ContactDetail::Bitbucket { value } => ContactView::Bitbucket { value: value@ },
            ContactDetail::Reddit { value } => ContactView::Reddit { value: value@ },
            ContactDetail::Discord { value } => ContactView::Discord { value: value@ },
            ContactDetail::Twitter { value } => ContactView::Twitter { value: value@ },
            ContactDetail::Youtube { value } => ContactView::Youtube { value: value@ },
            ContactDetail::Odysee { name, discriminator } => ContactView::Odysee {
                name: name@,
                discriminator: *discriminator,
            },
            ContactDetail::Website { value } => ContactView::Website { value: value@ },
        }
    }
}

impl View for ProfileDetail {
    type V = DetailView;

    open spec fn view(&self) -> DetailView {
        match self {
            ProfileDetail::CakeDay { value } => DetailView::CakeDay {
                day: value.day,
                month: value.month,
            },
            ProfileDetail::BirthDay { value } => DetailView::BirthDay {
                day: value.day,
                month: value.month,
                year: value.year,
            },
            ProfileDetail::Location { value } => DetailView::Location { value: value@ },
            ProfileDetail::Occupation { value } => DetailView::Occupation { value: value@ },
            ProfileDetail::Company { value } => DetailView::Company { value: value@ },
            ProfileDetail::School { value } => DetailView::School { value: value@ },
            ProfileDetail::EducationLevel { value } => DetailView::EducationLevel {
                value: value@,
            },
            ProfileDetail::Contact { value } => DetailView::Contact { value: value@ },
        }
    }
}

/// The views of a list of details.
pub open spec fn detail_views(details: Seq<ProfileDetail>) -> Seq<DetailView> {
    Seq::new(details.len(), |i: int| details[i]@)
}

impl View for ProfileCustomisable {
    type V = ProfileView;

    open spec fn view(&self) -> ProfileView {
        ProfileView { description: self.description@, details: detail_views(self.details@) }
    }
}

impl Clone for ContactDetail {
    fn clone(&self) -> (r: Self)
        ensures
            r@ == self@,
    {
        match self {
            ContactDetail::Email { name, instance } => ContactDetail::Email {
                name: name.clone(),
                instance: instance.clone(),
            },
            ContactDetail::Matrix { name, instance } => ContactDetail::Matrix {
                name: name.clone(),
                instance: instance.clone(),
            },
            ContactDetail::Mastodon { name, instance } => ContactDetail::Mastodon {
                name: name.clone(),
                instance: instance.clone(),
            },
            ContactDetail::Lemmy { name, instance } => ContactDetail::Lemmy {
                name: name.clone(),
                instance: instance.clone(),
            },
            ContactDetail::Github { value } => ContactDetail::Github { value: value.clone() },
            ContactDetail::Gitlab { value } => ContactDetail::Gitlab { value: value.clone() },
            ContactDetail::Bitbucket { value } => ContactDetail::Bitbucket { value: value.clone() },
            ContactDetail::Reddit { value } => ContactDetail::Reddit { value: value.clone() },
            ContactDetail::Discord { value } => ContactDetail::Discord { value: value.clone() },
            ContactDetail::Twitter { value } => ContactDetail::Twitter { value: value.clone() },
            ContactDetail::Youtube { value } => ContactDetail::Youtube { value: value.clone() },
            ContactDetail::Odysee { name, discriminator } => ContactDetail::Odysee {
                name: name.clone(),
                discriminator: *discriminator,
            },
            ContactDetail::Website { value } => ContactDetail::Website { value: value.clone() },
        }
    }
}

impl Clone for ProfileDetail {
    fn clone(&self) -> (r: Self)
        ensures
            r@ == self@,
    {
        match self {
            ProfileDetail::CakeDay { value } => ProfileDetail::CakeDay { value: *value },
            ProfileDetail::BirthDay { value } => ProfileDetail::BirthDay { value: *value },
            ProfileDetail::Location { value } => ProfileDetail::Location { value: value.clone() },
            ProfileDetail::Occupation { value } => ProfileDetail::Occupation {
                value: value.clone(),
            },
            ProfileDetail::Company { value } => ProfileDetail::Company { value: value.clone() },
            ProfileDetail::School { value } => ProfileDetail::School { value: value.clone() },
            ProfileDetail::EducationLevel { value } => ProfileDetail::EducationLevel {
                value: value.clone(),
            },
            ProfileDetail::Contact { value } => ProfileDetail::Contact { value: value.clone() },
        }
    }
}

impl Clone for ProfileCustomisable {
    fn clone(&self) -> (r: Self)
        ensures
            r@ == self@,
    {
        let mut details: Vec<ProfileDetail> = Vec::new();
        let mut i: usize = 0;
        while i < self.details.len()
            invariant
                i <= self.details.len(),
                detail_views(details@) == detail_views(self.details@).take(i as int),
            decreases self.details.len() - i,
        {
            let ghost before = detail_views(details@);
            details.push(self.details[i].clone());
            assert(detail_views(details@) == before.push(self.details@[i as int]@));
            assert(detail_views(self.details@).take(i + 1) == detail_views(self.details@).take(
                i as int,
            ).push(self.details@[i as int]@));
            i += 1;
        }
        assert(detail_views(self.details@).take(self.details.len() as int) == detail_views(
            self.details@,
        ));
        ProfileCustomisable { description: self.description.clone(), details }
    }
}

/// The part of a profile that belongs to the account.
#[derive(Debug, PartialEq, Eq)]
pub struct ProfileAccount {
    pub id: i64,
    pub username: String,
    pub verified: bool,
    /// When the account was created, in seconds since 1970.
    pub created: u64,
    pub status: String,
}

} // verus!
