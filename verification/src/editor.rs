//! The profile editor as a state machine: each line that the user types
//! moves the session on and says what is to be done next. Reading lines,
//! printing and sending the draft are left to the caller.

use vstd::prelude::*;
use crate::display::{
    contact_prompt_text, contacts_from_string, contacts_prompt, detail_prompt_text,
    details_from_string, details_prompt, parsed_contact, parsed_detail,
    CONTACT_KINDS, DETAIL_KINDS,
};
use crate::error::Error;
use crate::number::{parse_unsigned, unsigned_of};
use crate::profile::{
    detail_views, DetailView, ProfileCustomisable, ProfileDetail, ProfileView,
};
use crate::text::{byte_len, join, join_with, same_text, texts, trim, trimmed, words, words_of};
use crate::validation::{
    date_count, fault_of, fault_text, lemma_second_date, profile_fault, second_date, ProfileFault,
    MAX_DESCRIPTION, MAX_DETAILS,
};

verus! {

/// What the next line is read as.
#[derive(Debug, Clone, Copy, PartialEq, Eq, Structural)]
pub enum EditorMode {
    /// A command of the editor.
    Command,
    /// The number of the kind of detail to add.
    DetailKind,
    /// The value of a detail of the kind with the given number.
    DetailValue { index: usize },
    /// The number of the kind of contact to add.
    ContactKind,
    /// The value of a contact of the kind with the given number.
    ContactValue { index: usize },
}

/// A session of the profile editor: the draft, and what the next line is
/// read as.
pub struct Editor {
    pub profile: ProfileCustomisable,
    pub mode: EditorMode,
}

/// What the caller is to do after a line.
#[derive(Debug)]
pub enum EditorAction {
    /// Nothing: the line was empty.
    Nothing,
    /// The description was replaced.
    Described,
    /// Show the kinds of detail and ask for the number of one.
    ChooseDetail,
    /// Show the kinds of contact and ask for the number of one.
    ChooseContact,
    /// Ask for a value with the given prompt.
    AskValue(String),
    /// A detail was added at the end of the list.
    Added,
    /// The number names no kind; nothing was added.
    NoSuchKind(usize),
    /// What was typed is no number or no value of the kind; nothing was
    /// added.
    Rejected(Error),
    /// A detail was removed.
    Removed,
    /// The position to remove is no number; nothing was removed.
    BadNumber(Error),
    /// No detail stands at the position to remove; nothing was removed.
    InvalidIndex,
    /// The draft breaks a rule and was not sent; the text says which.
    Refused(String),
    /// The draft meets the rules: send this copy of it.
    Save(ProfileCustomisable),
    /// Show the list of commands.
    Help,
    /// Leave the editor; what was not written is dropped.
    Exit,
    /// The line is no command.
    Unknown,
}

/// An action, with its texts as character sequences.
pub ghost enum ActionView {
    Nothing,
    Described,
    ChooseDetail,
    ChooseContact,
    AskValue(Seq<char>),
    Added,
    NoSuchKind(usize),
    Rejected(Seq<char>),
    Removed,
    BadNumber(Seq<char>),
    InvalidIndex,
    Refused(Seq<char>),
    Save(ProfileView),
    Help,
    Exit,
    Unknown,
}

impl View for EditorAction {
    type V = ActionView;

    open spec fn view(&self) -> ActionView {
        match self {
            EditorAction::Nothing => ActionView::Nothing,
            EditorAction::Described => ActionView::Described,
            EditorAction::ChooseDetail => ActionView::ChooseDetail,
            EditorAction::ChooseContact => ActionView::ChooseContact,
            EditorAction::AskValue(prompt) => ActionView::AskValue(prompt@),
            EditorAction::Added => ActionView::Added,
            EditorAction::NoSuchKind(index) => ActionView::NoSuchKind(*index),
            EditorAction::Rejected(e) => ActionView::Rejected(e.text()),
            EditorAction::Removed => ActionView::Removed,
            EditorAction::BadNumber(e) => ActionView::BadNumber(e.text()),
            EditorAction::InvalidIndex => ActionView::InvalidIndex,
            EditorAction::Refused(message) => ActionView::Refused(message@),
            EditorAction::Save(profile) => ActionView::Save(profile@),
            EditorAction::Help => ActionView::Help,
            EditorAction::Exit => ActionView::Exit,
            EditorAction::Unknown => ActionView::Unknown,
        }
    }
}

/// A session as the contracts see it.
pub ghost struct EditorView {
    pub profile: ProfileView,
    pub mode: EditorMode,
}

impl View for Editor {
    type V = EditorView;

    open spec fn view(&self) -> EditorView {
        EditorView { profile: self.profile@, mode: self.mode }
    }
}

/// The session back at the command prompt, with the draft as it is.
pub open spec fn at_prompt(profile: ProfileView) -> EditorView {
    EditorView { profile, mode: EditorMode::Command }
}

/// The draft with another description.
pub open spec fn with_description(profile: ProfileView, description: Seq<char>) -> ProfileView {
    ProfileView { description, details: profile.details }
}

/// The draft with one more detail at the end.
pub open spec fn with_detail(profile: ProfileView, detail: DetailView) -> ProfileView {
    ProfileView { description: profile.description, details: profile.details.push(detail) }
}

/// The draft without the detail at `position`, counted from zero.
pub open spec fn without_detail(profile: ProfileView, position: int) -> ProfileView {
    ProfileView { description: profile.description, details: profile.details.remove(position) }
}

/// What `rm` with the given argument does to the draft.
pub open spec fn after_remove(profile: ProfileView, argument: Seq<char>) -> (
    EditorView,
    ActionView,
) {
    match unsigned_of(argument, usize::MAX as nat) {
        Err(fault) => (at_prompt(profile), ActionView::BadNumber(fault.text())),
        Ok(number) => if number == 0 || number > profile.details.len() {
            (at_prompt(profile), ActionView::InvalidIndex)
        } else {
            (at_prompt(without_detail(profile, number - 1)), ActionView::Removed)
        },
    }
}

/// What `write` does: the draft is sent as it is if it breaks no rule, and
/// refused with the first rule that it breaks otherwise. The draft stays.
pub open spec fn after_write(profile: ProfileView, unsound: Option<usize>) -> (
    EditorView,
    ActionView,
) {
    match fault_of(profile, unsound) {
        Some(fault) => (at_prompt(profile), ActionView::Refused(fault_text(fault, profile))),
        None => (at_prompt(profile), ActionView::Save(profile)),
    }
}

/// What a command line does, given as its tokens. A line without tokens
/// does nothing.
///
/// `desc` replaces the description with the other tokens, joined by single
/// spaces, whatever their length. `detail` and `contact` start the dialogue
/// that adds one. `rm` with a number removes the detail with that number,
/// counted from one. `write` checks the draft and sends it. `help` and
/// `exit` stand alone. Anything else is unknown.
pub open spec fn after_command(profile: ProfileView, tokens: Seq<Seq<char>>, unsound: Option<usize>) -> (
    EditorView,
    ActionView,
) {
    if tokens.len() == 0 {
        (at_prompt(profile), ActionView::Nothing)
    } else if tokens[0] == "desc"@ {
        (
            at_prompt(with_description(profile, join_with(tokens.skip(1), " "@))),
            ActionView::Described,
        )
    } else if tokens.len() == 1 && tokens[0] == "detail"@ {
        (EditorView { profile, mode: EditorMode::DetailKind }, ActionView::ChooseDetail)
    } else if tokens.len() == 1 && tokens[0] == "contact"@ {
        (EditorView { profile, mode: EditorMode::ContactKind }, ActionView::ChooseContact)
    } else if tokens.len() == 2 && tokens[0] == "rm"@ {
        after_remove(profile, tokens[1])
    } else if tokens.len() == 1 && tokens[0] == "write"@ {
        after_write(profile, unsound)
    } else if tokens.len() == 1 && tokens[0] == "help"@ {
        (at_prompt(profile), ActionView::Help)
    } else if tokens.len() == 1 && tokens[0] == "exit"@ {
        (at_prompt(profile), ActionView::Exit)
    } else {
        (at_prompt(profile), ActionView::Unknown)
    }
}

/// What the number of a kind does, where `kinds` kinds can be chosen and
/// `prompt` gives what is asked for each: the value is asked for, or the
/// dialogue ends because the text is no number or names no kind.
pub open spec fn after_kind(
    profile: ProfileView,
    answer: Seq<char>,
    kinds: usize,
    contact: bool,
) -> (EditorView, ActionView) {
    match unsigned_of(answer, usize::MAX as nat) {
        Err(fault) => (at_prompt(profile), ActionView::Rejected(fault.text())),
        Ok(number) => if number == 0 || number > kinds {
            (at_prompt(profile), ActionView::NoSuchKind(number as usize))
        } else if contact {
            (
                EditorView { profile, mode: EditorMode::ContactValue { index: number as usize } },
                ActionView::AskValue("Enter your "@ + contact_prompt_text(number as int)),
            )
        } else {
            (
                EditorView { profile, mode: EditorMode::DetailValue { index: number as usize } },
                ActionView::AskValue("Enter your "@ + detail_prompt_text(number as int)),
            )
        },
    }
}

/// What a line does to a session. A command line is split into its words;
/// an answer in a dialogue is taken without the white space around it. A
/// value that cannot be read ends the dialogue; it is not asked for again.
pub open spec fn editor_next(state: EditorView, line: Seq<char>, unsound: Option<usize>) -> (
    EditorView,
    ActionView,
) {
    let profile = state.profile;
    match state.mode {
        EditorMode::Command => after_command(profile, words_of(line), unsound),
        EditorMode::DetailKind => after_kind(profile, trimmed(line), DETAIL_KINDS, false),
        EditorMode::ContactKind => after_kind(profile, trimmed(line), CONTACT_KINDS, true),
        EditorMode::DetailValue { index } => match parsed_detail(index as int, trimmed(line)) {
            Ok(detail) => (at_prompt(with_detail(profile, detail)), ActionView::Added),
            Err(message) => (at_prompt(profile), ActionView::Rejected(message)),
        },
        EditorMode::ContactValue { index } => match parsed_contact(index as int, trimmed(line)) {
            Ok(contact) => (
                at_prompt(with_detail(profile, DetailView::Contact { value: contact })),
                ActionView::Added,
            ),
            Err(message) => (at_prompt(profile), ActionView::Rejected(message)),
        },
    }
}

impl Editor {
    /// A session on the given draft, at the command prompt.
    pub fn new(profile: ProfileCustomisable) -> (editor: Editor)
        ensures
            editor.profile == profile,
            editor.mode == EditorMode::Command,
    {
        Editor { profile, mode: EditorMode::Command }
    }

    /// Adds a detail at the end of the draft and returns to the prompt.
    fn add(&mut self, detail: ProfileDetail)
        ensures
            final(self)@ == at_prompt(with_detail(old(self).profile@, detail@)),
    {
        let ghost before = detail_views(self.profile.details@);
        self.profile.details.push(detail);
        self.mode = EditorMode::Command;
        assert(detail_views(self.profile.details@) == before.push(detail@));
    }

    /// Removes the detail whose number, counted from one, is given as text.
    fn remove(&mut self, argument: &str) -> (action: EditorAction)
        ensures
            (final(self)@, action@) == after_remove(old(self).profile@, argument@),
    {
        self.mode = EditorMode::Command;
        match parse_unsigned(argument, usize::MAX as u64) {
            Err(fault) => EditorAction::BadNumber(fault.into_error()),
            Ok(number) => {
                if number == 0 || number > self.profile.details.len() as u64 {
                    EditorAction::InvalidIndex
                } else {
                    let ghost before = detail_views(self.profile.details@);
                    let position = (number - 1) as usize;
                    self.profile.details.remove(position);
                    assert(detail_views(self.profile.details@) == before.remove(position as int));
                    EditorAction::Removed
                }
            },
        }
    }

    /// Checks the draft and hands out a copy to send if it breaks no rule.
    fn write(&mut self, unsound: Option<usize>) -> (action: EditorAction)
        ensures
            (final(self)@, action@) == after_write(old(self).profile@, unsound),
    {
        self.mode = EditorMode::Command;
        match profile_fault(&self.profile, unsound) {
            Some(fault) => EditorAction::Refused(fault.message(&self.profile)),
            None => EditorAction::Save(self.profile.clone()),
        }
    }

    /// Reads the number of a kind and asks for the value of that kind.
    fn pick_kind(&mut self, answer: &str, contact: bool) -> (action: EditorAction)
        ensures
            (final(self)@, action@) == after_kind(
                old(self).profile@,
                answer@,
                if contact {
                    CONTACT_KINDS
                } else {
                    DETAIL_KINDS
                },
                contact,
            ),
    {
        self.mode = EditorMode::Command;
        let number = match parse_unsigned(answer, usize::MAX as u64) {
            Err(fault) => {
                return EditorAction::Rejected(fault.into_error());
            },
            Ok(number) => number as usize,
        };
        let asked = if contact {
            contacts_prompt(number)
        } else {
            details_prompt(number)
        };
        match asked {
            Err(_) => EditorAction::NoSuchKind(number),
            Ok(prompt) => {
                self.mode = if contact {
                    EditorMode::ContactValue { index: number }
                } else {
                    EditorMode::DetailValue { index: number }
                };
                EditorAction::AskValue(prompt)
            },
        }
    }

    /// Carries out one command line, given as its tokens.
    fn command(&mut self, tokens: Vec<String>, unsound: Option<usize>) -> (action: EditorAction)
        ensures
            (final(self)@, action@) == after_command(old(self).profile@, texts(tokens@), unsound),
    {
        self.mode = EditorMode::Command;
        let n = tokens.len();
        if n == 0 {
            return EditorAction::Nothing;
        }
        let ghost toks = texts(tokens@);
        let first = tokens[0].as_str();
        assert(first@ == toks[0]);
        if same_text(first, "desc") {
            let mut rest = tokens;
            rest.remove(0);
            assert(texts(rest@) == toks.skip(1));
            self.profile.description = join(&rest, " ");
            EditorAction::Described
        } else if n == 1 && same_text(first, "detail") {
            self.mode = EditorMode::DetailKind;
            EditorAction::ChooseDetail
        } else if n == 1 && same_text(first, "contact") {
            self.mode = EditorMode::ContactKind;
            EditorAction::ChooseContact
        } else if n == 2 && same_text(first, "rm") {
            assert(tokens@[1]@ == toks[1]);
            self.remove(tokens[1].as_str())
        } else if n == 1 && same_text(first, "write") {
            self.write(unsound)
        } else if n == 1 && same_text(first, "help") {
            EditorAction::Help
        } else if n == 1 && same_text(first, "exit") {
            EditorAction::Exit
        } else {
            EditorAction::Unknown
        }
    }

    /// Takes one line that the user typed and says what is to be done.
    ///
    /// `unsound` is the position of the first detail of the draft that
    /// fails the check of its own kind, as the service's validation
    /// reports it for the draft as it is now; it matters for `write` only.
    pub fn step(&mut self, line: &str, unsound: Option<usize>) -> (action: EditorAction)
        ensures
            (final(self)@, action@) == editor_next(old(self)@, line@, unsound),
    {
        match self.mode {
            EditorMode::Command => self.command(words(line), unsound),
            EditorMode::DetailKind => self.pick_kind(trim(line).as_str(), false),
            EditorMode::ContactKind => self.pick_kind(trim(line).as_str(), true),
            EditorMode::DetailValue { index } => {
                match details_from_string(index, trim(line)) {
                    Ok(detail) => {
                        self.add(detail);
                        EditorAction::Added
                    },
                    Err(e) => {
                        self.mode = EditorMode::Command;
                        EditorAction::Rejected(e)
                    },
                }
            },
            EditorMode::ContactValue { index } => {
                match contacts_from_string(index, trim(line)) {
                    Ok(contact) => {
                        self.add(ProfileDetail::Contact { value: contact });
                        EditorAction::Added
                    },
                    Err(e) => {
                        self.mode = EditorMode::Command;
                        EditorAction::Rejected(e)
                    },
                }
            },
        }
    }
}

/// The rules are not asked when the description is set: `desc` replaces
/// the description whatever its length and whatever the draft holds.
pub proof fn lemma_desc_is_never_refused(
    profile: ProfileView,
    tokens: Seq<Seq<char>>,
    unsound: Option<usize>,
)
    requires
        tokens.len() > 0,
        tokens[0] == "desc"@,
    ensures
        after_command(profile, tokens, unsound).1 == ActionView::Described,
        after_command(profile, tokens, unsound).0.profile.description == join_with(
            tokens.skip(1),
            " "@,
        ),
        after_command(profile, tokens, unsound).0.profile.details == profile.details,
{
}

/// A draft whose description is too long is refused when it is written,
/// and stays as it is.
pub proof fn lemma_long_description_is_refused(profile: ProfileView, unsound: Option<usize>)
    requires
        byte_len(profile.description) > MAX_DESCRIPTION,
    ensures
        after_write(profile, unsound) == (
            at_prompt(profile),
            ActionView::Refused("Description is too long (2000 max)"@),
        ),
{
}

/// The rules are not asked when a detail is added: what a value does in a
/// dialogue does not depend on what the draft holds already, and a value
/// that can be read is added at the end.
pub proof fn lemma_adding_is_never_refused(
    profile: ProfileView,
    index: usize,
    line: Seq<char>,
    unsound: Option<usize>,
)
    requires
        parsed_detail(index as int, trimmed(line)) is Ok,
    ensures
        editor_next(
            EditorView { profile, mode: EditorMode::DetailValue { index } },
            line,
            unsound,
        ) == (
            at_prompt(with_detail(profile, parsed_detail(index as int, trimmed(line))->Ok_0)),
            ActionView::Added,
        ),
{
}

/// A draft that is otherwise in order but holds more than one cake day or
/// birthday is refused when it is written, with a message that names the
/// second of them by its number.
pub proof fn lemma_second_date_is_refused(profile: ProfileView, unsound: Option<usize>)
    requires
        byte_len(profile.description) <= MAX_DESCRIPTION,
        profile.details.len() <= MAX_DETAILS,
        date_count(profile.details, profile.details.len() as int) > 1,
    ensures
        second_date(profile.details, profile.details.len() as int) matches Some(i) && 0 < i
            < profile.details.len() && after_write(profile, unsound).1 == ActionView::Refused(
            fault_text(ProfileFault::SecondDate { index: i as usize }, profile),
        ),
{
    lemma_second_date(profile.details, profile.details.len() as int);
}

/// Only `write` hands a draft out, and only a draft that breaks no rule:
/// what is sent is the draft as it stands, within the limits on its
/// description and on the number of its details.
pub proof fn lemma_only_sound_drafts_are_sent(
    state: EditorView,
    line: Seq<char>,
    unsound: Option<usize>,
)
    ensures
        editor_next(state, line, unsound).1 matches ActionView::Save(sent) ==> {
            &&& sent == state.profile
            &&& byte_len(sent.description) <= MAX_DESCRIPTION
            &&& sent.details.len() <= MAX_DETAILS
            &&& fault_of(state.profile, unsound) is None
            &&& state.mode == EditorMode::Command
            &&& editor_next(state, line, unsound).0 == at_prompt(state.profile)
        },
{
}

/// The list of commands that `help` shows.
pub open spec fn help_lines() -> Seq<char> {
    "[Commands]\n1. write\n2. exit\n3. rm [index]: remove detail\n4. detail: add detail\n5. desc [replace]: replace description with string\n6. contact: add contact\n7. help\n"@
}

/// The list of commands that `help` shows.
pub fn help_text() -> (r: &'static str)
    ensures
        r@ == help_lines(),
{
    "[Commands]\n1. write\n2. exit\n3. rm [index]: remove detail\n4. detail: add detail\n5. desc [replace]: replace description with string\n6. contact: add contact\n7. help\n"
}

/// The session ends on `exit` and on nothing else: the one line that asks
/// to leave is the word `exit` alone at the command prompt.
pub proof fn lemma_exit_is_the_only_way_out(
    state: EditorView,
    line: Seq<char>,
    unsound: Option<usize>,
)
    ensures
        editor_next(state, line, unsound).1 is Exit <==> (state.mode == EditorMode::Command
            && words_of(line) == seq!["exit"@]),
{
    reveal_strlit("desc");
    reveal_strlit("detail");
    reveal_strlit("contact");
    reveal_strlit("rm");
    reveal_strlit("write");
    reveal_strlit("help");
    reveal_strlit("exit");
    let tokens = words_of(line);
    if state.mode == EditorMode::Command {
        if tokens == seq!["exit"@] {
            assert(tokens.len() == 1 && tokens[0] == "exit"@);
            assert("exit"@[0] == 'e' && "desc"@[0] == 'd' && "detail"@[0] == 'd');
            assert("contact"@[0] == 'c' && "write"@[0] == 'w' && "help"@[0] == 'h');
        }
        if editor_next(state, line, unsound).1 is Exit {
            assert(tokens.len() == 1 && tokens[0] == "exit"@);
            assert(tokens =~= seq!["exit"@]);
        }
    }
}

} // verus!
