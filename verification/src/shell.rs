//! The filesystem shell as a state machine: a working path that `cd`
//! moves, and storage commands that are handed on with that path as their
//! prefix. Reading lines, printing and running the commands are left to
//! the caller.

use vstd::prelude::*;
use crate::args::{
    args_parse, duplicate_flag, first_repeat, flag_name, flags_distinct, flags_of, positional_of,
};
use crate::commands::storage;
use crate::commands::Operation;
use crate::params::ParameterMap;
use crate::path::{has_root, is_absolute, join_path, joined, lemma_resolved_is_absolute, resolve_path, resolved};
use crate::text::{same_text, texts, words, words_of};

verus! {

/// A session of the filesystem shell.
pub struct Shell {
    /// The parameters that every command of the session starts from.
    pub map: ParameterMap,
    /// The working path.
    pub path: String,
}

/// What the caller is to do after a line.
pub enum ShellAction {
    /// Nothing: the line was empty or held flags only.
    Nothing,
    /// The working path was replaced.
    Moved,
    /// Print the working path, given here.
    Print(String),
    /// Leave the shell.
    Exit,
    /// Run a storage command with these parameters and positional values.
    Delegate { operation: Operation, map: ParameterMap, args: Vec<String> },
    /// The line is no command.
    Unknown,
    /// The flag with this name was given twice: the program ends.
    Abort(String),
}

/// An action, with its texts as character sequences.
pub ghost enum ShellActionView {
    Nothing,
    Moved,
    Print(Seq<char>),
    Exit,
    Delegate { operation: Operation, map: Map<Seq<char>, Seq<char>>, args: Seq<Seq<char>> },
    Unknown,
    Abort(Seq<char>),
}

impl View for ShellAction {
    type V = ShellActionView;

    open spec fn view(&self) -> ShellActionView {
        match self {
            ShellAction::Nothing => ShellActionView::Nothing,
            ShellAction::Moved => ShellActionView::Moved,
            ShellAction::Print(path) => ShellActionView::Print(path@),
            ShellAction::Exit => ShellActionView::Exit,
            ShellAction::Delegate { operation, map, args } => ShellActionView::Delegate {
                operation: *operation,
                map: map@,
                args: texts(args@),
            },
            ShellAction::Unknown => ShellActionView::Unknown,
            ShellAction::Abort(name) => ShellActionView::Abort(name@),
        }
    }
}

/// The storage command that the shell hands a name on to: any of the
/// group but the shell itself.
pub open spec fn delegated(name: Seq<char>) -> Option<Operation> {
    match storage::named(name) {
        Some(Operation::Fs) => None,
        other => other,
    }
}

/// What a line without repeated flags does, given as its tokens: the new
/// working path and the action.
///
/// The flags are taken out first. Of what is left, `cd` with one path
/// moves to that path, resolved from the working path; `pwd` and `exit`
/// stand alone; the name of a storage command hands the other tokens on,
/// with the session's parameters, the flags of the line over them, and the
/// working path under `prefix`.
pub open spec fn after_line(
    path: Seq<char>,
    session: Map<Seq<char>, Seq<char>>,
    raw: Seq<Seq<char>>,
) -> (Seq<char>, ShellActionView) {
    let tokens = positional_of(raw);
    if tokens.len() == 0 {
        (path, ShellActionView::Nothing)
    } else if tokens.len() == 2 && tokens[0] == "cd"@ {
        (resolved(joined(path, tokens[1])), ShellActionView::Moved)
    } else if tokens.len() == 1 && tokens[0] == "pwd"@ {
        (path, ShellActionView::Print(path))
    } else if tokens.len() == 1 && tokens[0] == "exit"@ {
        (path, ShellActionView::Exit)
    } else {
        match delegated(tokens[0]) {
            Some(operation) => (
                path,
                ShellActionView::Delegate {
                    operation,
                    map: session.union_prefer_right(flags_of(raw)).insert("prefix"@, path),
                    args: tokens.skip(1),
                },
            ),
            None => (path, ShellActionView::Unknown),
        }
    }
}

/// Whether `name` is the name of the first flag of the line that repeats
/// the name of an earlier one.
pub open spec fn given_twice(raw: Seq<Seq<char>>, name: Seq<char>) -> bool {
    exists|j: int| first_repeat(raw, j) && flag_name(#[trigger] raw[j]) == name
}

/// The tokens of a line: its words, split at white space.
pub open spec fn line_tokens(line: Seq<char>) -> Seq<Seq<char>> {
    words_of(line)
}

impl Shell {
    /// A session that starts at `path`. A path that does not start at the
    /// root is replaced by the root, and the second result says so.
    pub fn new(map: ParameterMap, path: String) -> (r: (Shell, bool))
        ensures
            r.0.map == map,
            r.1 == !is_absolute(path@),
            r.0.path@ == if is_absolute(path@) {
                path@
            } else {
                "/"@
            },
            is_absolute(r.0.path@),
    {
        if has_root(path.as_str()) {
            (Shell { map, path }, false)
        } else {
            proof {
                reveal_strlit("/");
            }
            (Shell { map, path: String::from_str("/") }, true)
        }
    }

    /// Takes one line that the user typed and says what is to be done.
    /// Only `cd` changes the session. A working path that starts at the
    /// root still does so after any line.
    pub fn step(&mut self, line: &str) -> (action: ShellAction)
        ensures
            final(self).map == old(self).map,
            flags_distinct(line_tokens(line@)) ==> (final(self).path@, action@) == after_line(
                old(self).path@,
                old(self).map@,
                line_tokens(line@),
            ),
            !flags_distinct(line_tokens(line@)) ==> final(self).path == old(self).path,
            !flags_distinct(line_tokens(line@)) ==> (action matches ShellAction::Abort(name)
                && given_twice(line_tokens(line@), name@)),
            is_absolute(old(self).path@) ==> is_absolute(final(self).path@),
    {
        let mut tokens = words(line);
        match duplicate_flag(&tokens) {
            Some(name) => {
                return ShellAction::Abort(name);
            },
            None => {},
        }
        let mut map = self.map.clone();
        args_parse(&mut tokens, &mut map);
        let n = tokens.len();
        if n == 0 {
            return ShellAction::Nothing;
        }
        let ghost toks = texts(tokens@);
        let first = tokens[0].as_str();
        assert(first@ == toks[0]);
        if n == 2 && same_text(first, "cd") {
            assert(tokens@[1]@ == toks[1]);
            let target = join_path(self.path.as_str(), tokens[1].as_str());
            proof {
                lemma_resolved_is_absolute(target@);
            }
            self.path = resolve_path(target.as_str());
            ShellAction::Moved
        } else if n == 1 && same_text(first, "pwd") {
            ShellAction::Print(self.path.clone())
        } else if n == 1 && same_text(first, "exit") {
            ShellAction::Exit
        } else {
            match storage::lookup(first) {
                None => ShellAction::Unknown,
                Some(Operation::Fs) => ShellAction::Unknown,
                Some(operation) => {
                    map.insert(String::from_str("prefix"), self.path.clone());
                    let mut args = tokens;
                    args.remove(0);
                    assert(texts(args@) == toks.skip(1));
                    ShellAction::Delegate { operation, map, args }
                },
            }
        }
    }
}

/// The shell ends on `exit` and on nothing else: the one line that asks
/// to leave is the word `exit`, with or without flags around it.
pub proof fn lemma_exit_is_the_only_way_out(
    path: Seq<char>,
    session: Map<Seq<char>, Seq<char>>,
    raw: Seq<Seq<char>>,
)
    ensures
        after_line(path, session, raw).1 is Exit <==> positional_of(raw) == seq!["exit"@],
{
    reveal_strlit("cd");
    reveal_strlit("pwd");
    reveal_strlit("exit");
    let tokens = positional_of(raw);
    if tokens == seq!["exit"@] {
        assert(tokens.len() == 1 && tokens[0] == "exit"@);
        assert("exit"@[0] == 'e' && "pwd"@[0] == 'p');
    }
    if after_line(path, session, raw).1 is Exit {
        assert(tokens.len() == 1 && tokens[0] == "exit"@);
        assert(tokens =~= seq!["exit"@]);
    }
}

} // verus!
