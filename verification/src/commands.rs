//! The commands of the client, by name.

use vstd::prelude::*;
use crate::args::{bound_upto, map_args, names};
use crate::command::{child_of, Command};
use crate::config::{logged_in, AccountConfig};
use crate::error::Error;
use crate::params::ParameterMap;
use crate::text::texts;

pub mod accounts;
pub mod jobs;
pub mod storage;
pub mod tex;
pub mod utils;

verus! {

/// An operation that the client can carry out. The tree of commands holds
/// these at its leaves; what carries an operation out is not part of the
/// tree.
#[derive(Debug, Clone, Copy, PartialEq, Eq, Hash, Structural)]
pub enum Operation {
    Create,
    Delete,
    Login,
    Logout,
    Regen,
    Rename,
    Status,
    Jobs,
    Unqueue,
    Cat,
    Cp,
    Fs,
    Ls,
    Mkdir,
    Mv,
    Rm,
    Touch,
    Upload,
    Vis,
    Compile,
    PfpEdit,
    Profile,
    Publish,
    Publishes,
    SetProfile,
    Clean,
    Help,
    Version,
}

/// Whether a command needs an account that is logged in, and what it says
/// where there is none.
#[derive(Debug, Clone, Copy, PartialEq, Eq, Structural)]
pub enum Login {
    /// The command runs without an account.
    Free,
    /// The command works on the account.
    Account,
    /// The command works on the files of the account.
    Files,
}

/// Why a command is not run.
#[derive(Debug, Clone, Copy, PartialEq, Eq, Structural)]
pub enum Refusal {
    /// There are more positional values than the command has parameters.
    TooManyArguments,
    /// The command needs an account and none is logged in.
    NotLoggedIn(Login),
}

impl Refusal {
    /// What the user is told.
    pub open spec fn text(self) -> Seq<char> {
        match self {
            Refusal::TooManyArguments => "Too many arguments"@,
            Refusal::NotLoggedIn(Login::Files) => "not logged in"@,
            Refusal::NotLoggedIn(_) => "Not logged in"@,
        }
    }

    /// The refusal as an error with its message.
    pub fn into_error(self) -> (e: Error)
        ensures
            e.text() == self.text(),
    {
        match self {
            Refusal::TooManyArguments => Error::StrErr("Too many arguments"),
            Refusal::NotLoggedIn(Login::Files) => Error::StrErr("not logged in"),
            Refusal::NotLoggedIn(_) => Error::StrErr("Not logged in"),
        }
    }
}

impl Operation {
    /// The parameters that the positional values of the command are bound
    /// to, in their order; `None` for a command that takes no notice of
    /// positional values.
    pub open spec fn declared(self) -> Option<Seq<Seq<char>>> {
        match self {
            Operation::Create => Some(seq!["username"@, "email"@, "password"@]),
            Operation::Regen => Some(seq!["password"@]),
            Operation::Rename => Some(seq!["newname"@]),
            Operation::Status => Some(seq!["status"@]),
            Operation::Unqueue => Some(seq!["taskid"@]),
            Operation::Cat => Some(seq!["path"@]),
            Operation::Fs => Some(seq!["path"@]),
            Operation::Ls => Some(seq!["path"@]),
            Operation::Mkdir => Some(seq!["path"@]),
            Operation::Mv => Some(seq!["from"@, "to"@]),
            Operation::Rm => Some(seq!["path"@]),
            Operation::Upload => Some(seq!["file"@, "path"@]),
            Operation::Vis => Some(seq!["path"@, "vis"@]),
            Operation::Compile => Some(seq!["path"@, "from"@, "to"@, "compiler"@]),
            Operation::PfpEdit => Some(seq!["file"@]),
            Operation::Profile => Some(seq!["username"@]),
            Operation::Publish => Some(seq!["path"@, "title"@, "desc"@]),
            Operation::Publishes => Some(seq!["username"@, "page"@, "per_page"@]),
            _ => None,
        }
    }

    /// Whether the command needs an account that is logged in.
    pub open spec fn spec_login(self) -> Login {
        match self {
            Operation::Delete
            | Operation::Regen
            | Operation::Rename
            | Operation::Status
            | Operation::Jobs
            | Operation::Unqueue
            | Operation::Cp
            | Operation::Mkdir
            | Operation::Mv
            | Operation::Rm
            | Operation::Touch
            | Operation::Vis
            | Operation::PfpEdit
            | Operation::SetProfile => Login::Account,
            Operation::Cat
            | Operation::Fs
            | Operation::Ls
            | Operation::Upload
            | Operation::Compile
            | Operation::Publish => Login::Files,
            _ => Login::Free,
        }
    }

    /// Whether the command needs an account that is logged in.
    #[verifier::when_used_as_spec(spec_login)]
    pub fn login(self) -> (r: Login)
        ensures
            r == self.spec_login(),
    {
        match self {
            Operation::Delete
            | Operation::Regen
            | Operation::Rename
            | Operation::Status
            | Operation::Jobs
            | Operation::Unqueue
            | Operation::Cp
            | Operation::Mkdir
            | Operation::Mv
            | Operation::Rm
            | Operation::Touch
            | Operation::Vis
            | Operation::PfpEdit
            | Operation::SetProfile => Login::Account,
            Operation::Cat
            | Operation::Fs
            | Operation::Ls
            | Operation::Upload
            | Operation::Compile
            | Operation::Publish => Login::Files,
            _ => Login::Free,
        }
    }

    /// The parameters that the positional values of the command are bound
    /// to; `None` for a command that takes no notice of positional values.
    pub fn parameters(self) -> (r: Option<Vec<&'static str>>)
        ensures
            match self.declared() {
                Some(keys) => r matches Some(found) && names(found@) == keys,
                None => r is None,
            },
    {
        let mut keys: Vec<&'static str> = Vec::new();
        match self {
            Operation::Create => {
                keys.push("username");
                keys.push("email");
                keys.push("password");
            },
            Operation::Regen => {
                keys.push("password");
            },
            Operation::Rename => {
                keys.push("newname");
            },
            Operation::Status => {
                keys.push("status");
            },
            Operation::Unqueue => {
                keys.push("taskid");
            },
            Operation::Cat => {
                keys.push("path");
            },
            Operation::Fs => {
                keys.push("path");
            },
            Operation::Ls => {
                keys.push("path");
            },
            Operation::Mkdir => {
                keys.push("path");
            },
            Operation::Mv => {
                keys.push("from");
                keys.push("to");
            },
            Operation::Rm => {
                keys.push("path");
            },
            Operation::Upload => {
                keys.push("file");
                keys.push("path");
            },
            Operation::Vis => {
                keys.push("path");
                keys.push("vis");
            },
            Operation::Compile => {
                keys.push("path");
                keys.push("from");
                keys.push("to");
                keys.push("compiler");
            },
            Operation::PfpEdit => {
                keys.push("file");
            },
            Operation::Profile => {
                keys.push("username");
            },
            Operation::Publish => {
                keys.push("path");
                keys.push("title");
                keys.push("desc");
            },
            Operation::Publishes => {
                keys.push("username");
                keys.push("page");
                keys.push("per_page");
            },
            _ => {
                return None;
            },
        }
        assert(names(keys@) =~= self.declared()->0);
        Some(keys)
    }

    /// What the parameters are once the positional values are bound: as
    /// they were for a command that takes no notice of them.
    pub open spec fn bound(self, map: Map<Seq<char>, Seq<char>>, args: Seq<Seq<char>>) -> Map<
        Seq<char>,
        Seq<char>,
    > {
        match self.declared() {
            Some(keys) => bound_upto(map, keys, args, args.len() as int),
            None => map,
        }
    }

    /// Why the command is not run on these parameters and positional
    /// values, if it is not: first for too many values, then for want of
    /// an account.
    pub open spec fn refusal(self, map: Map<Seq<char>, Seq<char>>, args: Seq<Seq<char>>) -> Option<
        Refusal,
    > {
        if self.declared() is Some && args.len() > self.declared()->0.len() {
            Some(Refusal::TooManyArguments)
        } else if self.spec_login() != Login::Free && !logged_in(self.bound(map, args)) {
            Some(Refusal::NotLoggedIn(self.spec_login()))
        } else {
            None
        }
    }

    /// Gets the parameters ready for the command: binds the positional
    /// values to the parameters that the command declares and sees that an
    /// account is logged in where the command needs one. Too many values
    /// leave the parameters as they were.
    pub fn prepare(self, map: &mut ParameterMap, args: Vec<String>) -> (r: Result<(), Refusal>)
        ensures
            match self.refusal(old(map)@, texts(args@)) {
                Some(refusal) => r == Err::<(), Refusal>(refusal),
                None => r is Ok,
            },
            final(map)@ == if self.refusal(old(map)@, texts(args@)) == Some(
                Refusal::TooManyArguments,
            ) {
                old(map)@
            } else {
                self.bound(old(map)@, texts(args@))
            },
    {
        match self.parameters() {
            Some(keys) => {
                if map_args(map, keys.as_slice(), args).is_err() {
                    return Err(Refusal::TooManyArguments);
                }
            },
            None => {},
        }
        let login = self.login();
        match login {
            Login::Free => Ok(()),
            _ => {
                if AccountConfig::is_loggedin_map(map) {
                    Ok(())
                } else {
                    Err(Refusal::NotLoggedIn(login))
                }
            },
        }
    }
}

/// The operation that a command name stands for. The groups are merged
/// one after the other, so where two of them held the same name, the one
/// merged later would be the one found.
pub open spec fn operation_named(name: Seq<char>) -> Option<Operation> {
    if jobs::named(name) is Some {
        jobs::named(name)
    } else if utils::named(name) is Some {
        utils::named(name)
    } else if storage::named(name) is Some {
        storage::named(name)
    } else if accounts::named(name) is Some {
        accounts::named(name)
    } else {
        tex::named(name)
    }
}

/// The leaf for an operation, if there is one.
pub open spec fn leaf_for(operation: Option<Operation>) -> Option<Command<Operation>> {
    match operation {
        Some(op) => Some(Command::Command(op)),
        None => None,
    }
}

/// The tree of all commands: one category that holds every command of
/// every group under its name.
pub fn commands() -> (tree: Command<Operation>)
    ensures
        tree is Category,
        tree.wf(),
        forall|name: Seq<char>|
            child_of(tree->Category_0@, name) == leaf_for(operation_named(name)),
{
    let mut map: Vec<(String, Command<Operation>)> = Vec::new();
    Command::from_leaves(tex::commands()).extend_map(&mut map);
    Command::from_leaves(accounts::commands()).extend_map(&mut map);
    Command::from_leaves(storage::commands()).extend_map(&mut map);
    Command::from_leaves(utils::commands()).extend_map(&mut map);
    Command::from_leaves(jobs::commands()).extend_map(&mut map);
    Command::category(map)
}

} // verus!
