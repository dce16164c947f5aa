//! The commands on the client itself.

use vstd::prelude::*;
use crate::command::last_leaf;
use crate::commands::Operation;

verus! {

/// The operation that a name of this group stands for.
pub open spec fn named(name: Seq<char>) -> Option<Operation> {
    if name == "version"@ {
        Some(Operation::Version)
    } else if name == "help"@ {
        Some(Operation::Help)
    } else if name == "clean"@ {
        Some(Operation::Clean)
    } else {
        None
    }
}

/// The commands of this group, each with its name.
pub fn commands() -> (table: Vec<(String, Operation)>)
    ensures
        forall|name: Seq<char>| last_leaf(table@, name) == named(name),
{
    let mut table: Vec<(String, Operation)> = Vec::new();
    table.push((String::from_str("clean"), Operation::Clean));
    table.push((String::from_str("help"), Operation::Help));
    table.push((String::from_str("version"), Operation::Version));
    proof {
        lemma_table(table@);
    }
    table
}

/// A table that lists the commands of this group in their order finds
/// each under its name.
proof fn lemma_table(table: Seq<(String, Operation)>)
    requires
        table.len() == 3,
        table[0].0@ == "clean"@ && table[0].1 == Operation::Clean,
        table[1].0@ == "help"@ && table[1].1 == Operation::Help,
        table[2].0@ == "version"@ && table[2].1 == Operation::Version,
    ensures
        forall|name: Seq<char>| last_leaf(table, name) == named(name),
{
    let t3 = table;
    let t2 = t3.drop_last();
    let t1 = t2.drop_last();
    let t0 = t1.drop_last();
    assert forall|name: Seq<char>| last_leaf(table, name) == named(name) by {
        assert(last_leaf(t0, name) == None::<Operation>);
        assert(t1.last() == table[0]);
        assert(last_leaf(t1, name) == if name == "clean"@ {
            Some(Operation::Clean)
        } else {
            last_leaf(t0, name)
        });
        assert(t2.last() == table[1]);
        assert(last_leaf(t2, name) == if name == "help"@ {
            Some(Operation::Help)
        } else {
            last_leaf(t1, name)
        });
        assert(t3.last() == table[2]);
        assert(last_leaf(t3, name) == if name == "version"@ {
            Some(Operation::Version)
        } else {
            last_leaf(t2, name)
        });
    }
}

} // verus!
