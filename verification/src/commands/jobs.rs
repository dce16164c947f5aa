//! The commands on the queue of jobs.

use vstd::prelude::*;
use crate::command::last_leaf;
use crate::commands::Operation;

verus! {

/// The operation that a name of this group stands for.
pub open spec fn named(name: Seq<char>) -> Option<Operation> {
    if name == "unqueue"@ {
        Some(Operation::Unqueue)
    } else if name == "jobs"@ {
        Some(Operation::Jobs)
    } else {
        None
    }
}

/// The commands of this group, each with its name.
pub fn commands() -> (table: Vec<(String, Operation)>)
    ensures
        forall|name: Seq<char>| last_leaf(table@, name) == named(name),
{
    let mut table: Vec<(String, Operation)> = Vec::new();
    table.push((String::from_str("jobs"), Operation::Jobs));
    table.push((String::from_str("unqueue"), Operation::Unqueue));
    proof {
        lemma_table(table@);
    }
    table
}

/// A table that lists the commands of this group in their order finds
/// each under its name.
proof fn lemma_table(table: Seq<(String, Operation)>)
    requires
        table.len() == 2,
        table[0].0@ == "jobs"@ && table[0].1 == Operation::Jobs,
        table[1].0@ == "unqueue"@ && table[1].1 == Operation::Unqueue,
    ensures
        forall|name: Seq<char>| last_leaf(table, name) == named(name),
{
    let t2 = table;
    let t1 = t2.drop_last();
    let t0 = t1.drop_last();
    assert forall|name: Seq<char>| last_leaf(table, name) == named(name) by {
        assert(last_leaf(t0, name) == None::<Operation>);
        assert(t1.last() == table[0]);
        assert(last_leaf(t1, name) == if name == "jobs"@ {
            Some(Operation::Jobs)
        } else {
            last_leaf(t0, name)
        });
        assert(t2.last() == table[1]);
        assert(last_leaf(t2, name) == if name == "unqueue"@ {
            Some(Operation::Unqueue)
        } else {
            last_leaf(t1, name)
        });
    }
}

} // verus!
