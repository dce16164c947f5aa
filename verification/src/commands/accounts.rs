//! The commands on the user's account.

use vstd::prelude::*;
use crate::command::last_leaf;
use crate::commands::Operation;

verus! {

/// The operation that a name of this group stands for.
pub open spec fn named(name: Seq<char>) -> Option<Operation> {
    if name == "status"@ {
        Some(Operation::Status)
    } else if name == "delete"@ {
        Some(Operation::Delete)
    } else if name == "rename"@ {
        Some(Operation::Rename)
    } else if name == "regen"@ {
        Some(Operation::Regen)
    } else if name == "logout"@ {
        Some(Operation::Logout)
    } else if name == "login"@ {
        Some(Operation::Login)
    } else if name == "create"@ {
        Some(Operation::Create)
    } else {
        None
    }
}

/// The commands of this group, each with its name.
pub fn commands() -> (table: Vec<(String, Operation)>)
    ensures
        forall|name: Seq<char>| last_leaf(table@, name) == named(name),
{
    let mut table: Vec<(String, Operation)> = Vec::new();
    table.push((String::from_str("create"), Operation::Create));
    table.push((String::from_str("login"), Operation::Login));
    table.push((String::from_str("logout"), Operation::Logout));
    table.push((String::from_str("regen"), Operation::Regen));
    table.push((String::from_str("rename"), Operation::Rename));
    table.push((String::from_str("delete"), Operation::Delete));
    table.push((String::from_str("status"), Operation::Status));
    proof {
        lemma_table(table@);
    }
    table
}

/// A table that lists the commands of this group in their order finds
/// each under its name.
proof fn lemma_table(table: Seq<(String, Operation)>)
    requires
        table.len() == 7,
        table[0].0@ == "create"@ && table[0].1 == Operation::Create,
        table[1].0@ == "login"@ && table[1].1 == Operation::Login,
        table[2].0@ == "logout"@ && table[2].1 == Operation::Logout,
        table[3].0@ == "regen"@ && table[3].1 == Operation::Regen,
        table[4].0@ == "rename"@ && table[4].1 == Operation::Rename,
        table[5].0@ == "delete"@ && table[5].1 == Operation::Delete,
        table[6].0@ == "status"@ && table[6].1 == Operation::Status,
    ensures
        forall|name: Seq<char>| last_leaf(table, name) == named(name),
{
    let t7 = table;
    let t6 = t7.drop_last();
    let t5 = t6.drop_last();
    let t4 = t5.drop_last();
    let t3 = t4.drop_last();
    let t2 = t3.drop_last();
    let t1 = t2.drop_last();
    let t0 = t1.drop_last();
    assert forall|name: Seq<char>| last_leaf(table, name) == named(name) by {
        assert(last_leaf(t0, name) == None::<Operation>);
        assert(t1.last() == table[0]);
        assert(last_leaf(t1, name) == if name == "create"@ {
            Some(Operation::Create)
        } else {
            last_leaf(t0, name)
        });
        assert(t2.last() == table[1]);
        assert(last_leaf(t2, name) == if name == "login"@ {
            Some(Operation::Login)
        } else {
            last_leaf(t1, name)
        });
        assert(t3.last() == table[2]);
        assert(last_leaf(t3, name) == if name == "logout"@ {
            Some(Operation::Logout)
        } else {
            last_leaf(t2, name)
        });
        assert(t4.last() == table[3]);
        assert(last_leaf(t4, name) == if name == "regen"@ {
            Some(Operation::Regen)
        } else {
            last_leaf(t3, name)
        });
        assert(t5.last() == table[4]);
        assert(last_leaf(t5, name) == if name == "rename"@ {
            Some(Operation::Rename)
        } else {
            last_leaf(t4, name)
        });
        assert(t6.last() == table[5]);
        assert(last_leaf(t6, name) == if name == "delete"@ {
            Some(Operation::Delete)
        } else {
            last_leaf(t5, name)
        });
        assert(t7.last() == table[6]);
        assert(last_leaf(t7, name) == if name == "status"@ {
            Some(Operation::Status)
        } else {
            last_leaf(t6, name)
        });
    }
}

} // verus!
