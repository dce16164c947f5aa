//! The commands on documents and profiles.

use vstd::prelude::*;
use crate::command::last_leaf;
use crate::commands::Operation;

verus! {

/// The operation that a name of this group stands for.
pub open spec fn named(name: Seq<char>) -> Option<Operation> {
    if name == "publishes"@ {
        Some(Operation::Publishes)
    } else if name == "publish"@ {
        Some(Operation::Publish)
    } else if name == "compile"@ {
        Some(Operation::Compile)
    } else if name == "tpfpedit"@ {
        Some(Operation::PfpEdit)
    } else if name == "tpfedit"@ {
        Some(Operation::SetProfile)
    } else if name == "tprofile"@ {
        Some(Operation::Profile)
    } else {
        None
    }
}

/// The commands of this group, each with its name.
pub fn commands() -> (table: Vec<(String, Operation)>)
    ensures
        forall|name: Seq<char>| last_leaf(table@, name) == named(name),
{
    let mut table: Vec<(String, Operation)> = Vec::new();
    table.push((String::from_str("tprofile"), Operation::Profile));
    table.push((String::from_str("tpfedit"), Operation::SetProfile));
    table.push((String::from_str("tpfpedit"), Operation::PfpEdit));
    table.push((String::from_str("compile"), Operation::Compile));
    table.push((String::from_str("publish"), Operation::Publish));
    table.push((String::from_str("publishes"), Operation::Publishes));
    proof {
        lemma_table(table@);
    }
    table
}

/// A table that lists the commands of this group in their order finds
/// each under its name.
proof fn lemma_table(table: Seq<(String, Operation)>)
    requires
        table.len() == 6,
        table[0].0@ == "tprofile"@ && table[0].1 == Operation::Profile,
        table[1].0@ == "tpfedit"@ && table[1].1 == Operation::SetProfile,
        table[2].0@ == "tpfpedit"@ && table[2].1 == Operation::PfpEdit,
        table[3].0@ == "compile"@ && table[3].1 == Operation::Compile,
        table[4].0@ == "publish"@ && table[4].1 == Operation::Publish,
        table[5].0@ == "publishes"@ && table[5].1 == Operation::Publishes,
    ensures
        forall|name: Seq<char>| last_leaf(table, name) == named(name),
{
    let t6 = table;
    let t5 = t6.drop_last();
    let t4 = t5.drop_last();
    let t3 = t4.drop_last();
    let t2 = t3.drop_last();
    let t1 = t2.drop_last();
    let t0 = t1.drop_last();
    assert forall|name: Seq<char>| last_leaf(table, name) == named(name) by {
        assert(last_leaf(t0, name) == None::<Operation>);
        assert(t1.last() == table[0]);
        assert(last_leaf(t1, name) == if name == "tprofile"@ {
            Some(Operation::Profile)
        } else {
            last_leaf(t0, name)
        });
        assert(t2.last() == table[1]);
        assert(last_leaf(t2, name) == if name == "tpfedit"@ {
            Some(Operation::SetProfile)
        } else {
            last_leaf(t1, name)
        });
        assert(t3.last() == table[2]);
        assert(last_leaf(t3, name) == if name == "tpfpedit"@ {
            Some(Operation::PfpEdit)
        } else {
            last_leaf(t2, name)
        });
        assert(t4.last() == table[3]);
        assert(last_leaf(t4, name) == if name == "compile"@ {
            Some(Operation::Compile)
        } else {
            last_leaf(t3, name)
        });
        assert(t5.last() == table[4]);
        assert(last_leaf(t5, name) == if name == "publish"@ {
            Some(Operation::Publish)
        } else {
            last_leaf(t4, name)
        });
        assert(t6.last() == table[5]);
        assert(last_leaf(t6, name) == if name == "publishes"@ {
            Some(Operation::Publishes)
        } else {
            last_leaf(t5, name)
        });
    }
}

} // verus!
