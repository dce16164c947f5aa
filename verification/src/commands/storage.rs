//! The commands on the user's remote files.

use vstd::prelude::*;
use crate::command::last_leaf;
use crate::commands::Operation;
use crate::text::same_text;

verus! {

/// The operation that a name of this group stands for.
pub open spec fn named(name: Seq<char>) -> Option<Operation> {
    if name == "fs"@ {
        Some(Operation::Fs)
    } else if name == "vis"@ {
        Some(Operation::Vis)
    } else if name == "touch"@ {
        Some(Operation::Touch)
    } else if name == "rm"@ {
        Some(Operation::Rm)
    } else if name == "mkdir"@ {
        Some(Operation::Mkdir)
    } else if name == "mv"@ {
        Some(Operation::Mv)
    } else if name == "cp"@ {
        Some(Operation::Cp)
    } else if name == "upload"@ {
        Some(Operation::Upload)
    } else if name == "cat"@ {
        Some(Operation::Cat)
    } else if name == "ls"@ {
        Some(Operation::Ls)
    } else {
        None
    }
}

/// The operation that a name of this group stands for.
pub fn lookup(name: &str) -> (r: Option<Operation>)
    ensures
        r == named(name@),
{
    if same_text(name, "fs") {
        Some(Operation::Fs)
    } else if same_text(name, "vis") {
        Some(Operation::Vis)
    } else if same_text(name, "touch") {
        Some(Operation::Touch)
    } else if same_text(name, "rm") {
        Some(Operation::Rm)
    } else if same_text(name, "mkdir") {
        Some(Operation::Mkdir)
    } else if same_text(name, "mv") {
        Some(Operation::Mv)
    } else if same_text(name, "cp") {
        Some(Operation::Cp)
    } else if same_text(name, "upload") {
        Some(Operation::Upload)
    } else if same_text(name, "cat") {
        Some(Operation::Cat)
    } else if same_text(name, "ls") {
        Some(Operation::Ls)
    } else {
        None
    }
}

/// The commands of this group, each with its name.
pub fn commands() -> (table: Vec<(String, Operation)>)
    ensures
        forall|name: Seq<char>| last_leaf(table@, name) == named(name),
{
    let mut table: Vec<(String, Operation)> = Vec::new();
    table.push((String::from_str("ls"), Operation::Ls));
    table.push((String::from_str("cat"), Operation::Cat));
    table.push((String::from_str("upload"), Operation::Upload));
    table.push((String::from_str("cp"), Operation::Cp));
    table.push((String::from_str("mv"), Operation::Mv));
    table.push((String::from_str("mkdir"), Operation::Mkdir));
    table.push((String::from_str("rm"), Operation::Rm));
    table.push((String::from_str("touch"), Operation::Touch));
    table.push((String::from_str("vis"), Operation::Vis));
    table.push((String::from_str("fs"), Operation::Fs));
    proof {
        lemma_table(table@);
    }
    table
}

/// A table that lists the commands of this group in their order finds
/// each under its name.
proof fn lemma_table(table: Seq<(String, Operation)>)
    requires
        table.len() == 10,
        table[0].0@ == "ls"@ && table[0].1 == Operation::Ls,
        table[1].0@ == "cat"@ && table[1].1 == Operation::Cat,
        table[2].0@ == "upload"@ && table[2].1 == Operation::Upload,
        table[3].0@ == "cp"@ && table[3].1 == Operation::Cp,
        table[4].0@ == "mv"@ && table[4].1 == Operation::Mv,
        table[5].0@ == "mkdir"@ && table[5].1 == Operation::Mkdir,
        table[6].0@ == "rm"@ && table[6].1 == Operation::Rm,
        table[7].0@ == "touch"@ && table[7].1 == Operation::Touch,
        table[8].0@ == "vis"@ && table[8].1 == Operation::Vis,
        table[9].0@ == "fs"@ && table[9].1 == Operation::Fs,
    ensures
        forall|name: Seq<char>| last_leaf(table, name) == named(name),
{
    let t10 = table;
    let t9 = t10.drop_last();
    let t8 = t9.drop_last();
    let t7 = t8.drop_last();
    let t6 = t7.drop_last();
    let t5 = t6.drop_last();
    let t4 = t5.drop_last();
    let t3 = t4.drop_last();
    let t2 = t3.drop_last();
    let t1 = t2.drop_last();
    let t0 = t1.drop_last();
    assert forall|name: Seq<char>| last_leaf(table, name) == named(name) by {
        assert(last_leaf(t0, name) == None::<Operation>);
        assert(t1.last() == table[0]);
        assert(last_leaf(t1, name) == if name == "ls"@ {
            Some(Operation::Ls)
        } else {
            last_leaf(t0, name)
        });
        assert(t2.last() == table[1]);
        assert(last_leaf(t2, name) == if name == "cat"@ {
            Some(Operation::Cat)
        } else {
            last_leaf(t1, name)
        });
        assert(t3.last() == table[2]);
        assert(last_leaf(t3, name) == if name == "upload"@ {
            Some(Operation::Upload)
        } else {
            last_leaf(t2, name)
        });
        assert(t4.last() == table[3]);
        assert(last_leaf(t4, name) == if name == "cp"@ {
            Some(Operation::Cp)
        } else {
            last_leaf(t3, name)
        });
        assert(t5.last() == table[4]);
        assert(last_leaf(t5, name) == if name == "mv"@ {
            Some(Operation::Mv)
        } else {
            last_leaf(t4, name)
        });
        assert(t6.last() == table[5]);
        assert(last_leaf(t6, name) == if name == "mkdir"@ {
            Some(Operation::Mkdir)
        } else {
            last_leaf(t5, name)
        });
        assert(t7.last() == table[6]);
        assert(last_leaf(t7, name) == if name == "rm"@ {
            Some(Operation::Rm)
        } else {
            last_leaf(t6, name)
        });
        assert(t8.last() == table[7]);
        assert(last_leaf(t8, name) == if name == "touch"@ {
            Some(Operation::Touch)
        } else {
            last_leaf(t7, name)
        });
        assert(t9.last() == table[8]);
        assert(last_leaf(t9, name) == if name == "vis"@ {
            Some(Operation::Vis)
        } else {
            last_leaf(t8, name)
        });
        assert(t10.last() == table[9]);
        assert(last_leaf(t10, name) == if name == "fs"@ {
            Some(Operation::Fs)
        } else {
            last_leaf(t9, name)
        });
    }
}

} // verus!
