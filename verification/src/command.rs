//! The command tree: a leaf that can be invoked, or a category of named
//! commands.

use vstd::prelude::*;
use crate::error::Error;
use crate::params::ParameterMap;
use crate::text::{chars_of, same_chars};

verus! {

/// A node of the command tree. `H` is what a leaf holds: the handler that
/// is invoked, or a value that stands for it.
pub enum Command<H> {
    /// A leaf: a command that can be invoked.
    Command(H),
    /// A category: commands and categories by name.
    Category(Vec<(String, Command<H>)>),
}

/// What became of a run of the tree.
pub enum Outcome {
    /// The tokens lead to no leaf.
    NotFound,
    /// A leaf was invoked and finished with a message.
    Finished(String),
    /// A leaf was invoked and failed.
    Failed(Error),
}

/// The leaf that the tokens lead to among the given children, with the
/// tokens that are left for it.
pub open spec fn route_among<H>(children: Seq<(String, Command<H>)>, args: Seq<String>) -> Option<
    (H, Seq<String>),
>
    decreases children,
{
    if children.len() == 0 || args.len() == 0 {
        None
    } else if children[0].0@ == args[0]@ {
        children[0].1.route(args.skip(1))
    } else {
        route_among(children.drop_first(), args)
    }
}

impl<H> Command<H> {
    /// The leaf that the tokens lead to from this node, with the tokens
    /// that are left for it. A leaf is reached with all tokens left; a
    /// category consumes its first token, which must name one of its
    /// children.
    pub open spec fn route(&self, args: Seq<String>) -> Option<(H, Seq<String>)>
        decreases self,
    {
        match self {
            Command::Command(h) => Some((*h, args)),
            Command::Category(children) => route_among(children@, args),
        }
    }
}

/// The child with the given name: the first one, should the name occur
/// more than once.
pub open spec fn child_of<H>(children: Seq<(String, Command<H>)>, name: Seq<char>) -> Option<
    Command<H>,
>
    decreases children.len(),
{
    if children.len() == 0 {
        None
    } else if children[0].0@ == name {
        Some(children[0].1)
    } else {
        child_of(children.drop_first(), name)
    }
}

/// No name occurs twice among the children.
pub open spec fn names_distinct<H>(children: Seq<(String, Command<H>)>) -> bool {
    forall|i: int, j: int| 0 <= i < j < children.len() ==> children[i].0@ != children[j].0@
}

/// Whether some child has the given name.
pub open spec fn has_child<H>(children: Seq<(String, Command<H>)>, name: Seq<char>) -> bool {
    exists|i: int| 0 <= i < children.len() && (#[trigger] children[i]).0@ == name
}

/// A child that is looked up by name is found exactly if some child has
/// that name.
pub proof fn lemma_child_found<H>(children: Seq<(String, Command<H>)>, name: Seq<char>)
    ensures
        child_of(children, name) is Some <==> has_child(children, name),
    decreases children.len(),
{
    if children.len() > 0 {
        let rest = children.drop_first();
        lemma_child_found(rest, name);
        if children[0].0@ == name {
            assert(has_child(children, name));
        } else {
            if has_child(rest, name) {
                let i = choose|i: int| 0 <= i < rest.len() && (#[trigger] rest[i]).0@ == name;
                assert(children[i + 1] == rest[i]);
            }
            if has_child(children, name) {
                let i = choose|i: int| 0 <= i < children.len() && (#[trigger] children[i]).0@ == name;
                assert(rest[i - 1] == children[i]);
            }
        }
    }
}

/// Among children with distinct names, the child at a position is the one
/// found under its name.
pub proof fn lemma_child_at<H>(children: Seq<(String, Command<H>)>, i: int)
    requires
        names_distinct(children),
        0 <= i < children.len(),
    ensures
        child_of(children, children[i].0@) == Some(children[i].1),
    decreases children.len(),
{
    if i > 0 {
        let rest = children.drop_first();
        assert(children[0].0@ != children[i].0@);
        assert forall|a: int, b: int| 0 <= a < b < rest.len() implies rest[a].0@ != rest[b].0@ by {
            assert(rest[a] == children[a + 1] && rest[b] == children[b + 1]);
        }
        lemma_child_at(rest, i - 1);
        assert(rest[i - 1] == children[i]);
    }
}

/// Routing through a category is looking up the first token among the
/// children and routing the other tokens from there.
pub proof fn lemma_route_among<H>(children: Seq<(String, Command<H>)>, args: Seq<String>)
    ensures
        route_among(children, args) == if args.len() == 0 {
            None
        } else {
            match child_of(children, args[0]@) {
                None => None,
                Some(child) => child.route(args.skip(1)),
            }
        },
    decreases children.len(),
{
    if children.len() > 0 && args.len() > 0 && children[0].0@ != args[0]@ {
        lemma_route_among(children.drop_first(), args);
    }
}

/// A handler accepts the parameters with every list that holds the given
/// tokens.
pub open spec fn leaf_accepts<H: Fn(ParameterMap, Vec<String>) -> Result<String, Error>>(
    handler: H,
    map: ParameterMap,
    rest: Seq<String>,
) -> bool {
    forall|v: Vec<String>| v@ == rest ==> call_requires(handler, (map, v))
}

/// The handler, invoked with the parameters and a list that holds the
/// given tokens, may return `r`.
pub open spec fn leaf_returns<H: Fn(ParameterMap, Vec<String>) -> Result<String, Error>>(
    handler: H,
    map: ParameterMap,
    rest: Seq<String>,
    r: Result<String, Error>,
) -> bool {
    exists|v: Vec<String>| v@ == rest && call_ensures(handler, (map, v), r)
}

impl<H> Command<H> {
    /// Names are distinct in every category of the tree.
    pub open spec fn wf(&self) -> bool
        decreases self,
    {
        match self {
            Command::Command(_) => true,
            Command::Category(children) => {
                &&& names_distinct(children@)
                &&& forall|i: int| 0 <= i < children@.len() ==> (#[trigger] children@[i]).1.wf()
            },
        }
    }

    /// A leaf that holds `handler`.
    pub fn leaf(handler: H) -> (c: Command<H>)
        ensures
            c == Command::Command(handler),
            c.wf(),
    {
        Command::Command(handler)
    }

    /// The leaf that the tokens lead to, with the tokens that are left for
    /// it; `None` where the tokens end at a category or name no child.
    #[verifier::loop_isolation(false)]
    pub fn find(&self, args: Vec<String>) -> (r: Option<(&H, Vec<String>)>)
        ensures
            match self.route(args@) {
                None => r is None,
                Some((handler, rest)) => r matches Some((found, left)) && *found == handler
                    && left@ == rest,
            },
        decreases self,
    {
        match self {
            Command::Command(handler) => Some((handler, args)),
            Command::Category(children) => {
                if args.len() == 0 {
                    return None;
                }
                let name = chars_of(args[0].as_str());
                let mut i: usize = 0;
                assert(children@.skip(0) == children@);
                while i < children.len()
                    invariant
                        i <= children.len(),
                        args.len() > 0,
                        name@ == args@[0]@,
                        route_among(children@, args@) == route_among(children@.skip(i as int), args@),
                    decreases children.len() - i,
                {
                    let ghost tail = children@.skip(i as int);
                    assert(tail[0] == children@[i as int]);
                    assert(tail.drop_first() == children@.skip(i + 1));
                    let here = chars_of(children[i].0.as_str());
                    if same_chars(&here, &name) {
                        let mut rest = args;
                        rest.remove(0);
                        assert(rest@ == args@.skip(1));
                        proof {
                            assert(decreases_to!(self => children));
                            assert(decreases_to!(children => children@));
                            assert(decreases_to!(children@ => children@[i as int]));
                            assert(decreases_to!(children@[i as int] => children@[i as int].1));
                        }
                        return children[i].1.find(rest);
                    }
                    i += 1;
                }
                None
            },
        }
    }

    /// Runs the tree on a token list: descends through the categories that
    /// the leading tokens name and invokes the leaf that is reached with
    /// the parameters and the tokens that are left. Tokens that end at a
    /// category, or name no child of it, are reported as not found.
    pub fn run(&self, map: ParameterMap, args: Vec<String>) -> (out: Outcome) where
        H: Fn(ParameterMap, Vec<String>) -> Result<String, Error>,

        requires
            self.route(args@) matches Some((handler, rest)) ==> leaf_accepts(handler, map, rest),
        ensures
            match self.route(args@) {
                None => out is NotFound,
                Some((handler, rest)) => match out {
                    Outcome::NotFound => false,
                    Outcome::Finished(msg) => leaf_returns(handler, map, rest, Ok(msg)),
                    Outcome::Failed(e) => leaf_returns(handler, map, rest, Err(e)),
                },
            },
    {
        match self.find(args) {
            None => Outcome::NotFound,
            Some((handler, left)) => {
                match handler(map, left) {
                    Ok(msg) => Outcome::Finished(msg),
                    Err(e) => Outcome::Failed(e),
                }
            },
        }
    }
}

/// Every child is a well-formed tree.
pub open spec fn all_wf<H>(children: Seq<(String, Command<H>)>) -> bool {
    forall|i: int| 0 <= i < children.len() ==> (#[trigger] children[i]).1.wf()
}

/// Looking a name up after one more child was added at the end: an earlier
/// child with that name is still the one found.
pub proof fn lemma_child_of_push<H>(
    children: Seq<(String, Command<H>)>,
    entry: (String, Command<H>),
    name: Seq<char>,
)
    ensures
        child_of(children.push(entry), name) == match child_of(children, name) {
            Some(child) => Some(child),
            None => if entry.0@ == name {
                Some(entry.1)
            } else {
                None
            },
        },
    decreases children.len(),
{
    let grown = children.push(entry);
    if children.len() == 0 {
        assert(grown.drop_first() == children);
    } else {
        assert(grown.drop_first() == children.drop_first().push(entry));
        if children[0].0@ != name {
            lemma_child_of_push(children.drop_first(), entry, name);
        }
    }
}

/// Stores `node` under `name` among children with distinct names, in place
/// of the child that had the name, if there was one.
fn put<H>(map: &mut Vec<(String, Command<H>)>, name: String, node: Command<H>)
    requires
        names_distinct(old(map)@),
    ensures
        names_distinct(final(map)@),
        forall|q: Seq<char>|
            child_of(final(map)@, q) == if q == name@ {
                Some(node)
            } else {
                child_of(old(map)@, q)
            },
        all_wf(old(map)@) && node.wf() ==> all_wf(final(map)@),
{
    let ghost before = map@;
    let wanted = chars_of(name.as_str());
    let mut i: usize = 0;
    while i < map.len()
        invariant
            i <= map.len(),
            map@ == before,
            wanted@ == name@,
            forall|k: int| 0 <= k < i ==> (#[trigger] before[k]).0@ != name@,
        ensures
            i < map.len() ==> before[i as int].0@ == name@,
        decreases map.len() - i,
    {
        let here = chars_of(map[i].0.as_str());
        if same_chars(&here, &wanted) {
            break;
        }
        i += 1;
    }
    let ghost entry = (name, node);
    if i < map.len() {
        map.set(i, (name, node));
    } else {
        map.push((name, node));
    }
    proof {
        let after = map@;
        let at = i as int;
        assert(after[at] == entry);
        assert forall|a: int, b: int| 0 <= a < b < after.len() implies after[a].0@ != after[b].0@ by {
            if at < before.len() {
                assert(after[a].0@ == before[a].0@);
                assert(after[b].0@ == before[b].0@);
            } else {
                if b < before.len() {
                    assert(after[a] == before[a] && after[b] == before[b]);
                } else {
                    assert(after[a] == before[a]);
                }
            }
        }
        assert forall|q: Seq<char>|
            child_of(after, q) == if q == name@ {
                Some(node)
            } else {
                child_of(before, q)
            } by {
            if q == name@ {
                lemma_child_at(after, at);
            } else {
                lemma_child_found(before, q);
                lemma_child_found(after, q);
                if has_child(before, q) {
                    let j = choose|j: int| 0 <= j < before.len() && (#[trigger] before[j]).0@ == q;
                    assert(after[j] == before[j]);
                    lemma_child_at(before, j);
                    lemma_child_at(after, j);
                } else if has_child(after, q) {
                    let j = choose|j: int| 0 <= j < after.len() && (#[trigger] after[j]).0@ == q;
                    assert(j != at);
                    assert(after[j] == before[j]);
                }
            }
        }
        if all_wf(before) && node.wf() {
            assert forall|j: int| 0 <= j < after.len() implies (#[trigger] after[j]).1.wf() by {
                if j != at {
                    assert(after[j] == before[j]);
                }
            }
        }
    }
}

impl<H> Command<H> {
    /// A category with the given commands, each a leaf. Where a name is
    /// given more than once, the last one stays.
    pub fn from_leaves(leaves: Vec<(String, H)>) -> (c: Command<H>)
        ensures
            c is Category,
            c.wf(),
            forall|q: Seq<char>|
                child_of(c->Category_0@, q) == match last_leaf(leaves@, q) {
                    Some(handler) => Some(Command::Command(handler)),
                    None => None,
                },
    {
        let ghost all = leaves@;
        let mut leaves = leaves;
        let mut map: Vec<(String, Command<H>)> = Vec::new();
        let ghost mut done: int = 0;
        assert(all.take(0) == Seq::<(String, H)>::empty());
        while leaves.len() > 0
            invariant
                0 <= done <= all.len(),
                leaves@ == all.skip(done),
                names_distinct(map@),
                all_wf(map@),
                forall|q: Seq<char>|
                    child_of(map@, q) == match last_leaf(all.take(done), q) {
                        Some(handler) => Some(Command::Command(handler)),
                        None => None,
                    },
            decreases leaves.len(),
        {
            let entry = leaves.remove(0);
            proof {
                assert(entry == all[done]);
                assert(all.take(done + 1).drop_last() == all.take(done));
                assert(all.take(done + 1).last() == all[done]);
                assert(leaves@ == all.skip(done + 1));
                done = done + 1;
            }
            put(&mut map, entry.0, Command::Command(entry.1));
        }
        assert(all.take(all.len() as int) == all);
        Command::Category(map)
    }

    /// A category with the given children.
    pub fn category(children: Vec<(String, Command<H>)>) -> (c: Command<H>)
        requires
            names_distinct(children@),
        ensures
            c == Command::Category(children),
            all_wf(children@) ==> c.wf(),
    {
        Command::Category(children)
    }

    /// Moves the children of this category into `map`. A child replaces
    /// one that `map` held under the same name. A leaf has no children to
    /// move and is not accepted.
    pub fn extend_map(self, map: &mut Vec<(String, Command<H>)>)
        requires
            self is Category,
            names_distinct(old(map)@),
            names_distinct(self->Category_0@),
        ensures
            names_distinct(final(map)@),
            forall|q: Seq<char>|
                child_of(final(map)@, q) == match child_of(self->Category_0@, q) {
                    Some(child) => Some(child),
                    None => child_of(old(map)@, q),
                },
            all_wf(old(map)@) && self.wf() ==> all_wf(final(map)@),
    {
        let ghost seed = map@;
        match self {
            Command::Command(_) => {},
            Command::Category(children) => {
                let ghost all = children@;
                let mut children = children;
                let ghost mut done: int = 0;
                assert(all.take(0) == Seq::<(String, Command<H>)>::empty());
                while children.len() > 0
                    invariant
                        0 <= done <= all.len(),
                        children@ == all.skip(done),
                        names_distinct(all),
                        names_distinct(map@),
                        forall|q: Seq<char>|
                            child_of(map@, q) == match child_of(all.take(done), q) {
                                Some(child) => Some(child),
                                None => child_of(seed, q),
                            },
                        all_wf(seed) && all_wf(all) ==> all_wf(map@),
                    decreases children.len(),
                {
                    let entry = children.remove(0);
                    proof {
                        assert(entry == all[done]);
                        assert(all.take(done + 1) == all.take(done).push(entry));
                        assert(children@ == all.skip(done + 1));
                        assert forall|q: Seq<char>|
                            child_of(all.take(done + 1), q) == if q == entry.0@ {
                                Some(entry.1)
                            } else {
                                child_of(all.take(done), q)
                            } by {
                            lemma_child_of_push(all.take(done), entry, q);
                            if q == entry.0@ {
                                lemma_child_found(all.take(done), q);
                                if has_child(all.take(done), q) {
                                    let j = choose|j: int|
                                        0 <= j < all.take(done).len() && (#[trigger] all.take(
                                            done,
                                        )[j]).0@ == q;
                                    assert(all[j].0@ != all[done].0@);
                                }
                            }
                        }
                        done = done + 1;
                    }
                    put(map, entry.0, entry.1);
                }
                assert(all.take(all.len() as int) == all);
            },
        }
    }
}

/// The handler of the last leaf with the given name.
pub open spec fn last_leaf<H>(leaves: Seq<(String, H)>, name: Seq<char>) -> Option<H>
    decreases leaves.len(),
{
    if leaves.len() == 0 {
        None
    } else if leaves.last().0@ == name {
        Some(leaves.last().1)
    } else {
        last_leaf(leaves.drop_last(), name)
    }
}

} // verus!
