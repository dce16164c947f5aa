//! Lexical normalisation of slash-separated paths. Nothing here looks at
//! real storage.

use vstd::prelude::*;
use crate::text::{
    chars_of, lemma_split_append_piece, lemma_split_concat, lemma_split_pieces_clean, push_char,
    rows, split_on, text_of, texts,
};

verus! {

/// The token that stands for the root of the tree.
pub open spec fn root_token() -> Seq<char> {
    seq!['/']
}

/// The token that stands for the directory itself.
pub open spec fn current_token() -> Seq<char> {
    seq!['.']
}

/// The token that stands for the parent directory.
pub open spec fn parent_token() -> Seq<char> {
    seq!['.', '.']
}

/// Whether a path starts at the root.
pub open spec fn is_absolute(path: Seq<char>) -> bool {
    path.len() > 0 && path[0] == '/'
}

/// The tokens of a path: a root token if the path starts at the root, then
/// the pieces between slashes. Empty pieces are kept; they change nothing
/// when the tokens are applied.
pub open spec fn path_tokens(path: Seq<char>) -> Seq<Seq<char>> {
    if is_absolute(path) {
        seq![root_token()] + split_on(path, '/')
    } else {
        split_on(path, '/')
    }
}

/// The segment stack after one more token. The root token empties the
/// stack, an empty token and `.` leave it alone, `..` removes the last
/// segment if there is one, and any other token is pushed as it is.
pub open spec fn apply_token(stack: Seq<Seq<char>>, token: Seq<char>) -> Seq<Seq<char>> {
    if token == root_token() {
        Seq::empty()
    } else if token.len() == 0 || token == current_token() {
        stack
    } else if token == parent_token() {
        if stack.len() > 0 {
            stack.drop_last()
        } else {
            stack
        }
    } else {
        stack.push(token)
    }
}

/// The segment stack after all tokens, applied from left to right to an
/// empty stack.
pub open spec fn normalize(tokens: Seq<Seq<char>>) -> Seq<Seq<char>>
    decreases tokens.len(),
{
    if tokens.len() == 0 {
        Seq::empty()
    } else {
        apply_token(normalize(tokens.drop_last()), tokens.last())
    }
}

/// Every segment of the stack with a slash in front of it.
pub open spec fn slashed(stack: Seq<Seq<char>>) -> Seq<char>
    decreases stack.len(),
{
    if stack.len() == 0 {
        Seq::empty()
    } else {
        slashed(stack.drop_last()) + seq!['/'] + stack.last()
    }
}

/// The absolute path that a segment stack stands for: the root alone for
/// an empty stack, else the segments with a slash before each.
pub open spec fn render(stack: Seq<Seq<char>>) -> Seq<char> {
    if stack.len() == 0 {
        seq!['/']
    } else {
        slashed(stack)
    }
}

/// The normal form of a path: absolute, without `.`, `..` or empty
/// segments.
pub open spec fn resolved(path: Seq<char>) -> Seq<char> {
    render(normalize(path_tokens(path)))
}

/// `base` followed by `rel`. An absolute `rel` replaces `base`; otherwise
/// the two are put together with exactly one slash between them, unless
/// `base` is empty.
pub open spec fn joined(base: Seq<char>, rel: Seq<char>) -> Seq<char> {
    if is_absolute(rel) || base.len() == 0 {
        rel
    } else if base.last() == '/' {
        base + rel
    } else {
        base + seq!['/'] + rel
    }
}

/// Whether a token can be a piece of a path: it is the root token, or it
/// holds no slash.
pub open spec fn is_piece(token: Seq<char>) -> bool {
    token == root_token() || !token.contains('/')
}

/// A token that names a directory entry: not empty, no slash in it, and
/// neither `.` nor `..`.
pub open spec fn is_name(token: Seq<char>) -> bool {
    &&& token.len() > 0
    &&& !token.contains('/')
    &&& token != current_token()
    &&& token != parent_token()
}

/// Applying the tokens `b` after the tokens `a` is applying `b` to the
/// stack that `a` left.
pub open spec fn apply_all(stack: Seq<Seq<char>>, tokens: Seq<Seq<char>>) -> Seq<Seq<char>>
    decreases tokens.len(),
{
    if tokens.len() == 0 {
        stack
    } else {
        apply_token(apply_all(stack, tokens.drop_last()), tokens.last())
    }
}

/// A root token in front of a token list changes nothing: the stack is
/// empty there anyway.
pub proof fn lemma_leading_root(tokens: Seq<Seq<char>>)
    ensures
        normalize(seq![root_token()] + tokens) == normalize(tokens),
    decreases tokens.len(),
{
    let all = seq![root_token()] + tokens;
    if tokens.len() == 0 {
        assert(all.drop_last() == Seq::<Seq<char>>::empty());
        assert(normalize(all.drop_last()) == Seq::<Seq<char>>::empty());
    } else {
        lemma_leading_root(tokens.drop_last());
        assert(all.drop_last() == seq![root_token()] + tokens.drop_last());
        assert(all.last() == tokens.last());
    }
}

/// Writes a segment stack out as an absolute path.
fn render_stack(stack: &Vec<Vec<char>>) -> (out: String)
    ensures
        out@ == render(rows(stack@)),
{
    let mut out = String::new();
    if stack.len() == 0 {
        push_char(&mut out, '/');
        assert(out@ == seq!['/']);
        return out;
    }
    let mut i: usize = 0;
    assert(rows(stack@).take(0) == Seq::<Seq<char>>::empty());
    while i < stack.len()
        invariant
            i <= stack.len(),
            out@ == slashed(rows(stack@).take(i as int)),
        decreases stack.len() - i,
    {
        push_char(&mut out, '/');
        let seg = &stack[i];
        let ghost head = out@;
        let mut j: usize = 0;
        while j < seg.len()
            invariant
                j <= seg.len(),
                out@ == head + seg@.take(j as int),
            decreases seg.len() - j,
        {
            assert(seg@.take(j + 1) == seg@.take(j as int).push(seg@[j as int]));
            push_char(&mut out, seg[j]);
            j += 1;
        }
        proof {
            assert(seg@.take(seg.len() as int) == seg@);
            let upto = rows(stack@).take(i + 1);
            assert(upto.drop_last() == rows(stack@).take(i as int));
            assert(upto.last() == seg@);
        }
        i += 1;
    }
    assert(rows(stack@).take(stack.len() as int) == rows(stack@));
    out
}

/// Normalises a path without touching storage: `.` and empty segments are
/// dropped, `..` removes the segment before it (and does nothing at the
/// root), and the result always starts at the root.
pub fn resolve_path(path: &str) -> (out: String)
    ensures
        out@ == resolved(path@),
{
    let chars = chars_of(path);
    let mut stack: Vec<Vec<char>> = Vec::new();
    let mut cur: Vec<char> = Vec::new();
    let mut i: usize = 0;
    proof {
        assert(chars@.take(0) == Seq::<char>::empty());
        assert(split_on(chars@.take(0), '/').drop_last() == Seq::<Seq<char>>::empty());
        assert(rows(stack@) == Seq::<Seq<char>>::empty());
    }
    while i < chars.len()
        invariant
            i <= chars.len(),
            split_on(chars@.take(i as int), '/').len() >= 1,
            rows(stack@) == normalize(split_on(chars@.take(i as int), '/').drop_last()),
            cur@ == split_on(chars@.take(i as int), '/').last(),
        decreases chars.len() - i,
    {
        let c = chars[i];
        proof {
            let next = chars@.take(i + 1);
            assert(next.drop_last() == chars@.take(i as int));
            assert(next.last() == c);
            let before = split_on(chars@.take(i as int), '/');
            if c == '/' {
                assert(split_on(next, '/').drop_last() == before);
            } else {
                assert(split_on(next, '/').drop_last() == before.drop_last());
            }
        }
        if c == '/' {
            apply(&mut stack, cur);
            cur = Vec::new();
        } else {
            cur.push(c);
        }
        i += 1;
    }
    proof {
        assert(chars@.take(chars.len() as int) == chars@);
        if is_absolute(path@) {
            lemma_leading_root(split_on(path@, '/'));
        }
    }
    apply(&mut stack, cur);
    render_stack(&stack)
}

/// Applies one token to the segment stack.
fn apply(stack: &mut Vec<Vec<char>>, token: Vec<char>)
    ensures
        rows(final(stack)@) == apply_token(rows(old(stack)@), token@),
{
    if token.len() == 1 && token[0] == '/' {
        assert(token@ == root_token());
        stack.clear();
        assert(rows(stack@) == Seq::<Seq<char>>::empty());
    } else {
        assert(token@ != root_token()) by {
            if token@ == root_token() {
                assert(token@.len() == 1 && token@[0] == '/');
            }
        }
        let ghost before = rows(stack@);
        if token.len() == 0 {
        } else if token.len() == 1 && token[0] == '.' {
            assert(token@ == current_token());
        } else if token.len() == 2 && token[0] == '.' && token[1] == '.' {
            assert(token@ == parent_token());
            if stack.len() > 0 {
                stack.pop();
                assert(rows(stack@) == before.drop_last());
            }
        } else {
            assert(token@ != current_token()) by {
                if token@ == current_token() {
                    assert(token@.len() == 1 && token@[0] == '.');
                }
            }
            assert(token@ != parent_token()) by {
                if token@ == parent_token() {
                    assert(token@.len() == 2 && token@[0] == '.' && token@[1] == '.');
                }
            }
            stack.push(token);
            assert(rows(stack@) == before.push(token@));
        }
    }
}

/// Resolves a list of path tokens to the absolute path that they lead to
/// from the root. The token `/` goes back to the root, `.` and the empty
/// token stay, `..` goes up where there is a way up, and any other token
/// goes down into the segment of that name.
pub fn resolve_tokens(tokens: &Vec<String>) -> (out: String)
    ensures
        out@ == render(normalize(texts(tokens@))),
{
    let mut stack: Vec<Vec<char>> = Vec::new();
    let mut i: usize = 0;
    assert(texts(tokens@).take(0) == Seq::<Seq<char>>::empty());
    assert(rows(stack@) == Seq::<Seq<char>>::empty());
    while i < tokens.len()
        invariant
            i <= tokens.len(),
            rows(stack@) == normalize(texts(tokens@).take(i as int)),
        decreases tokens.len() - i,
    {
        proof {
            let upto = texts(tokens@).take(i + 1);
            assert(upto.drop_last() == texts(tokens@).take(i as int));
            assert(upto.last() == tokens@[i as int]@);
        }
        apply(&mut stack, chars_of(tokens[i].as_str()));
        i += 1;
    }
    assert(texts(tokens@).take(tokens.len() as int) == texts(tokens@));
    render_stack(&stack)
}

/// Whether a path starts at the root.
pub fn has_root(path: &str) -> (r: bool)
    ensures
        r == is_absolute(path@),
{
    let chars = chars_of(path);
    chars.len() > 0 && chars[0] == '/'
}

/// `base` followed by `rel`, as a path: an absolute `rel` stands alone.
pub fn join_path(base: &str, rel: &str) -> (out: String)
    ensures
        out@ == joined(base@, rel@),
{
    let b = chars_of(base);
    let r = chars_of(rel);
    if (r.len() > 0 && r[0] == '/') || b.len() == 0 {
        return text_of(&r);
    }
    let mut all = b;
    if all[all.len() - 1] != '/' {
        all.push('/');
    }
    let ghost head = all@;
    let mut j: usize = 0;
    while j < r.len()
        invariant
            j <= r.len(),
            all@ == head + r@.take(j as int),
        decreases r.len() - j,
    {
        assert(r@.take(j + 1) == r@.take(j as int).push(r@[j as int]));
        all.push(r[j]);
        j += 1;
    }
    assert(r@.take(r.len() as int) == r@);
    text_of(&all)
}

/// Names applied to a stack are pushed onto it, one after the other.
pub proof fn lemma_apply_names(stack: Seq<Seq<char>>, names: Seq<Seq<char>>)
    requires
        forall|i: int| 0 <= i < names.len() ==> is_name(#[trigger] names[i]),
    ensures
        apply_all(stack, names) == stack + names,
    decreases names.len(),
{
    if names.len() == 0 {
        assert(stack + names == stack);
    } else {
        lemma_apply_names(stack, names.drop_last());
        let last = names.last();
        assert(is_name(last));
        assert(last != root_token()) by {
            if last == root_token() {
                assert(last[0] == '/');
                assert(last.contains('/'));
            }
        }
        assert((stack + names.drop_last()).push(last) == stack + names);
    }
}

/// Applying `a` and then `b` to an empty stack is applying `b` to what `a`
/// left.
pub proof fn lemma_normalize_concat(a: Seq<Seq<char>>, b: Seq<Seq<char>>)
    ensures
        normalize(a + b) == apply_all(normalize(a), b),
    decreases b.len(),
{
    if b.len() == 0 {
        assert(a + b == a);
    } else {
        lemma_normalize_concat(a, b.drop_last());
        assert((a + b).drop_last() == a + b.drop_last());
        assert((a + b).last() == b.last());
    }
}

/// Whatever pieces come in, the stack holds names only.
pub proof fn lemma_normalize_gives_names(tokens: Seq<Seq<char>>)
    requires
        forall|i: int| 0 <= i < tokens.len() ==> is_piece(#[trigger] tokens[i]),
    ensures
        forall|j: int| 0 <= j < normalize(tokens).len() ==> is_name(#[trigger] normalize(tokens)[j]),
    decreases tokens.len(),
{
    if tokens.len() > 0 {
        let head = tokens.drop_last();
        assert forall|i: int| 0 <= i < head.len() implies is_piece(#[trigger] head[i]) by {
            assert(head[i] == tokens[i]);
        }
        lemma_normalize_gives_names(head);
        let last = tokens.last();
        let prev = normalize(head);
        let next = normalize(tokens);
        assert(last == tokens[tokens.len() - 1]);
        assert(next == apply_token(prev, last));
        assert forall|j: int| 0 <= j < next.len() implies is_name(#[trigger] next[j]) by {
            if last == root_token() {
            } else if last.len() == 0 || last == current_token() {
                assert(next[j] == prev[j]);
            } else if last == parent_token() {
                assert(next[j] == prev[j]);
            } else {
                if j < prev.len() {
                    assert(next[j] == prev[j]);
                } else {
                    assert(next[j] == last);
                }
            }
        }
    }
}

/// The tokens of any path are pieces.
pub proof fn lemma_path_tokens_clean(path: Seq<char>)
    ensures
        forall|i: int| 0 <= i < path_tokens(path).len() ==> is_piece(#[trigger] path_tokens(path)[i]),
{
    lemma_split_pieces_clean(path, '/');
    let pieces = split_on(path, '/');
    assert forall|i: int| 0 <= i < path_tokens(path).len() implies is_piece(#[trigger] path_tokens(path)[i]) by {
        if is_absolute(path) {
            if i > 0 {
                assert(path_tokens(path)[i] == pieces[i - 1]);
            }
        } else {
            assert(path_tokens(path)[i] == pieces[i]);
        }
    }
}

/// A stack of names, written out with a slash before each, splits back
/// into an empty piece and those names.
pub proof fn lemma_split_slashed(stack: Seq<Seq<char>>)
    requires
        forall|i: int| 0 <= i < stack.len() ==> is_name(#[trigger] stack[i]),
    ensures
        split_on(slashed(stack), '/') == seq![Seq::<char>::empty()] + stack,
        stack.len() > 0 ==> is_absolute(slashed(stack)),
    decreases stack.len(),
{
    if stack.len() == 0 {
        assert(seq![Seq::<char>::empty()] + stack == seq![Seq::<char>::empty()]);
    } else {
        let head = stack.drop_last();
        assert forall|i: int| 0 <= i < head.len() implies is_name(#[trigger] head[i]) by {
            assert(head[i] == stack[i]);
        }
        lemma_split_slashed(head);
        assert(is_name(stack.last()));
        lemma_split_append_piece(slashed(head), stack.last(), '/');
        assert((seq![Seq::<char>::empty()] + head).push(stack.last()) == seq![Seq::<char>::empty()] + stack);
        if head.len() == 0 {
            assert(slashed(head) == Seq::<char>::empty());
            assert(slashed(stack)[0] == '/');
        } else {
            assert(slashed(stack)[0] == slashed(head)[0]);
        }
    }
}

/// A resolved path starts at the root.
pub proof fn lemma_resolved_is_absolute(path: Seq<char>)
    ensures
        is_absolute(resolved(path)),
{
    let stack = normalize(path_tokens(path));
    lemma_path_tokens_clean(path);
    lemma_normalize_gives_names(path_tokens(path));
    if stack.len() > 0 {
        lemma_split_slashed(stack);
    }
}

/// A stack of names, written out as a path and read again, is the stack
/// that was written.
pub proof fn lemma_render_round_trip(stack: Seq<Seq<char>>)
    requires
        forall|i: int| 0 <= i < stack.len() ==> is_name(#[trigger] stack[i]),
    ensures
        is_absolute(render(stack)),
        normalize(path_tokens(render(stack))) == stack,
{
    let once = render(stack);
    let blank = seq![Seq::<char>::empty()];
    assert(normalize(blank) == Seq::<Seq<char>>::empty()) by {
        assert(blank.drop_last() == Seq::<Seq<char>>::empty());
        assert(normalize(blank.drop_last()) == Seq::<Seq<char>>::empty());
        assert(blank.last().len() == 0);
    }
    if stack.len() == 0 {
        let root = seq!['/'];
        assert(once == root);
        assert(root.drop_last() == Seq::<char>::empty());
        assert(split_on(root.drop_last(), '/') == blank);
        assert(split_on(root, '/') == blank.push(Seq::<char>::empty()));
        let two = blank.push(Seq::<char>::empty());
        assert(two.drop_last() == blank);
        assert(normalize(two) == Seq::<Seq<char>>::empty());
    } else {
        lemma_split_slashed(stack);
        lemma_normalize_concat(blank, stack);
        lemma_apply_names(Seq::<Seq<char>>::empty(), stack);
        assert(Seq::<Seq<char>>::empty() + stack == stack);
    }
    lemma_leading_root(split_on(once, '/'));
}

/// Resolving is idempotent: a resolved path resolves to itself.
pub proof fn lemma_resolve_idempotent(path: Seq<char>)
    ensures
        resolved(resolved(path)) == resolved(path),
{
    lemma_path_tokens_clean(path);
    lemma_normalize_gives_names(path_tokens(path));
    lemma_render_round_trip(normalize(path_tokens(path)));
}

/// Resolving is idempotent on tokens too: the path that a list of pieces
/// resolves to, taken apart again, resolves to the same path.
pub proof fn lemma_resolve_tokens_idempotent(tokens: Seq<Seq<char>>)
    requires
        forall|i: int| 0 <= i < tokens.len() ==> is_piece(#[trigger] tokens[i]),
    ensures
        render(normalize(path_tokens(render(normalize(tokens))))) == render(normalize(tokens)),
{
    lemma_normalize_gives_names(tokens);
    lemma_render_round_trip(normalize(tokens));
}

/// Going up from the root changes nothing: a parent token in front of a
/// token list can be left out.
pub proof fn lemma_leading_parent(tokens: Seq<Seq<char>>)
    ensures
        normalize(seq![parent_token()] + tokens) == normalize(tokens),
    decreases tokens.len(),
{
    let all = seq![parent_token()] + tokens;
    if tokens.len() == 0 {
        assert(all.drop_last() == Seq::<Seq<char>>::empty());
        assert(normalize(all.drop_last()) == Seq::<Seq<char>>::empty());
        assert(parent_token() != root_token()) by {
            assert(parent_token().len() == 2);
            assert(root_token().len() == 1);
        }
        assert(parent_token() != current_token()) by {
            assert(parent_token().len() == 2);
            assert(current_token().len() == 1);
        }
    } else {
        lemma_leading_parent(tokens.drop_last());
        assert(all.drop_last() == seq![parent_token()] + tokens.drop_last());
        assert(all.last() == tokens.last());
    }
}

/// Going into a directory and up again leads back: a name followed by a
/// parent token leaves the stack as it was.
pub proof fn lemma_name_then_parent(stack: Seq<Seq<char>>, name: Seq<char>)
    requires
        is_name(name),
    ensures
        apply_token(apply_token(stack, name), parent_token()) == stack,
{
    assert(name != root_token()) by {
        if name == root_token() {
            assert(name[0] == '/');
            assert(name.contains('/'));
        }
    }
    assert(parent_token() != root_token()) by {
        assert(parent_token().len() == 2);
        assert(root_token().len() == 1);
    }
    assert(parent_token() != current_token()) by {
        assert(parent_token().len() == 2);
        assert(current_token().len() == 1);
    }
    assert(stack.push(name).drop_last() == stack);
}

/// The stack never holds anything but names, so it never falls below the
/// root, whatever the path.
pub proof fn lemma_resolved_stack(path: Seq<char>)
    ensures
        forall|i: int|
            0 <= i < normalize(path_tokens(path)).len() ==> is_name(
                #[trigger] normalize(path_tokens(path))[i],
            ),
{
    lemma_path_tokens_clean(path);
    lemma_normalize_gives_names(path_tokens(path));
}

/// Applying tokens to the empty stack is normalising them.
pub proof fn lemma_apply_from_empty(tokens: Seq<Seq<char>>)
    ensures
        apply_all(Seq::empty(), tokens) == normalize(tokens),
    decreases tokens.len(),
{
    if tokens.len() > 0 {
        lemma_apply_from_empty(tokens.drop_last());
    }
}

/// Applying `a` and then `b` is applying `b` to what `a` left.
pub proof fn lemma_apply_concat(stack: Seq<Seq<char>>, a: Seq<Seq<char>>, b: Seq<Seq<char>>)
    ensures
        apply_all(stack, a + b) == apply_all(apply_all(stack, a), b),
    decreases b.len(),
{
    if b.len() == 0 {
        assert(a + b == a);
    } else {
        lemma_apply_concat(stack, a, b.drop_last());
        assert((a + b).drop_last() == a + b.drop_last());
        assert((a + b).last() == b.last());
    }
}

/// Moving from a base to a path, as `cd` does, is applying the tokens of
/// the path to the stack that the base stands for: a path from the root
/// empties the stack first, any other goes on from where the base ended.
pub proof fn lemma_join_resolves(base: Seq<char>, rel: Seq<char>)
    ensures
        normalize(path_tokens(joined(base, rel))) == apply_all(
            normalize(path_tokens(base)),
            path_tokens(rel),
        ),
{
    let stack = normalize(path_tokens(base));
    let blank = seq![Seq::<char>::empty()];
    let slash = seq!['/'];
    if is_absolute(rel) {
        let root = seq![root_token()];
        let pieces = split_on(rel, '/');
        lemma_apply_concat(stack, root, pieces);
        assert(apply_all(stack, root) == Seq::<Seq<char>>::empty()) by {
            assert(root.drop_last() == Seq::<Seq<char>>::empty());
            assert(apply_all(stack, root.drop_last()) == stack);
        }
        lemma_apply_from_empty(pieces);
        lemma_leading_root(pieces);
    } else if base.len() == 0 {
        assert(split_on(base, '/') == blank);
        assert(normalize(blank) == Seq::<Seq<char>>::empty()) by {
            assert(blank.drop_last() == Seq::<Seq<char>>::empty());
            assert(normalize(blank.drop_last()) == Seq::<Seq<char>>::empty());
        }
        lemma_apply_from_empty(path_tokens(rel));
    } else {
        let whole = joined(base, rel);
        assert(whole[0] == base[0]);
        if base.last() == '/' {
            let stem = base.drop_last();
            assert(base == stem + slash + Seq::<char>::empty());
            assert(whole == stem + slash + rel);
            lemma_split_concat(stem, Seq::<char>::empty(), '/');
            lemma_split_concat(stem, rel, '/');
            assert(split_on(Seq::<char>::empty(), '/') == blank);
            let front = if is_absolute(base) {
                seq![root_token()] + split_on(stem, '/')
            } else {
                split_on(stem, '/')
            };
            assert(path_tokens(base) == front + blank);
            assert(path_tokens(whole) == front + split_on(rel, '/'));
            lemma_normalize_concat(front, blank);
            assert(apply_all(normalize(front), blank) == normalize(front)) by {
                assert(blank.drop_last() == Seq::<Seq<char>>::empty());
                assert(apply_all(normalize(front), blank.drop_last()) == normalize(front));
                assert(blank.last().len() == 0);
                assert(blank.last() != root_token()) by {
                    assert(root_token().len() == 1);
                }
            }
            lemma_normalize_concat(front, split_on(rel, '/'));
        } else {
            assert(whole == base + slash + rel);
            lemma_split_concat(base, rel, '/');
            assert(path_tokens(whole) == path_tokens(base) + split_on(rel, '/'));
            lemma_normalize_concat(path_tokens(base), split_on(rel, '/'));
        }
    }
}

} // verus!
