//! The argument grammar: long flags with optional values, and positional
//! values bound to named parameters.

use vstd::prelude::*;
use crate::error::Error;
use crate::params::ParameterMap;
use crate::text::{chars_of, same_chars, text_of, texts};

verus! {

/// Whether a token starts with the long-flag marker `--`.
pub open spec fn is_flag(token: Seq<char>) -> bool {
    token.len() >= 2 && token[0] == '-' && token[1] == '-'
}

/// The name of a flag token: what follows the marker.
pub open spec fn flag_name(token: Seq<char>) -> Seq<char> {
    token.skip(2)
}

/// The value of the flag at position `i`: the next token if there is one
/// and it is no flag itself, else the empty text.
pub open spec fn flag_value(tokens: Seq<Seq<char>>, i: int) -> Seq<char> {
    if i + 1 < tokens.len() && !is_flag(tokens[i + 1]) {
        tokens[i + 1]
    } else {
        Seq::empty()
    }
}

/// Whether the token at position `i` stays among the positional values: it
/// is no flag, and it is not the value of a flag just before it.
pub open spec fn is_positional(tokens: Seq<Seq<char>>, i: int) -> bool {
    !is_flag(tokens[i]) && !(i > 0 && is_flag(tokens[i - 1]))
}

/// The flags among the first `n` tokens, each with its value. Where a name
/// occurs twice, the later flag is the one shown.
pub open spec fn flags_upto(tokens: Seq<Seq<char>>, n: int) -> Map<Seq<char>, Seq<char>>
    decreases n,
{
    if n <= 0 {
        Map::empty()
    } else if is_flag(tokens[n - 1]) {
        flags_upto(tokens, n - 1).insert(flag_name(tokens[n - 1]), flag_value(tokens, n - 1))
    } else {
        flags_upto(tokens, n - 1)
    }
}

/// The positional values among the first `n` tokens, in their order.
pub open spec fn positional_upto(tokens: Seq<Seq<char>>, n: int) -> Seq<Seq<char>>
    decreases n,
{
    if n <= 0 {
        Seq::empty()
    } else if is_positional(tokens, n - 1) {
        positional_upto(tokens, n - 1).push(tokens[n - 1])
    } else {
        positional_upto(tokens, n - 1)
    }
}

/// All flags of a token list, each with its value.
pub open spec fn flags_of(tokens: Seq<Seq<char>>) -> Map<Seq<char>, Seq<char>> {
    flags_upto(tokens, tokens.len() as int)
}

/// All positional values of a token list, in their order.
pub open spec fn positional_of(tokens: Seq<Seq<char>>) -> Seq<Seq<char>> {
    positional_upto(tokens, tokens.len() as int)
}

/// No flag name is given twice.
pub open spec fn flags_distinct(tokens: Seq<Seq<char>>) -> bool {
    forall|i: int, j: int|
        0 <= i < j < tokens.len() && is_flag(tokens[i]) && is_flag(tokens[j]) ==> flag_name(
            tokens[i],
        ) != flag_name(tokens[j])
}

/// Whether the characters start with the long-flag marker.
fn starts_flag(chars: &Vec<char>) -> (r: bool)
    ensures
        r == is_flag(chars@),
{
    chars.len() >= 2 && chars[0] == '-' && chars[1] == '-'
}

/// The name of a flag, given the characters of its token.
fn name_of_flag(chars: &Vec<char>) -> (name: Vec<char>)
    requires
        is_flag(chars@),
    ensures
        name@ == flag_name(chars@),
{
    let mut name: Vec<char> = Vec::new();
    let mut k: usize = 2;
    while k < chars.len()
        invariant
            2 <= k <= chars.len(),
            name@ == chars@.subrange(2, k as int),
        decreases chars.len() - k,
    {
        assert(chars@.subrange(2, k + 1) == chars@.subrange(2, k as int).push(chars@[k as int]));
        name.push(chars[k]);
        k += 1;
    }
    assert(chars@.subrange(2, chars.len() as int) == chars@.skip(2));
    name
}

/// Whether the flag at position `j` repeats the name of an earlier flag,
/// and no flag before it does so.
pub open spec fn first_repeat(tokens: Seq<Seq<char>>, j: int) -> bool {
    &&& 0 <= j < tokens.len()
    &&& is_flag(tokens[j])
    &&& exists|i: int|
        0 <= i < j && is_flag(#[trigger] tokens[i]) && flag_name(tokens[i]) == flag_name(tokens[j])
    &&& flags_distinct(tokens.take(j))
}

/// The name of the first flag that repeats the name of an earlier one, if
/// a flag does so.
pub fn duplicate_flag(tokens: &Vec<String>) -> (r: Option<String>)
    ensures
        r is None <==> flags_distinct(texts(tokens@)),
        r matches Some(name) ==> exists|j: int|
            first_repeat(texts(tokens@), j) && flag_name(#[trigger] texts(tokens@)[j]) == name@,
{
    let ghost toks = texts(tokens@);
    let mut j: usize = 0;
    while j < tokens.len()
        invariant
            j <= tokens.len(),
            toks == texts(tokens@),
            forall|a: int, b: int|
                0 <= a < b < j && is_flag(toks[a]) && is_flag(toks[b]) ==> flag_name(toks[a])
                    != flag_name(toks[b]),
        decreases tokens.len() - j,
    {
        let later = chars_of(tokens[j].as_str());
        if starts_flag(&later) {
            let name = name_of_flag(&later);
            let mut i: usize = 0;
            while i < j
                invariant
                    i <= j < tokens.len(),
                    toks == texts(tokens@),
                    later@ == toks[j as int],
                    is_flag(later@),
                    name@ == flag_name(later@),
                    forall|a: int|
                        0 <= a < i && is_flag(toks[a]) ==> flag_name(toks[a]) != flag_name(
                            toks[j as int],
                        ),
                    forall|a: int, b: int|
                        0 <= a < b < j && is_flag(toks[a]) && is_flag(toks[b]) ==> flag_name(
                            toks[a],
                        ) != flag_name(toks[b]),
                decreases j - i,
            {
                let earlier = chars_of(tokens[i].as_str());
                if starts_flag(&earlier) {
                    let other = name_of_flag(&earlier);
                    if same_chars(&other, &name) {
                        let out = text_of(&name);
                        proof {
                            assert(is_flag(toks[i as int]) && is_flag(toks[j as int]));
                            let head = toks.take(j as int);
                            assert forall|a: int, b: int|
                                0 <= a < b < head.len() && is_flag(head[a]) && is_flag(
                                    head[b],
                                ) implies flag_name(head[a]) != flag_name(head[b]) by {
                                assert(head[a] == toks[a] && head[b] == toks[b]);
                            }
                            assert(first_repeat(toks, j as int));
                        }
                        return Some(out);
                    }
                }
                i += 1;
            }
        }
        j += 1;
    }
    None
}

/// Takes the long flags out of a token list and stores them in the map.
///
/// A token that starts with `--` is a flag named by the rest of the token.
/// If the next token exists and is no flag, it is the flag's value and
/// leaves the list with it; otherwise the value is empty. The other tokens
/// stay, in their order. A flag overrides a value that the map held for
/// its name. The same flag given twice is not accepted.
pub fn args_parse(cmd_args: &mut Vec<String>, map: &mut ParameterMap)
    requires
        flags_distinct(texts(old(cmd_args)@)),
    ensures
        texts(final(cmd_args)@) == positional_of(texts(old(cmd_args)@)),
        final(map)@ == old(map)@.union_prefer_right(flags_of(texts(old(cmd_args)@))),
{
    let ghost toks = texts(cmd_args@);
    let ghost seed = map@;
    let mut kept: Vec<String> = Vec::new();
    let mut after_flag = false;
    let mut i: usize = 0;
    assert(map@ =~= seed.union_prefer_right(flags_upto(toks, 0)));
    assert(texts(kept@) == positional_upto(toks, 0));
    while i < cmd_args.len()
        invariant
            i <= cmd_args.len(),
            toks == texts(cmd_args@),
            after_flag == (i > 0 && is_flag(toks[i - 1])),
            texts(kept@) == positional_upto(toks, i as int),
            map@ == seed.union_prefer_right(flags_upto(toks, i as int)),
        decreases cmd_args.len() - i,
    {
        let chars = chars_of(cmd_args[i].as_str());
        assert(chars@ == toks[i as int]);
        if starts_flag(&chars) {
            let name = text_of(&name_of_flag(&chars));
            let mut value = String::new();
            if i + 1 < cmd_args.len() {
                let next = chars_of(cmd_args[i + 1].as_str());
                assert(next@ == toks[i + 1]);
                if !starts_flag(&next) {
                    value = cmd_args[i + 1].clone();
                }
            }
            assert(value@ == flag_value(toks, i as int));
            map.insert(name, value);
            assert(map@ =~= seed.union_prefer_right(flags_upto(toks, i + 1)));
            after_flag = true;
        } else {
            if !after_flag {
                let ghost before = texts(kept@);
                let token = cmd_args[i].clone();
                kept.push(token);
                assert(texts(kept@) == before.push(toks[i as int]));
            }
            after_flag = false;
        }
        i += 1;
    }
    *cmd_args = kept;
}

/// The map after the first `n` values are stored, each under the key at
/// its position.
pub open spec fn bound_upto(
    map: Map<Seq<char>, Seq<char>>,
    keys: Seq<Seq<char>>,
    values: Seq<Seq<char>>,
    n: int,
) -> Map<Seq<char>, Seq<char>>
    decreases n,
{
    if n <= 0 {
        map
    } else {
        bound_upto(map, keys, values, n - 1).insert(keys[n - 1], values[n - 1])
    }
}

/// The characters of each name of a list.
pub open spec fn names(keys: Seq<&str>) -> Seq<Seq<char>> {
    Seq::new(keys.len(), |i: int| keys[i]@)
}

/// The error for more positional values than a command has parameters.
pub open spec fn too_many_arguments(e: Error) -> bool {
    e matches Error::StrErr(s) && s@ == "Too many arguments"@
}

/// Binds positional values to the parameters of a command, in order.
///
/// With more values than keys nothing is stored and the call fails.
/// Otherwise the value at each position is stored under the key at that
/// position; keys without a value are left as they are.
pub fn map_args(map: &mut ParameterMap, keys: &[&str], args: Vec<String>) -> (r: Result<
    (),
    Error,
>)
    ensures
        args.len() > keys.len() ==> r is Err && too_many_arguments(r->Err_0) && final(map)@ == old(
            map,
        )@,
        args.len() <= keys.len() ==> r is Ok && final(map)@ == bound_upto(
            old(map)@,
            names(keys@),
            texts(args@),
            args.len() as int,
        ),
{
    if keys.len() < args.len() {
        return Err(Error::StrErr("Too many arguments"));
    }
    let ghost seed = map@;
    let mut i: usize = 0;
    while i < args.len()
        invariant
            i <= args.len() <= keys.len(),
            map@ == bound_upto(seed, names(keys@), texts(args@), i as int),
        decreases args.len() - i,
    {
        let key = String::from_str(keys[i]);
        let value = args[i].clone();
        map.insert(key, value);
        i += 1;
    }
    Ok(())
}

/// No flag is left among the positional values.
pub proof fn lemma_positional_holds_no_flag(tokens: Seq<Seq<char>>, n: int)
    requires
        0 <= n <= tokens.len(),
    ensures
        forall|k: int|
            0 <= k < positional_upto(tokens, n).len() ==> !is_flag(
                #[trigger] positional_upto(tokens, n)[k],
            ),
    decreases n,
{
    if n > 0 {
        lemma_positional_holds_no_flag(tokens, n - 1);
        let before = positional_upto(tokens, n - 1);
        let now = positional_upto(tokens, n);
        assert forall|k: int| 0 <= k < now.len() implies !is_flag(#[trigger] now[k]) by {
            if k < before.len() {
                assert(now[k] == before[k]);
            }
        }
    }
}

/// Where no token is a flag, every token is a positional value and there
/// are no flags.
pub proof fn lemma_without_flags(tokens: Seq<Seq<char>>, n: int)
    requires
        0 <= n <= tokens.len(),
        forall|k: int| 0 <= k < tokens.len() ==> !is_flag(#[trigger] tokens[k]),
    ensures
        positional_upto(tokens, n) == tokens.take(n),
        flags_upto(tokens, n) == Map::<Seq<char>, Seq<char>>::empty(),
    decreases n,
{
    if n > 0 {
        lemma_without_flags(tokens, n - 1);
        assert(tokens.take(n) == tokens.take(n - 1).push(tokens[n - 1]));
    } else {
        assert(tokens.take(0) == Seq::<Seq<char>>::empty());
    }
}

/// Taking the flags out a second time finds none and leaves the
/// positional values as they are.
pub proof fn lemma_parse_twice(tokens: Seq<Seq<char>>)
    ensures
        positional_of(positional_of(tokens)) == positional_of(tokens),
        flags_of(positional_of(tokens)) == Map::<Seq<char>, Seq<char>>::empty(),
        flags_distinct(positional_of(tokens)),
{
    let rest = positional_of(tokens);
    lemma_positional_holds_no_flag(tokens, tokens.len() as int);
    lemma_without_flags(rest, rest.len() as int);
    assert(rest.take(rest.len() as int) == rest);
}

} // verus!
