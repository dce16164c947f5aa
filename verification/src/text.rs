//! Small verified helpers on strings, seen as sequences of characters.

use vstd::prelude::*;
use vstd::utf8::encode_utf8;

verus! {

/// Appends one character to a string.
///
/// Wraps `String::push`, which adds the character at the end and leaves the
/// rest of the string as it was.
#[verifier::external_body]
pub(crate) fn push_char(s: &mut String, c: char)
    ensures
        final(s)@ == old(s)@.push(c),
{
    s.push(c)
}

/// The characters of each string of a list.
pub open spec fn texts(v: Seq<String>) -> Seq<Seq<char>> {
    Seq::new(v.len(), |i: int| v[i]@)
}

/// The characters of each row of a list of character vectors.
pub open spec fn rows(v: Seq<Vec<char>>) -> Seq<Seq<char>> {
    Seq::new(v.len(), |i: int| v[i]@)
}

/// The characters of a string, in order.
pub fn chars_of(s: &str) -> (out: Vec<char>)
    ensures
        out@ == s@,
{
    broadcast use vstd::string::group_string_axioms;

    let mut out: Vec<char> = Vec::new();
    for c in it: s.chars()
        invariant
            it.seq() == s@,
            out@ == it.seq().take(it.index()),
    {
        assert(it.seq().take(it.index() + 1) == it.seq().take(it.index()).push(c));
        out.push(c);
    }
    assert(s@.take(s@.len() as int) == s@);
    out
}

/// The string made of the given characters, in order.
pub fn text_of(chars: &Vec<char>) -> (out: String)
    ensures
        out@ == chars@,
{
    let mut out = String::new();
    let mut i: usize = 0;
    while i < chars.len()
        invariant
            i <= chars.len(),
            out@ == chars@.take(i as int),
        decreases chars.len() - i,
    {
        assert(chars@.take(i + 1) == chars@.take(i as int).push(chars@[i as int]));
        push_char(&mut out, chars[i]);
        i += 1;
    }
    assert(chars@.take(chars.len() as int) == chars@);
    out
}

/// Whether two strings hold the same characters.
pub fn same_text(a: &str, b: &str) -> (r: bool)
    ensures
        r == (a@ == b@),
{
    let x = chars_of(a);
    let y = chars_of(b);
    same_chars(&x, &y)
}

/// Whether two character vectors hold the same characters.
pub fn same_chars(a: &Vec<char>, b: &Vec<char>) -> (r: bool)
    ensures
        r == (a@ == b@),
{
    if a.len() != b.len() {
        return false;
    }
    let mut i: usize = 0;
    while i < a.len()
        invariant
            a.len() == b.len(),
            i <= a.len(),
            a@.take(i as int) == b@.take(i as int),
        decreases a.len() - i,
    {
        if a[i] != b[i] {
            return false;
        }
        assert(a@.take(i + 1) == a@.take(i as int).push(a@[i as int]));
        assert(b@.take(i + 1) == b@.take(i as int).push(b@[i as int]));
        i += 1;
    }
    assert(a@.take(a.len() as int) == a@);
    assert(b@.take(b.len() as int) == b@);
    true
}

/// The pieces of `s` between occurrences of `sep`. There is always at least
/// one piece; two separators in a row enclose an empty piece.
pub open spec fn split_on(s: Seq<char>, sep: char) -> Seq<Seq<char>>
    decreases s.len(),
{
    if s.len() == 0 {
        seq![Seq::<char>::empty()]
    } else {
        let before = split_on(s.drop_last(), sep);
        if s.last() == sep {
            before.push(Seq::<char>::empty())
        } else {
            before.drop_last().push(before.last().push(s.last()))
        }
    }
}

/// A split always yields at least one piece.
pub proof fn lemma_split_nonempty(s: Seq<char>, sep: char)
    ensures
        split_on(s, sep).len() >= 1,
    decreases s.len(),
{
    if s.len() > 0 {
        lemma_split_nonempty(s.drop_last(), sep);
    }
}

/// No piece of a split holds the separator.
pub proof fn lemma_split_pieces_clean(s: Seq<char>, sep: char)
    ensures
        forall|i: int| 0 <= i < split_on(s, sep).len() ==> !(#[trigger] split_on(s, sep)[i]).contains(sep),
    decreases s.len(),
{
    if s.len() == 0 {
        assert(!Seq::<char>::empty().contains(sep));
    } else {
        let before = split_on(s.drop_last(), sep);
        lemma_split_pieces_clean(s.drop_last(), sep);
        lemma_split_nonempty(s.drop_last(), sep);
        if s.last() == sep {
            assert(!Seq::<char>::empty().contains(sep));
        } else {
            let grown = before.last().push(s.last());
            assert(!grown.contains(sep)) by {
                if grown.contains(sep) {
                    let k = choose|k: int| 0 <= k < grown.len() && grown[k] == sep;
                    assert(before.last()[k] == sep);
                    assert(before.last().contains(sep));
                }
            }
        }
    }
}

/// Splitting a text that ends in a separator and a piece without one gives
/// the split of what stood before, and then that piece.
pub proof fn lemma_split_append_piece(a: Seq<char>, piece: Seq<char>, sep: char)
    requires
        !piece.contains(sep),
    ensures
        split_on(a + seq![sep] + piece, sep) == split_on(a, sep).push(piece),
    decreases piece.len(),
{
    let whole = a + seq![sep] + piece;
    if piece.len() == 0 {
        assert(whole.drop_last() == a);
        assert(whole.last() == sep);
        assert(piece == Seq::<char>::empty());
    } else {
        let shorter = piece.drop_last();
        assert(!shorter.contains(sep)) by {
            if shorter.contains(sep) {
                let k = choose|k: int| 0 <= k < shorter.len() && shorter[k] == sep;
                assert(piece[k] == sep);
            }
        }
        lemma_split_append_piece(a, shorter, sep);
        assert(whole.drop_last() == a + seq![sep] + shorter);
        assert(whole.last() == piece.last());
        assert(piece.last() != sep) by {
            if piece.last() == sep {
                assert(piece[piece.len() - 1] == sep);
            }
        }
        let before = split_on(a, sep).push(shorter);
        assert(before.drop_last() == split_on(a, sep));
        assert(shorter.push(piece.last()) == piece);
    }
}

/// Splitting two texts with a separator between them gives the pieces of
/// the first and then the pieces of the second.
pub proof fn lemma_split_concat(a: Seq<char>, b: Seq<char>, sep: char)
    ensures
        split_on(a + seq![sep] + b, sep) == split_on(a, sep) + split_on(b, sep),
    decreases b.len(),
{
    let whole = a + seq![sep] + b;
    if b.len() == 0 {
        assert(whole.drop_last() == a);
        assert(whole.last() == sep);
        assert(split_on(a, sep).push(Seq::<char>::empty()) == split_on(a, sep) + split_on(b, sep));
    } else {
        lemma_split_concat(a, b.drop_last(), sep);
        lemma_split_nonempty(b.drop_last(), sep);
        assert(whole.drop_last() == a + seq![sep] + b.drop_last());
        assert(whole.last() == b.last());
        let left = split_on(a, sep);
        let right = split_on(b.drop_last(), sep);
        if b.last() == sep {
            assert((left + right).push(Seq::<char>::empty()) == left + right.push(Seq::<char>::empty()));
        } else {
            let grown = right.last().push(b.last());
            assert((left + right).drop_last() == left + right.drop_last());
            assert((left + right).last() == right.last());
            assert((left + right.drop_last()).push(grown) == left + right.drop_last().push(grown));
        }
    }
}

/// The position of the first `c` in `s`.
pub open spec fn first_index(s: Seq<char>, c: char) -> Option<int>
    decreases s.len(),
{
    if s.len() == 0 {
        None
    } else if s[0] == c {
        Some(0)
    } else {
        match first_index(s.drop_first(), c) {
            Some(i) => Some(i + 1),
            None => None,
        }
    }
}

/// The first `c` stands at `i` exactly if `c` stands there and nowhere
/// before; there is none exactly if `c` does not occur.
pub proof fn lemma_first_index(s: Seq<char>, c: char)
    ensures
        match first_index(s, c) {
            Some(i) => 0 <= i < s.len() && s[i] == c && forall|k: int| 0 <= k < i ==> s[k] != c,
            None => forall|k: int| 0 <= k < s.len() ==> s[k] != c,
        },
    decreases s.len(),
{
    if s.len() > 0 && s[0] != c {
        let rest = s.drop_first();
        lemma_first_index(rest, c);
        match first_index(rest, c) {
            Some(i) => {
                assert forall|k: int| 0 <= k < i + 1 implies s[k] != c by {
                    if k > 0 {
                        assert(s[k] == rest[k - 1]);
                    }
                }
            },
            None => {
                assert forall|k: int| 0 <= k < s.len() implies s[k] != c by {
                    if k > 0 {
                        assert(s[k] == rest[k - 1]);
                    }
                }
            },
        }
    }
}

/// The text before the first `c` and the text after it.
pub open spec fn split_once_on(s: Seq<char>, c: char) -> Option<(Seq<char>, Seq<char>)> {
    match first_index(s, c) {
        Some(i) => Some((s.take(i), s.skip(i + 1))),
        None => None,
    }
}

/// The characters of `chars` from `from` up to, not including, `to`.
pub fn slice_chars(chars: &Vec<char>, from: usize, to: usize) -> (out: Vec<char>)
    requires
        from <= to <= chars.len(),
    ensures
        out@ == chars@.subrange(from as int, to as int),
{
    let mut out: Vec<char> = Vec::new();
    let mut k: usize = from;
    while k < to
        invariant
            from <= k <= to <= chars.len(),
            out@ == chars@.subrange(from as int, k as int),
        decreases to - k,
    {
        assert(chars@.subrange(from as int, k + 1) == chars@.subrange(from as int, k as int).push(
            chars@[k as int],
        ));
        out.push(chars[k]);
        k += 1;
    }
    out
}

/// Splits a text at the first `c`: what stands before it and what stands
/// after it, or `None` where `c` does not occur.
pub fn split_once(s: &str, c: char) -> (r: Option<(String, String)>)
    ensures
        match split_once_on(s@, c) {
            Some((before, after)) => r matches Some((a, b)) && a@ == before && b@ == after,
            None => r is None,
        },
{
    let chars = chars_of(s);
    let mut i: usize = 0;
    while i < chars.len()
        invariant
            i <= chars.len(),
            chars@ == s@,
            forall|k: int| 0 <= k < i ==> chars@[k] != c,
        decreases chars.len() - i,
    {
        if chars[i] == c {
            proof {
                lemma_first_index(chars@, c);
            }
            let before = slice_chars(&chars, 0, i);
            let after = slice_chars(&chars, i + 1, chars.len());
            assert(chars@.subrange(0, i as int) == chars@.take(i as int));
            assert(chars@.subrange(i + 1, chars.len() as int) == chars@.skip(i + 1));
            return Some((text_of(&before), text_of(&after)));
        }
        i += 1;
    }
    proof {
        lemma_first_index(chars@, c);
    }
    None
}

/// Whether a character is white space, as Unicode defines it.
pub open spec fn is_space(c: char) -> bool {
    let n = c as u32;
    (0x09 <= n <= 0x0D) || n == 0x20 || n == 0x85 || n == 0xA0 || n == 0x1680 || (0x2000 <= n
        <= 0x200A) || n == 0x2028 || n == 0x2029 || n == 0x202F || n == 0x205F || n == 0x3000
}

/// Whether a character is white space.
pub fn space(c: char) -> (r: bool)
    ensures
        r == is_space(c),
{
    let n = c as u32;
    (0x09 <= n && n <= 0x0D) || n == 0x20 || n == 0x85 || n == 0xA0 || n == 0x1680 || (0x2000 <= n
        && n <= 0x200A) || n == 0x2028 || n == 0x2029 || n == 0x202F || n == 0x205F || n == 0x3000
}

/// How many characters of white space a text starts with.
pub open spec fn leading_spaces(s: Seq<char>) -> nat
    decreases s.len(),
{
    if s.len() > 0 && is_space(s[0]) {
        1 + leading_spaces(s.drop_first())
    } else {
        0
    }
}

/// How many characters of white space a text ends with.
pub open spec fn trailing_spaces(s: Seq<char>) -> nat
    decreases s.len(),
{
    if s.len() > 0 && is_space(s.last()) {
        1 + trailing_spaces(s.drop_last())
    } else {
        0
    }
}

/// A text without the white space at its start and at its end.
pub open spec fn trimmed(s: Seq<char>) -> Seq<char> {
    let rest = s.skip(leading_spaces(s) as int);
    rest.take(rest.len() - trailing_spaces(rest))
}

/// The white space at the start of a text ends before the text does, and
/// at the first character that is none.
pub proof fn lemma_leading_spaces(s: Seq<char>, n: int)
    requires
        0 <= n <= s.len(),
        forall|k: int| 0 <= k < n ==> is_space(s[k]),
        n < s.len() ==> !is_space(s[n]),
    ensures
        leading_spaces(s) == n,
    decreases n,
{
    if n > 0 {
        let rest = s.drop_first();
        assert forall|k: int| 0 <= k < n - 1 implies is_space(rest[k]) by {
            assert(rest[k] == s[k + 1]);
        }
        lemma_leading_spaces(rest, n - 1);
    }
}

/// The white space at the end of a text starts after the last character
/// that is none.
pub proof fn lemma_trailing_spaces(s: Seq<char>, n: int)
    requires
        0 <= n <= s.len(),
        forall|k: int| s.len() - n <= k < s.len() ==> is_space(s[k]),
        n < s.len() ==> !is_space(s[s.len() - n - 1]),
    ensures
        trailing_spaces(s) == n,
    decreases n,
{
    if n > 0 {
        let rest = s.drop_last();
        assert forall|k: int| rest.len() - (n - 1) <= k < rest.len() implies is_space(rest[k]) by {
            assert(rest[k] == s[k]);
        }
        lemma_trailing_spaces(rest, n - 1);
    }
}

/// A text without the white space at its start and at its end.
pub fn trim(s: &str) -> (out: String)
    ensures
        out@ == trimmed(s@),
{
    let chars = chars_of(s);
    let mut from: usize = 0;
    while from < chars.len() && space(chars[from])
        invariant
            from <= chars.len(),
            forall|k: int| 0 <= k < from ==> is_space(chars@[k]),
        decreases chars.len() - from,
    {
        from += 1;
    }
    let mut to: usize = chars.len();
    while to > from && space(chars[to - 1])
        invariant
            from <= to <= chars.len(),
            forall|k: int| to <= k < chars.len() ==> is_space(chars@[k]),
        decreases to,
    {
        to -= 1;
    }
    proof {
        lemma_leading_spaces(chars@, from as int);
        let rest = chars@.skip(from as int);
        assert forall|k: int| rest.len() - (chars.len() - to) <= k < rest.len() implies is_space(
            rest[k],
        ) by {
            assert(rest[k] == chars@[k + from]);
        }
        if chars.len() - to < rest.len() {
            assert(rest[rest.len() - (chars.len() - to) - 1] == chars@[to - 1]);
        }
        lemma_trailing_spaces(rest, chars.len() - to);
        assert(rest.take(rest.len() - (chars.len() - to)) == chars@.subrange(
            from as int,
            to as int,
        ));
    }
    text_of(&slice_chars(&chars, from, to))
}

/// The texts of a list with `sep` between each two of them.
pub open spec fn join_with(parts: Seq<Seq<char>>, sep: Seq<char>) -> Seq<char>
    decreases parts.len(),
{
    if parts.len() == 0 {
        Seq::empty()
    } else if parts.len() == 1 {
        parts[0]
    } else {
        join_with(parts.drop_last(), sep) + sep + parts.last()
    }
}

/// The strings of a list with `sep` between each two of them.
pub fn join(parts: &Vec<String>, sep: &str) -> (out: String)
    ensures
        out@ == join_with(texts(parts@), sep@),
{
    let mut out = String::new();
    let mut i: usize = 0;
    assert(texts(parts@).take(0) == Seq::<Seq<char>>::empty());
    while i < parts.len()
        invariant
            i <= parts.len(),
            out@ == join_with(texts(parts@).take(i as int), sep@),
        decreases parts.len() - i,
    {
        proof {
            let upto = texts(parts@).take(i + 1);
            assert(upto.drop_last() == texts(parts@).take(i as int));
            assert(upto.last() == parts@[i as int]@);
            if i == 0 {
                assert(out@ + parts@[0]@ == parts@[0]@);
            }
        }
        if i > 0 {
            out.append(sep);
        }
        out.append(parts[i].as_str());
        i += 1;
    }
    assert(texts(parts@).take(parts.len() as int) == texts(parts@));
    out
}

/// The length of a text in bytes, as UTF-8.
pub open spec fn byte_len(s: Seq<char>) -> nat {
    encode_utf8(s).len()
}

/// The length of a string in bytes.
pub fn bytes_in(s: &str) -> (n: usize)
    ensures
        n == byte_len(s@),
{
    s.as_bytes().len()
}

/// Whether `s` starts with `pattern`.
pub open spec fn starts_with(s: Seq<char>, pattern: Seq<char>) -> bool {
    pattern.len() <= s.len() && s.take(pattern.len() as int) == pattern
}

/// `s` with every occurrence of `pattern` replaced by `with`, found from
/// left to right; what is replaced is not searched again.
pub open spec fn replaced(s: Seq<char>, pattern: Seq<char>, with: Seq<char>) -> Seq<char>
    decreases s.len(),
{
    if s.len() == 0 {
        Seq::empty()
    } else if pattern.len() > 0 && starts_with(s, pattern) {
        with + replaced(s.skip(pattern.len() as int), pattern, with)
    } else {
        seq![s[0]] + replaced(s.drop_first(), pattern, with)
    }
}

/// Whether `pattern` stands in `chars` at position `at`.
fn stands_at(chars: &Vec<char>, at: usize, pattern: &Vec<char>) -> (r: bool)
    requires
        at <= chars.len(),
    ensures
        r == starts_with(chars@.skip(at as int), pattern@),
{
    if pattern.len() > chars.len() - at {
        return false;
    }
    let ghost rest = chars@.skip(at as int);
    let mut k: usize = 0;
    while k < pattern.len()
        invariant
            k <= pattern.len() <= chars.len() - at,
            rest == chars@.skip(at as int),
            rest.take(k as int) == pattern@.take(k as int),
        decreases pattern.len() - k,
    {
        if chars[at + k] != pattern[k] {
            assert(rest.take(pattern.len() as int)[k as int] != pattern@[k as int]);
            return false;
        }
        assert(rest.take(k + 1) == rest.take(k as int).push(rest[k as int]));
        assert(pattern@.take(k + 1) == pattern@.take(k as int).push(pattern@[k as int]));
        k += 1;
    }
    assert(pattern@.take(pattern.len() as int) == pattern@);
    true
}

/// A string with every occurrence of `pattern` replaced by `with`.
pub fn replace_all(s: &str, pattern: &str, with: &str) -> (out: String)
    requires
        pattern@.len() > 0,
    ensures
        out@ == replaced(s@, pattern@, with@),
{
    let chars = chars_of(s);
    let wanted = chars_of(pattern);
    let mut out = String::new();
    let mut i: usize = 0;
    assert(chars@.skip(0) == chars@);
    while i < chars.len()
        invariant
            i <= chars.len(),
            wanted@ == pattern@,
            wanted@.len() > 0,
            replaced(chars@, pattern@, with@) == out@ + replaced(
                chars@.skip(i as int),
                pattern@,
                with@,
            ),
        decreases chars.len() - i,
    {
        let ghost rest = chars@.skip(i as int);
        let ghost before = out@;
        if stands_at(&chars, i, &wanted) {
            out.append(with);
            assert(rest.skip(wanted.len() as int) == chars@.skip(i + wanted.len()));
            assert(before + (with@ + replaced(rest.skip(wanted.len() as int), pattern@, with@))
                == before + with@ + replaced(rest.skip(wanted.len() as int), pattern@, with@));
            i += wanted.len();
        } else {
            push_char(&mut out, chars[i]);
            assert(rest.drop_first() == chars@.skip(i + 1));
            assert(before + (seq![rest[0]] + replaced(rest.drop_first(), pattern@, with@))
                == before.push(rest[0]) + replaced(rest.drop_first(), pattern@, with@));
            i += 1;
        }
    }
    assert(chars@.skip(chars.len() as int) == Seq::<char>::empty());
    assert(out@ + Seq::<char>::empty() == out@);
    out
}

/// The words read so far and the word that is being read: white space
/// ends a word, any other character goes on with it.
pub open spec fn words_scan(s: Seq<char>) -> (Seq<Seq<char>>, Seq<char>)
    decreases s.len(),
{
    if s.len() == 0 {
        (Seq::empty(), Seq::empty())
    } else {
        let (done, word) = words_scan(s.drop_last());
        if !is_space(s.last()) {
            (done, word.push(s.last()))
        } else if word.len() > 0 {
            (done.push(word), Seq::empty())
        } else {
            (done, word)
        }
    }
}

/// The words of a text: what stands between white space. No word is
/// empty, however much white space stands between two words or around
/// them.
pub open spec fn words_of(s: Seq<char>) -> Seq<Seq<char>> {
    let (done, word) = words_scan(s);
    if word.len() > 0 {
        done.push(word)
    } else {
        done
    }
}

/// No word is empty and none holds white space.
pub proof fn lemma_words_clean(s: Seq<char>)
    ensures
        forall|i: int|
            0 <= i < words_of(s).len() ==> (#[trigger] words_of(s)[i]).len() > 0 && forall|k: int|
                0 <= k < words_of(s)[i].len() ==> !is_space(words_of(s)[i][k]),
{
    lemma_words_scan_clean(s);
    let (done, word) = words_scan(s);
    assert forall|i: int| 0 <= i < words_of(s).len() implies (#[trigger] words_of(s)[i]).len() > 0
        && forall|k: int| 0 <= k < words_of(s)[i].len() ==> !is_space(words_of(s)[i][k]) by {
        if i < done.len() {
            assert(words_of(s)[i] == done[i]);
        } else {
            assert(words_of(s)[i] == word);
        }
    }
}

/// While words are read, no finished word is empty, and neither a
/// finished word nor the one being read holds white space.
pub proof fn lemma_words_scan_clean(s: Seq<char>)
    ensures
        forall|i: int|
            0 <= i < words_scan(s).0.len() ==> (#[trigger] words_scan(s).0[i]).len() > 0
                && forall|k: int|
                0 <= k < words_scan(s).0[i].len() ==> !is_space(words_scan(s).0[i][k]),
        forall|k: int| 0 <= k < words_scan(s).1.len() ==> !is_space(#[trigger] words_scan(s).1[k]),
    decreases s.len(),
{
    if s.len() > 0 {
        lemma_words_scan_clean(s.drop_last());
        let (done, word) = words_scan(s.drop_last());
        let (now, cur) = words_scan(s);
        assert forall|i: int| 0 <= i < now.len() implies (#[trigger] now[i]).len() > 0 && forall|
            k: int,
        |
            0 <= k < now[i].len() ==> !is_space(now[i][k]) by {
            if i < done.len() {
                assert(now[i] == done[i]);
            } else {
                assert(now[i] == word);
            }
        }
        assert forall|k: int| 0 <= k < cur.len() implies !is_space(#[trigger] cur[k]) by {
            if !is_space(s.last()) && k < word.len() {
                assert(cur[k] == word[k]);
            }
        }
    }
}

/// The words of a string: what stands between white space.
pub fn words(s: &str) -> (out: Vec<String>)
    ensures
        texts(out@) == words_of(s@),
{
    let chars = chars_of(s);
    let mut out: Vec<String> = Vec::new();
    let mut word: Vec<char> = Vec::new();
    let mut i: usize = 0;
    assert(chars@.take(0) == Seq::<char>::empty());
    assert(texts(out@) == Seq::<Seq<char>>::empty());
    while i < chars.len()
        invariant
            i <= chars.len(),
            (texts(out@), word@) == words_scan(chars@.take(i as int)),
        decreases chars.len() - i,
    {
        let c = chars[i];
        proof {
            let next = chars@.take(i + 1);
            assert(next.drop_last() == chars@.take(i as int));
            assert(next.last() == c);
        }
        if !space(c) {
            word.push(c);
        } else if word.len() > 0 {
            let piece = text_of(&word);
            let ghost before = texts(out@);
            out.push(piece);
            word = Vec::new();
            assert(texts(out@) == before.push(piece@));
        }
        i += 1;
    }
    assert(chars@.take(chars.len() as int) == chars@);
    if word.len() > 0 {
        let piece = text_of(&word);
        let ghost before = texts(out@);
        out.push(piece);
        assert(texts(out@) == before.push(piece@));
    }
    out
}

} // verus!
