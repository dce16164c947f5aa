//! Lines for lists that the service returns: the items of a directory, and
//! published documents.

use vstd::prelude::*;
use crate::number::{append_number, append_signed, decimal, decimal_chars, signed_decimal};
use crate::path::{join_path, joined};
use crate::request::ItemVisibility;
use crate::text::{chars_of, push_char};

verus! {

/// The visibility of an item, and whether it has it from its directory.
#[derive(Debug, Clone, Copy, PartialEq, Eq)]
pub struct Visibility {
    pub inherited: bool,
    pub visibility: ItemVisibility,
}

/// An item of a remote directory.
#[derive(Debug, PartialEq, Eq)]
pub struct DirItem {
    pub visibility: Visibility,
    pub is_file: bool,
    pub name: String,
    /// When the item was last changed, in seconds since 1970.
    pub last_modified: u64,
    pub size: u64,
}

/// A moment as the calendar and the clock show it.
#[derive(Debug, Clone, Copy, PartialEq, Eq)]
pub struct Stamp {
    pub year: i32,
    /// From 1 for January to 12 for December.
    pub month: u8,
    pub day: u8,
    pub hour: u8,
    pub minute: u8,
}

/// A published document of a user.
#[derive(Debug, PartialEq, Eq)]
pub struct TexUserPublish {
    pub id: i64,
    pub title: String,
    pub desc: String,
    pub ext: String,
}

/// The short name of a month, counted from 1.
pub open spec fn month_name(month: int) -> Seq<char> {
    if month == 1 {
        "Jan"@
    } else if month == 2 {
        "Feb"@
    } else if month == 3 {
        "Mar"@
    } else if month == 4 {
        "Apr"@
    } else if month == 5 {
        "May"@
    } else if month == 6 {
        "Jun"@
    } else if month == 7 {
        "Jul"@
    } else if month == 8 {
        "Aug"@
    } else if month == 9 {
        "Sept"@
    } else if month == 10 {
        "Oct"@
    } else if month == 11 {
        "Nov"@
    } else {
        "Dec"@
    }
}

/// The short name of a month, counted from 1.
pub fn month_abbrev(month: u8) -> (r: &'static str)
    requires
        1 <= month <= 12,
    ensures
        r@ == month_name(month as int),
{
    if month == 1 {
        "Jan"
    } else if month == 2 {
        "Feb"
    } else if month == 3 {
        "Mar"
    } else if month == 4 {
        "Apr"
    } else if month == 5 {
        "May"
    } else if month == 6 {
        "Jun"
    } else if month == 7 {
        "Jul"
    } else if month == 8 {
        "Aug"
    } else if month == 9 {
        "Sept"
    } else if month == 10 {
        "Oct"
    } else if month == 11 {
        "Nov"
    } else {
        "Dec"
    }
}

/// `n` spaces.
pub open spec fn spaces(n: int) -> Seq<char> {
    Seq::new(
        if n > 0 {
            n as nat
        } else {
            0
        },
        |i: int| ' ',
    )
}

/// A text filled up with spaces at its end to at least `width`
/// characters.
pub open spec fn padded(s: Seq<char>, width: int) -> Seq<char> {
    s + spaces(width - s.len())
}

/// A number below a hundred in two digits.
pub open spec fn two_digits(n: int) -> Seq<char> {
    if n < 10 {
        seq!['0'] + decimal(n as nat)
    } else {
        decimal(n as nat)
    }
}

/// The last two characters of a text, or all of it where it is shorter.
pub open spec fn last_two(s: Seq<char>) -> Seq<char> {
    if s.len() <= 2 {
        s
    } else {
        s.skip(s.len() - 2)
    }
}

/// The word for what an item is, four characters wide.
pub open spec fn kind_text(is_file: bool) -> Seq<char> {
    if is_file {
        "file"@
    } else {
        "dir "@
    }
}

/// The word for a visibility, eight characters wide.
pub open spec fn visibility_text(visibility: ItemVisibility) -> Seq<char> {
    match visibility {
        ItemVisibility::Hidden => "hidden  "@,
        ItemVisibility::Public => "public  "@,
        ItemVisibility::Private => "private "@,
    }
}

/// The mark behind the visibility: a star where the item has a visibility
/// of its own.
pub open spec fn own_mark(inherited: bool) -> Seq<char> {
    if inherited {
        " "@
    } else {
        "*"@
    }
}

/// The line for an item of a directory: kind, visibility, size, the time
/// of the last change and the path as it is shown, with one space between
/// them. Sizes are set flush right in a column `width` wide.
pub open spec fn diritem_text(
    is_file: bool,
    visibility: Visibility,
    size: u64,
    width: int,
    stamp: Stamp,
    shown_path: Seq<char>,
) -> Seq<char> {
    kind_text(is_file) + " "@ + visibility_text(visibility.visibility) + own_mark(
        visibility.inherited,
    ) + " "@ + spaces(width - decimal(size as nat).len()) + decimal(size as nat) + " "@ + last_two(
        signed_decimal(stamp.year as int),
    ) + " "@ + padded(month_name(stamp.month as int), 4) + " "@ + padded(
        decimal(stamp.day as nat),
        2,
    ) + " "@ + two_digits(stamp.hour as int) + ":"@ + two_digits(stamp.minute as int) + " "@
        + shown_path
}

/// Writes `n` spaces at the end of a string.
fn append_spaces(out: &mut String, n: usize)
    ensures
        final(out)@ == old(out)@ + spaces(n as int),
{
    let ghost head = out@;
    let mut i: usize = 0;
    assert(head + spaces(0) == head);
    while i < n
        invariant
            i <= n,
            out@ == head + spaces(i as int),
        decreases n - i,
    {
        push_char(out, ' ');
        assert(head + spaces(i + 1) == (head + spaces(i as int)).push(' '));
        i += 1;
    }
}

/// Writes a text at the end of a string and fills it up with spaces to
/// `width` characters.
fn append_padded(out: &mut String, chars: &Vec<char>, width: usize)
    ensures
        final(out)@ == old(out)@ + padded(chars@, width as int),
{
    let ghost head = out@;
    let mut i: usize = 0;
    assert(head + chars@.take(0) == head);
    while i < chars.len()
        invariant
            i <= chars.len(),
            out@ == head + chars@.take(i as int),
        decreases chars.len() - i,
    {
        assert(head + chars@.take(i + 1) == (head + chars@.take(i as int)).push(chars@[i as int]));
        push_char(out, chars[i]);
        i += 1;
    }
    assert(chars@.take(chars.len() as int) == chars@);
    if width > chars.len() {
        append_spaces(out, width - chars.len());
    } else {
        assert(spaces(width - chars.len()) == Seq::<char>::empty());
    }
    assert(out@ == head + (chars@ + spaces(width - chars.len())));
}

/// Writes a number below a hundred in two digits at the end of a string.
fn append_two_digits(out: &mut String, n: u8)
    ensures
        final(out)@ == old(out)@ + two_digits(n as int),
{
    if n < 10 {
        push_char(out, '0');
        append_number(out, n as u64);
        assert(old(out)@.push('0') + decimal(n as nat) == old(out)@ + (seq!['0'] + decimal(
            n as nat,
        )));
    } else {
        append_number(out, n as u64);
    }
}

/// The line for an item of a directory, given the local time of its last
/// change and its path as it is shown.
pub fn diritem_line(item: &DirItem, max_size_len: usize, stamp: &Stamp, shown_path: &str) -> (out:
    String)
    requires
        1 <= stamp.month <= 12,
    ensures
        out@ == diritem_text(
            item.is_file,
            item.visibility,
            item.size,
            max_size_len as int,
            *stamp,
            shown_path@,
        ),
{
    let mut out = if item.is_file {
        String::from_str("file")
    } else {
        String::from_str("dir ")
    };
    out.append(" ");
    match item.visibility.visibility {
        ItemVisibility::Hidden => out.append("hidden  "),
        ItemVisibility::Public => out.append("public  "),
        ItemVisibility::Private => out.append("private "),
    }
    if item.visibility.inherited {
        out.append(" ");
    } else {
        out.append("*");
    }
    out.append(" ");
    let size = decimal_chars(item.size);
    if max_size_len > size.len() {
        append_spaces(&mut out, max_size_len - size.len());
    } else {
        assert(out@ + spaces(max_size_len - size.len()) == out@);
    }
    append_number(&mut out, item.size);
    out.append(" ");
    let mut year = String::new();
    append_signed(&mut year, stamp.year as i64);
    let year_chars = chars_of(year.as_str());
    assert(year_chars@ == signed_decimal(stamp.year as int));
    let from: usize = if year_chars.len() <= 2 {
        0
    } else {
        year_chars.len() - 2
    };
    let ghost head = out@;
    let mut i: usize = from;
    assert(year_chars@.skip(0) == year_chars@);
    assert(head + year_chars@.subrange(from as int, from as int) == head);
    while i < year_chars.len()
        invariant
            from <= i <= year_chars.len(),
            out@ == head + year_chars@.subrange(from as int, i as int),
        decreases year_chars.len() - i,
    {
        assert(head + year_chars@.subrange(from as int, i + 1) == (head + year_chars@.subrange(
            from as int,
            i as int,
        )).push(year_chars@[i as int]));
        push_char(&mut out, year_chars[i]);
        i += 1;
    }
    assert(year_chars@.subrange(from as int, year_chars.len() as int) == last_two(year_chars@));
    out.append(" ");
    let month = chars_of(month_abbrev(stamp.month));
    append_padded(&mut out, &month, 4);
    out.append(" ");
    let day = decimal_chars(stamp.day as u64);
    append_padded(&mut out, &day, 2);
    out.append(" ");
    append_two_digits(&mut out, stamp.hour);
    out.append(":");
    append_two_digits(&mut out, stamp.minute);
    out.append(" ");
    out.append(shown_path);
    out
}

/// A path as it is shown in a list: between double quotes, with the
/// characters that could be mistaken written as escapes.
pub uninterp spec fn quoted_path(path: Seq<char>) -> Seq<char>;

/// A path as it is shown in a list.
///
/// Formats `std::path::Path` with `{:?}`. The contract only names what
/// comes back.
#[verifier::external_body]
fn quote_path(path: &str) -> (out: String)
    ensures
        out@ == quoted_path(path@),
{
    format!("{:?}", std::path::Path::new(path))
}

/// The line for an item of the directory `path`, given the local time of
/// its last change.
pub fn diritem_tostring(item: &DirItem, max_size_len: usize, path: &str, stamp: &Stamp) -> (out:
    String)
    requires
        1 <= stamp.month <= 12,
    ensures
        out@ == diritem_text(
            item.is_file,
            item.visibility,
            item.size,
            max_size_len as int,
            *stamp,
            quoted_path(joined(path@, item.name@)),
        ),
{
    let full = join_path(path, item.name.as_str());
    let shown = quote_path(full.as_str());
    diritem_line(item, max_size_len, stamp, shown.as_str())
}

/// The largest size among the first `n` items.
pub open spec fn largest_size(items: Seq<DirItem>, n: int) -> nat
    decreases n,
{
    if n <= 0 {
        0
    } else if items[n - 1].size > largest_size(items, n - 1) {
        items[n - 1].size as nat
    } else {
        largest_size(items, n - 1)
    }
}

/// How wide the column of sizes must be: as wide as the largest size is
/// long, and nothing for an empty list.
pub open spec fn size_width(items: Seq<DirItem>) -> nat {
    if items.len() == 0 {
        0
    } else {
        decimal(largest_size(items, items.len() as int)).len()
    }
}

/// How wide the column of sizes must be for a list of items.
pub fn longest_size(items: &Vec<DirItem>) -> (width: usize)
    ensures
        width == size_width(items@),
{
    if items.len() == 0 {
        return 0;
    }
    let mut largest: u64 = 0;
    let mut i: usize = 0;
    while i < items.len()
        invariant
            i <= items.len(),
            largest == largest_size(items@, i as int),
        decreases items.len() - i,
    {
        if items[i].size > largest {
            largest = items[i].size;
        }
        i += 1;
    }
    decimal_chars(largest).len()
}

/// A published document as it is listed: number, title and extension on
/// one line, the description below.
pub open spec fn publish_text(item: TexUserPublish) -> Seq<char> {
    signed_decimal(item.id as int) + ". "@ + item.title@ + " ("@ + item.ext@ + "):\n"@
        + item.desc@
}

/// A published document as it is listed.
pub fn display_publish_item(item: &TexUserPublish) -> (out: String)
    ensures
        out@ == publish_text(*item),
{
    let mut out = String::new();
    append_signed(&mut out, item.id);
    assert(out@ == signed_decimal(item.id as int));
    out.append(". ");
    out.append(item.title.as_str());
    out.append(" (");
    out.append(item.ext.as_str());
    out.append("):\n");
    out.append(item.desc.as_str());
    out
}

/// Whether the text `a` comes before the text `b` in the order of their
/// characters' code points: at the first place where they differ `a` has
/// the smaller character, or `a` ends there and `b` goes on.
pub open spec fn text_before(a: Seq<char>, b: Seq<char>) -> bool
    decreases a.len(),
{
    if b.len() == 0 {
        false
    } else if a.len() == 0 {
        true
    } else if a[0] != b[0] {
        (a[0] as u32) < (b[0] as u32)
    } else {
        text_before(a.drop_first(), b.drop_first())
    }
}

/// Of two texts at most one comes before the other.
pub proof fn lemma_text_before_asymmetric(a: Seq<char>, b: Seq<char>)
    ensures
        !(text_before(a, b) && text_before(b, a)),
    decreases a.len(),
{
    if a.len() > 0 && b.len() > 0 && a[0] == b[0] {
        lemma_text_before_asymmetric(a.drop_first(), b.drop_first());
    }
}

/// What comes before a text comes before everything that the text comes
/// before.
pub proof fn lemma_text_before_transitive(a: Seq<char>, b: Seq<char>, c: Seq<char>)
    requires
        text_before(a, b),
        text_before(b, c),
    ensures
        text_before(a, c),
    decreases a.len(),
{
    if a.len() > 0 && a[0] == b[0] && b[0] == c[0] {
        lemma_text_before_transitive(a.drop_first(), b.drop_first(), c.drop_first());
    }
}

/// Whether the string `a` comes before the string `b`.
#[verifier::loop_isolation(false)]
pub fn comes_before(a: &str, b: &str) -> (r: bool)
    ensures
        r == text_before(a@, b@),
{
    let x = chars_of(a);
    let y = chars_of(b);
    let mut i: usize = 0;
    assert(x@.skip(0) == x@ && y@.skip(0) == y@);
    while i < x.len() && i < y.len()
        invariant
            i <= x.len(),
            i <= y.len(),
            text_before(x@, y@) == text_before(x@.skip(i as int), y@.skip(i as int)),
        decreases x.len() - i,
    {
        assert(x@.skip(i as int).drop_first() == x@.skip(i + 1));
        assert(y@.skip(i as int).drop_first() == y@.skip(i + 1));
        if x[i] != y[i] {
            return (x[i] as u32) < (y[i] as u32);
        }
        i += 1;
    }
    i < y.len()
}

/// Where an item with the given name goes among sorted items: before the
/// first one that its name comes before, and so after every item of the
/// same name.
pub open spec fn name_slot(sorted: Seq<DirItem>, name: Seq<char>) -> int
    decreases sorted.len(),
{
    if sorted.len() == 0 {
        0
    } else if text_before(name, sorted[0].name@) {
        0
    } else {
        1 + name_slot(sorted.drop_first(), name)
    }
}

/// The items in the order of their names; items of the same name in the
/// order in which they stood.
pub open spec fn sorted_by_name(items: Seq<DirItem>) -> Seq<DirItem>
    decreases items.len(),
{
    if items.len() == 0 {
        Seq::empty()
    } else {
        let before = sorted_by_name(items.drop_last());
        before.insert(name_slot(before, items.last().name@), items.last())
    }
}

/// No item stands behind one that its name comes before.
pub open spec fn names_in_order(items: Seq<DirItem>) -> bool {
    forall|i: int, j: int|
        0 <= i < j < items.len() ==> !text_before(
            (#[trigger] items[j]).name@,
            (#[trigger] items[i]).name@,
        )
}

/// The slot of a name lies within the list; the name comes before what
/// stands at its slot, and before nothing that stands earlier.
pub proof fn lemma_name_slot(sorted: Seq<DirItem>, name: Seq<char>)
    ensures
        0 <= name_slot(sorted, name) <= sorted.len(),
        name_slot(sorted, name) < sorted.len() ==> text_before(
            name,
            sorted[name_slot(sorted, name)].name@,
        ),
        forall|k: int|
            0 <= k < name_slot(sorted, name) ==> !text_before(name, (#[trigger] sorted[k]).name@),
    decreases sorted.len(),
{
    if sorted.len() > 0 && !text_before(name, sorted[0].name@) {
        let rest = sorted.drop_first();
        lemma_name_slot(rest, name);
        assert forall|k: int| 0 <= k < name_slot(sorted, name) implies !text_before(
            name,
            (#[trigger] sorted[k]).name@,
        ) by {
            if k > 0 {
                assert(sorted[k] == rest[k - 1]);
            }
        }
        if name_slot(sorted, name) < sorted.len() {
            assert(sorted[name_slot(sorted, name)] == rest[name_slot(rest, name)]);
        }
    }
}

/// The sorted items are the given items, each as often as it was given,
/// and they are in the order of their names.
pub proof fn lemma_sorted_by_name(items: Seq<DirItem>)
    ensures
        sorted_by_name(items).len() == items.len(),
        sorted_by_name(items).to_multiset() == items.to_multiset(),
        names_in_order(sorted_by_name(items)),
    decreases items.len(),
{
    broadcast use vstd::seq_lib::to_multiset_build, vstd::seq_lib::to_multiset_insert;

    if items.len() == 0 {
        assert(items == Seq::<DirItem>::empty());
    } else {
        let head = items.drop_last();
        let last = items.last();
        let before = sorted_by_name(head);
        lemma_sorted_by_name(head);
        lemma_name_slot(before, last.name@);
        let at = name_slot(before, last.name@);
        let after = before.insert(at, last);
        assert(items == head.push(last));
        assert(after.to_multiset() == before.to_multiset().insert(last));
        assert forall|i: int, j: int| 0 <= i < j < after.len() implies !text_before(
            (#[trigger] after[j]).name@,
            (#[trigger] after[i]).name@,
        ) by {
            if j < at {
                assert(after[i] == before[i] && after[j] == before[j]);
            } else if j == at {
                assert(after[i] == before[i]);
            } else if i < at {
                assert(after[i] == before[i] && after[j] == before[j - 1]);
            } else if i == at {
                assert(after[j] == before[j - 1]);
                assert(text_before(last.name@, before[at].name@));
                if text_before(before[j - 1].name@, last.name@) {
                    lemma_text_before_transitive(
                        before[j - 1].name@,
                        last.name@,
                        before[at].name@,
                    );
                    if j - 1 == at {
                        lemma_text_before_asymmetric(last.name@, before[at].name@);
                    }
                }
            } else {
                assert(after[i] == before[i - 1] && after[j] == before[j - 1]);
            }
        }
    }
}

/// Puts the items of a directory in the order of their names. Items of
/// the same name keep their order.
pub fn sort_by_name(items: &mut Vec<DirItem>)
    ensures
        final(items)@ == sorted_by_name(old(items)@),
        final(items)@.to_multiset() == old(items)@.to_multiset(),
        names_in_order(final(items)@),
{
    let ghost all = items@;
    let mut out: Vec<DirItem> = Vec::new();
    let ghost mut done: int = 0;
    assert(all.take(0) == Seq::<DirItem>::empty());
    while items.len() > 0
        invariant
            0 <= done <= all.len(),
            items@ == all.skip(done),
            out@ == sorted_by_name(all.take(done)),
        decreases items.len(),
    {
        let item = items.remove(0);
        proof {
            assert(item == all[done]);
            lemma_sorted_by_name(all.take(done));
            assert(all.take(done + 1).drop_last() == all.take(done));
            assert(all.take(done + 1).last() == all[done]);
            assert(items@ == all.skip(done + 1));
        }
        let mut at: usize = 0;
        assert(out@.skip(0) == out@);
        while at < out.len() && !comes_before(item.name.as_str(), out[at].name.as_str())
            invariant
                at <= out.len(),
                name_slot(out@, item.name@) == at + name_slot(out@.skip(at as int), item.name@),
            decreases out.len() - at,
        {
            assert(out@.skip(at as int).drop_first() == out@.skip(at + 1));
            at += 1;
        }
        out.insert(at, item);
        proof {
            done = done + 1;
        }
    }
    proof {
        assert(all.take(all.len() as int) == all);
        lemma_sorted_by_name(all);
    }
    *items = out;
}

} // verus!
