//! Where the separator stands in the text of a document, and how
//! often.
//!
//! The extraction writes one separator after each page that loads and
//! is not the last. The text of a page is whatever the engine reads,
//! so it may hold a separator of its own, or a piece that becomes one
//! beside a separator that was written. Where no page does that, the
//! separators in the text of a document are the ones that were
//! written: one less than the document has pages.

use vstd::prelude::*;
use crate::document::{document_text, text_from, PageReading};
use crate::extract::PAGE_SEPARATOR;

verus! {

/// The words of the separator, without the line breaks around them.
pub const PAGE_MARKER: &'static str = "---PAGE BREAK---";

/// `pattern` stands in `text` at position `at`.
pub open spec fn occurs_at(text: Seq<char>, pattern: Seq<char>, at: int) -> bool {
    0 <= at && at + pattern.len() <= text.len() && text.subrange(at, at + pattern.len())
        == pattern
}

/// The number of positions from `from` up to, not including, `to` at
/// which `pattern` stands in `text`.
pub open spec fn occurrences_within(text: Seq<char>, pattern: Seq<char>, from: int, to: int) -> nat
    decreases to - from,
{
    if from >= to {
        0
    } else if occurs_at(text, pattern, from) {
        1 + occurrences_within(text, pattern, from + 1, to)
    } else {
        occurrences_within(text, pattern, from + 1, to)
    }
}

/// The number of positions at which `pattern` stands in `text`.
pub open spec fn occurrences(text: Seq<char>, pattern: Seq<char>) -> nat {
    occurrences_within(text, pattern, 0, text.len() as int + 1)
}

/// `text` holds `pattern` nowhere.
pub open spec fn holds_none(text: Seq<char>, pattern: Seq<char>) -> bool {
    forall|at: int| !(#[trigger] occurs_at(text, pattern, at))
}

/// `text` begins with `pattern`.
pub open spec fn starts_with(text: Seq<char>, pattern: Seq<char>) -> bool {
    occurs_at(text, pattern, 0)
}

/// `text` ends with `pattern`.
pub open spec fn ends_with(text: Seq<char>, pattern: Seq<char>) -> bool {
    occurs_at(text, pattern, text.len() - pattern.len())
}

/// The separator without its last line break: what a text must end
/// with to make a separator of its own with the one behind it.
pub open spec fn separator_head() -> Seq<char> {
    PAGE_SEPARATOR@.subrange(0, PAGE_SEPARATOR@.len() - 1)
}

/// The separator without its first line break: what a text must begin
/// with to make a separator of its own with the one before it.
pub open spec fn separator_tail() -> Seq<char> {
    PAGE_SEPARATOR@.subrange(1, PAGE_SEPARATOR@.len() as int)
}

/// The text of the page at `index` makes no separator, neither by
/// itself nor with the separators that stand beside it: it holds none;
/// before a separator it does not end with the head of one; behind a
/// separator it does not begin with the tail of one; and between two
/// separators it is not the bare words of one.
pub open spec fn page_stays_clear(pages: Seq<PageReading>, index: int) -> bool {
    let text = pages[index].text();
    &&& holds_none(text, PAGE_SEPARATOR@)
    &&& index + 1 < pages.len() ==> !ends_with(text, separator_head())
    &&& 0 < index ==> !starts_with(text, separator_tail())
    &&& 0 < index && index + 1 < pages.len() ==> text != PAGE_MARKER@
}

/// No page makes a separator of its own.
pub open spec fn pages_stay_clear(pages: Seq<PageReading>) -> bool {
    forall|i: int| 0 <= i < pages.len() ==> #[trigger] page_stays_clear(pages, i)
}

/// No text of a page holds the words of the separator.
pub open spec fn no_page_holds_marker(pages: Seq<PageReading>) -> bool {
    forall|i: int| 0 <= i < pages.len() ==> #[trigger] holds_none(pages[i].text(), PAGE_MARKER@)
}

/// Every page loads, but for the last, which may or may not.
pub open spec fn pages_before_last_load(pages: Seq<PageReading>) -> bool {
    forall|i: int| 0 <= i < pages.len() - 1 ==> (#[trigger] pages[i]).page_loaded
}

/// The separator is its words with a line break before and after, and
/// no line break among the words.
proof fn lemma_separator_shape()
    ensures
        PAGE_SEPARATOR@.len() == 18,
        PAGE_MARKER@.len() == 16,
        PAGE_SEPARATOR@[0] == '\n',
        PAGE_SEPARATOR@[17] == '\n',
        PAGE_SEPARATOR@.subrange(1, 17) == PAGE_MARKER@,
        forall|k: int| 1 <= k < 17 ==> PAGE_SEPARATOR@[k] != '\n',
{
    reveal_strlit("\n---PAGE BREAK---\n");
    reveal_strlit("---PAGE BREAK---");
}

/// Where the pattern stands nowhere in a range, the range counts no
/// occurrence.
proof fn lemma_none_within(text: Seq<char>, pattern: Seq<char>, from: int, to: int)
    requires
        forall|i: int| from <= i < to ==> !occurs_at(text, pattern, i),
    ensures
        occurrences_within(text, pattern, from, to) == 0,
    decreases to - from,
{
    if from < to {
        lemma_none_within(text, pattern, from + 1, to);
    }
}

/// The occurrences in a range are those in its two parts.
proof fn lemma_split_within(text: Seq<char>, pattern: Seq<char>, from: int, mid: int, to: int)
    requires
        from <= mid <= to,
    ensures
        occurrences_within(text, pattern, from, to) == occurrences_within(
            text,
            pattern,
            from,
            mid,
        ) + occurrences_within(text, pattern, mid, to),
    decreases mid - from,
{
    if from < mid {
        lemma_split_within(text, pattern, from + 1, mid, to);
    }
}

/// Where one text holds the pattern at `by + i` exactly when another
/// holds it at `i`, the two count the same over ranges that lie `by`
/// apart.
proof fn lemma_shifted_within(
    text: Seq<char>,
    other: Seq<char>,
    pattern: Seq<char>,
    by: int,
    from: int,
    to: int,
)
    requires
        forall|i: int|
            from <= i < to ==> (occurs_at(text, pattern, by + i) <==> occurs_at(other, pattern, i)),
    ensures
        occurrences_within(text, pattern, by + from, by + to) == occurrences_within(
            other,
            pattern,
            from,
            to,
        ),
    decreases to - from,
{
    if from < to {
        lemma_shifted_within(text, other, pattern, by, from + 1, to);
    }
}

/// A text without the separator counts none.
proof fn lemma_holds_none_counts_none(text: Seq<char>)
    requires
        holds_none(text, PAGE_SEPARATOR@),
    ensures
        occurrences(text, PAGE_SEPARATOR@) == 0,
{
    lemma_none_within(text, PAGE_SEPARATOR@, 0, text.len() as int + 1);
}

/// In a text that holds no separator and does not end with the head
/// of one, followed by a separator, no separator stands before the
/// end of that text.
proof fn lemma_no_separator_before(own: Seq<char>, rest: Seq<char>, at: int)
    requires
        holds_none(own, PAGE_SEPARATOR@),
        !ends_with(own, separator_head()),
        0 <= at < own.len(),
    ensures
        !occurs_at(own + PAGE_SEPARATOR@ + rest, PAGE_SEPARATOR@, at),
{
    lemma_separator_shape();
    let separator = PAGE_SEPARATOR@;
    let text = own + separator + rest;
    let n = own.len() as int;
    if occurs_at(text, separator, at) {
        let found = text.subrange(at, at + 18);
        if at + 18 <= n {
            assert(own.subrange(at, at + 18) =~= found);
            assert(occurs_at(own, separator, at));
        } else {
            // The occurrence reaches into the separator behind: the
            // line break that starts that one lies within it.
            assert(own.subrange(at, n) =~= found.subrange(0, 17));
        }
    }
}

/// No separator stands at a position inside a separator, where what
/// follows does not begin with the tail of one.
proof fn lemma_no_separator_inside(own: Seq<char>, rest: Seq<char>, at: int)
    requires
        !starts_with(rest, separator_tail()),
        own.len() < at < own.len() + 18,
    ensures
        !occurs_at(own + PAGE_SEPARATOR@ + rest, PAGE_SEPARATOR@, at),
{
    lemma_separator_shape();
    let separator = PAGE_SEPARATOR@;
    let text = own + separator + rest;
    if occurs_at(text, separator, at) {
        // A separator starts with a line break, and the only one
        // inside the written separator is its last character: from
        // there on, what follows would have to be the tail.
        let found = text.subrange(at, at + 18);
        assert(rest.subrange(0, 17) =~= found.subrange(1, 18));
    }
}

/// Behind a text and a separator, the separator stands where it
/// stands in what follows.
proof fn lemma_separator_behind(own: Seq<char>, rest: Seq<char>, at: int)
    requires
        0 <= at,
    ensures
        occurs_at(own + PAGE_SEPARATOR@ + rest, PAGE_SEPARATOR@, own.len() + 18 + at) <==> occurs_at(
            rest,
            PAGE_SEPARATOR@,
            at,
        ),
{
    lemma_separator_shape();
    let text = own + PAGE_SEPARATOR@ + rest;
    let n = own.len() as int;
    if at + 18 <= rest.len() {
        assert(text.subrange(n + 18 + at, n + 18 + at + 18) =~= rest.subrange(at, at + 18));
    }
}

/// A text that makes no separator with the one behind it, that
/// separator, and a text that makes none with the one before it: the
/// separator stands once more in the whole than in the last of the
/// three.
proof fn lemma_one_separator_more(own: Seq<char>, rest: Seq<char>)
    requires
        holds_none(own, PAGE_SEPARATOR@),
        !ends_with(own, separator_head()),
        !starts_with(rest, separator_tail()),
    ensures
        occurrences(own + PAGE_SEPARATOR@ + rest, PAGE_SEPARATOR@) == 1 + occurrences(
            rest,
            PAGE_SEPARATOR@,
        ),
{
    lemma_separator_shape();
    let separator = PAGE_SEPARATOR@;
    let text = own + separator + rest;
    let n = own.len() as int;
    let end = text.len() as int + 1;
    assert forall|i: int| 0 <= i < n implies !occurs_at(text, separator, i) by {
        lemma_no_separator_before(own, rest, i);
    }
    assert(occurs_at(text, separator, n)) by {
        assert(text.subrange(n, n + 18) =~= separator);
    }
    assert forall|i: int| n + 1 <= i < n + 18 implies !occurs_at(text, separator, i) by {
        lemma_no_separator_inside(own, rest, i);
    }
    assert forall|i: int| 0 <= i < rest.len() + 1 implies (occurs_at(text, separator, n + 18 + i)
        <==> occurs_at(rest, separator, i)) by {
        lemma_separator_behind(own, rest, i);
    }
    lemma_none_within(text, separator, 0, n);
    lemma_none_within(text, separator, n + 1, n + 18);
    lemma_shifted_within(text, rest, separator, n + 18, 0, rest.len() as int + 1);
    lemma_split_within(text, separator, 0, n, end);
    lemma_split_within(text, separator, n, n + 1, end);
    lemma_split_within(text, separator, n + 1, n + 18, end);
    assert(occurrences_within(text, separator, n, n + 1) == 1);
}

/// The text of the pages from `from` on, where a separator stands
/// before it, does not begin with the tail of a separator.
proof fn lemma_pages_start_clear(pages: Seq<PageReading>, from: int)
    requires
        pages_before_last_load(pages),
        pages_stay_clear(pages),
        0 < from <= pages.len(),
    ensures
        !starts_with(text_from(pages, from), separator_tail()),
{
    lemma_separator_shape();
    let tail = separator_tail();
    let text = text_from(pages, from);
    if from < pages.len() && starts_with(text, tail) {
        let own = pages[from].text();
        let found = text.subrange(0, 17);
        assert(page_stays_clear(pages, from));
        assert(text_from(pages, from + 1) =~= Seq::<char>::empty() || from + 1 < pages.len());
        if pages[from].page_loaded && own.len() >= 17 {
            assert(own.subrange(0, 17) =~= found);
        } else if pages[from].page_loaded && from + 1 < pages.len() {
            // The page is shorter than the tail and a separator
            // follows it: the line break that starts that one lies
            // within the tail, so the page is the bare words.
            let n = own.len() as int;
            assert(found[n] == text[n]);
            assert(own =~= found.subrange(0, 16));
            assert(found.subrange(0, 16) =~= PAGE_SEPARATOR@.subrange(1, 17));
        }
    }
}

/// In the text of the pages from `from` on, the separator stands once
/// for each of them but the last.
proof fn lemma_separators_from(pages: Seq<PageReading>, from: int)
    requires
        pages_before_last_load(pages),
        pages_stay_clear(pages),
        0 <= from < pages.len(),
    ensures
        occurrences(text_from(pages, from), PAGE_SEPARATOR@) == pages.len() - 1 - from,
    decreases pages.len() - from,
{
    let own = pages[from].text();
    let rest = text_from(pages, from + 1);
    assert(page_stays_clear(pages, from));
    if from + 1 == pages.len() {
        lemma_holds_none_counts_none(own);
    } else {
        lemma_pages_start_clear(pages, from + 1);
        lemma_one_separator_more(own, rest);
        lemma_separators_from(pages, from + 1);
    }
}

/// Where every page of a document but perhaps the last loads, and no
/// page makes a separator of its own, the separator stands in the text
/// of the document exactly once for each page but the last: in a
/// document of one page, or of none, not at all.
pub proof fn lemma_one_separator_less_than_pages(pages: Seq<PageReading>)
    requires
        pages_before_last_load(pages),
        pages_stay_clear(pages),
    ensures
        occurrences(document_text(pages), PAGE_SEPARATOR@) == (if pages.len() == 0 {
            0
        } else {
            pages.len() - 1
        }),
{
    if pages.len() == 0 {
        lemma_separator_shape();
        lemma_holds_none_counts_none(Seq::empty());
    } else {
        lemma_separators_from(pages, 0);
    }
}

/// A page that does not hold the words of the separator makes no
/// separator of its own, wherever it stands in the document.
proof fn lemma_page_without_marker_stays_clear(pages: Seq<PageReading>, index: int)
    requires
        0 <= index < pages.len(),
        holds_none(pages[index].text(), PAGE_MARKER@),
    ensures
        page_stays_clear(pages, index),
{
    lemma_separator_shape();
    let text = pages[index].text();
    let separator = PAGE_SEPARATOR@;
    assert forall|at: int| !(#[trigger] occurs_at(text, separator, at)) by {
        if occurs_at(text, separator, at) {
            assert(text.subrange(at + 1, at + 17) =~= text.subrange(at, at + 18).subrange(1, 17));
            assert(occurs_at(text, PAGE_MARKER@, at + 1));
        }
    }
    if ends_with(text, separator_head()) {
        let at = text.len() - 17;
        assert(text.subrange(at + 1, at + 17) =~= text.subrange(at, at + 17).subrange(1, 17));
        assert(separator_head().subrange(1, 17) =~= separator.subrange(1, 17));
        assert(occurs_at(text, PAGE_MARKER@, at + 1));
    }
    if starts_with(text, separator_tail()) {
        assert(text.subrange(0, 16) =~= text.subrange(0, 17).subrange(0, 16));
        assert(separator_tail().subrange(0, 16) =~= separator.subrange(1, 17));
        assert(occurs_at(text, PAGE_MARKER@, 0));
    }
    if text == PAGE_MARKER@ {
        assert(text.subrange(0, 16) =~= text);
        assert(occurs_at(text, PAGE_MARKER@, 0));
    }
}

/// Where every page of a document but perhaps the last loads, and no
/// page holds the words of the separator in its own text, the
/// separator stands in the text of the document exactly once for each
/// page but the last.
pub proof fn lemma_separators_of_plain_pages(pages: Seq<PageReading>)
    requires
        pages_before_last_load(pages),
        no_page_holds_marker(pages),
    ensures
        occurrences(document_text(pages), PAGE_SEPARATOR@) == (if pages.len() == 0 {
            0
        } else {
            pages.len() - 1
        }),
{
    assert forall|i: int| 0 <= i < pages.len() implies #[trigger] page_stays_clear(pages, i) by {
        lemma_page_without_marker_stays_clear(pages, i);
    }
    lemma_one_separator_less_than_pages(pages);
}

/// A range in which the pattern stands counts one occurrence at
/// least.
proof fn lemma_some_within(text: Seq<char>, pattern: Seq<char>, from: int, to: int, at: int)
    requires
        from <= at < to,
        occurs_at(text, pattern, at),
    ensures
        occurrences_within(text, pattern, from, to) >= 1,
    decreases to - from,
{
    if from < at {
        lemma_some_within(text, pattern, from + 1, to, at);
    }
}

/// A text, a separator and what follows: the separator stands in the
/// whole as often as before the written one, once for that one, as
/// often as inside it, and as often as in what follows.
proof fn lemma_count_around_separator(own: Seq<char>, rest: Seq<char>)
    ensures
        occurrences(own + PAGE_SEPARATOR@ + rest, PAGE_SEPARATOR@) == occurrences_within(
            own + PAGE_SEPARATOR@ + rest,
            PAGE_SEPARATOR@,
            0,
            own.len() as int,
        ) + 1 + occurrences_within(
            own + PAGE_SEPARATOR@ + rest,
            PAGE_SEPARATOR@,
            own.len() as int + 1,
            own.len() as int + 18,
        ) + occurrences(rest, PAGE_SEPARATOR@),
{
    lemma_separator_shape();
    let separator = PAGE_SEPARATOR@;
    let text = own + separator + rest;
    let n = own.len() as int;
    let end = text.len() as int + 1;
    assert(occurs_at(text, separator, n)) by {
        assert(text.subrange(n, n + 18) =~= separator);
    }
    assert forall|i: int| 0 <= i < rest.len() + 1 implies (occurs_at(text, separator, n + 18 + i)
        <==> occurs_at(rest, separator, i)) by {
        lemma_separator_behind(own, rest, i);
    }
    lemma_shifted_within(text, rest, separator, n + 18, 0, rest.len() as int + 1);
    lemma_split_within(text, separator, 0, n, end);
    lemma_split_within(text, separator, n, n + 1, end);
    lemma_split_within(text, separator, n + 1, n + 18, end);
    assert(occurrences_within(text, separator, n, n + 1) == 1);
}

/// The page at `index` makes a separator by itself or with the one
/// behind it.
spec fn page_makes_separator_forward(pages: Seq<PageReading>, index: int) -> bool {
    let text = pages[index].text();
    !holds_none(text, PAGE_SEPARATOR@) || (index + 1 < pages.len() && ends_with(
        text,
        separator_head(),
    ))
}

/// The page at `index` makes a separator with the one before it.
spec fn page_makes_separator_backward(pages: Seq<PageReading>, index: int) -> bool {
    let text = pages[index].text();
    0 < index && (starts_with(text, separator_tail()) || (index + 1 < pages.len() && text
        == PAGE_MARKER@))
}

/// Where a separator stands before the page at `from`, and that page
/// makes one with it, the text from that page on begins with the tail
/// of a separator.
proof fn lemma_backward_shows_at_start(pages: Seq<PageReading>, from: int)
    requires
        pages_before_last_load(pages),
        0 <= from < pages.len(),
        page_makes_separator_backward(pages, from),
    ensures
        starts_with(text_from(pages, from), separator_tail()),
{
    lemma_separator_shape();
    let own = pages[from].text();
    let text = text_from(pages, from);
    let tail = separator_tail();
    if starts_with(own, tail) {
        assert(text.subrange(0, 17) =~= own.subrange(0, 17));
    } else {
        assert(text.subrange(0, 17) =~= PAGE_MARKER@ + PAGE_SEPARATOR@.subrange(0, 1));
        assert(tail =~= PAGE_MARKER@ + PAGE_SEPARATOR@.subrange(0, 1));
    }
}

/// In the text of the pages from `from` on, the separator stands once
/// at least for each of them but the last; and once more at least
/// where one of them makes a separator of its own within that text.
proof fn lemma_separators_at_least(pages: Seq<PageReading>, from: int, index: int)
    requires
        pages_before_last_load(pages),
        0 <= from < pages.len(),
        from <= index < pages.len(),
    ensures
        occurrences(text_from(pages, from), PAGE_SEPARATOR@) >= pages.len() - 1 - from,
        page_makes_separator_forward(pages, index) || (from < index
            && page_makes_separator_backward(pages, index)) ==> occurrences(
            text_from(pages, from),
            PAGE_SEPARATOR@,
        ) >= pages.len() - from,
    decreases pages.len() - from,
{
    lemma_separator_shape();
    let separator = PAGE_SEPARATOR@;
    let own = pages[from].text();
    let rest = text_from(pages, from + 1);
    let text = text_from(pages, from);
    let n = own.len() as int;
    if from + 1 == pages.len() {
        if page_makes_separator_forward(pages, index) {
            let at = choose|at: int| occurs_at(own, separator, at);
            lemma_some_within(text, separator, 0, text.len() as int + 1, at);
        }
    } else {
        lemma_count_around_separator(own, rest);
        if from < index {
            lemma_separators_at_least(pages, from + 1, index);
            if from + 1 == index && page_makes_separator_backward(pages, index) {
                lemma_backward_shows_at_start(pages, index);
                assert(text.subrange(n + 17, n + 35) =~= separator.subrange(17, 18)
                    + rest.subrange(0, 17));
                assert(separator =~= separator.subrange(17, 18) + separator_tail());
                lemma_some_within(text, separator, n + 1, n + 18, n + 17);
            }
        } else {
            lemma_separators_at_least(pages, from + 1, from + 1);
            if !holds_none(own, separator) {
                let at = choose|at: int| occurs_at(own, separator, at);
                assert(text.subrange(at, at + 18) =~= own.subrange(at, at + 18));
                lemma_some_within(text, separator, 0, n, at);
            } else if ends_with(own, separator_head()) {
                let at = n - 17;
                assert(text.subrange(at, at + 18) =~= own.subrange(at, n) + separator.subrange(
                    0,
                    1,
                ));
                assert(separator =~= separator_head() + separator.subrange(0, 1));
                lemma_some_within(text, separator, 0, n, at);
            }
        }
    }
}

/// The condition of [`lemma_one_separator_less_than_pages`] leaves out
/// no document that it could keep: where every page but perhaps the
/// last loads and some page makes a separator of its own, the
/// separator stands in the text more often than once for each page
/// but the last.
pub proof fn lemma_unclear_page_adds_separator(pages: Seq<PageReading>, index: int)
    requires
        pages_before_last_load(pages),
        0 <= index < pages.len(),
        !page_stays_clear(pages, index),
    ensures
        occurrences(document_text(pages), PAGE_SEPARATOR@) > pages.len() - 1,
{
    lemma_separators_at_least(pages, 0, index);
}

} // verus!
