//! The text of a document, said directly, and the proof that an
//! extraction hands out exactly that text.
//!
//! [`PageReading`] holds what the engine has to say about one page.
//! [`document_text`] puts the text together from the readings of all
//! pages without a word about calls and replies. An extraction that is
//! given the replies of an engine that reads so ends with that text.

use vstd::prelude::*;
use crate::engine::ReplyView;
use crate::error::ErrorView;
use crate::extract::{ExtractionModel, Phase, StepModel, PAGE_SEPARATOR};
use crate::utf16::{lemma_decoding_restores_text, utf16_lossy, utf16_of};

verus! {

/// What the engine has to say about one page.
pub struct PageReading {
    /// The page loads.
    pub page_loaded: bool,
    /// The text page of the page loads.
    pub text_page_loaded: bool,
    /// The number of characters that the engine counts on the page.
    pub chars: i32,
    /// The number of code units that the engine reports as written
    /// when the text is read.
    pub written: i32,
    /// The buffer after the text was read.
    pub units: Seq<u16>,
}

impl PageReading {
    /// The reply to the reading of the text.
    pub open spec fn text_reply(self) -> ReplyView {
        ReplyView::Text { written: self.written, units: self.units }
    }

    /// Whether the page has text to read: it loads, its text page
    /// loads, and the engine counts characters on it.
    pub open spec fn has_text(self) -> bool {
        self.page_loaded && self.text_page_loaded && self.chars > 0
    }

    /// The text of the page: what was written, but for the terminator,
    /// decoded; empty where the page has no text to read.
    pub open spec fn text(self) -> Seq<char> {
        if self.has_text() {
            utf16_lossy(self.text_reply().text_units())
        } else {
            Seq::empty()
        }
    }

    /// The replies that the engine gives while the page is at hand.
    pub open spec fn replies(self) -> Seq<ReplyView> {
        if !self.page_loaded {
            seq![ReplyView::Handle(false)]
        } else if !self.text_page_loaded {
            seq![ReplyView::Handle(true), ReplyView::Handle(false), ReplyView::Done]
        } else if self.chars <= 0 {
            seq![
                ReplyView::Handle(true),
                ReplyView::Handle(true),
                ReplyView::Count(self.chars),
                ReplyView::Done,
                ReplyView::Done,
            ]
        } else {
            seq![
                ReplyView::Handle(true),
                ReplyView::Handle(true),
                ReplyView::Count(self.chars),
                self.text_reply(),
                ReplyView::Done,
                ReplyView::Done,
            ]
        }
    }
}

/// A page on which the engine writes the UTF-16 form of a text, and
/// the terminator after it, has that text.
pub proof fn lemma_written_text_is_read(reading: PageReading, text: Seq<char>)
    requires
        reading.has_text(),
        reading.written == utf16_of(text).len() + 1,
        reading.written <= reading.units.len(),
        reading.units.take(reading.written - 1) == utf16_of(text),
    ensures
        reading.text() == text,
{
    lemma_decoding_restores_text(text);
}

/// What the page at `index` adds to the text of the document: nothing
/// where it does not load; else its text, and after it the separator
/// unless it is the last page of the document.
pub open spec fn page_part(pages: Seq<PageReading>, index: int) -> Seq<char> {
    if !pages[index].page_loaded {
        Seq::empty()
    } else if index + 1 < pages.len() {
        pages[index].text() + PAGE_SEPARATOR@
    } else {
        pages[index].text()
    }
}

/// The text of the pages from `from` on.
pub open spec fn text_from(pages: Seq<PageReading>, from: int) -> Seq<char>
    decreases pages.len() - from,
{
    if from < 0 || from >= pages.len() {
        Seq::empty()
    } else {
        page_part(pages, from) + text_from(pages, from + 1)
    }
}

/// The text of a document with these pages.
pub open spec fn document_text(pages: Seq<PageReading>) -> Seq<char> {
    text_from(pages, 0)
}

/// The replies of the engine for the pages from `from` on.
pub open spec fn replies_from(pages: Seq<PageReading>, from: int) -> Seq<ReplyView>
    decreases pages.len() - from,
{
    if from < 0 || from >= pages.len() {
        Seq::empty()
    } else {
        pages[from].replies() + replies_from(pages, from + 1)
    }
}

/// The replies of an engine that is set up, loads the document and
/// reads its pages as `pages` says, from the first call of an
/// extraction to its last.
pub open spec fn document_replies(pages: Seq<PageReading>) -> Seq<ReplyView> {
    seq![ReplyView::Initialized(true), ReplyView::Handle(true), ReplyView::Count(pages.len() as i32)]
        + replies_from(pages, 0) + seq![ReplyView::Done]
}

/// With one reply taken, a run goes on from the state that the reply
/// leads to.
proof fn lemma_run_first(state: ExtractionModel, first: ReplyView, rest: Seq<ReplyView>)
    ensures
        state.run(seq![first] + rest).outcome == (match state.advance(first) {
            StepModel::Finish(outcome) => Some(outcome),
            StepModel::Continue(next) => next.run(rest).outcome,
        }),
{
    let replies = seq![first] + rest;
    assert(replies.skip(1) =~= rest);
}

/// The state after the page at hand: its part added to the text, and
/// the next page or the closing of the document due.
spec fn after_page(state: ExtractionModel, pages: Seq<PageReading>) -> ExtractionModel {
    ExtractionModel { text: state.text + page_part(pages, state.page), ..state }.turn_to(
        state.page + 1,
    )
}

/// Fed with the replies for the page at hand, a run goes on from the
/// state after that page.
proof fn lemma_run_page(state: ExtractionModel, pages: Seq<PageReading>, rest: Seq<ReplyView>)
    requires
        state.wf(),
        state.phase == Phase::LoadingPage,
        state.page_count == pages.len(),
    ensures
        state.run(pages[state.page].replies() + rest).outcome == after_page(state, pages).run(
            rest,
        ).outcome,
{
    let reading = pages[state.page];
    let done = ReplyView::Done;
    let yes = ReplyView::Handle(true);
    let no = ReplyView::Handle(false);
    if !reading.page_loaded {
        lemma_run_first(state, no, rest);
    } else {
        let loaded = state.wait_for(Phase::LoadingTextPage);
        if !reading.text_page_loaded {
            let closing = state.wait_for(Phase::ClosingPage);
            assert(reading.replies() + rest =~= seq![yes] + (seq![no] + (seq![done] + rest)));
            lemma_run_first(state, yes, seq![no] + (seq![done] + rest));
            lemma_run_first(loaded, no, seq![done] + rest);
            lemma_run_first(closing, done, rest);
        } else {
            let counting = state.wait_for(Phase::CountingChars);
            let count = ReplyView::Count(reading.chars);
            if reading.chars <= 0 {
                let closing_text = state.wait_for(Phase::ClosingTextPage);
                let closing = state.wait_for(Phase::ClosingPage);
                assert(reading.replies() + rest =~= seq![yes] + (seq![yes] + (seq![count] + (
                seq![done] + (seq![done] + rest)))));
                lemma_run_first(
                    state,
                    yes,
                    seq![yes] + (seq![count] + (seq![done] + (seq![done] + rest))),
                );
                lemma_run_first(loaded, yes, seq![count] + (seq![done] + (seq![done] + rest)));
                lemma_run_first(counting, count, seq![done] + (seq![done] + rest));
                lemma_run_first(closing_text, done, seq![done] + rest);
                lemma_run_first(closing, done, rest);
            } else {
                let text = reading.text_reply();
                let reading_text = ExtractionModel {
                    phase: Phase::ReadingText,
                    chars: reading.chars as int,
                    ..state
                };
                let read = ExtractionModel {
                    phase: Phase::ClosingTextPage,
                    text: state.text + reading.text(),
                    ..state
                };
                let closing = read.wait_for(Phase::ClosingPage);
                assert(reading.replies() + rest =~= seq![yes] + (seq![yes] + (seq![count] + (
                seq![text] + (seq![done] + (seq![done] + rest))))));
                lemma_run_first(
                    state,
                    yes,
                    seq![yes] + (seq![count] + (seq![text] + (seq![done] + (seq![done] + rest)))),
                );
                lemma_run_first(
                    loaded,
                    yes,
                    seq![count] + (seq![text] + (seq![done] + (seq![done] + rest))),
                );
                lemma_run_first(
                    counting,
                    count,
                    seq![text] + (seq![done] + (seq![done] + rest)),
                );
                lemma_run_first(reading_text, text, seq![done] + (seq![done] + rest));
                lemma_run_first(read, done, seq![done] + rest);
                lemma_run_first(closing, done, rest);
                assert(state.text + page_part(pages, state.page) =~= if state.page + 1
                    < state.page_count {
                    state.text + reading.text() + PAGE_SEPARATOR@
                } else {
                    state.text + reading.text()
                });
            }
        }
    }
}

/// From the moment the page at `from` is due, or the closing of the
/// document where no page is left, an extraction that is given the
/// replies for the remaining pages ends with the text gathered so far
/// and the text of those pages after it.
proof fn lemma_run_pages(state: ExtractionModel, pages: Seq<PageReading>, from: int)
    requires
        state.wf(),
        state.page_count == pages.len(),
        0 <= from <= pages.len(),
        from < pages.len() ==> state.phase == Phase::LoadingPage && state.page == from,
        from == pages.len() ==> state.phase == Phase::ClosingDocument,
    ensures
        state.run(replies_from(pages, from) + seq![ReplyView::Done]).outcome == Some(
            Ok::<Seq<char>, ErrorView>(state.text + text_from(pages, from)),
        ),
    decreases pages.len() - from,
{
    let closing = seq![ReplyView::Done];
    if from == pages.len() {
        lemma_run_first(state, ReplyView::Done, Seq::empty());
    } else {
        let rest = replies_from(pages, from + 1) + closing;
        let next = after_page(state, pages);
        assert(replies_from(pages, from) + closing =~= pages[from].replies() + rest);
        lemma_run_page(state, pages, rest);
        lemma_run_pages(next, pages, from + 1);
        assert(next.text + text_from(pages, from + 1) =~= state.text + text_from(pages, from));
    }
}

/// An extraction from a non-empty input, on an engine that is set up,
/// loads the document and reads its pages as `pages` says, ends with
/// the text of the document.
pub proof fn lemma_extraction_yields_document_text(input_len: nat, pages: Seq<PageReading>)
    requires
        0 < input_len,
        pages.len() <= i32::MAX,
    ensures
        ExtractionModel::begin(input_len).run(document_replies(pages)).outcome == Some(
            Ok::<Seq<char>, ErrorView>(document_text(pages)),
        ),
{
    let start = ExtractionModel::begin(input_len);
    let loading = start.wait_for(Phase::LoadingDocument);
    let counting = start.wait_for(Phase::CountingPages);
    let counted = ExtractionModel { page_count: pages.len() as int, ..counting }.turn_to(0);
    let ready = ReplyView::Initialized(true);
    let yes = ReplyView::Handle(true);
    let count = ReplyView::Count(pages.len() as i32);
    let rest = replies_from(pages, 0) + seq![ReplyView::Done];
    assert(document_replies(pages) =~= seq![ready] + (seq![yes] + (seq![count] + rest)));
    lemma_run_first(start, ready, seq![yes] + (seq![count] + rest));
    lemma_run_first(loading, yes, seq![count] + rest);
    lemma_run_first(counting, count, rest);
    lemma_run_pages(counted, pages, 0);
}

/// The texts from `from` on, with the separator between each two of
/// them: none before the first, none after the last.
pub open spec fn joined_from(texts: Seq<Seq<char>>, from: int) -> Seq<char>
    decreases texts.len() - from,
{
    if from < 0 || from >= texts.len() {
        Seq::empty()
    } else if from + 1 == texts.len() {
        texts[from]
    } else {
        texts[from] + PAGE_SEPARATOR@ + joined_from(texts, from + 1)
    }
}

/// The texts of the pages, page by page.
pub open spec fn page_texts(pages: Seq<PageReading>) -> Seq<Seq<char>> {
    Seq::new(pages.len(), |i: int| pages[i].text())
}

/// Every page loads.
pub open spec fn all_pages_load(pages: Seq<PageReading>) -> bool {
    forall|i: int| 0 <= i < pages.len() ==> (#[trigger] pages[i]).page_loaded
}

/// Where every page loads, the text from a page on is the texts of
/// the pages from there on with the separator between them.
proof fn lemma_text_from_is_joined(pages: Seq<PageReading>, from: int)
    requires
        all_pages_load(pages),
        0 <= from <= pages.len(),
    ensures
        text_from(pages, from) == joined_from(page_texts(pages), from),
    decreases pages.len() - from,
{
    if from < pages.len() {
        lemma_text_from_is_joined(pages, from + 1);
    }
}

/// Where every page of the document loads, its text is the texts of
/// its pages in their order, joined by the separator: one separator
/// between each two pages, none before the first page and none after
/// the last. A page without text stands between its separators as the
/// empty text.
pub proof fn lemma_pages_are_joined_by_separator(pages: Seq<PageReading>)
    requires
        all_pages_load(pages),
    ensures
        document_text(pages) == joined_from(page_texts(pages), 0),
{
    lemma_text_from_is_joined(pages, 0);
}

} // verus!
