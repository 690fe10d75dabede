//! The text extraction pipeline, one native call at a time.
//!
//! [`Extraction`] is the state of one extraction. It names the native
//! call that is due ([`Extraction::request`]) and, given the reply,
//! moves on or ends ([`Extraction::advance`]). The driver performs the
//! calls and holds the handles; the order of the calls, what each reply
//! leads to and the text that comes out are decided here.
//!
//! [`ExtractionModel`] is the same machine over mathematical values.
//! The executable functions are proved to do what the model does.

use vstd::prelude::*;
use vstd::string::*;
use crate::engine::{NativeCall, Reply, ReplyView};
use crate::error::{outcome_view, ErrorView, PdfiumError};
use crate::utf16::{decode_utf16_lossy, utf16_lossy};

verus! {

/// Stands between the texts of two pages, and nowhere else.
pub const PAGE_SEPARATOR: &'static str = "\n---PAGE BREAK---\n";

/// The reason given when the engine does not load the document.
pub const LOAD_FAILED: &'static str = "Failed to load PDF document";

/// The native call that an extraction waits for.
#[derive(Clone, Copy, Debug, PartialEq, Eq, Structural)]
pub enum Phase {
    Initializing,
    LoadingDocument,
    CountingPages,
    LoadingPage,
    LoadingTextPage,
    CountingChars,
    ReadingText,
    ClosingTextPage,
    ClosingPage,
    ClosingDocument,
}

/// The state of an extraction, as mathematical values.
pub struct ExtractionModel {
    /// The call that is due.
    pub phase: Phase,
    /// The length of the input buffer.
    pub input_len: nat,
    /// The number of pages that the engine reported.
    pub page_count: int,
    /// The index of the page at hand.
    pub page: int,
    /// The number of characters that the engine reported for the page
    /// at hand.
    pub chars: int,
    /// The text gathered so far.
    pub text: Seq<char>,
}

/// What a reply leads to, as mathematical values.
pub enum StepModel {
    /// Another call is due.
    Continue(ExtractionModel),
    /// The extraction has ended with this result.
    Finish(Result<Seq<char>, ErrorView>),
}

impl ExtractionModel {
    /// The state before the first call.
    pub open spec fn begin(input_len: nat) -> ExtractionModel {
        ExtractionModel {
            phase: Phase::Initializing,
            input_len,
            page_count: 0,
            page: 0,
            chars: 0,
            text: Seq::empty(),
        }
    }

    /// While a page is at hand its index lies below the page count.
    /// The character count is positive while the text of a page is
    /// read, and zero at any other time.
    pub open spec fn wf(self) -> bool {
        &&& i32::MIN <= self.page_count <= i32::MAX
        &&& 0 <= self.page <= i32::MAX
        &&& 0 <= self.chars <= i32::MAX
        &&& match self.phase {
            Phase::LoadingPage
            | Phase::LoadingTextPage
            | Phase::CountingChars
            | Phase::ClosingTextPage
            | Phase::ClosingPage => self.page < self.page_count && self.chars == 0,
            Phase::ReadingText => self.page < self.page_count && 0 < self.chars,
            _ => self.chars == 0,
        }
    }

    /// The call that is due.
    pub open spec fn request(self) -> NativeCall {
        match self.phase {
            Phase::Initializing => NativeCall::Initialize,
            Phase::LoadingDocument => NativeCall::LoadDocument,
            Phase::CountingPages => NativeCall::CountPages,
            Phase::LoadingPage => NativeCall::LoadPage { index: self.page as i32 },
            Phase::LoadingTextPage => NativeCall::LoadTextPage,
            Phase::CountingChars => NativeCall::CountChars,
            Phase::ReadingText => NativeCall::GetText {
                start: 0,
                count: self.chars as i32,
                capacity: (self.chars + 1) as usize,
            },
            Phase::ClosingTextPage => NativeCall::CloseTextPage,
            Phase::ClosingPage => NativeCall::ClosePage,
            Phase::ClosingDocument => NativeCall::CloseDocument,
        }
    }

    /// The state in which the page at `index` is loaded next, or, where
    /// the document has no such page, the document is closed.
    pub open spec fn turn_to(self, index: int) -> ExtractionModel {
        if index < self.page_count {
            ExtractionModel { phase: Phase::LoadingPage, page: index, ..self }
        } else {
            ExtractionModel { phase: Phase::ClosingDocument, ..self }
        }
    }

    /// The state that waits for `phase`, all else unchanged.
    pub open spec fn wait_for(self, phase: Phase) -> ExtractionModel {
        ExtractionModel { phase, ..self }
    }

    /// What the reply to the call that is due leads to.
    ///
    /// Without a set-up engine, with an empty input or without a
    /// document the extraction ends in its error. A page that does not
    /// load is passed over and leaves nothing in the text, not even a
    /// separator. A page without a text page, without characters or
    /// without text written is closed again and adds no text of its
    /// own. After each page that was loaded, but for the last page of
    /// the document, the separator follows. The text page is closed
    /// before the page and every page before the document, and only
    /// then the text is handed out.
    pub open spec fn advance(self, reply: ReplyView) -> StepModel {
        match self.phase {
            Phase::Initializing => if !reply.ready() {
                StepModel::Finish(Err(ErrorView::InitializationFailed))
            } else if self.input_len == 0 {
                StepModel::Finish(Err(ErrorView::InvalidData))
            } else {
                StepModel::Continue(self.wait_for(Phase::LoadingDocument))
            },
            Phase::LoadingDocument => if reply.granted() {
                StepModel::Continue(self.wait_for(Phase::CountingPages))
            } else {
                StepModel::Finish(Err(ErrorView::ExtractionFailed(LOAD_FAILED@)))
            },
            Phase::CountingPages => StepModel::Continue(
                ExtractionModel { page_count: reply.count() as int, ..self }.turn_to(0),
            ),
            Phase::LoadingPage => if reply.granted() {
                StepModel::Continue(self.wait_for(Phase::LoadingTextPage))
            } else {
                StepModel::Continue(self.turn_to(self.page + 1))
            },
            Phase::LoadingTextPage => if reply.granted() {
                StepModel::Continue(self.wait_for(Phase::CountingChars))
            } else {
                StepModel::Continue(self.wait_for(Phase::ClosingPage))
            },
            Phase::CountingChars => if reply.count() > 0 {
                StepModel::Continue(
                    ExtractionModel {
                        phase: Phase::ReadingText,
                        chars: reply.count() as int,
                        ..self
                    },
                )
            } else {
                StepModel::Continue(self.wait_for(Phase::ClosingTextPage))
            },
            Phase::ReadingText => StepModel::Continue(
                ExtractionModel {
                    phase: Phase::ClosingTextPage,
                    chars: 0,
                    text: self.text + utf16_lossy(reply.text_units()),
                    ..self
                },
            ),
            Phase::ClosingTextPage => StepModel::Continue(self.wait_for(Phase::ClosingPage)),
            Phase::ClosingPage => StepModel::Continue(
                ExtractionModel {
                    text: if self.page + 1 < self.page_count {
                        self.text + PAGE_SEPARATOR@
                    } else {
                        self.text
                    },
                    ..self
                }.turn_to(self.page + 1),
            ),
            Phase::ClosingDocument => StepModel::Finish(Ok(self.text)),
        }
    }
}

/// The state of one text extraction.
pub struct Extraction {
    phase: Phase,
    input_len: usize,
    page_count: i32,
    page: i32,
    chars: i32,
    text: String,
}

/// What a reply leads to.
pub enum ExtractionStep {
    /// Another call is due.
    Continue(Extraction),
    /// The extraction has ended with this result.
    Finish(Result<String, PdfiumError>),
}

impl View for Extraction {
    type V = ExtractionModel;

    closed spec fn view(&self) -> ExtractionModel {
        ExtractionModel {
            phase: self.phase,
            input_len: self.input_len as nat,
            page_count: self.page_count as int,
            page: self.page as int,
            chars: self.chars as int,
            text: self.text@,
        }
    }
}

impl View for ExtractionStep {
    type V = StepModel;

    open spec fn view(&self) -> StepModel {
        match self {
            ExtractionStep::Continue(next) => StepModel::Continue(next@),
            ExtractionStep::Finish(outcome) => StepModel::Finish(outcome_view(*outcome)),
        }
    }
}

impl Extraction {
    #[verifier::type_invariant]
    closed spec fn well_formed(&self) -> bool {
        self@.wf()
    }

    /// Starts the extraction of the text of an input buffer of
    /// `input_len` bytes.
    pub fn begin(input_len: usize) -> (extraction: Extraction)
        ensures
            extraction@ == ExtractionModel::begin(input_len as nat),
    {
        Extraction {
            phase: Phase::Initializing,
            input_len,
            page_count: 0,
            page: 0,
            chars: 0,
            text: String::new(),
        }
    }

    /// The native call that is due.
    pub fn request(&self) -> (call: NativeCall)
        ensures
            call == self@.request(),
    {
        proof {
            use_type_invariant(self);
        }
        match self.phase {
            Phase::Initializing => NativeCall::Initialize,
            Phase::LoadingDocument => NativeCall::LoadDocument,
            Phase::CountingPages => NativeCall::CountPages,
            Phase::LoadingPage => NativeCall::LoadPage { index: self.page },
            Phase::LoadingTextPage => NativeCall::LoadTextPage,
            Phase::CountingChars => NativeCall::CountChars,
            Phase::ReadingText => NativeCall::GetText {
                start: 0,
                count: self.chars,
                capacity: self.chars as usize + 1,
            },
            Phase::ClosingTextPage => NativeCall::CloseTextPage,
            Phase::ClosingPage => NativeCall::ClosePage,
            Phase::ClosingDocument => NativeCall::CloseDocument,
        }
    }

    /// Turns to the page at `index`, or to closing the document where
    /// no such page is left.
    fn turn_to(self, index: i32) -> (next: Extraction)
        requires
            0 <= index,
            self@.phase != Phase::ReadingText,
        ensures
            next@ == self@.turn_to(index as int),
    {
        proof {
            use_type_invariant(&self);
        }
        if index < self.page_count {
            Extraction { phase: Phase::LoadingPage, page: index, ..self }
        } else {
            Extraction { phase: Phase::ClosingDocument, ..self }
        }
    }

    /// Waits for another call, all else unchanged.
    fn wait_for(self, phase: Phase) -> (next: Extraction)
        requires
            self@.wait_for(phase).wf(),
        ensures
            next@ == self@.wait_for(phase),
    {
        Extraction { phase, ..self }
    }

    /// Takes the reply to the call that was due and says what follows:
    /// the next call, or the end of the extraction with its text or its
    /// error.
    pub fn advance(self, reply: Reply) -> (step: ExtractionStep)
        ensures
            step@ == self@.advance(reply@),
    {
        proof {
            use_type_invariant(&self);
        }
        match self.phase {
            Phase::Initializing => {
                if !reply.ready() {
                    ExtractionStep::Finish(Err(PdfiumError::InitializationFailed))
                } else if self.input_len == 0 {
                    ExtractionStep::Finish(Err(PdfiumError::InvalidData))
                } else {
                    ExtractionStep::Continue(self.wait_for(Phase::LoadingDocument))
                }
            },
            Phase::LoadingDocument => {
                if reply.granted() {
                    ExtractionStep::Continue(self.wait_for(Phase::CountingPages))
                } else {
                    ExtractionStep::Finish(
                        Err(PdfiumError::ExtractionFailed(String::from_str(LOAD_FAILED))),
                    )
                }
            },
            Phase::CountingPages => {
                let counted = Extraction { page_count: reply.count(), ..self };
                ExtractionStep::Continue(counted.turn_to(0))
            },
            Phase::LoadingPage => {
                if reply.granted() {
                    ExtractionStep::Continue(self.wait_for(Phase::LoadingTextPage))
                } else {
                    let next: i32 = self.page + 1;
                    ExtractionStep::Continue(self.turn_to(next))
                }
            },
            Phase::LoadingTextPage => {
                if reply.granted() {
                    ExtractionStep::Continue(self.wait_for(Phase::CountingChars))
                } else {
                    ExtractionStep::Continue(self.wait_for(Phase::ClosingPage))
                }
            },
            Phase::CountingChars => {
                let chars: i32 = reply.count();
                if chars > 0 {
                    ExtractionStep::Continue(Extraction { phase: Phase::ReadingText, chars, ..self })
                } else {
                    ExtractionStep::Continue(self.wait_for(Phase::ClosingTextPage))
                }
            },
            Phase::ReadingText => {
                let units = reply.into_text_units();
                let page_text = decode_utf16_lossy(units.as_slice());
                let mut text = self.text;
                text.append(page_text.as_str());
                ExtractionStep::Continue(
                    Extraction {
                        phase: Phase::ClosingTextPage,
                        input_len: self.input_len,
                        page_count: self.page_count,
                        page: self.page,
                        chars: 0,
                        text,
                    },
                )
            },
            Phase::ClosingTextPage => ExtractionStep::Continue(self.wait_for(Phase::ClosingPage)),
            Phase::ClosingPage => {
                let next: i32 = self.page + 1;
                let mut text = self.text;
                if next < self.page_count {
                    text.append(PAGE_SEPARATOR);
                }
                let closed = Extraction {
                    phase: Phase::ClosingPage,
                    input_len: self.input_len,
                    page_count: self.page_count,
                    page: self.page,
                    chars: self.chars,
                    text,
                };
                ExtractionStep::Continue(closed.turn_to(next))
            },
            Phase::ClosingDocument => ExtractionStep::Finish(Ok(self.text)),
        }
    }
}

} // verus!
