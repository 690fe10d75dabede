//! Whole runs of the two pipelines: the row of calls that each makes,
//! fed with any row of replies, and what holds of every such run.

use vstd::prelude::*;
use crate::convert::{
    ConversionModel, ConversionPhase, ConversionStepModel, CONVERSION_FAILED, JSON_FORMAT_VERSION,
};
use crate::engine::{NativeCall, ReplyView};
use crate::error::ErrorView;
use crate::extract::{ExtractionModel, Phase, StepModel, LOAD_FAILED};
use crate::ledger::{
    acquired, after, after_all, disciplined, lemma_releases_match_acquisitions, permitted,
    released, Exchange, Ledger, Resource,
};
use crate::utf8::utf8_lossy;

verus! {

/// A run: the calls made with their replies, and the result where the
/// run has come to its end.
pub struct Run {
    pub trace: Seq<Exchange>,
    pub outcome: Option<Result<Seq<char>, ErrorView>>,
}

/// The most calls that one page takes: loading it and its text page,
/// counting and reading its characters, closing both.
pub open spec fn calls_per_page() -> nat {
    6
}

impl ExtractionModel {
    /// The call that is due, with the reply that it gets.
    pub open spec fn exchange(self, reply: ReplyView) -> Exchange {
        Exchange { call: self.request(), reply }
    }

    /// The run that `replies` lead to from this state. Replies beyond
    /// the end of the extraction are not looked at.
    pub open spec fn run(self, replies: Seq<ReplyView>) -> Run
        decreases replies.len(),
    {
        if replies.len() == 0 {
            Run { trace: Seq::empty(), outcome: None }
        } else {
            match self.advance(replies[0]) {
                StepModel::Finish(outcome) => Run {
                    trace: seq![self.exchange(replies[0])],
                    outcome: Some(outcome),
                },
                StepModel::Continue(next) => {
                    let rest = next.run(replies.skip(1));
                    Run { trace: seq![self.exchange(replies[0])] + rest.trace, outcome: rest.outcome }
                },
            }
        }
    }

    /// What the extraction holds of the engine while it waits for the
    /// call that is due.
    pub open spec fn ledger(self) -> Ledger {
        match self.phase {
            Phase::Initializing => Ledger::empty(),
            Phase::LoadingDocument => Ledger { ready: true, ..Ledger::empty() },
            Phase::CountingPages | Phase::LoadingPage | Phase::ClosingDocument => Ledger {
                ready: true,
                document: true,
                ..Ledger::empty()
            },
            Phase::LoadingTextPage | Phase::ClosingPage => Ledger {
                ready: true,
                document: true,
                page: true,
                ..Ledger::empty()
            },
            Phase::CountingChars | Phase::ReadingText | Phase::ClosingTextPage => Ledger {
                ready: true,
                document: true,
                page: true,
                text_page: true,
                ..Ledger::empty()
            },
        }
    }

    /// A bound on the number of calls that are still to come, the one
    /// that is due included.
    pub open spec fn calls_left(self) -> nat {
        let pages_ahead = (self.page_count - self.page - 1) as nat;
        match self.phase {
            Phase::Initializing => calls_per_page() * (i32::MAX as nat) + 4,
            Phase::LoadingDocument => calls_per_page() * (i32::MAX as nat) + 3,
            Phase::CountingPages => calls_per_page() * (i32::MAX as nat) + 2,
            Phase::LoadingPage => calls_per_page() * pages_ahead + 7,
            Phase::LoadingTextPage => calls_per_page() * pages_ahead + 6,
            Phase::CountingChars => calls_per_page() * pages_ahead + 5,
            Phase::ReadingText => calls_per_page() * pages_ahead + 4,
            Phase::ClosingTextPage => calls_per_page() * pages_ahead + 3,
            Phase::ClosingPage => calls_per_page() * pages_ahead + 2,
            Phase::ClosingDocument => 1,
        }
    }
}

/// Whatever the reply, the call that is due is permitted by what the
/// extraction holds, the state that follows is well-formed and holds
/// what the call and its reply leave, and an extraction that ends
/// holds nothing.
pub proof fn lemma_step_keeps_account(state: ExtractionModel, reply: ReplyView)
    requires
        state.wf(),
    ensures
        permitted(state.ledger(), state.request()),
        match state.advance(reply) {
            StepModel::Continue(next) => next.wf() && next.ledger() == after(
                state.ledger(),
                state.exchange(reply),
            ),
            StepModel::Finish(_) => after(state.ledger(), state.exchange(reply)).holds_nothing(),
        },
{
}

/// Whatever the reply, fewer calls are left after it than before.
pub proof fn lemma_step_comes_closer(state: ExtractionModel, reply: ReplyView)
    requires
        state.wf(),
    ensures
        state.calls_left() > 0,
        state.advance(reply) matches StepModel::Continue(next) ==> next.calls_left()
            < state.calls_left(),
{
}

/// In every run from a well-formed state, whatever the replies, each
/// call is permitted at its turn: no handle is used or released unless
/// held, none is released twice, the text page is released before its
/// page and the page before the document. A run that has ended holds
/// nothing: each handle that was handed out has been released.
pub proof fn lemma_run_keeps_account(state: ExtractionModel, replies: Seq<ReplyView>)
    requires
        state.wf(),
    ensures
        disciplined(state.ledger(), state.run(replies).trace),
        state.run(replies).outcome is Some ==> after_all(
            state.ledger(),
            state.run(replies).trace,
        ).holds_nothing(),
    decreases replies.len(),
{
    if replies.len() > 0 {
        let first = state.exchange(replies[0]);
        let trace = state.run(replies).trace;
        lemma_step_keeps_account(state, replies[0]);
        match state.advance(replies[0]) {
            StepModel::Finish(_) => {
                assert(disciplined(after(state.ledger(), first), trace.skip(1)));
                assert(after_all(after(state.ledger(), first), trace.skip(1)) == after(
                    state.ledger(),
                    first,
                ));
            },
            StepModel::Continue(next) => {
                lemma_run_keeps_account(next, replies.skip(1));
                assert(trace.skip(1) =~= next.run(replies.skip(1)).trace);
            },
        }
    }
}

/// A run from the start of an extraction keeps account of its handles
/// and, once ended, holds none of them.
pub proof fn lemma_extraction_keeps_account(input_len: nat, replies: Seq<ReplyView>)
    ensures
        disciplined(Ledger::empty(), ExtractionModel::begin(input_len).run(replies).trace),
        ExtractionModel::begin(input_len).run(replies).outcome is Some ==> after_all(
            Ledger::empty(),
            ExtractionModel::begin(input_len).run(replies).trace,
        ).holds_nothing(),
{
    lemma_run_keeps_account(ExtractionModel::begin(input_len), replies);
}

/// In a run of an extraction that has ended, each kind of handle was
/// released exactly as often as it was handed out.
pub proof fn lemma_extraction_releases_what_it_acquires(
    input_len: nat,
    replies: Seq<ReplyView>,
    resource: Resource,
)
    requires
        ExtractionModel::begin(input_len).run(replies).outcome is Some,
    ensures
        released(ExtractionModel::begin(input_len).run(replies).trace, resource) == acquired(
            ExtractionModel::begin(input_len).run(replies).trace,
            resource,
        ),
{
    lemma_run_keeps_account(ExtractionModel::begin(input_len), replies);
    lemma_releases_match_acquisitions(
        Ledger::empty(),
        ExtractionModel::begin(input_len).run(replies).trace,
        resource,
    );
}

/// Every run comes to its end: with as many replies as calls are left
/// at most, the extraction has a result.
pub proof fn lemma_run_ends(state: ExtractionModel, replies: Seq<ReplyView>)
    requires
        state.wf(),
        replies.len() >= state.calls_left(),
    ensures
        state.run(replies).outcome is Some,
    decreases replies.len(),
{
    lemma_step_comes_closer(state, replies[0]);
    lemma_step_keeps_account(state, replies[0]);
    match state.advance(replies[0]) {
        StepModel::Finish(_) => {},
        StepModel::Continue(next) => {
            lemma_run_ends(next, replies.skip(1));
        },
    }
}

/// An empty input is refused as soon as the engine is set up: the
/// only call of the run is the initialization, and the run ends with
/// `InvalidData`, or with `InitializationFailed` where the engine is
/// not set up.
pub proof fn lemma_empty_input_is_refused(replies: Seq<ReplyView>)
    requires
        replies.len() > 0,
    ensures
        ExtractionModel::begin(0).run(replies).trace == seq![
            Exchange { call: NativeCall::Initialize, reply: replies[0] },
        ],
        ExtractionModel::begin(0).run(replies).outcome == Some(
            Err::<Seq<char>, ErrorView>(
                if replies[0].ready() {
                    ErrorView::InvalidData
                } else {
                    ErrorView::InitializationFailed
                },
            ),
        ),
{
}

/// An input that the engine does not load as a document fails the
/// extraction with `ExtractionFailed` and its reason. The run has made
/// two calls, the initialization and the load, and holds nothing.
pub proof fn lemma_unloadable_input_fails(input_len: nat, replies: Seq<ReplyView>)
    requires
        input_len > 0,
        replies.len() >= 2,
        replies[0].ready(),
        !replies[1].granted(),
    ensures
        ExtractionModel::begin(input_len).run(replies).outcome == Some(
            Err::<Seq<char>, ErrorView>(ErrorView::ExtractionFailed(LOAD_FAILED@)),
        ),
        ExtractionModel::begin(input_len).run(replies).trace == seq![
            Exchange { call: NativeCall::Initialize, reply: replies[0] },
            Exchange { call: NativeCall::LoadDocument, reply: replies[1] },
        ],
        after_all(
            Ledger::empty(),
            ExtractionModel::begin(input_len).run(replies).trace,
        ).holds_nothing(),
{
    let start = ExtractionModel::begin(input_len);
    let loading = start.wait_for(Phase::LoadingDocument);
    let second = Exchange { call: NativeCall::LoadDocument, reply: replies[1] };
    assert(loading.run(replies.skip(1)).trace == seq![second]);
    lemma_run_keeps_account(start, replies);
}

/// Once the document is loaded no page can fail the extraction:
/// whatever the replies, a run that ends from there ends in a text.
pub proof fn lemma_loaded_document_ends_in_text(state: ExtractionModel, replies: Seq<ReplyView>)
    requires
        state.phase != Phase::Initializing,
        state.phase != Phase::LoadingDocument,
    ensures
        state.run(replies).outcome is Some ==> state.run(replies).outcome->0 is Ok,
    decreases replies.len(),
{
    if replies.len() > 0 {
        match state.advance(replies[0]) {
            StepModel::Finish(_) => {},
            StepModel::Continue(next) => {
                lemma_loaded_document_ends_in_text(next, replies.skip(1));
            },
        }
    }
}

/// An extraction that ends fails in three cases and in no other:
/// with `InitializationFailed` exactly where the engine is not set up;
/// with `InvalidData` exactly where it is and the input is empty; with
/// `ExtractionFailed` exactly where it is, the input is not empty and
/// the engine does not load it as a document. In every other case it
/// ends in a text.
pub proof fn lemma_extraction_fails_at_its_start_only(input_len: nat, replies: Seq<ReplyView>)
    requires
        ExtractionModel::begin(input_len).run(replies).outcome is Some,
    ensures
        replies.len() > 0,
        ExtractionModel::begin(input_len).run(replies).outcome->0 == Err::<Seq<char>, ErrorView>(
            ErrorView::InitializationFailed,
        ) <==> !replies[0].ready(),
        ExtractionModel::begin(input_len).run(replies).outcome->0 == Err::<Seq<char>, ErrorView>(
            ErrorView::InvalidData,
        ) <==> replies[0].ready() && input_len == 0,
        ExtractionModel::begin(input_len).run(replies).outcome->0 == Err::<Seq<char>, ErrorView>(
            ErrorView::ExtractionFailed(LOAD_FAILED@),
        ) <==> replies[0].ready() && input_len > 0 && !replies[1].granted(),
        ExtractionModel::begin(input_len).run(replies).outcome->0 is Ok <==> replies[0].ready()
            && input_len > 0 && replies[1].granted(),
        replies[0].ready() && input_len > 0 ==> replies.len() > 1,
{
    let start = ExtractionModel::begin(input_len);
    if replies[0].ready() && input_len > 0 {
        let loading = start.wait_for(Phase::LoadingDocument);
        let rest = replies.skip(1);
        assert(start.run(replies).outcome == loading.run(rest).outcome);
        if replies[1].granted() {
            let counting = start.wait_for(Phase::CountingPages);
            lemma_loaded_document_ends_in_text(counting, rest.skip(1));
        }
    }
}

impl ConversionModel {
    /// The call that is due, with the reply that it gets.
    pub open spec fn exchange(self, reply: ReplyView) -> Exchange {
        Exchange { call: self.request(), reply }
    }

    /// The run that `replies` lead to from this state. Replies beyond
    /// the end of the conversion are not looked at.
    pub open spec fn run(self, replies: Seq<ReplyView>) -> Run
        decreases replies.len(),
    {
        if replies.len() == 0 {
            Run { trace: Seq::empty(), outcome: None }
        } else {
            match self.advance(replies[0]) {
                ConversionStepModel::Finish(outcome) => Run {
                    trace: seq![self.exchange(replies[0])],
                    outcome: Some(outcome),
                },
                ConversionStepModel::Continue(next) => {
                    let rest = next.run(replies.skip(1));
                    Run { trace: seq![self.exchange(replies[0])] + rest.trace, outcome: rest.outcome }
                },
            }
        }
    }

    /// What the conversion holds of the engine while it waits for the
    /// call that is due.
    pub open spec fn ledger(self) -> Ledger {
        match self.phase {
            ConversionPhase::Initializing => Ledger::empty(),
            ConversionPhase::Converting => Ledger { ready: true, ..Ledger::empty() },
            ConversionPhase::Freeing => Ledger { ready: true, dump: true, ..Ledger::empty() },
        }
    }

    /// The number of calls that are still to come at most, the one
    /// that is due included.
    pub open spec fn calls_left(self) -> nat {
        match self.phase {
            ConversionPhase::Initializing => 3,
            ConversionPhase::Converting => 2,
            ConversionPhase::Freeing => 1,
        }
    }
}

/// Whatever the reply, the call that is due is permitted by what the
/// conversion holds, the state that follows holds what the call and
/// its reply leave and has fewer calls left, and a conversion that
/// ends holds nothing.
pub proof fn lemma_conversion_step_keeps_account(state: ConversionModel, reply: ReplyView)
    ensures
        permitted(state.ledger(), state.request()),
        match state.advance(reply) {
            ConversionStepModel::Continue(next) => next.ledger() == after(
                state.ledger(),
                state.exchange(reply),
            ) && next.calls_left() < state.calls_left(),
            ConversionStepModel::Finish(_) => after(
                state.ledger(),
                state.exchange(reply),
            ).holds_nothing(),
        },
{
}

/// In every run of a conversion, whatever the replies, each call is
/// permitted at its turn: the dump is freed only while held, and so
/// only once. A run that has ended holds nothing: a dump that came
/// from the converter has gone back to it.
pub proof fn lemma_conversion_keeps_account(state: ConversionModel, replies: Seq<ReplyView>)
    ensures
        disciplined(state.ledger(), state.run(replies).trace),
        state.run(replies).outcome is Some ==> after_all(
            state.ledger(),
            state.run(replies).trace,
        ).holds_nothing(),
    decreases replies.len(),
{
    if replies.len() > 0 {
        let first = state.exchange(replies[0]);
        let trace = state.run(replies).trace;
        lemma_conversion_step_keeps_account(state, replies[0]);
        match state.advance(replies[0]) {
            ConversionStepModel::Finish(_) => {
                assert(disciplined(after(state.ledger(), first), trace.skip(1)));
                assert(after_all(after(state.ledger(), first), trace.skip(1)) == after(
                    state.ledger(),
                    first,
                ));
            },
            ConversionStepModel::Continue(next) => {
                lemma_conversion_keeps_account(next, replies.skip(1));
                assert(trace.skip(1) =~= next.run(replies.skip(1)).trace);
            },
        }
    }
}

/// In a run of a conversion that has ended, the dump was freed
/// exactly as often as one was handed out: once or never.
pub proof fn lemma_conversion_releases_what_it_acquires(
    input_len: nat,
    replies: Seq<ReplyView>,
    resource: Resource,
)
    requires
        ConversionModel::begin(input_len).run(replies).outcome is Some,
    ensures
        released(ConversionModel::begin(input_len).run(replies).trace, resource) == acquired(
            ConversionModel::begin(input_len).run(replies).trace,
            resource,
        ),
{
    lemma_conversion_keeps_account(ConversionModel::begin(input_len), replies);
    lemma_releases_match_acquisitions(
        Ledger::empty(),
        ConversionModel::begin(input_len).run(replies).trace,
        resource,
    );
}

/// Every conversion comes to its end: with as many replies as calls
/// are left at most, three from the start, it has a result.
pub proof fn lemma_conversion_ends(state: ConversionModel, replies: Seq<ReplyView>)
    requires
        replies.len() >= state.calls_left(),
    ensures
        state.run(replies).outcome is Some,
    decreases replies.len(),
{
    lemma_conversion_step_keeps_account(state, replies[0]);
    match state.advance(replies[0]) {
        ConversionStepModel::Finish(_) => {},
        ConversionStepModel::Continue(next) => {
            lemma_conversion_ends(next, replies.skip(1));
        },
    }
}

/// An empty input is refused as soon as the engine is set up: the
/// only call of the run is the initialization, and the run ends with
/// `InvalidData`, or with `InitializationFailed` where the engine is
/// not set up.
pub proof fn lemma_empty_input_is_not_converted(replies: Seq<ReplyView>)
    requires
        replies.len() > 0,
    ensures
        ConversionModel::begin(0).run(replies).trace == seq![
            Exchange { call: NativeCall::Initialize, reply: replies[0] },
        ],
        ConversionModel::begin(0).run(replies).outcome == Some(
            Err::<Seq<char>, ErrorView>(
                if replies[0].ready() {
                    ErrorView::InvalidData
                } else {
                    ErrorView::InitializationFailed
                },
            ),
        ),
{
}

/// An input of which the converter makes nothing fails the conversion
/// with `ConversionFailed` and its reason. The run has made two calls,
/// the initialization and the conversion, and holds nothing.
pub proof fn lemma_unconvertible_input_fails(input_len: nat, replies: Seq<ReplyView>)
    requires
        input_len > 0,
        replies.len() >= 2,
        replies[0].ready(),
        replies[1].dump() is None,
    ensures
        ConversionModel::begin(input_len).run(replies).outcome == Some(
            Err::<Seq<char>, ErrorView>(ErrorView::ConversionFailed(CONVERSION_FAILED@)),
        ),
        ConversionModel::begin(input_len).run(replies).trace == seq![
            Exchange { call: NativeCall::Initialize, reply: replies[0] },
            Exchange {
                call: NativeCall::ConvertToJson { version: JSON_FORMAT_VERSION },
                reply: replies[1],
            },
        ],
        after_all(
            Ledger::empty(),
            ConversionModel::begin(input_len).run(replies).trace,
        ).holds_nothing(),
{
    let start = ConversionModel::begin(input_len);
    let converting = ConversionModel { phase: ConversionPhase::Converting, ..start };
    let second = Exchange {
        call: NativeCall::ConvertToJson { version: JSON_FORMAT_VERSION },
        reply: replies[1],
    };
    assert(converting.run(replies.skip(1)).trace == seq![second]);
    lemma_conversion_keeps_account(start, replies);
}

/// A conversion of a non-empty input, on an engine that is set up and
/// whose converter returns a dump, makes three calls, the last of them
/// the freeing of the dump, and ends with the dump decoded.
pub proof fn lemma_conversion_yields_decoded_dump(
    input_len: nat,
    bytes: Seq<u8>,
    replies: Seq<ReplyView>,
)
    requires
        input_len > 0,
        replies.len() >= 3,
        replies[0].ready(),
        replies[1].dump() == Some(bytes),
    ensures
        ConversionModel::begin(input_len).run(replies).outcome == Some(
            Ok::<Seq<char>, ErrorView>(utf8_lossy(bytes)),
        ),
        ConversionModel::begin(input_len).run(replies).trace == seq![
            Exchange { call: NativeCall::Initialize, reply: replies[0] },
            Exchange {
                call: NativeCall::ConvertToJson { version: JSON_FORMAT_VERSION },
                reply: replies[1],
            },
            Exchange { call: NativeCall::FreeJson, reply: replies[2] },
        ],
{
    let start = ConversionModel::begin(input_len);
    let converting = ConversionModel { phase: ConversionPhase::Converting, ..start };
    let freeing = ConversionModel {
        phase: ConversionPhase::Freeing,
        json: utf8_lossy(bytes),
        ..start
    };
    let second = Exchange {
        call: NativeCall::ConvertToJson { version: JSON_FORMAT_VERSION },
        reply: replies[1],
    };
    let third = Exchange { call: NativeCall::FreeJson, reply: replies[2] };
    assert(freeing.run(replies.skip(1).skip(1)).trace == seq![third]);
    assert(converting.run(replies.skip(1)).trace =~= seq![second, third]);
}

/// A conversion that ends fails in three cases and in no other: with
/// `InitializationFailed` exactly where the engine is not set up; with
/// `InvalidData` exactly where it is and the input is empty; with
/// `ConversionFailed` exactly where it is, the input is not empty and
/// the converter returns nothing. In every other case it ends in the
/// decoded dump.
pub proof fn lemma_conversion_fails_without_dump_only(input_len: nat, replies: Seq<ReplyView>)
    requires
        ConversionModel::begin(input_len).run(replies).outcome is Some,
    ensures
        replies.len() > 0,
        ConversionModel::begin(input_len).run(replies).outcome->0 == Err::<Seq<char>, ErrorView>(
            ErrorView::InitializationFailed,
        ) <==> !replies[0].ready(),
        ConversionModel::begin(input_len).run(replies).outcome->0 == Err::<Seq<char>, ErrorView>(
            ErrorView::InvalidData,
        ) <==> replies[0].ready() && input_len == 0,
        ConversionModel::begin(input_len).run(replies).outcome->0 == Err::<Seq<char>, ErrorView>(
            ErrorView::ConversionFailed(CONVERSION_FAILED@),
        ) <==> replies[0].ready() && input_len > 0 && replies[1].dump() is None,
        ConversionModel::begin(input_len).run(replies).outcome->0 is Ok <==> replies[0].ready()
            && input_len > 0 && replies[1].dump() is Some,
        replies[0].ready() && input_len > 0 ==> replies.len() > 1,
{
    let start = ConversionModel::begin(input_len);
    if replies[0].ready() && input_len > 0 {
        let converting = ConversionModel { phase: ConversionPhase::Converting, ..start };
        let rest = replies.skip(1);
        if replies[1].dump() is Some {
            let freeing = ConversionModel {
                phase: ConversionPhase::Freeing,
                json: utf8_lossy(replies[1].dump()->0),
                ..start
            };
            assert(converting.run(rest).outcome == freeing.run(rest.skip(1)).outcome);
        }
    }
}

} // verus!
