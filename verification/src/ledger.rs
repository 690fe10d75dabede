//! The native resources in use, and the calls that their state allows.
//!
//! The engine hands out a document, from it a page, from the page a
//! text page; the converter hands out a dump. Each must be released
//! exactly once, the text page before its page and the page before its
//! document, and none may be used after its release. [`Ledger`] keeps
//! account of what is held, [`permitted`] says which call the account
//! allows, and [`after`] says what a call and its reply do to it. A row
//! of calls that are all permitted releases nothing twice, uses nothing
//! released, and loads nothing over a handle that is still held.

use vstd::prelude::*;
use crate::engine::{NativeCall, ReplyView};

verus! {

/// One native call with the reply that it got.
pub struct Exchange {
    pub call: NativeCall,
    pub reply: ReplyView,
}

/// What is held of the native engine at one moment.
pub struct Ledger {
    /// The engine has been set up.
    pub ready: bool,
    /// A document is loaded and not yet closed.
    pub document: bool,
    /// A page is loaded and not yet closed.
    pub page: bool,
    /// A text page is loaded and not yet closed.
    pub text_page: bool,
    /// A dump has come from the converter and is not yet freed.
    pub dump: bool,
}

impl Ledger {
    /// The account before anything was called.
    pub open spec fn empty() -> Ledger {
        Ledger { ready: false, document: false, page: false, text_page: false, dump: false }
    }

    /// No handle and no buffer of the engine is held.
    pub open spec fn holds_nothing(self) -> bool {
        !self.document && !self.page && !self.text_page && !self.dump
    }
}

/// Whether `call` may be made with `held` in hand.
///
/// The engine is set up before anything is loaded or converted. A
/// resource is asked for only while none of its kind, and nothing that
/// hangs on it, is held. It is used and released only while held, and
/// released only once all that hangs on it is released. A text buffer
/// has room for the characters asked for and the terminator.
pub open spec fn permitted(held: Ledger, call: NativeCall) -> bool {
    match call {
        NativeCall::Initialize => true,
        NativeCall::LoadDocument => held.ready && !held.document && !held.page && !held.text_page,
        NativeCall::CountPages => held.document,
        NativeCall::LoadPage { index } => held.document && !held.page && !held.text_page && 0
            <= index,
        NativeCall::LoadTextPage => held.page && !held.text_page,
        NativeCall::CountChars => held.text_page,
        NativeCall::GetText { start, count, capacity } => held.text_page && start == 0 && 0 < count
            < capacity,
        NativeCall::CloseTextPage => held.text_page,
        NativeCall::ClosePage => held.page && !held.text_page,
        NativeCall::CloseDocument => held.document && !held.page && !held.text_page,
        NativeCall::ConvertToJson { version } => held.ready && !held.dump,
        NativeCall::FreeJson => held.dump,
    }
}

/// The account after a call and its reply: a load that gave a valid
/// handle adds it, a release takes it away, all else leaves the
/// account as it was.
pub open spec fn after(held: Ledger, exchange: Exchange) -> Ledger {
    match exchange.call {
        NativeCall::Initialize => Ledger { ready: exchange.reply.ready(), ..held },
        NativeCall::LoadDocument => Ledger { document: exchange.reply.granted(), ..held },
        NativeCall::LoadPage { index } => Ledger { page: exchange.reply.granted(), ..held },
        NativeCall::LoadTextPage => Ledger { text_page: exchange.reply.granted(), ..held },
        NativeCall::CloseTextPage => Ledger { text_page: false, ..held },
        NativeCall::ClosePage => Ledger { page: false, ..held },
        NativeCall::CloseDocument => Ledger { document: false, ..held },
        NativeCall::ConvertToJson { version } => Ledger {
            dump: exchange.reply.dump() is Some,
            ..held
        },
        NativeCall::FreeJson => Ledger { dump: false, ..held },
        _ => held,
    }
}

/// The account after a row of calls.
pub open spec fn after_all(held: Ledger, trace: Seq<Exchange>) -> Ledger
    decreases trace.len(),
{
    if trace.len() == 0 {
        held
    } else {
        after_all(after(held, trace[0]), trace.skip(1))
    }
}

/// Every call of the row is permitted at its turn.
pub open spec fn disciplined(held: Ledger, trace: Seq<Exchange>) -> bool
    decreases trace.len(),
{
    trace.len() == 0 || (permitted(held, trace[0].call) && disciplined(
        after(held, trace[0]),
        trace.skip(1),
    ))
}

/// The kinds of native resource.
pub enum Resource {
    Document,
    Page,
    TextPage,
    Dump,
}

impl Ledger {
    /// A resource of this kind is held.
    pub open spec fn holds(self, resource: Resource) -> bool {
        match resource {
            Resource::Document => self.document,
            Resource::Page => self.page,
            Resource::TextPage => self.text_page,
            Resource::Dump => self.dump,
        }
    }
}

impl Exchange {
    /// The call asked for a resource of this kind, and the reply
    /// handed one out.
    pub open spec fn acquires(self, resource: Resource) -> bool {
        match (self.call, resource) {
            (NativeCall::LoadDocument, Resource::Document) => self.reply.granted(),
            (NativeCall::LoadPage { index }, Resource::Page) => self.reply.granted(),
            (NativeCall::LoadTextPage, Resource::TextPage) => self.reply.granted(),
            (NativeCall::ConvertToJson { version }, Resource::Dump) => self.reply.dump() is Some,
            _ => false,
        }
    }

    /// The call released a resource of this kind.
    pub open spec fn releases(self, resource: Resource) -> bool {
        match (self.call, resource) {
            (NativeCall::CloseDocument, Resource::Document) => true,
            (NativeCall::ClosePage, Resource::Page) => true,
            (NativeCall::CloseTextPage, Resource::TextPage) => true,
            (NativeCall::FreeJson, Resource::Dump) => true,
            _ => false,
        }
    }
}

/// How many resources of a kind a row of calls was handed.
pub open spec fn acquired(trace: Seq<Exchange>, resource: Resource) -> nat
    decreases trace.len(),
{
    if trace.len() == 0 {
        0
    } else if trace[0].acquires(resource) {
        1 + acquired(trace.skip(1), resource)
    } else {
        acquired(trace.skip(1), resource)
    }
}

/// How many resources of a kind a row of calls released.
pub open spec fn released(trace: Seq<Exchange>, resource: Resource) -> nat
    decreases trace.len(),
{
    if trace.len() == 0 {
        0
    } else if trace[0].releases(resource) {
        1 + released(trace.skip(1), resource)
    } else {
        released(trace.skip(1), resource)
    }
}

/// What one held at the start, either one of the kind or none.
pub open spec fn in_hand(held: Ledger, resource: Resource) -> nat {
    if held.holds(resource) {
        1
    } else {
        0
    }
}

/// A row of permitted calls releases what it was handed and what was
/// held before it, but for what is held after it: of each kind as many
/// come in as go out. As a permitted release is of something held,
/// nothing goes out twice.
pub proof fn lemma_releases_match_acquisitions(
    held: Ledger,
    trace: Seq<Exchange>,
    resource: Resource,
)
    requires
        disciplined(held, trace),
    ensures
        in_hand(held, resource) + acquired(trace, resource) == released(trace, resource) + in_hand(
            after_all(held, trace),
            resource,
        ),
    decreases trace.len(),
{
    if trace.len() > 0 {
        lemma_releases_match_acquisitions(after(held, trace[0]), trace.skip(1), resource);
    }
}

} // verus!
