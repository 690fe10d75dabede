//! The surface of the native engine, as plain values.
//!
//! A pipeline never touches the engine. It names the call it wants
//! made ([`NativeCall`]) and is told what came back ([`Reply`]). The
//! driver that performs the calls keeps the native handles; here a
//! handle is only known to be valid or not.

use vstd::prelude::*;

verus! {

/// One call into the native engine.
#[derive(Clone, Copy, Debug, PartialEq, Eq, Structural)]
pub enum NativeCall {
    /// Set the engine up; answered by [`Reply::Initialized`].
    Initialize,
    /// Load the input buffer as a document, with no password; answered
    /// by [`Reply::Handle`].
    LoadDocument,
    /// Ask the document for its number of pages; answered by
    /// [`Reply::Count`].
    CountPages,
    /// Load the page at `index`; answered by [`Reply::Handle`].
    LoadPage { index: i32 },
    /// Derive the text page of the loaded page; answered by
    /// [`Reply::Handle`].
    LoadTextPage,
    /// Ask the text page for its number of characters; answered by
    /// [`Reply::Count`].
    CountChars,
    /// Read `count` characters from `start` on into a fresh buffer of
    /// `capacity` code units; answered by [`Reply::Text`].
    GetText { start: i32, count: i32, capacity: usize },
    /// Release the text page.
    CloseTextPage,
    /// Release the page.
    ClosePage,
    /// Release the document.
    CloseDocument,
    /// Convert the input buffer to a structure dump in the given format
    /// version; answered by [`Reply::Json`].
    ConvertToJson { version: i32 },
    /// Give the structure dump back to the converter that allocated it.
    FreeJson,
}

/// What came back from one native call.
///
/// A reply of another kind than the call asks for reads as a failed
/// call: no handle, a count of zero, no text, no dump.
#[derive(Debug)]
pub enum Reply {
    /// Whether the engine is set up.
    Initialized(bool),
    /// Whether the handle that came back is valid.
    Handle(bool),
    /// The number that came back.
    Count(i32),
    /// The number of code units that the engine reports as written,
    /// and the buffer after the call.
    Text { written: i32, units: Vec<u16> },
    /// A copy of the bytes of the dump, or `None` where the converter
    /// returned nothing.
    Json(Option<Vec<u8>>),
    /// The call returns nothing and has been made.
    Done,
}

/// The mathematical value of a [`Reply`].
pub enum ReplyView {
    Initialized(bool),
    Handle(bool),
    Count(i32),
    Text { written: i32, units: Seq<u16> },
    Json(Option<Seq<u8>>),
    Done,
}

impl View for Reply {
    type V = ReplyView;

    open spec fn view(&self) -> ReplyView {
        match self {
            Reply::Initialized(ready) => ReplyView::Initialized(*ready),
            Reply::Handle(valid) => ReplyView::Handle(*valid),
            Reply::Count(number) => ReplyView::Count(*number),
            Reply::Text { written, units } => ReplyView::Text { written: *written, units: units@ },
            Reply::Json(Some(bytes)) => ReplyView::Json(Some(bytes@)),
            Reply::Json(None) => ReplyView::Json(None),
            Reply::Done => ReplyView::Done,
        }
    }
}

impl ReplyView {
    /// The engine reports itself set up.
    pub open spec fn ready(self) -> bool {
        self == ReplyView::Initialized(true)
    }

    /// A valid handle came back.
    pub open spec fn granted(self) -> bool {
        self == ReplyView::Handle(true)
    }

    /// The number that came back, zero where none did.
    pub open spec fn count(self) -> i32 {
        match self {
            ReplyView::Count(number) => number,
            _ => 0,
        }
    }

    /// The code units that hold text: with a positive number reported
    /// as written, the buffer up to the unit before the last one
    /// written, which is the terminator; the whole buffer where it is
    /// shorter than that; nothing otherwise.
    pub open spec fn text_units(self) -> Seq<u16> {
        match self {
            ReplyView::Text { written, units } => if written <= 0 {
                Seq::empty()
            } else if written - 1 <= units.len() {
                units.take(written - 1)
            } else {
                units
            },
            _ => Seq::empty(),
        }
    }

    /// The bytes of the dump, where the converter returned one.
    pub open spec fn dump(self) -> Option<Seq<u8>> {
        match self {
            ReplyView::Json(bytes) => bytes,
            _ => None,
        }
    }
}

impl Reply {
    /// Whether the engine reports itself set up.
    pub fn ready(&self) -> (yes: bool)
        ensures
            yes == self@.ready(),
    {
        match self {
            Reply::Initialized(ready) => *ready,
            _ => false,
        }
    }

    /// Whether a valid handle came back.
    pub fn granted(&self) -> (yes: bool)
        ensures
            yes == self@.granted(),
    {
        match self {
            Reply::Handle(valid) => *valid,
            _ => false,
        }
    }

    /// The number that came back, zero where none did.
    pub fn count(&self) -> (number: i32)
        ensures
            number == self@.count(),
    {
        match self {
            Reply::Count(number) => *number,
            _ => 0,
        }
    }

    /// Takes the code units that hold text out of the reply: the
    /// terminator that the engine writes last, and whatever follows it
    /// in the buffer, are dropped.
    pub fn into_text_units(self) -> (units: Vec<u16>)
        ensures
            units@ == self@.text_units(),
    {
        match self {
            Reply::Text { written, units } => {
                let mut units = units;
                if written <= 0 {
                    units.truncate(0);
                } else {
                    let keep: usize = (written - 1) as usize;
                    units.truncate(keep);
                }
                units
            },
            _ => Vec::new(),
        }
    }

    /// Takes the bytes of the dump out of the reply.
    pub fn into_dump(self) -> (bytes: Option<Vec<u8>>)
        ensures
            bytes is Some == self@.dump() is Some,
            bytes is Some ==> bytes->0@ == self@.dump()->0,
    {
        match self {
            Reply::Json(bytes) => bytes,
            _ => None,
        }
    }
}

} // verus!
