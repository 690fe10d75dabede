//! The structure-to-JSON pipeline, one native call at a time.
//!
//! The whole document goes to the native converter in one call. What
//! comes back is copied and decoded, the converter's buffer is given
//! back to the converter's own allocator, and only then the text is
//! handed out. [`Conversion`] is the state of one conversion and
//! [`ConversionModel`] the same machine over mathematical values.

use vstd::prelude::*;
use vstd::string::*;
use crate::engine::{NativeCall, Reply, ReplyView};
use crate::error::{outcome_view, ErrorView, PdfiumError};
use vstd::utf8::{decode_utf8, valid_utf8};
use crate::utf8::{decode_utf8_lossy, utf8_lossy};

verus! {

/// The format version asked of the converter: the richer of its dumps.
pub const JSON_FORMAT_VERSION: i32 = 2;

/// The reason given when the converter returns nothing.
pub const CONVERSION_FAILED: &'static str = "Failed to convert PDF to JSON";

/// The native call that a conversion waits for.
#[derive(Clone, Copy, Debug, PartialEq, Eq, Structural)]
pub enum ConversionPhase {
    Initializing,
    Converting,
    Freeing,
}

/// The state of a conversion, as mathematical values.
pub struct ConversionModel {
    /// The call that is due.
    pub phase: ConversionPhase,
    /// The length of the input buffer.
    pub input_len: nat,
    /// The decoded dump, once there is one.
    pub json: Seq<char>,
}

/// What a reply leads to, as mathematical values.
pub enum ConversionStepModel {
    /// Another call is due.
    Continue(ConversionModel),
    /// The conversion has ended with this result.
    Finish(Result<Seq<char>, ErrorView>),
}

/// The decoded text of a dump, where there is one.
pub open spec fn decoded_dump(dump: Option<Seq<u8>>) -> Option<Seq<char>> {
    match dump {
        Some(bytes) => Some(utf8_lossy(bytes)),
        None => None,
    }
}

impl ConversionModel {
    /// The state before the first call.
    pub open spec fn begin(input_len: nat) -> ConversionModel {
        ConversionModel { phase: ConversionPhase::Initializing, input_len, json: Seq::empty() }
    }

    /// The call that is due.
    pub open spec fn request(self) -> NativeCall {
        match self.phase {
            ConversionPhase::Initializing => NativeCall::Initialize,
            ConversionPhase::Converting => NativeCall::ConvertToJson {
                version: JSON_FORMAT_VERSION,
            },
            ConversionPhase::Freeing => NativeCall::FreeJson,
        }
    }

    /// What follows the converter's call, given the decoded dump: with
    /// a dump, it is kept and the converter's buffer is freed next;
    /// without one, the conversion has failed.
    pub open spec fn receive(self, dump: Option<Seq<char>>) -> ConversionStepModel {
        match dump {
            Some(json) => ConversionStepModel::Continue(
                ConversionModel { phase: ConversionPhase::Freeing, json, ..self },
            ),
            None => ConversionStepModel::Finish(
                Err(ErrorView::ConversionFailed(CONVERSION_FAILED@)),
            ),
        }
    }

    /// What the reply to the call that is due leads to.
    pub open spec fn advance(self, reply: ReplyView) -> ConversionStepModel {
        match self.phase {
            ConversionPhase::Initializing => if !reply.ready() {
                ConversionStepModel::Finish(Err(ErrorView::InitializationFailed))
            } else if self.input_len == 0 {
                ConversionStepModel::Finish(Err(ErrorView::InvalidData))
            } else {
                ConversionStepModel::Continue(
                    ConversionModel { phase: ConversionPhase::Converting, ..self },
                )
            },
            ConversionPhase::Converting => self.receive(decoded_dump(reply.dump())),
            ConversionPhase::Freeing => ConversionStepModel::Finish(Ok(self.json)),
        }
    }
}

/// The state of one conversion.
pub struct Conversion {
    phase: ConversionPhase,
    input_len: usize,
    json: String,
}

/// What a reply leads to.
pub enum ConversionStep {
    /// Another call is due.
    Continue(Conversion),
    /// The conversion has ended with this result.
    Finish(Result<String, PdfiumError>),
}

impl View for Conversion {
    type V = ConversionModel;

    closed spec fn view(&self) -> ConversionModel {
        ConversionModel { phase: self.phase, input_len: self.input_len as nat, json: self.json@ }
    }
}

impl View for ConversionStep {
    type V = ConversionStepModel;

    open spec fn view(&self) -> ConversionStepModel {
        match self {
            ConversionStep::Continue(next) => ConversionStepModel::Continue(next@),
            ConversionStep::Finish(outcome) => ConversionStepModel::Finish(outcome_view(*outcome)),
        }
    }
}

/// The view of a decoded dump, where there is one.
pub open spec fn dump_view(dump: Option<String>) -> Option<Seq<char>> {
    match dump {
        Some(json) => Some(json@),
        None => None,
    }
}

impl Conversion {
    /// Starts the conversion of an input buffer of `input_len` bytes.
    pub fn begin(input_len: usize) -> (conversion: Conversion)
        ensures
            conversion@ == ConversionModel::begin(input_len as nat),
    {
        Conversion { phase: ConversionPhase::Initializing, input_len, json: String::new() }
    }

    /// The native call that is due.
    pub fn request(&self) -> (call: NativeCall)
        ensures
            call == self@.request(),
    {
        match self.phase {
            ConversionPhase::Initializing => NativeCall::Initialize,
            ConversionPhase::Converting => NativeCall::ConvertToJson {
                version: JSON_FORMAT_VERSION,
            },
            ConversionPhase::Freeing => NativeCall::FreeJson,
        }
    }

    /// Takes the decoded dump, or its absence, and says what follows:
    /// freeing the converter's buffer, or the end in failure.
    pub fn receive(self, dump: Option<String>) -> (step: ConversionStep)
        ensures
            step@ == self@.receive(dump_view(dump)),
    {
        match dump {
            Some(json) => ConversionStep::Continue(
                Conversion { phase: ConversionPhase::Freeing, input_len: self.input_len, json },
            ),
            None => ConversionStep::Finish(
                Err(PdfiumError::ConversionFailed(String::from_str(CONVERSION_FAILED))),
            ),
        }
    }

    /// Takes the reply to the call that was due and says what follows:
    /// the next call, or the end of the conversion with its text or its
    /// error. The dump is decoded as UTF-8, malformed bytes replaced; a
    /// dump that is valid UTF-8 is kept as the text that it encodes.
    pub fn advance(self, reply: Reply) -> (step: ConversionStep)
        ensures
            step@ == self@.advance(reply@),
            self@.phase == ConversionPhase::Converting && reply@.dump() is Some && valid_utf8(
                reply@.dump()->0,
            ) ==> step@ == self@.receive(Some(decode_utf8(reply@.dump()->0))),
    {
        match self.phase {
            ConversionPhase::Initializing => {
                if !reply.ready() {
                    ConversionStep::Finish(Err(PdfiumError::InitializationFailed))
                } else if self.input_len == 0 {
                    ConversionStep::Finish(Err(PdfiumError::InvalidData))
                } else {
                    ConversionStep::Continue(
                        Conversion {
                            phase: ConversionPhase::Converting,
                            input_len: self.input_len,
                            json: self.json,
                        },
                    )
                }
            },
            ConversionPhase::Converting => {
                let dump = match reply.into_dump() {
                    Some(bytes) => Some(decode_utf8_lossy(bytes.as_slice())),
                    None => None,
                };
                self.receive(dump)
            },
            ConversionPhase::Freeing => ConversionStep::Finish(Ok(self.json)),
        }
    }
}

} // verus!
