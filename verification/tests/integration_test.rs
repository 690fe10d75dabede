use auto_pqdfium_rs::convert::{Conversion, ConversionStep};
use auto_pqdfium_rs::engine::{NativeCall, Reply};
use auto_pqdfium_rs::error::PdfiumError;
use auto_pqdfium_rs::extract::{Extraction, ExtractionStep, PAGE_SEPARATOR};
use auto_pqdfium_rs::init::{Admission, InitLatch};

/// A one-page document whose page reads "Hello World!".
const SAMPLE_PDF: &[u8] = b"%PDF-1.4\n1 0 obj\n<< /Type /Catalog /Pages 2 0 R >>\nendobj\n\
2 0 obj\n<< /Type /Pages /Kids [3 0 R] /Count 1 >>\nendobj\n\
4 0 obj\n<< /Length 44 >>\nstream\nBT /F1 24 Tf 100 700 Td (Hello World!) Tj ET\nendstream\nendobj\n\
trailer\n<< /Root 1 0 R >>\n%%EOF\n";

/// How the stand-in engine reads one page.
#[derive(Clone, Debug)]
enum Page {
    /// The page does not load.
    Unloadable,
    /// The page loads, its text page does not.
    WithoutTextPage,
    /// The page holds this text.
    Text(Vec<u16>),
    /// The page reports `chars` characters and, when read, `written`
    /// units, and leaves `units` in the buffer.
    Raw { chars: i32, written: i32, units: Vec<u16> },
}

fn page_of(text: &str) -> Page {
    Page::Text(text.encode_utf16().collect())
}

/// An engine that stands in for the native one. It answers each call
/// as its script says, keeps count of what it has handed out, and
/// notes every call that comes out of turn.
struct Engine {
    sets_up: bool,
    setups: usize,
    pages: Option<Vec<Page>>,
    dump: Option<Vec<u8>>,
    page_count_override: Option<i32>,
    at: usize,
    documents_open: i32,
    pages_open: i32,
    text_pages_open: i32,
    dumps_open: i32,
    documents_loaded: usize,
    pages_loaded: usize,
    text_pages_loaded: usize,
    documents_closed: usize,
    pages_closed: usize,
    text_pages_closed: usize,
    dumps_freed: usize,
    log: Vec<NativeCall>,
    faults: Vec<String>,
}

impl Engine {
    fn new(pages: Option<Vec<Page>>, dump: Option<Vec<u8>>) -> Engine {
        Engine {
            sets_up: true,
            setups: 0,
            pages,
            dump,
            page_count_override: None,
            at: 0,
            documents_open: 0,
            pages_open: 0,
            text_pages_open: 0,
            dumps_open: 0,
            documents_loaded: 0,
            pages_loaded: 0,
            text_pages_loaded: 0,
            documents_closed: 0,
            pages_closed: 0,
            text_pages_closed: 0,
            dumps_freed: 0,
            log: Vec::new(),
            faults: Vec::new(),
        }
    }

    /// An engine that takes `bytes` for a document only where they
    /// start as a PDF file does.
    fn for_input(bytes: &[u8], pages: Vec<Page>, dump: &str) -> Engine {
        if bytes.starts_with(b"%PDF-") {
            Engine::new(Some(pages), Some(dump.as_bytes().to_vec()))
        } else {
            Engine::new(None, None)
        }
    }

    fn fault(&mut self, what: &str) {
        self.faults.push(format!("{} at call {}", what, self.log.len()));
    }

    fn page(&self) -> Page {
        match &self.pages {
            Some(pages) if self.at < pages.len() => pages[self.at].clone(),
            _ => Page::Unloadable,
        }
    }

    fn perform(&mut self, call: NativeCall) -> Reply {
        self.log.push(call);
        match call {
            NativeCall::Initialize => {
                self.setups += 1;
                Reply::Initialized(self.sets_up)
            }
            NativeCall::LoadDocument => {
                if self.documents_open != 0 {
                    self.fault("a document is loaded over another");
                }
                if self.pages.is_some() {
                    self.documents_open += 1;
                    self.documents_loaded += 1;
                }
                Reply::Handle(self.pages.is_some())
            }
            NativeCall::CountPages => {
                if self.documents_open != 1 {
                    self.fault("pages counted without a document");
                }
                let pages = self.pages.as_ref().map(|pages| pages.len() as i32).unwrap_or(0);
                Reply::Count(self.page_count_override.unwrap_or(pages))
            }
            NativeCall::LoadPage { index } => {
                if self.documents_open != 1 || self.pages_open != 0 {
                    self.fault("a page is loaded out of turn");
                }
                if index < 0 {
                    self.fault("a page index is negative");
                }
                self.at = index as usize;
                match self.page() {
                    Page::Unloadable => Reply::Handle(false),
                    _ => {
                        self.pages_open += 1;
                        self.pages_loaded += 1;
                        Reply::Handle(true)
                    }
                }
            }
            NativeCall::LoadTextPage => {
                if self.pages_open != 1 || self.text_pages_open != 0 {
                    self.fault("a text page is loaded out of turn");
                }
                match self.page() {
                    Page::Unloadable | Page::WithoutTextPage => Reply::Handle(false),
                    _ => {
                        self.text_pages_open += 1;
                        self.text_pages_loaded += 1;
                        Reply::Handle(true)
                    }
                }
            }
            NativeCall::CountChars => {
                if self.text_pages_open != 1 {
                    self.fault("characters counted without a text page");
                }
                match self.page() {
                    Page::Text(units) => Reply::Count(units.len() as i32),
                    Page::Raw { chars, .. } => Reply::Count(chars),
                    _ => Reply::Count(-1),
                }
            }
            NativeCall::GetText { start, count, capacity } => {
                if self.text_pages_open != 1 {
                    self.fault("text read without a text page");
                }
                if start != 0 || count <= 0 || capacity <= count as usize {
                    self.fault("text read into a buffer without room for the terminator");
                }
                match self.page() {
                    Page::Text(units) => {
                        let mut buffer = vec![0u16; capacity];
                        let copied = units.len().min(count as usize);
                        buffer[..copied].copy_from_slice(&units[..copied]);
                        Reply::Text { written: copied as i32 + 1, units: buffer }
                    }
                    Page::Raw { written, units, .. } => Reply::Text { written, units },
                    _ => Reply::Text { written: 0, units: vec![0u16; capacity] },
                }
            }
            NativeCall::CloseTextPage => {
                if self.text_pages_open != 1 {
                    self.fault("a text page is closed that is not open");
                }
                self.text_pages_open -= 1;
                self.text_pages_closed += 1;
                Reply::Done
            }
            NativeCall::ClosePage => {
                if self.pages_open != 1 {
                    self.fault("a page is closed that is not open");
                }
                if self.text_pages_open != 0 {
                    self.fault("a page is closed before its text page");
                }
                self.pages_open -= 1;
                self.pages_closed += 1;
                Reply::Done
            }
            NativeCall::CloseDocument => {
                if self.documents_open != 1 {
                    self.fault("a document is closed that is not open");
                }
                if self.pages_open != 0 || self.text_pages_open != 0 {
                    self.fault("a document is closed before its pages");
                }
                self.documents_open -= 1;
                self.documents_closed += 1;
                Reply::Done
            }
            NativeCall::ConvertToJson { version } => {
                if version != 2 {
                    self.fault("another format version than 2 is asked for");
                }
                if self.dump.is_some() {
                    self.dumps_open += 1;
                }
                Reply::Json(self.dump.clone())
            }
            NativeCall::FreeJson => {
                if self.dumps_open != 1 {
                    self.fault("a dump is freed that is not held");
                }
                self.dumps_open -= 1;
                self.dumps_freed += 1;
                Reply::Done
            }
        }
    }

    /// Nothing came out of turn, and all that was handed out is back.
    fn assert_settled(&self) {
        assert_eq!(self.faults, Vec::<String>::new());
        assert_eq!(self.documents_open, 0);
        assert_eq!(self.pages_open, 0);
        assert_eq!(self.text_pages_open, 0);
        assert_eq!(self.dumps_open, 0);
        assert_eq!(self.documents_loaded, self.documents_closed);
        assert_eq!(self.pages_loaded, self.pages_closed);
        assert_eq!(self.text_pages_loaded, self.text_pages_closed);
    }
}

/// Runs a text extraction on the stand-in engine.
fn extract_with(engine: &mut Engine, pdf_bytes: &[u8]) -> Result<String, PdfiumError> {
    let mut extraction = Extraction::begin(pdf_bytes.len());
    loop {
        let reply = engine.perform(extraction.request());
        match extraction.advance(reply) {
            ExtractionStep::Continue(next) => extraction = next,
            ExtractionStep::Finish(outcome) => return outcome,
        }
    }
}

/// Runs a conversion on the stand-in engine.
fn convert_with(engine: &mut Engine, pdf_bytes: &[u8]) -> Result<String, PdfiumError> {
    let mut conversion = Conversion::begin(pdf_bytes.len());
    loop {
        let reply = engine.perform(conversion.request());
        match conversion.advance(reply) {
            ConversionStep::Continue(next) => conversion = next,
            ConversionStep::Finish(outcome) => return outcome,
        }
    }
}

fn sample_engine(bytes: &[u8]) -> Engine {
    Engine::for_input(
        bytes,
        vec![page_of("Hello World!")],
        "{\"qpdf\": [{\"jsonversion\": 2}, {\"obj:1 0 R\": {\"value\": {\"/Type\": \"/Catalog\"}}}]}",
    )
}

fn extract_text(pdf_bytes: &[u8]) -> Result<String, PdfiumError> {
    let mut engine = sample_engine(pdf_bytes);
    let outcome = extract_with(&mut engine, pdf_bytes);
    engine.assert_settled();
    outcome
}

fn pdf_to_json(pdf_bytes: &[u8]) -> Result<String, PdfiumError> {
    let mut engine = sample_engine(pdf_bytes);
    let outcome = convert_with(&mut engine, pdf_bytes);
    engine.assert_settled();
    outcome
}

/// One request for initialization, as a caller of the latch makes it.
fn initialize(latch: &mut InitLatch, engine: &mut Engine) -> Result<(), PdfiumError> {
    match latch.arrive() {
        Admission::RunSetup => {
            let ready = matches!(engine.perform(NativeCall::Initialize), Reply::Initialized(true));
            latch.settle(ready)
        }
        Admission::Settled(outcome) => outcome,
    }
}

/// The number of positions at which the separator stands in `text`.
fn separators_in(text: &str) -> usize {
    (0..text.len()).filter(|at| text[*at..].starts_with(PAGE_SEPARATOR)).count()
}

#[test]
fn test_initialization() {
    let mut latch = InitLatch::new();
    let mut engine = Engine::new(None, None);
    // Should initialize successfully
    assert!(initialize(&mut latch, &mut engine).is_ok());
    // Should be idempotent (can call multiple times)
    assert!(initialize(&mut latch, &mut engine).is_ok());
    assert_eq!(engine.setups, 1);
}

#[test]
fn test_extract_text_from_sample() {
    let result = extract_text(SAMPLE_PDF);
    assert!(result.is_ok(), "Text extraction should succeed");

    let text = result.unwrap();
    assert!(!text.is_empty(), "Extracted text should not be empty");
    assert!(text.contains("Hello World!"), "Should contain 'Hello World!'");

    println!("Extracted text: {}", text);
}

#[test]
fn test_pdf_to_json_from_sample() {
    let result = pdf_to_json(SAMPLE_PDF);
    assert!(result.is_ok(), "JSON conversion should succeed");

    let json = result.unwrap();
    assert!(!json.is_empty(), "JSON output should not be empty");

    // JSON should be valid - try to parse it
    let parsed: serde_json::Value =
        serde_json::from_str(&json).expect("JSON output should be valid JSON");

    // QPDF JSON should have these top-level keys
    assert!(parsed.is_object(), "Root should be an object");

    println!("JSON structure has {} top-level keys", parsed.as_object().unwrap().len());
}

#[test]
fn test_extract_text_empty_data() {
    let result = extract_text(&[]);
    assert!(result.is_err(), "Should fail with empty data");
}

#[test]
fn test_pdf_to_json_empty_data() {
    let result = pdf_to_json(&[]);
    assert!(result.is_err(), "Should fail with empty data");
}

#[test]
fn test_extract_text_invalid_pdf() {
    let invalid_data = b"This is not a PDF file";
    let result = extract_text(invalid_data);
    assert!(result.is_err(), "Should fail with invalid PDF data");
}

#[test]
fn test_pdf_to_json_invalid_pdf() {
    let invalid_data = b"This is not a PDF file";
    let result = pdf_to_json(invalid_data);
    assert!(result.is_err(), "Should fail with invalid PDF data");
}

#[test]
fn empty_input_is_invalid_data_and_only_initializes() {
    let mut engine = sample_engine(SAMPLE_PDF);
    let outcome = extract_with(&mut engine, &[]);
    assert!(matches!(outcome, Err(PdfiumError::InvalidData)));
    assert_eq!(engine.log, vec![NativeCall::Initialize]);

    let mut engine = sample_engine(SAMPLE_PDF);
    let outcome = convert_with(&mut engine, &[]);
    assert!(matches!(outcome, Err(PdfiumError::InvalidData)));
    assert_eq!(engine.log, vec![NativeCall::Initialize]);
}

#[test]
fn failed_setup_is_initialization_failed() {
    let mut engine = sample_engine(SAMPLE_PDF);
    engine.sets_up = false;
    let outcome = extract_with(&mut engine, SAMPLE_PDF);
    assert!(matches!(outcome, Err(PdfiumError::InitializationFailed)));
    assert_eq!(engine.log, vec![NativeCall::Initialize]);

    let mut engine = sample_engine(SAMPLE_PDF);
    engine.sets_up = false;
    let outcome = convert_with(&mut engine, SAMPLE_PDF);
    assert!(matches!(outcome, Err(PdfiumError::InitializationFailed)));
    assert_eq!(engine.log, vec![NativeCall::Initialize]);
}

#[test]
fn a_reply_of_the_wrong_kind_to_initialization_is_a_failed_setup() {
    let extraction = Extraction::begin(10);
    assert!(matches!(
        extraction.advance(Reply::Handle(true)),
        ExtractionStep::Finish(Err(PdfiumError::InitializationFailed))
    ));
    let conversion = Conversion::begin(10);
    assert!(matches!(
        conversion.advance(Reply::Done),
        ConversionStep::Finish(Err(PdfiumError::InitializationFailed))
    ));
}

#[test]
fn input_that_is_no_document_fails_extraction_with_its_reason() {
    let input = b"This is not a PDF file";
    let mut engine = sample_engine(input);
    let outcome = extract_with(&mut engine, input);
    match outcome {
        Err(PdfiumError::ExtractionFailed(reason)) => {
            assert_eq!(reason, "Failed to load PDF document")
        }
        other => panic!("expected a failed extraction, got {:?}", other),
    }
    assert_eq!(engine.log, vec![NativeCall::Initialize, NativeCall::LoadDocument]);
    engine.assert_settled();
    assert_eq!(engine.documents_loaded, 0);
}

#[test]
fn input_that_is_no_document_fails_conversion_with_its_reason() {
    let input = b"This is not a PDF file";
    let mut engine = sample_engine(input);
    let outcome = convert_with(&mut engine, input);
    match outcome {
        Err(PdfiumError::ConversionFailed(reason)) => {
            assert_eq!(reason, "Failed to convert PDF to JSON")
        }
        other => panic!("expected a failed conversion, got {:?}", other),
    }
    assert_eq!(
        engine.log,
        vec![NativeCall::Initialize, NativeCall::ConvertToJson { version: 2 }]
    );
    engine.assert_settled();
    assert_eq!(engine.dumps_freed, 0);
}

#[test]
fn single_page_round_trip_makes_these_calls() {
    let mut engine = sample_engine(SAMPLE_PDF);
    let text = extract_with(&mut engine, SAMPLE_PDF).unwrap();
    assert_eq!(text, "Hello World!");
    assert_eq!(separators_in(&text), 0);
    assert_eq!(
        engine.log,
        vec![
            NativeCall::Initialize,
            NativeCall::LoadDocument,
            NativeCall::CountPages,
            NativeCall::LoadPage { index: 0 },
            NativeCall::LoadTextPage,
            NativeCall::CountChars,
            NativeCall::GetText { start: 0, count: 12, capacity: 13 },
            NativeCall::CloseTextPage,
            NativeCall::ClosePage,
            NativeCall::CloseDocument,
        ]
    );
    engine.assert_settled();
}

#[test]
fn pages_are_joined_by_the_separator() {
    let pages = vec![page_of("one"), page_of("two"), page_of("three")];
    let mut engine = Engine::new(Some(pages), None);
    let text = extract_with(&mut engine, SAMPLE_PDF).unwrap();
    assert_eq!(text, "one\n---PAGE BREAK---\ntwo\n---PAGE BREAK---\nthree");
    engine.assert_settled();
}

#[test]
fn k_pages_have_k_minus_one_separators() {
    for k in 1..=7usize {
        let pages: Vec<Page> = (0..k).map(|i| page_of(&format!("page {}", i))).collect();
        let mut engine = Engine::new(Some(pages), None);
        let text = extract_with(&mut engine, SAMPLE_PDF).unwrap();
        assert_eq!(separators_in(&text), k - 1);
        assert!(!text.starts_with(PAGE_SEPARATOR));
        assert!(!text.ends_with(PAGE_SEPARATOR));
        engine.assert_settled();
        assert_eq!(engine.pages_loaded, k);
        assert_eq!(engine.text_pages_loaded, k);
        assert_eq!(engine.documents_closed, 1);
    }
}

#[test]
fn an_unloadable_last_page_leaves_the_count_of_separators() {
    let pages = vec![page_of("one"), page_of("two"), Page::Unloadable];
    let mut engine = Engine::new(Some(pages), None);
    let text = extract_with(&mut engine, SAMPLE_PDF).unwrap();
    assert_eq!(text, "one\n---PAGE BREAK---\ntwo\n---PAGE BREAK---\n");
    assert_eq!(separators_in(&text), 2);
    engine.assert_settled();
}

#[test]
fn an_unloadable_page_before_the_last_takes_its_separator_along() {
    let pages = vec![Page::Unloadable, page_of("two"), page_of("three")];
    let mut engine = Engine::new(Some(pages), None);
    let text = extract_with(&mut engine, SAMPLE_PDF).unwrap();
    assert_eq!(text, "two\n---PAGE BREAK---\nthree");
    assert_eq!(separators_in(&text), 1);
    engine.assert_settled();
}

#[test]
fn a_page_that_makes_a_separator_of_its_own_adds_to_the_count() {
    // The page holds a separator.
    let pages = vec![page_of("a\n---PAGE BREAK---\nb"), page_of("c")];
    let mut engine = Engine::new(Some(pages), None);
    assert_eq!(separators_in(&extract_with(&mut engine, SAMPLE_PDF).unwrap()), 2);

    // The page ends as a separator begins.
    let pages = vec![page_of("a\n---PAGE BREAK---"), page_of("c")];
    let mut engine = Engine::new(Some(pages), None);
    assert_eq!(separators_in(&extract_with(&mut engine, SAMPLE_PDF).unwrap()), 2);

    // The page begins as a separator ends.
    let pages = vec![page_of("a"), page_of("---PAGE BREAK---\nc")];
    let mut engine = Engine::new(Some(pages), None);
    assert_eq!(separators_in(&extract_with(&mut engine, SAMPLE_PDF).unwrap()), 2);

    // The page is the bare words, between two separators.
    let pages = vec![page_of("a"), page_of("---PAGE BREAK---"), page_of("c")];
    let mut engine = Engine::new(Some(pages), None);
    assert_eq!(separators_in(&extract_with(&mut engine, SAMPLE_PDF).unwrap()), 3);
}

#[test]
fn the_words_of_the_separator_alone_make_none() {
    // The words without a line break beside them, and the bare words
    // as the first or the last page: no separator comes of them.
    let pages = vec![page_of("see ---PAGE BREAK--- above"), page_of("c")];
    let mut engine = Engine::new(Some(pages), None);
    assert_eq!(separators_in(&extract_with(&mut engine, SAMPLE_PDF).unwrap()), 1);

    let pages = vec![page_of("---PAGE BREAK---"), page_of("b"), page_of("---PAGE BREAK---")];
    let mut engine = Engine::new(Some(pages), None);
    assert_eq!(separators_in(&extract_with(&mut engine, SAMPLE_PDF).unwrap()), 2);
}

#[test]
fn a_document_without_pages_has_empty_text() {
    let mut engine = Engine::new(Some(Vec::new()), None);
    let text = extract_with(&mut engine, SAMPLE_PDF).unwrap();
    assert_eq!(text, "");
    assert_eq!(
        engine.log,
        vec![
            NativeCall::Initialize,
            NativeCall::LoadDocument,
            NativeCall::CountPages,
            NativeCall::CloseDocument,
        ]
    );
    engine.assert_settled();
}

#[test]
fn a_negative_page_count_reads_no_page() {
    let mut engine = Engine::new(Some(vec![page_of("never read")]), None);
    engine.page_count_override = Some(-1);
    let text = extract_with(&mut engine, SAMPLE_PDF).unwrap();
    assert_eq!(text, "");
    assert_eq!(engine.pages_loaded, 0);
    engine.assert_settled();
}

#[test]
fn all_pages_unreadable_is_an_empty_success() {
    let pages = vec![Page::Unloadable, Page::Unloadable, Page::Unloadable];
    let mut engine = Engine::new(Some(pages), None);
    let text = extract_with(&mut engine, SAMPLE_PDF).unwrap();
    assert_eq!(text, "");
    assert_eq!(
        engine.log,
        vec![
            NativeCall::Initialize,
            NativeCall::LoadDocument,
            NativeCall::CountPages,
            NativeCall::LoadPage { index: 0 },
            NativeCall::LoadPage { index: 1 },
            NativeCall::LoadPage { index: 2 },
            NativeCall::CloseDocument,
        ]
    );
    engine.assert_settled();
}

#[test]
fn a_page_that_does_not_load_leaves_nothing_behind() {
    let pages = vec![page_of("one"), Page::Unloadable, page_of("three")];
    let mut engine = Engine::new(Some(pages), None);
    let text = extract_with(&mut engine, SAMPLE_PDF).unwrap();
    assert_eq!(text, "one\n---PAGE BREAK---\nthree");
    engine.assert_settled();
    assert_eq!(engine.pages_loaded, 2);
}

#[test]
fn a_page_without_text_page_is_closed_and_keeps_its_separator() {
    let pages = vec![page_of("one"), Page::WithoutTextPage, page_of("three")];
    let mut engine = Engine::new(Some(pages), None);
    let text = extract_with(&mut engine, SAMPLE_PDF).unwrap();
    assert_eq!(text, "one\n---PAGE BREAK---\n\n---PAGE BREAK---\nthree");
    engine.assert_settled();
    assert_eq!(engine.pages_loaded, 3);
    assert_eq!(engine.pages_closed, 3);
    assert_eq!(engine.text_pages_loaded, 2);
    assert_eq!(engine.text_pages_closed, 2);
}

#[test]
fn a_page_without_characters_is_not_read() {
    let pages = vec![Page::Raw { chars: 0, written: 5, units: vec![0x41; 8] }, page_of("two")];
    let mut engine = Engine::new(Some(pages), None);
    let text = extract_with(&mut engine, SAMPLE_PDF).unwrap();
    assert_eq!(text, "\n---PAGE BREAK---\ntwo");
    assert!(!engine.log.contains(&NativeCall::GetText { start: 0, count: 0, capacity: 1 }));
    assert_eq!(
        engine.log.iter().filter(|call| matches!(call, NativeCall::GetText { .. })).count(),
        1
    );
    engine.assert_settled();
}

#[test]
fn nothing_written_adds_no_text() {
    let pages = vec![
        Page::Raw { chars: 3, written: 0, units: vec![0x41, 0x42, 0x43, 0] },
        Page::Raw { chars: 3, written: -2, units: vec![0x41, 0x42, 0x43, 0] },
    ];
    let mut engine = Engine::new(Some(pages), None);
    let text = extract_with(&mut engine, SAMPLE_PDF).unwrap();
    assert_eq!(text, "\n---PAGE BREAK---\n");
    engine.assert_settled();
}

#[test]
fn the_last_unit_written_is_dropped() {
    // Four units written: three of text and the terminator.
    let pages = vec![Page::Raw { chars: 5, written: 4, units: vec![0x41, 0x42, 0x43, 0, 0x45, 0] }];
    let mut engine = Engine::new(Some(pages), None);
    assert_eq!(extract_with(&mut engine, SAMPLE_PDF).unwrap(), "ABC");

    // One unit written: the terminator alone.
    let pages = vec![Page::Raw { chars: 5, written: 1, units: vec![0, 0x42, 0x43, 0, 0x45, 0] }];
    let mut engine = Engine::new(Some(pages), None);
    assert_eq!(extract_with(&mut engine, SAMPLE_PDF).unwrap(), "");

    // More reported as written than the buffer holds: the buffer as it is.
    let pages = vec![Page::Raw { chars: 2, written: 9, units: vec![0x41, 0x42, 0x43] }];
    let mut engine = Engine::new(Some(pages), None);
    assert_eq!(extract_with(&mut engine, SAMPLE_PDF).unwrap(), "ABC");
}

#[test]
fn malformed_units_are_replaced_and_the_extraction_goes_on() {
    let pages = vec![
        Page::Raw { chars: 3, written: 4, units: vec![0x41, 0xD800, 0x42, 0] },
        page_of("next"),
    ];
    let mut engine = Engine::new(Some(pages), None);
    let text = extract_with(&mut engine, SAMPLE_PDF).unwrap();
    assert_eq!(text, "A\u{FFFD}B\n---PAGE BREAK---\nnext");
    engine.assert_settled();
}

#[test]
fn text_beyond_the_basic_plane_survives() {
    let pages = vec![page_of("na\u{ef}ve \u{1F600} \u{4e2d}\u{6587}")];
    let mut engine = Engine::new(Some(pages), None);
    let text = extract_with(&mut engine, SAMPLE_PDF).unwrap();
    assert_eq!(text, "na\u{ef}ve \u{1F600} \u{4e2d}\u{6587}");
}

#[test]
fn the_buffer_has_room_for_the_terminator() {
    let extraction = Extraction::begin(1);
    let mut state = match extraction.advance(Reply::Initialized(true)) {
        ExtractionStep::Continue(next) => next,
        _ => panic!("a non-empty input goes on"),
    };
    for reply in [Reply::Handle(true), Reply::Count(1), Reply::Handle(true), Reply::Handle(true)] {
        state = match state.advance(reply) {
            ExtractionStep::Continue(next) => next,
            _ => panic!("the extraction goes on"),
        };
    }
    assert_eq!(state.request(), NativeCall::CountChars);
    let state = match state.advance(Reply::Count(i32::MAX)) {
        ExtractionStep::Continue(next) => next,
        _ => panic!("the extraction goes on"),
    };
    assert_eq!(
        state.request(),
        NativeCall::GetText { start: 0, count: i32::MAX, capacity: i32::MAX as usize + 1 }
    );
}

#[test]
fn every_handle_is_released_once_and_in_order() {
    let pages = vec![
        page_of("one"),
        Page::Unloadable,
        Page::WithoutTextPage,
        Page::Raw { chars: -3, written: 0, units: Vec::new() },
        Page::Raw { chars: 2, written: 0, units: vec![0; 3] },
        page_of("six"),
    ];
    let mut engine = Engine::new(Some(pages), None);
    let text = extract_with(&mut engine, SAMPLE_PDF).unwrap();
    assert_eq!(
        text,
        "one\n---PAGE BREAK---\n\n---PAGE BREAK---\n\n---PAGE BREAK---\n\n---PAGE BREAK---\nsix"
    );
    engine.assert_settled();
    assert_eq!(engine.documents_loaded, 1);
    assert_eq!(engine.documents_closed, 1);
    assert_eq!(engine.pages_loaded, 5);
    assert_eq!(engine.pages_closed, 5);
    assert_eq!(engine.text_pages_loaded, 4);
    assert_eq!(engine.text_pages_closed, 4);
    assert_eq!(engine.log.last(), Some(&NativeCall::CloseDocument));
    let closes_of_document =
        engine.log.iter().filter(|call| **call == NativeCall::CloseDocument).count();
    assert_eq!(closes_of_document, 1);
}

#[test]
fn conversion_frees_the_dump_before_it_ends() {
    let mut engine = sample_engine(SAMPLE_PDF);
    let json = convert_with(&mut engine, SAMPLE_PDF).unwrap();
    assert!(json.starts_with("{\"qpdf\""));
    assert_eq!(
        engine.log,
        vec![
            NativeCall::Initialize,
            NativeCall::ConvertToJson { version: 2 },
            NativeCall::FreeJson,
        ]
    );
    assert_eq!(engine.dumps_freed, 1);
    engine.assert_settled();
}

#[test]
fn a_dump_of_valid_text_comes_out_unchanged() {
    let dump = "{\"title\": \"gr\u{fc}\u{df}e \u{1F600}\"}";
    let mut engine = Engine::new(None, Some(dump.as_bytes().to_vec()));
    assert_eq!(convert_with(&mut engine, SAMPLE_PDF).unwrap(), dump);
}

#[test]
fn malformed_bytes_in_a_dump_are_replaced() {
    let mut engine = Engine::new(None, Some(vec![b'{', 0xFF, b'}', 0xC3]));
    assert_eq!(convert_with(&mut engine, SAMPLE_PDF).unwrap(), "{\u{FFFD}}\u{FFFD}");
    engine.assert_settled();
}

#[test]
fn an_empty_dump_is_an_empty_success() {
    let mut engine = Engine::new(None, Some(Vec::new()));
    assert_eq!(convert_with(&mut engine, SAMPLE_PDF).unwrap(), "");
    assert_eq!(engine.dumps_freed, 1);
}

#[test]
fn receive_takes_the_decoded_dump() {
    let conversion = Conversion::begin(4);
    match conversion.receive(Some(String::from("{}"))) {
        ConversionStep::Continue(next) => {
            assert_eq!(next.request(), NativeCall::FreeJson);
            match next.advance(Reply::Done) {
                ConversionStep::Finish(Ok(json)) => assert_eq!(json, "{}"),
                _ => panic!("the conversion ends with the dump"),
            }
        }
        _ => panic!("a dump is kept until it is freed"),
    }
    let conversion = Conversion::begin(4);
    assert!(matches!(
        conversion.receive(None),
        ConversionStep::Finish(Err(PdfiumError::ConversionFailed(_)))
    ));
}

#[test]
fn replies_of_the_wrong_kind_read_as_failed_calls() {
    // To the load of the document: no document.
    let extraction = Extraction::begin(3);
    let loading = match extraction.advance(Reply::Initialized(true)) {
        ExtractionStep::Continue(next) => next,
        _ => panic!("a non-empty input goes on"),
    };
    assert_eq!(loading.request(), NativeCall::LoadDocument);
    assert!(matches!(
        loading.advance(Reply::Count(1)),
        ExtractionStep::Finish(Err(PdfiumError::ExtractionFailed(_)))
    ));

    // To the count of pages: no pages.
    let mut state = Extraction::begin(3);
    for reply in [Reply::Initialized(true), Reply::Handle(true), Reply::Done] {
        state = match state.advance(reply) {
            ExtractionStep::Continue(next) => next,
            _ => panic!("the extraction goes on"),
        };
    }
    assert_eq!(state.request(), NativeCall::CloseDocument);

    // To the load of a page: the page is passed over. To the load of a
    // text page: the page is closed. To the count of characters and to
    // the reading: no text.
    let mut state = Extraction::begin(3);
    let mut calls = Vec::new();
    for reply in [
        Reply::Initialized(true),
        Reply::Handle(true),
        Reply::Count(3),
        Reply::Json(None),
        Reply::Handle(true),
        Reply::Text { written: 2, units: vec![0x41, 0] },
        Reply::Done,
        Reply::Handle(true),
        Reply::Handle(true),
        Reply::Handle(true),
        Reply::Done,
    ] {
        calls.push(state.request());
        state = match state.advance(reply) {
            ExtractionStep::Continue(next) => next,
            _ => panic!("the extraction goes on"),
        };
    }
    calls.push(state.request());
    assert_eq!(
        calls,
        vec![
            NativeCall::Initialize,
            NativeCall::LoadDocument,
            NativeCall::CountPages,
            NativeCall::LoadPage { index: 0 },
            NativeCall::LoadPage { index: 1 },
            NativeCall::LoadTextPage,
            NativeCall::ClosePage,
            NativeCall::LoadPage { index: 2 },
            NativeCall::LoadTextPage,
            NativeCall::CountChars,
            NativeCall::CloseTextPage,
            NativeCall::ClosePage,
        ]
    );

    // To the conversion: no dump.
    let conversion = Conversion::begin(3);
    let converting = match conversion.advance(Reply::Initialized(true)) {
        ConversionStep::Continue(next) => next,
        _ => panic!("a non-empty input goes on"),
    };
    assert!(matches!(
        converting.advance(Reply::Handle(true)),
        ConversionStep::Finish(Err(PdfiumError::ConversionFailed(_)))
    ));
}

#[test]
fn a_long_document_is_read_page_by_page() {
    let pages: Vec<Page> = (0..500)
        .map(|i| match i % 4 {
            0 => page_of("text"),
            1 => Page::Unloadable,
            2 => Page::WithoutTextPage,
            _ => Page::Raw { chars: 0, written: 0, units: Vec::new() },
        })
        .collect();
    let mut engine = Engine::new(Some(pages), None);
    let text = extract_with(&mut engine, SAMPLE_PDF).unwrap();
    engine.assert_settled();
    assert_eq!(engine.pages_loaded, 375);
    assert_eq!(engine.text_pages_loaded, 250);
    assert_eq!(text.matches("text").count(), 125);
    // Every page that loads writes its separator; the last one, which
    // would not, is one that loads.
    assert_eq!(separators_in(&text), 374);
    assert_eq!(engine.log.len(), 3 + 125 * 6 + 125 + 125 * 3 + 125 * 5 + 1);
}
