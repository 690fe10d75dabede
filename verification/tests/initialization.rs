use auto_pqdfium_rs::error::PdfiumError;
use auto_pqdfium_rs::init::{Admission, InitLatch};

/// One request for initialization; `setup` is run where the latch
/// says so.
fn request(latch: &mut InitLatch, runs: &mut usize, goes_well: bool) -> Result<(), PdfiumError> {
    match latch.arrive() {
        Admission::RunSetup => {
            *runs += 1;
            latch.settle(goes_well)
        }
        Admission::Settled(outcome) => outcome,
    }
}

#[test]
fn a_fresh_latch_asks_for_the_setup() {
    let latch = InitLatch::new();
    assert!(matches!(latch.arrive(), Admission::RunSetup));
    // Asking changes nothing: until a report comes, the answer stays.
    assert!(matches!(latch.arrive(), Admission::RunSetup));
}

#[test]
fn setup_runs_once_however_many_ask() {
    for n in 1..=20usize {
        let mut latch = InitLatch::new();
        let mut runs = 0;
        for _ in 0..n {
            assert!(request(&mut latch, &mut runs, true).is_ok());
        }
        assert_eq!(runs, 1);
    }
}

#[test]
fn every_caller_sees_the_outcome_of_the_one_setup() {
    let mut latch = InitLatch::new();
    let mut runs = 0;
    // The set-up fails for the first caller; later callers would have
    // fared better, and still see the failure.
    assert!(matches!(
        request(&mut latch, &mut runs, false),
        Err(PdfiumError::InitializationFailed)
    ));
    for _ in 0..5 {
        assert!(matches!(
            request(&mut latch, &mut runs, true),
            Err(PdfiumError::InitializationFailed)
        ));
    }
    assert_eq!(runs, 1);

    let mut latch = InitLatch::new();
    let mut runs = 0;
    assert!(request(&mut latch, &mut runs, true).is_ok());
    for _ in 0..5 {
        assert!(request(&mut latch, &mut runs, false).is_ok());
    }
    assert_eq!(runs, 1);
}

#[test]
fn the_first_report_stays() {
    let mut latch = InitLatch::new();
    assert!(latch.settle(true).is_ok());
    assert!(latch.settle(false).is_ok());
    assert!(matches!(latch.arrive(), Admission::Settled(Ok(()))));

    let mut latch = InitLatch::new();
    assert!(matches!(latch.settle(false), Err(PdfiumError::InitializationFailed)));
    assert!(matches!(latch.settle(true), Err(PdfiumError::InitializationFailed)));
    assert!(matches!(
        latch.arrive(),
        Admission::Settled(Err(PdfiumError::InitializationFailed))
    ));
}
