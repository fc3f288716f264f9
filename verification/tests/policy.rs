//! The rule, one report at a time.

use local_socket::{next_step, Attempt, ErrorKind, Step};

const GENUINE: [ErrorKind; 7] = [
    ErrorKind::NotFound,
    ErrorKind::PermissionDenied,
    ErrorKind::ResourceBusy,
    ErrorKind::BrokenPipe,
    ErrorKind::ConnectionReset,
    ErrorKind::InvalidInput,
    ErrorKind::Other,
];

#[test]
fn interrupted_attempt_is_retried() {
    let step = next_step(Attempt::<usize>::Failed(ErrorKind::Interrupted));
    assert_eq!(step, Step::Retry);
}

#[test]
fn interrupted_attempt_is_retried_for_every_payload() {
    assert_eq!(next_step(Attempt::<()>::Failed(ErrorKind::Interrupted)), Step::Retry);
    assert_eq!(next_step(Attempt::<u8>::Failed(ErrorKind::Interrupted)), Step::Retry);
    assert_eq!(next_step(Attempt::<Vec<u8>>::Failed(ErrorKind::Interrupted)), Step::Retry);
}

#[test]
fn completed_attempt_is_returned_unchanged() {
    assert_eq!(next_step(Attempt::Ready(100usize)), Step::Return(Attempt::Ready(100usize)));
    assert_eq!(next_step(Attempt::Ready(0usize)), Step::Return(Attempt::Ready(0usize)));
    assert_eq!(next_step(Attempt::Ready(usize::MAX)), Step::Return(Attempt::Ready(usize::MAX)));
    assert_eq!(next_step(Attempt::Ready(())), Step::Return(Attempt::Ready(())));
}

#[test]
fn pending_attempt_is_returned_not_retried() {
    assert_eq!(next_step(Attempt::<usize>::Pending), Step::Return(Attempt::Pending));
    assert_eq!(next_step(Attempt::<()>::Pending), Step::Return(Attempt::Pending));
}

#[test]
fn genuine_failure_is_returned_with_its_kind() {
    for kind in GENUINE {
        let step = next_step(Attempt::<usize>::Failed(kind));
        assert_eq!(step, Step::Return(Attempt::Failed(kind)));
    }
}

#[test]
fn returned_outcome_is_never_an_interruption() {
    let mut reports: Vec<Attempt<usize>> = vec![
        Attempt::Ready(0),
        Attempt::Ready(7),
        Attempt::Pending,
        Attempt::Failed(ErrorKind::Interrupted),
    ];
    for kind in GENUINE {
        reports.push(Attempt::Failed(kind));
    }
    for report in reports {
        match next_step(report) {
            Step::Retry => assert!(report.is_interrupted()),
            Step::Return(outcome) => {
                assert!(!outcome.is_interrupted());
                assert_eq!(outcome, report);
            }
        }
    }
}

#[test]
fn only_the_interrupted_kind_is_interrupted() {
    assert!(ErrorKind::Interrupted.is_interrupted());
    for kind in GENUINE {
        assert!(!kind.is_interrupted());
    }
}

#[test]
fn only_an_interrupted_failure_is_an_interrupted_attempt() {
    assert!(Attempt::<usize>::Failed(ErrorKind::Interrupted).is_interrupted());
    assert!(!Attempt::<usize>::Ready(4).is_interrupted());
    assert!(!Attempt::<usize>::Pending.is_interrupted());
    for kind in GENUINE {
        assert!(!Attempt::<usize>::Failed(kind).is_interrupted());
    }
}

#[test]
fn deciding_twice_on_one_report_gives_one_answer() {
    let report = Attempt::Ready(12usize);
    assert_eq!(next_step(report), next_step(report));
    let interrupted = Attempt::<usize>::Failed(ErrorKind::Interrupted);
    assert_eq!(next_step(interrupted), next_step(interrupted));
}
