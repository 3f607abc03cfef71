use zeron::files::MAX_BYTES;
use zeron::open::{FileId, OpenEvent, OpenStep, Opened};

fn run(events: &[OpenEvent], locks: bool) -> Vec<OpenStep> {
    let mut step = OpenStep::first();
    let mut steps = vec![step];
    for event in events {
        step = step.next(*event, locks);
        steps.push(step);
    }
    steps
}

const OK: OpenEvent = OpenEvent::Done;
const NO: OpenEvent = OpenEvent::Failed;

#[test]
fn a_free_log_is_opened() {
    assert_eq!(
        run(&[OK, OK, OK, OK, OpenEvent::Size(MAX_BYTES)], true),
        vec![
            OpenStep::CreateDir,
            OpenStep::Sweep,
            OpenStep::Open { fresh: false },
            OpenStep::Lock { fresh: false },
            OpenStep::Measure,
            OpenStep::Done(Opened::Daily),
        ]
    );
}

#[test]
fn a_held_log_is_left_alone() {
    assert_eq!(
        run(&[OK, OK, OK, NO, OK], true)[3..],
        [
            OpenStep::Lock { fresh: false },
            OpenStep::Overflow,
            OpenStep::Done(Opened::Overflow),
        ]
    );
}

#[test]
fn an_oversize_log_is_rotated_and_opened_afresh() {
    let large = OpenEvent::Size(MAX_BYTES + 1);
    assert_eq!(
        run(&[OK, OK, OK, OK, large, OK, OK, OK], true)[4..],
        [
            OpenStep::Measure,
            OpenStep::Rotate,
            OpenStep::Open { fresh: true },
            OpenStep::Lock { fresh: true },
            OpenStep::Done(Opened::Daily),
        ]
    );
    assert_eq!(
        run(&[OK, OK, OK, OK, large, NO, OK, NO, OK], true)[7..],
        [
            OpenStep::Lock { fresh: true },
            OpenStep::Overflow,
            OpenStep::Done(Opened::Overflow),
        ]
    );
}

#[test]
fn a_log_of_unknown_size_is_opened() {
    assert_eq!(run(&[OK, OK, OK, OK, NO], true)[5], OpenStep::Done(Opened::Daily));
}

#[test]
fn a_log_that_cannot_be_made_is_done_without() {
    let nothing = OpenStep::Done(Opened::Nothing);
    assert_eq!(run(&[NO], true)[1], nothing);
    assert_eq!(run(&[OK, OK, NO], true)[3], nothing);
    assert_eq!(run(&[OK, OK, OK, NO, NO], true)[5], nothing);
    assert_eq!(run(&[OK, NO], true)[2], OpenStep::Open { fresh: false });
}

#[test]
fn without_locks_the_log_is_measured_first() {
    assert_eq!(
        run(&[OK, OK, OpenEvent::Size(0), OK], false)[2..],
        [
            OpenStep::Measure,
            OpenStep::Open { fresh: true },
            OpenStep::Done(Opened::Daily),
        ]
    );
    assert_eq!(
        run(&[OK, OK, OpenEvent::Size(MAX_BYTES + 1), OK, OK], false)[3..],
        [
            OpenStep::Rotate,
            OpenStep::Open { fresh: true },
            OpenStep::Done(Opened::Daily),
        ]
    );
}

#[test]
fn opening_takes_nine_steps_at_most() {
    let choices = [OK, NO, OpenEvent::Size(MAX_BYTES + 1), OpenEvent::Moved];
    for locks in [true, false] {
        for n in 0..4usize.pow(9) {
            let mut step = OpenStep::first();
            let mut rest = n;
            for _ in 0..9 {
                step = step.next(choices[rest % 4], locks);
                rest /= 4;
            }
            assert!(matches!(step, OpenStep::Done(_)));
        }
    }
}

#[test]
fn a_log_that_lost_its_name_is_left_alone() {
    let large = OpenEvent::Size(MAX_BYTES + 1);
    assert_eq!(
        run(&[OK, OK, OK, OpenEvent::Moved, OK], true)[4..],
        [OpenStep::Overflow, OpenStep::Done(Opened::Overflow)]
    );
    assert_eq!(
        run(&[OK, OK, OK, OK, large, OK, OK, OpenEvent::Moved, OK], true)[8..],
        [OpenStep::Overflow, OpenStep::Done(Opened::Overflow)]
    );
}

#[test]
fn a_granted_lock_counts_on_the_daily_log_only() {
    let file = FileId { device: 1, inode: 2 };
    let other = FileId { device: 1, inode: 3 };
    let elsewhere = FileId { device: 2, inode: 2 };
    assert_eq!(OpenEvent::granted(Some(file), Some(file)), OpenEvent::Done);
    assert_eq!(OpenEvent::granted(Some(file), Some(other)), OpenEvent::Moved);
    assert_eq!(OpenEvent::granted(Some(file), Some(elsewhere)), OpenEvent::Moved);
    assert_eq!(OpenEvent::granted(Some(file), None), OpenEvent::Moved);
    assert_eq!(OpenEvent::granted(None, Some(file)), OpenEvent::Moved);
    assert_eq!(OpenEvent::granted(None, None), OpenEvent::Moved);
}
