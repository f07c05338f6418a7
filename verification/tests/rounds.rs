use zigzag::delivery::{start, DeliveryAction, DeliveryStep};
use zigzag::json::Json;
use zigzag::poller::{deliver, failed_poll_report, Cursor, Next};
use zigzag::relay::{read_json, ReadResult};
use zigzag::rounds::PollLoop;

fn cursor(epoch: &str, after: u64) -> Cursor {
    Cursor {
        epoch: epoch.to_owned(),
        after,
    }
}

/// Delivers an answer that ends at that number; the action at that place
/// fails.
fn round(mut polling: PollLoop, next: u64, failing: Option<usize>) -> (PollLoop, Next) {
    let answer = read_json(ReadResult {
        epoch: "e".to_owned(),
        reset: false,
        lost: false,
        events: vec![Json::Object(Vec::new())],
        next,
    });
    let mut step = start(deliver(&answer));
    let mut at = 0;
    loop {
        match step {
            DeliveryStep::Act(action, task) => {
                let result = if failing == Some(at) {
                    Err("broken".to_owned())
                } else {
                    Ok(())
                };
                at += 1;
                polling = polling.note(action, &result);
                step = task.report(result);
            }
            DeliveryStep::Done(outcome) => return polling.round_delivered(outcome),
            DeliveryStep::Abort(_) => return (polling, Next::Poll),
        }
    }
}

#[test]
fn polls_resume_at_the_last_cursor_that_was_kept() {
    let polling = PollLoop::new(cursor("", 0), false);
    assert_eq!(polling.cursor(), &cursor("", 0));
    let (polling, next) = round(polling, 4, None);
    assert!(matches!(next, Next::Poll));
    assert_eq!(polling.cursor(), &cursor("e", 4));
    let (polling, report, next) = polling.poll_failed("down".to_owned());
    assert_eq!(report, "poll failed: down; retrying in 2s");
    assert!(matches!(next, Next::Retry(2)));
    assert_eq!(polling.cursor(), &cursor("e", 4));
    let (polling, next) = round(polling, 9, None);
    assert!(matches!(next, Next::Poll));
    assert_eq!(polling.cursor(), &cursor("e", 9));
}

#[test]
fn a_delivery_that_fails_leaves_the_cursor() {
    for failing in 0..3 {
        let (polling, next) = round(PollLoop::new(cursor("c", 1), false), 4, Some(failing));
        assert_eq!(polling.cursor(), &cursor("c", 1));
        assert!(failing == 0 || matches!(next, Next::Stop(Err(_))));
    }
}

#[test]
fn only_a_kept_cursor_moves() {
    let moved = |action, result: Result<(), String>| {
        let polling = PollLoop::new(cursor("c", 1), true).note(action, &result);
        (polling.cursor().epoch.clone(), polling.cursor().after)
    };
    let stays = ("c".to_owned(), 1);
    assert_eq!(moved(DeliveryAction::Flush, Ok(())), stays);
    assert_eq!(moved(DeliveryAction::Print(Json::Null), Ok(())), stays);
    assert_eq!(moved(DeliveryAction::Warn(String::new()), Ok(())), stays);
    let keep = || DeliveryAction::Keep(cursor("d", 2));
    assert_eq!(moved(keep(), Err("full".to_owned())), stays);
    assert_eq!(moved(keep(), Ok(())), ("d".to_owned(), 2));
}

#[test]
fn one_round_ends_the_loop_where_one_was_asked_for() {
    let (_, next) = round(PollLoop::new(cursor("", 0), true), 4, None);
    assert!(matches!(next, Next::Stop(Ok(()))));
    let (polling, report, next) =
        PollLoop::new(cursor("", 0), true).poll_failed("down".to_owned());
    assert_eq!(report, failed_poll_report("down"));
    assert!(matches!(next, Next::Stop(Err(error)) if error == "down"));
    assert_eq!(polling.cursor(), &cursor("", 0));
}
