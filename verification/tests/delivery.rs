use zigzag::delivery::{start, DeliveryAction, DeliveryStep};
use zigzag::json::Json;
use zigzag::poller::{deliver, Cursor, Delivery};
use zigzag::relay::{read_json, ReadResult};

fn event(id: &str) -> Json {
    Json::Object(vec![("id".to_owned(), Json::text(id))])
}

fn delivery(reset: bool, lost: bool, events: Vec<Json>) -> Delivery {
    deliver(&read_json(ReadResult {
        epoch: "e".to_owned(),
        reset,
        lost,
        events,
        next: 4,
    }))
}

/// Carries a delivery out; the action at that place fails. Gives what was
/// done and how it ended.
fn carry_out(delivery: Delivery, failing: Option<usize>) -> (Vec<String>, String) {
    let mut done = Vec::new();
    let mut step = start(delivery);
    loop {
        match step {
            DeliveryStep::Act(action, task) => {
                let result = if failing == Some(done.len()) {
                    Err("broken".to_owned())
                } else {
                    Ok(())
                };
                done.push(match action {
                    DeliveryAction::Warn(text) => text,
                    DeliveryAction::Print(line) => {
                        assert_eq!(line.object("relay_epoch"), Some(&Json::text("e")));
                        format!("print {}", line.object("id").unwrap().as_str().unwrap())
                    }
                    DeliveryAction::Flush => "flush".to_owned(),
                    DeliveryAction::Keep(Cursor { epoch, after }) => format!("keep {epoch} {after}"),
                });
                step = task.report(result);
            }
            DeliveryStep::Done(outcome) => return (done, format!("{outcome:?}")),
            DeliveryStep::Abort(error) => return (done, format!("abort {error}")),
        }
    }
}

const RESET: &str = "relay epoch changed; resetting cursor";
const LOST: &str = "WARNING: relay retention was exceeded; some events were lost";

#[test]
fn the_cursor_is_kept_last() {
    let (done, end) = carry_out(delivery(true, true, vec![event("1"), event("2")]), None);
    assert_eq!(
        done,
        [RESET, LOST, "print 1", "print 2", "flush", "keep e 4"]
    );
    assert_eq!(end, "Ok(())");
    let (done, end) = carry_out(delivery(false, false, Vec::new()), None);
    assert_eq!(done, ["flush", "keep e 4"]);
    assert_eq!(end, "Ok(())");
}

#[test]
fn warnings_are_given_as_the_answer_calls_for_them() {
    let (done, _) = carry_out(delivery(true, false, Vec::new()), None);
    assert_eq!(done, [RESET, "flush", "keep e 4"]);
    let (done, _) = carry_out(delivery(false, true, Vec::new()), None);
    assert_eq!(done, [LOST, "flush", "keep e 4"]);
}

#[test]
fn nothing_is_done_after_a_failure() {
    let all = [RESET, "print 1", "print 2", "flush", "keep e 4"];
    for (failing, expected) in [
        (0, "abort broken"),
        (1, "abort broken"),
        (2, "abort broken"),
        (3, "Err(\"could not flush output: broken\")"),
        (4, "Err(\"broken\")"),
    ] {
        let (done, end) = carry_out(
            delivery(true, false, vec![event("1"), event("2")]),
            Some(failing),
        );
        assert_eq!(done, all[..=failing]);
        assert_eq!(end, expected);
    }
}

#[test]
fn no_cursor_is_kept_of_a_bad_answer() {
    let (done, end) = carry_out(
        delivery(false, true, vec![event("1"), Json::Null, event("2")]),
        None,
    );
    assert_eq!(done, [LOST, "print 1"]);
    assert_eq!(end, "Err(\"relay response contains a non-object event\")");
    let (done, end) = carry_out(deliver(&Json::Null), None);
    assert!(done.is_empty());
    assert_eq!(end, "Err(\"relay response missing string epoch\")");
}
