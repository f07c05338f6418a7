use zigzag::keeping::{keep, KeepAction, KeepStep};
use zigzag::poller::{load_cursor, Cursor, CursorFile};

/// Keeps a cursor; the actions at those places fail. Gives what was done and
/// what it came to.
fn carry_out(failing: &[usize]) -> (Vec<String>, Result<(), String>) {
    let cursor = Cursor {
        epoch: "e".to_owned(),
        after: 34,
    };
    let mut done = Vec::new();
    let mut step = keep(12, &cursor);
    loop {
        match step {
            KeepStep::Act(action, task) => {
                let result = if failing.contains(&done.len()) {
                    Err(format!("error {}", done.len()))
                } else {
                    Ok(())
                };
                done.push(match action {
                    KeepAction::CreateDirectory => "directory".to_owned(),
                    KeepAction::Create(name) => format!("create {name}"),
                    KeepAction::Write(value) => {
                        let read = load_cursor("f", CursorFile::Value(value)).unwrap();
                        format!("write {} {}", read.epoch, read.after)
                    }
                    KeepAction::EndLine => "end line".to_owned(),
                    KeepAction::Sync => "sync".to_owned(),
                    KeepAction::Rename(name) => format!("rename {name}"),
                    KeepAction::Remove(name) => format!("remove {name}"),
                });
                step = task.report(result);
            }
            KeepStep::Done(outcome) => return (done, outcome),
        }
    }
}

const ALL: [&str; 6] = [
    "directory",
    "create .poller-12-34.tmp",
    "write e 34",
    "end line",
    "sync",
    "rename .poller-12-34.tmp",
];

#[test]
fn the_file_is_replaced_last() {
    let (done, outcome) = carry_out(&[]);
    assert_eq!(done, ALL);
    assert_eq!(outcome, Ok(()));
}

#[test]
fn a_failure_is_followed_by_the_removal() {
    for (failing, message) in [
        (1, "could not create temporary cursor: error 1"),
        (2, "could not write cursor: error 2"),
        (3, "error 3"),
        (4, "error 4"),
        (5, "could not replace cursor: error 5"),
    ] {
        let mut expected = ALL[..=failing].to_vec();
        expected.push("remove .poller-12-34.tmp");
        let (done, outcome) = carry_out(&[failing]);
        assert_eq!(done, expected);
        assert_eq!(outcome, Err(message.to_owned()));
        assert_eq!(carry_out(&[failing, failing + 1]), (done, outcome));
    }
}

#[test]
fn there_is_nothing_to_remove_without_a_directory() {
    let (done, outcome) = carry_out(&[0]);
    assert_eq!(done, ["directory"]);
    assert_eq!(
        outcome,
        Err("could not create cursor directory: error 0".to_owned())
    );
}
