//! Doing things one after the other until one fails.
use aws_net_hound::error::{ErrorSource, GraphWriteError};
use aws_net_hound::progress::Progress;

/// Which steps are done of `outcomes.len()`, and how it ends.
fn run(outcomes: Vec<Result<(), &'static str>>) -> (Vec<usize>, Progress<&'static str>) {
    let count = outcomes.len();
    let mut progress = Progress::start(count);
    let mut done = Vec::new();
    while let Progress::At { index } = progress {
        done.push(index);
        progress = progress.next(count, outcomes[index]);
    }
    (done, progress)
}

#[test]
fn every_step_is_done_where_none_fails() {
    assert_eq!(run(Vec::new()), (vec![], Progress::Done));
    assert_eq!(
        run(vec![Ok(()), Ok(()), Ok(())]),
        (vec![0, 1, 2], Progress::Done)
    );
}

#[test]
fn nothing_is_done_after_the_first_failure() {
    let (done, end) = run(vec![Ok(()), Err("first"), Ok(()), Err("second")]);

    assert_eq!(done, vec![0, 1]);
    assert_eq!(end, Progress::Failed { error: "first" });
    assert_eq!(end.next(4, Ok(())), Progress::Failed { error: "first" });
}

#[test]
fn failed_write_is_what_is_reported() {
    let failure = GraphWriteError::Write {
        source: ErrorSource::Message("gone".to_string()),
    };

    let end = Progress::start(14).next(14, Ok(())).next(14, Err(failure));

    assert!(matches!(
        end,
        Progress::Failed {
            error: GraphWriteError::Write {
                source: ErrorSource::Message(text),
            },
        } if text == "gone"
    ));
}
