use xsteps::action_log::{Action, ActionLog, Recorded};
use xsteps::error::CaptureFailed;

fn action(tag: u8) -> Action {
    Action::new(vec![tag, tag, tag], 10 + tag as u32, 20 + tag as u32)
}

fn tags(log: &ActionLog) -> Vec<u8> {
    log.snapshot().iter().map(|a| a.image[0]).collect()
}

#[test]
fn new_action_has_no_comment() {
    let a = Action::new(vec![1, 2, 3], 640, 480);
    assert_eq!(a.image, vec![1, 2, 3]);
    assert_eq!(a.comment, "");
    assert_eq!(a.size, (640, 480));
}

#[test]
fn clone_copies_every_field() {
    let mut a = action(5);
    a.comment = "open the menu".to_string();
    let b = a.clone();
    assert_eq!(b.image, a.image);
    assert_eq!(b.comment, "open the menu");
    assert_eq!(b.size, a.size);
}

#[test]
fn new_log_is_empty_and_open() {
    let log = ActionLog::new();
    assert_eq!(log.len(), 0);
    assert!(log.is_empty());
    assert!(!log.is_sealed());
    assert!(log.snapshot().is_empty());
    assert!(log.get(0).is_none());
}

#[test]
fn log_keeps_the_order_of_completion() {
    let mut log = ActionLog::new();
    for tag in [3, 1, 2] {
        assert!(log.append(action(tag)));
    }
    assert_eq!(log.len(), 3);
    assert_eq!(tags(&log), vec![3, 1, 2]);
    assert_eq!(log.get(1).unwrap().image, vec![1, 1, 1]);
    assert_eq!(log.get(1).unwrap().size, (11, 21));
    assert!(log.get(3).is_none());
}

#[test]
fn snapshot_is_a_copy() {
    let mut log = ActionLog::new();
    log.append(action(1));
    let mut copy = log.snapshot();
    copy[0].image[0] = 99;
    copy[0].comment.push('x');
    assert_eq!(log.get(0).unwrap().image, vec![1, 1, 1]);
    assert_eq!(log.get(0).unwrap().comment, "");
}

#[test]
fn stop_leaves_one_action_fewer_than_completed() {
    for n in 1..6u8 {
        let mut log = ActionLog::new();
        for tag in 0..n {
            assert_eq!(log.record(Ok(action(tag))), Recorded::Appended);
        }
        let discarded = log.finalize(true).unwrap();
        assert_eq!(discarded.image[0], n - 1);
        assert_eq!(log.len(), n as usize - 1);
        assert_eq!(tags(&log), (0..n - 1).collect::<Vec<_>>());
        assert!(log.is_sealed());
    }
}

#[test]
fn stop_of_an_empty_log_discards_nothing() {
    let mut log = ActionLog::new();
    assert!(log.finalize(true).is_none());
    assert_eq!(log.len(), 0);
    assert!(log.is_sealed());
}

#[test]
fn final_pop_happens_once() {
    let mut log = ActionLog::new();
    for tag in 0..4 {
        log.append(action(tag));
    }
    assert!(log.finalize(true).is_some());
    assert!(log.finalize(true).is_none());
    assert!(log.finalize(false).is_none());
    assert_eq!(tags(&log), vec![0, 1, 2]);
}

#[test]
fn finalize_may_keep_the_last_action() {
    let mut log = ActionLog::new();
    for tag in 0..3 {
        log.append(action(tag));
    }
    assert!(log.finalize(false).is_none());
    assert!(log.is_sealed());
    assert_eq!(tags(&log), vec![0, 1, 2]);
    assert!(log.finalize(true).is_none());
    assert_eq!(tags(&log), vec![0, 1, 2]);
}

#[test]
fn sealed_log_is_immutable() {
    let mut log = ActionLog::new();
    log.append(action(1));
    log.append(action(2));
    log.set_comment(0, "first".to_string());
    log.finalize(true);
    assert!(!log.append(action(3)));
    assert_eq!(log.record(Ok(action(4))), Recorded::Sealed);
    assert!(!log.set_comment(0, "changed".to_string()));
    assert!(!log.set_last_comment("changed".to_string()));
    assert_eq!(tags(&log), vec![1]);
    assert_eq!(log.get(0).unwrap().comment, "first");
}

#[test]
fn failed_capture_leaves_no_action_and_the_session_goes_on() {
    let mut log = ActionLog::new();
    assert_eq!(log.record(Ok(action(1))), Recorded::Appended);
    for failure in [CaptureFailed::Unavailable, CaptureFailed::Decode, CaptureFailed::Encode] {
        assert_eq!(log.record(Err(failure)), Recorded::Failed(failure));
    }
    assert_eq!(log.record(Ok(action(2))), Recorded::Appended);
    assert_eq!(tags(&log), vec![1, 2]);
    assert!(!log.is_sealed());
}

#[test]
fn comment_is_set_on_the_action_asked_for() {
    let mut log = ActionLog::new();
    for tag in 0..3 {
        log.append(action(tag));
    }
    assert!(log.set_comment(1, "click on save".to_string()));
    assert!(!log.set_comment(3, "nowhere".to_string()));
    assert!(log.set_last_comment("done".to_string()));
    let comments: Vec<String> = log.snapshot().into_iter().map(|a| a.comment).collect();
    assert_eq!(comments, vec!["", "click on save", "done"]);
    assert_eq!(tags(&log), vec![0, 1, 2]);
    assert!(log.set_last_comment("done again".to_string()));
    assert_eq!(log.get(2).unwrap().comment, "done again");
    assert_eq!(log.get(2).unwrap().size, (12, 22));
}

#[test]
fn last_comment_of_an_empty_log_is_not_set() {
    let mut log = ActionLog::new();
    assert!(!log.set_last_comment("nothing there".to_string()));
    assert!(log.is_empty());
}
