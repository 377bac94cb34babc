use discuss_code::highlight::{failure_notice, place, remove, HostCommand, MarkerKind, Notice};
use discuss_code::range::CommentRange;

fn placed(cmds: &[HostCommand]) -> Vec<(i64, MarkerKind)> {
    cmds.iter()
        .map(|c| match c {
            HostCommand::Place { line, kind, .. } => (*line, *kind),
            other => panic!("unexpected command {:?}", other),
        })
        .collect()
}

#[test]
fn place_marks_first_line_primary_and_rest_continued() {
    let r = CommentRange::new(3, "f", 5, 8, "t");
    let cmds = place(&r);
    assert_eq!(
        placed(&cmds),
        vec![
            (5, MarkerKind::Primary),
            (6, MarkerKind::Continuation),
            (7, MarkerKind::Continuation),
            (8, MarkerKind::Continuation),
        ]
    );
    assert_eq!(
        cmds[0],
        HostCommand::Place { file: "f".to_string(), line: 5, range_id: 3, kind: MarkerKind::Primary }
    );
}

#[test]
fn place_single_line() {
    let r = CommentRange::new(1, "f", 4, 4, "t");
    assert_eq!(placed(&place(&r)), vec![(4, MarkerKind::Primary)]);
}

#[test]
fn place_at_largest_line() {
    let r = CommentRange::new(1, "f", i64::MAX - 1, i64::MAX, "t");
    assert_eq!(
        placed(&place(&r)),
        vec![(i64::MAX - 1, MarkerKind::Primary), (i64::MAX, MarkerKind::Continuation)]
    );
}

#[test]
fn remove_unplaces_every_line() {
    let r = CommentRange::new(2, "a.txt", 5, 8, "note");
    let cmds = remove(&r);
    let expected: Vec<HostCommand> = (5..=8)
        .map(|line| HostCommand::Unplace { file: "a.txt".to_string(), line, range_id: 2 })
        .collect();
    assert_eq!(cmds, expected);
}

#[test]
fn remove_of_reversed_range_is_empty() {
    let r = CommentRange::new(2, "f", 8, 5, "t");
    assert!(remove(&r).is_empty());
    assert_eq!(placed(&place(&r)), vec![(8, MarkerKind::Primary)]);
}

#[test]
fn refused_removal_is_reported_not_fatal() {
    let r = CommentRange::new(2, "f", 5, 7, "t");
    let notices: Vec<Option<HostCommand>> = remove(&r).iter().map(failure_notice).collect();
    assert_eq!(notices.len(), 3);
    for (k, n) in notices.into_iter().enumerate() {
        assert_eq!(
            n,
            Some(HostCommand::Notify(Notice::MarkerAbsent { file: "f".to_string(), line: 5 + k as i64 }))
        );
    }
}

#[test]
fn refused_other_commands_get_a_general_warning() {
    let shown = HostCommand::Display { text: "x".to_string() };
    assert_eq!(failure_notice(&shown), Some(HostCommand::Notify(Notice::CommandFailed)));
    let r = CommentRange::new(1, "f", 1, 1, "t");
    assert_eq!(failure_notice(&place(&r)[0]), Some(HostCommand::Notify(Notice::CommandFailed)));
    assert_eq!(failure_notice(&HostCommand::Notify(Notice::CommentAdded)), None);
}
