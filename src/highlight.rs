use vstd::prelude::*;
use crate::range::CommentRange;

verus! {

#[derive(Debug, Clone, Copy, PartialEq, Eq)]
pub enum MarkerKind {
    /// The marker on the first line of a range.
    Primary,
    /// The marker on each later line of a range.
    Continuation,
}

/// Informational or warning text for the editor to show.
#[derive(Debug, Clone, PartialEq, Eq)]
pub enum Notice {
    CommentAdded,
    CommentsDeleted,
    UnknownCommand(String),
    InvalidArguments(String),
    MarkerAbsent { file: String, line: i64 },
    CommandFailed,
    StoreFailed,
}

/// A command for the editor. Markers are told apart by file, line and the
/// id of the range they belong to, so that overlapping ranges never share
/// a marker.
#[derive(Debug, Clone, PartialEq, Eq)]
pub enum HostCommand {
    Place { file: String, line: i64, range_id: i64, kind: MarkerKind },
    Unplace { file: String, line: i64, range_id: i64 },
    Display { text: String },
    Notify(Notice),
}

/// The number of lines in `start..=end`, or one for a range that ends
/// before it starts, which still gets its primary marker.
pub open spec fn span_len(r: CommentRange) -> int {
    if r.start <= r.end {
        r.end - r.start + 1
    } else {
        1
    }
}

/// The markers for `r`: a primary one on its first line and a continuation
/// one on each later line, in line order.
pub open spec fn place_plan(r: CommentRange) -> Seq<HostCommand> {
    Seq::new(
        span_len(r) as nat,
        |k: int|
            HostCommand::Place {
                file: r.file,
                line: (r.start + k) as i64,
                range_id: r.id,
                kind: if k == 0 {
                    MarkerKind::Primary
                } else {
                    MarkerKind::Continuation
                },
            },
    )
}

/// One removal for each line of `start..=end` of `r`, in line order; none
/// where the range ends before it starts.
pub open spec fn unplace_plan(r: CommentRange) -> Seq<HostCommand> {
    Seq::new(
        if r.start <= r.end { (r.end - r.start + 1) as nat } else { 0 },
        |k: int| HostCommand::Unplace { file: r.file, line: (r.start + k) as i64, range_id: r.id },
    )
}

/// The markers for each range of `rs` in turn.
pub open spec fn place_all(rs: Seq<CommentRange>) -> Seq<HostCommand>
    decreases rs.len(),
{
    if rs.len() == 0 {
        Seq::empty()
    } else {
        place_all(rs.drop_last()) + place_plan(rs.last())
    }
}

/// The removals for each range of `rs` in turn.
pub open spec fn unplace_all(rs: Seq<CommentRange>) -> Seq<HostCommand>
    decreases rs.len(),
{
    if rs.len() == 0 {
        Seq::empty()
    } else {
        unplace_all(rs.drop_last()) + unplace_plan(rs.last())
    }
}

/// The commands that mark the lines of `range` in the editor.
pub fn place(range: &CommentRange) -> (cmds: Vec<HostCommand>)
    ensures
        cmds@ == place_plan(*range),
{
    let mut cmds: Vec<HostCommand> = Vec::new();
    cmds.push(
        HostCommand::Place {
            file: range.file.clone(),
            line: range.start,
            range_id: range.id,
            kind: MarkerKind::Primary,
        },
    );
    let mut line: i64 = range.start;
    while line < range.end
        invariant
            range.start <= line,
            line <= range.end || line == range.start,
            cmds@ == place_plan(*range).take(line - range.start + 1),
        decreases range.end - line,
    {
        line = line + 1;
        cmds.push(
            HostCommand::Place {
                file: range.file.clone(),
                line,
                range_id: range.id,
                kind: MarkerKind::Continuation,
            },
        );
        proof {
            assert(cmds@ =~= place_plan(*range).take(line - range.start + 1));
        }
    }
    proof {
        assert(cmds@ =~= place_plan(*range));
    }
    cmds
}

/// The commands that take the markers of `range` off the editor's lines.
pub fn remove(range: &CommentRange) -> (cmds: Vec<HostCommand>)
    ensures
        cmds@ == unplace_plan(*range),
{
    let mut cmds: Vec<HostCommand> = Vec::new();
    if range.start > range.end {
        proof {
            assert(cmds@ =~= unplace_plan(*range));
        }
        return cmds;
    }
    let mut line: i64 = range.start;
    while line < range.end
        invariant
            range.start <= line <= range.end,
            cmds@ == unplace_plan(*range).take(line - range.start),
        decreases range.end - line,
    {
        cmds.push(HostCommand::Unplace { file: range.file.clone(), line, range_id: range.id });
        proof {
            assert(cmds@ =~= unplace_plan(*range).take(line - range.start + 1));
        }
        line = line + 1;
    }
    cmds.push(HostCommand::Unplace { file: range.file.clone(), line, range_id: range.id });
    proof {
        assert(cmds@ =~= unplace_plan(*range));
    }
    cmds
}

/// What the user is told when the editor refuses `cmd`: a warning naming the
/// line for a marker that was not there to remove, a general warning for
/// another refused command, and nothing for a refused notice, so that one
/// refusal never leads to an endless chain of them.
pub open spec fn failure_notice_of(cmd: HostCommand) -> Option<HostCommand> {
    match cmd {
        HostCommand::Unplace { file, line, .. } => Some(
            HostCommand::Notify(Notice::MarkerAbsent { file, line }),
        ),
        HostCommand::Notify(_) => None,
        _ => Some(HostCommand::Notify(Notice::CommandFailed)),
    }
}

/// The notice that answers a refused `cmd`. A refusal is never fatal: the
/// caller sends this notice and goes on with its next command.
pub fn failure_notice(cmd: &HostCommand) -> (r: Option<HostCommand>)
    ensures
        r == failure_notice_of(*cmd),
{
    match cmd {
        HostCommand::Unplace { file, line, .. } => Some(
            HostCommand::Notify(Notice::MarkerAbsent { file: file.clone(), line: *line }),
        ),
        HostCommand::Notify(_) => None,
        _ => Some(HostCommand::Notify(Notice::CommandFailed)),
    }
}

/// Taking the markers off a range asks for every line of it, whatever the
/// editor holds, and a removal that the editor refuses, because no marker
/// was there, is answered by a warning that names that line.
pub proof fn law_removal_failure_reported(r: CommentRange)
    requires
        r.start <= r.end,
    ensures
        unplace_plan(r).len() == r.end - r.start + 1,
        forall|k: int|
            0 <= k < unplace_plan(r).len() ==> {
                &&& #[trigger] unplace_plan(r)[k] == (HostCommand::Unplace {
                    file: r.file,
                    line: (r.start + k) as i64,
                    range_id: r.id,
                })
                &&& failure_notice_of(unplace_plan(r)[k]) == Some(
                    HostCommand::Notify(Notice::MarkerAbsent { file: r.file, line: (r.start + k) as i64 }),
                )
            },
{
}

} // verus!
