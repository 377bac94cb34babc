use vstd::prelude::*;
use crate::range::{CommentRange, RangeView};
use crate::store::{Store, containing, not_containing, first_containing, in_file};
use crate::highlight::{HostCommand, Notice, place, remove, place_plan, place_all, unplace_all};

verus! {

/// The kind of an event that the editor sends, told by its name.
#[derive(Debug, Clone, PartialEq, Eq)]
pub enum Message {
    NewComment,
    ShowComment,
    DeleteComment,
    HighlightComments,
    Unknown(String),
}

pub open spec fn message_of(event: String) -> Message {
    if event@ == "new_comment"@ {
        Message::NewComment
    } else if event@ == "show_comment"@ {
        Message::ShowComment
    } else if event@ == "highlight_comments"@ {
        Message::HighlightComments
    } else if event@ == "delete_comment"@ {
        Message::DeleteComment
    } else {
        Message::Unknown(event)
    }
}

impl From<String> for Message {
    fn from(event: String) -> (m: Message) {
        if event == "new_comment".to_owned() {
            Message::NewComment
        } else if event == "show_comment".to_owned() {
            Message::ShowComment
        } else if event == "highlight_comments".to_owned() {
            Message::HighlightComments
        } else if event == "delete_comment".to_owned() {
            Message::DeleteComment
        } else {
            Message::Unknown(event)
        }
    }
}

impl vstd::std_specs::convert::FromSpecImpl<String> for Message {
    open spec fn obeys_from_spec() -> bool {
        true
    }

    open spec fn from_spec(v: String) -> Message {
        message_of(v)
    }
}

/// One positional argument of an event, as far as the commands read it.
#[derive(Debug, Clone, PartialEq, Eq)]
pub enum Arg {
    Str(String),
    Int(i64),
    /// Any value that is neither a string nor an integer that fits `i64`.
    Other,
}

/// A validated command, with its arguments.
#[derive(Debug, Clone, PartialEq, Eq)]
pub enum Command {
    NewComment { file: String, start: i64, end: i64, text: String },
    ShowComment { file: String, line: i64 },
    DeleteComment { file: String, line: i64 },
    HighlightRanges { file: String },
    Unknown(String),
}

/// What the arguments of an event amount to.
#[derive(Debug, Clone, PartialEq, Eq)]
pub enum Decoded {
    Run(Command),
    /// Fewer arguments than the command needs: the event is passed over.
    TooFewArgs,
    /// An argument of the wrong type, or a range that ends before it starts.
    Invalid,
}

/// The command that `m` with arguments `args` stands for. Only the leading
/// arguments that a command needs are read; any more are passed over.
pub open spec fn decode_of(m: Message, args: Seq<Arg>) -> Decoded {
    match m {
        Message::NewComment => if args.len() < 4 {
            Decoded::TooFewArgs
        } else {
            match (args[0], args[1], args[2], args[3]) {
                (Arg::Str(file), Arg::Int(start), Arg::Int(end), Arg::Str(text)) => if start <= end {
                    Decoded::Run(Command::NewComment { file, start, end, text })
                } else {
                    Decoded::Invalid
                },
                _ => Decoded::Invalid,
            }
        },
        Message::ShowComment => if args.len() < 2 {
            Decoded::TooFewArgs
        } else {
            match (args[0], args[1]) {
                (Arg::Str(file), Arg::Int(line)) => Decoded::Run(Command::ShowComment { file, line }),
                _ => Decoded::Invalid,
            }
        },
        Message::DeleteComment => if args.len() < 2 {
            Decoded::TooFewArgs
        } else {
            match (args[0], args[1]) {
                (Arg::Str(file), Arg::Int(line)) => Decoded::Run(Command::DeleteComment { file, line }),
                _ => Decoded::Invalid,
            }
        },
        Message::HighlightComments => if args.len() < 1 {
            Decoded::TooFewArgs
        } else {
            match args[0] {
                Arg::Str(file) => Decoded::Run(Command::HighlightRanges { file }),
                _ => Decoded::Invalid,
            }
        },
        Message::Unknown(name) => Decoded::Run(Command::Unknown(name)),
    }
}

fn arg_str(a: &Arg) -> (r: Option<String>)
    ensures
        r == (match *a {
            Arg::Str(s) => Some(s),
            _ => None,
        }),
{
    match a {
        Arg::Str(s) => Some(s.clone()),
        _ => None,
    }
}

fn arg_int(a: &Arg) -> (r: Option<i64>)
    ensures
        r == (match *a {
            Arg::Int(n) => Some(n),
            _ => None,
        }),
{
    match a {
        Arg::Int(n) => Some(*n),
        _ => None,
    }
}

/// Checks the arguments of an event against what its command needs.
pub fn decode(m: Message, args: &Vec<Arg>) -> (d: Decoded)
    ensures
        d == decode_of(m, args@),
{
    match m {
        Message::NewComment => {
            if args.len() < 4 {
                return Decoded::TooFewArgs;
            }
            match (arg_str(&args[0]), arg_int(&args[1]), arg_int(&args[2]), arg_str(&args[3])) {
                (Some(file), Some(start), Some(end), Some(text)) => if start <= end {
                    Decoded::Run(Command::NewComment { file, start, end, text })
                } else {
                    Decoded::Invalid
                },
                _ => Decoded::Invalid,
            }
        },
        Message::ShowComment => {
            if args.len() < 2 {
                return Decoded::TooFewArgs;
            }
            match (arg_str(&args[0]), arg_int(&args[1])) {
                (Some(file), Some(line)) => Decoded::Run(Command::ShowComment { file, line }),
                _ => Decoded::Invalid,
            }
        },
        Message::DeleteComment => {
            if args.len() < 2 {
                return Decoded::TooFewArgs;
            }
            match (arg_str(&args[0]), arg_int(&args[1])) {
                (Some(file), Some(line)) => Decoded::Run(Command::DeleteComment { file, line }),
                _ => Decoded::Invalid,
            }
        },
        Message::HighlightComments => {
            if args.len() < 1 {
                return Decoded::TooFewArgs;
            }
            match arg_str(&args[0]) {
                Some(file) => Decoded::Run(Command::HighlightRanges { file }),
                None => Decoded::Invalid,
            }
        },
        Message::Unknown(name) => Decoded::Run(Command::Unknown(name)),
    }
}

/// What one event asks of the rest of the system: the range to write to the
/// persistent copy of the store, the ranges to take out of it, and the
/// commands to send to the editor, in order.
pub struct Plan {
    pub added: Option<CommentRange>,
    pub removed: Vec<CommentRange>,
    pub commands: Vec<HostCommand>,
}

impl Plan {
    /// A plan that changes nothing in the store.
    pub open spec fn keeps_store(&self) -> bool {
        &&& self.added is None
        &&& self.removed@.len() == 0
    }
}

/// The name under which the editor sends events of kind `m`.
pub open spec fn event_name(m: Message) -> Seq<char> {
    match m {
        Message::NewComment => "new_comment"@,
        Message::ShowComment => "show_comment"@,
        Message::DeleteComment => "delete_comment"@,
        Message::HighlightComments => "highlight_comments"@,
        Message::Unknown(name) => name@,
    }
}

/// `p` is what `cmd` asks for, and the store went from `before` to `after`
/// by it.
pub open spec fn handled(before: Store, after: Store, cmd: Command, p: Plan) -> bool {
    match cmd {
        Command::NewComment { file, start, end, text } => if before.next_id() == i64::MAX {
            &&& after == before
            &&& p.keeps_store()
            &&& p.commands@ == seq![HostCommand::Notify(Notice::StoreFailed)]
        } else {
            &&& p.added matches Some(r) && {
                &&& r@ == (RangeView {
                    id: before.next_id(),
                    file: file@,
                    start: start as int,
                    end: end as int,
                    text: text@,
                })
                &&& after.ranges().len() == before.ranges().len() + 1
                &&& after.ranges().drop_last() == before.ranges()
                &&& after.ranges().last()@ == r@
                &&& p.commands@ == place_plan(r) + seq![HostCommand::Notify(Notice::CommentAdded)]
            }
            &&& after.next_id() == before.next_id() + 1
            &&& p.removed@.len() == 0
        },
        Command::ShowComment { file, line } => {
            &&& after == before
            &&& p.keeps_store()
            &&& p.commands@ == match first_containing(before.ranges(), file@, line as int) {
                Some(c) => seq![HostCommand::Display { text: c.text }],
                None => Seq::empty(),
            }
        },
        Command::DeleteComment { file, line } => {
            &&& after.ranges() == not_containing(before.ranges(), file@, line as int)
            &&& after.next_id() == before.next_id()
            &&& p.added is None
            &&& p.removed@ == containing(before.ranges(), file@, line as int)
            &&& p.commands@ == unplace_all(p.removed@) + seq![HostCommand::Notify(Notice::CommentsDeleted)]
        },
        Command::HighlightRanges { file } => {
            &&& after == before
            &&& p.keeps_store()
            &&& p.commands@ == place_all(in_file(before.ranges(), file@))
        },
        Command::Unknown(name) => {
            &&& after == before
            &&& p.keeps_store()
            &&& p.commands@ == seq![HostCommand::Notify(Notice::UnknownCommand(name))]
        },
    }
}

fn place_each(ranges: &Vec<CommentRange>) -> (cmds: Vec<HostCommand>)
    ensures
        cmds@ == place_all(ranges@),
{
    let mut cmds: Vec<HostCommand> = Vec::new();
    let mut i: usize = 0;
    while i < ranges.len()
        invariant
            0 <= i <= ranges@.len(),
            cmds@ == place_all(ranges@.take(i as int)),
        decreases ranges@.len() - i,
    {
        let mut more = place(&ranges[i]);
        cmds.append(&mut more);
        proof {
            assert(ranges@.take(i as int + 1).drop_last() =~= ranges@.take(i as int));
        }
        i += 1;
    }
    proof {
        assert(ranges@.take(ranges@.len() as int) =~= ranges@);
    }
    cmds
}

fn remove_each(ranges: &Vec<CommentRange>) -> (cmds: Vec<HostCommand>)
    ensures
        cmds@ == unplace_all(ranges@),
{
    let mut cmds: Vec<HostCommand> = Vec::new();
    let mut i: usize = 0;
    while i < ranges.len()
        invariant
            0 <= i <= ranges@.len(),
            cmds@ == unplace_all(ranges@.take(i as int)),
        decreases ranges@.len() - i,
    {
        let mut more = remove(&ranges[i]);
        cmds.append(&mut more);
        proof {
            assert(ranges@.take(i as int + 1).drop_last() =~= ranges@.take(i as int));
        }
        i += 1;
    }
    proof {
        assert(ranges@.take(ranges@.len() as int) =~= ranges@);
    }
    cmds
}

/// Carries out `cmd` on the store and says what else it takes: a new comment
/// is stored and marked, a lookup shows the text of the first range found, a
/// deletion removes every range at the line and takes its markers off, and a
/// request to mark a file marks every range of it.
pub fn handle(store: &mut Store, cmd: Command) -> (p: Plan)
    requires
        old(store).wf(),
    ensures
        final(store).wf(),
        handled(*old(store), *final(store), cmd, p),
{
    match cmd {
        Command::NewComment { file, start, end, text } => {
            match store.add(file.as_str(), start, end, text.as_str()) {
                Ok(id) => {
                    let range = CommentRange::new(id, file.as_str(), start, end, text.as_str());
                    let mut commands = place(&range);
                    commands.push(HostCommand::Notify(Notice::CommentAdded));
                    proof {
                        assert(commands@ =~= place_plan(range) + seq![HostCommand::Notify(Notice::CommentAdded)]);
                    }
                    Plan { added: Some(range), removed: Vec::new(), commands }
                },
                Err(_) => {
                    let mut commands: Vec<HostCommand> = Vec::new();
                    commands.push(HostCommand::Notify(Notice::StoreFailed));
                    proof {
                        assert(commands@ =~= seq![HostCommand::Notify(Notice::StoreFailed)]);
                    }
                    Plan { added: None, removed: Vec::new(), commands }
                },
            }
        },
        Command::ShowComment { file, line } => {
            let mut commands: Vec<HostCommand> = Vec::new();
            match store.find_containing(&file, line) {
                Some(c) => {
                    commands.push(HostCommand::Display { text: c.text });
                    proof {
                        assert(commands@ =~= seq![HostCommand::Display { text: c.text }]);
                    }
                },
                None => {},
            }
            Plan { added: None, removed: Vec::new(), commands }
        },
        Command::DeleteComment { file, line } => {
            let removed = store.delete_containing(&file, line);
            let mut commands = remove_each(&removed);
            commands.push(HostCommand::Notify(Notice::CommentsDeleted));
            proof {
                assert(commands@ =~= unplace_all(removed@) + seq![HostCommand::Notify(Notice::CommentsDeleted)]);
            }
            Plan { added: None, removed, commands }
        },
        Command::HighlightRanges { file } => {
            let ranges = store.list_ranges(&file);
            let commands = place_each(&ranges);
            Plan { added: None, removed: Vec::new(), commands }
        },
        Command::Unknown(name) => {
            let mut commands: Vec<HostCommand> = Vec::new();
            commands.push(HostCommand::Notify(Notice::UnknownCommand(name)));
            proof {
                assert(commands@ =~= seq![HostCommand::Notify(Notice::UnknownCommand(name))]);
            }
            Plan { added: None, removed: Vec::new(), commands }
        },
    }
}

/// The acknowledgment that an event of kind `m` gets even when it is passed
/// over for want of arguments.
pub open spec fn acknowledgment(m: Message) -> Seq<HostCommand> {
    match m {
        Message::NewComment => seq![HostCommand::Notify(Notice::CommentAdded)],
        Message::DeleteComment => seq![HostCommand::Notify(Notice::CommentsDeleted)],
        _ => Seq::empty(),
    }
}

fn event_name_of(m: &Message) -> (name: String)
    ensures
        name@ == event_name(*m),
{
    match m {
        Message::NewComment => "new_comment".to_owned(),
        Message::ShowComment => "show_comment".to_owned(),
        Message::DeleteComment => "delete_comment".to_owned(),
        Message::HighlightComments => "highlight_comments".to_owned(),
        Message::Unknown(name) => name.clone(),
    }
}

/// Handles one event of kind `m` with arguments `args`. An event with too
/// few arguments is passed over, with only the acknowledgment that its kind
/// always gets; one whose arguments do not check out leaves the store as it
/// is and gets a warning that names the event.
pub fn dispatch(store: &mut Store, m: Message, args: &Vec<Arg>) -> (p: Plan)
    requires
        old(store).wf(),
    ensures
        final(store).wf(),
        decode_of(m, args@) matches Decoded::Run(cmd) ==> handled(*old(store), *final(store), cmd, p),
        decode_of(m, args@) is TooFewArgs ==> {
            &&& *final(store) == *old(store)
            &&& p.keeps_store()
            &&& p.commands@ == acknowledgment(m)
        },
        decode_of(m, args@) is Invalid ==> {
            &&& *final(store) == *old(store)
            &&& p.keeps_store()
            &&& p.commands@.len() == 1
            &&& p.commands@[0] matches HostCommand::Notify(Notice::InvalidArguments(name))
                && name@ == event_name(m)
        },
{
    let name = event_name_of(&m);
    let ghost kind = m;
    let is_new = matches!(m, Message::NewComment);
    let is_delete = matches!(m, Message::DeleteComment);
    match decode(m, args) {
        Decoded::Run(cmd) => handle(store, cmd),
        Decoded::TooFewArgs => {
            let mut commands: Vec<HostCommand> = Vec::new();
            if is_new {
                commands.push(HostCommand::Notify(Notice::CommentAdded));
            } else if is_delete {
                commands.push(HostCommand::Notify(Notice::CommentsDeleted));
            }
            proof {
                assert(commands@ =~= acknowledgment(kind));
            }
            Plan { added: None, removed: Vec::new(), commands }
        },
        Decoded::Invalid => {
            let mut commands: Vec<HostCommand> = Vec::new();
            commands.push(HostCommand::Notify(Notice::InvalidArguments(name)));
            Plan { added: None, removed: Vec::new(), commands }
        },
    }
}

} // verus!
