use vstd::prelude::*;
use crate::registrar::{available_ids, registration_targets, Guild};
use crate::store::{active_notes, note_len_ok, StoreError, TodoStore};
use crate::text::{
    format_list, join_lines, joined, list_lines, ping_notice, ping_notice_of, same_text,
};

verus! {

/// The commands that users can invoke.
#[derive(Clone, Copy, Debug, PartialEq, Eq, Structural)]
pub enum CommandKind {
    Hello,
    Test,
    TodoAdd,
    TodoComplete,
    TodoList,
}

/// A command with its typed arguments.
#[derive(Debug)]
pub enum Command {
    Hello,
    Test { target_user_id: u64 },
    TodoAdd { note: String },
    TodoComplete { index: i64 },
    TodoList,
}

/// An interaction event as the gateway decodes it.
pub struct Interaction {
    pub name: String,
    pub sub_command: Option<String>,
    pub author_id: u64,
    pub user: Option<u64>,
    pub note: Option<String>,
    pub index: Option<i64>,
}

/// The events that the gateway delivers.
pub enum Event {
    Ready { guilds: Vec<Guild> },
    Interaction(Interaction),
    Disconnected,
}

/// Where the gateway session stands.
#[derive(Clone, Copy, Debug, PartialEq, Eq, Structural)]
pub enum Phase {
    Connecting,
    Connected,
}

/// What the service must do in answer to an event.
#[derive(Clone, Copy, Debug, PartialEq, Eq, Structural)]
pub enum Action {
    /// Show the presence status.
    SetPresence,
    /// Post the startup notice to the log channel.
    AnnounceStartup,
    /// Publish the command schema globally.
    PublishGlobal,
    /// Publish a copy of the command schema in one community.
    PublishGuild(u64),
}

/// The session state of one gateway connection.
pub struct Session {
    pub phase: Phase,
}

/// What a handler sends back: at most one reply to the interaction, and at
/// most one notice to the log channel.
pub struct Response {
    pub reply: Option<String>,
    pub ephemeral: bool,
    pub log_notice: Option<String>,
}

/// What the service does in answer to one event: the session actions, and
/// the response of the command that an interaction ran, if it ran one.
pub struct Outcome {
    pub actions: Vec<Action>,
    pub response: Option<Response>,
}

/// The state shared by every command invocation: the todo store and the
/// configured community and log channel.
pub struct Data {
    pub store: TodoStore,
    pub guild_id: u64,
    pub log_id: u64,
}

/// The presence status shown once the session is ready.
pub const PRESENCE: &'static str = "something";

/// The notice posted to the log channel once the session is ready.
pub const STARTUP_NOTICE: &'static str = "Hello I'm on";

/// The reply to `hello`.
pub open spec fn hello_text() -> Seq<char> {
    seq!['w', 'o', 'r', 'l', 'd', '!']
}

/// The reply to a successful `todo add`.
pub open spec fn added_text(note: Seq<char>) -> Seq<char> {
    seq!['A', 'd', 'd', 'e', 'd', ':', ' '] + note
}

/// The reply to `todo add` with a note of the wrong length.
pub open spec fn invalid_note_text() -> Seq<char> {
    "The note must be 2 to 100 characters long."@
}

/// The reply when the store cannot carry out an operation.
pub open spec fn store_failure_text() -> Seq<char> {
    "The todo list is unavailable right now."@
}

/// The reply to a successful `todo complete`.
pub open spec fn completed_text() -> Seq<char> {
    "Completed."@
}

/// The reply to `todo complete` with a position that names no active todo.
pub open spec fn not_found_text() -> Seq<char> {
    "There is no active todo at that position."@
}

/// The reply to `todo list` when no todo is active.
pub open spec fn empty_list_text() -> Seq<char> {
    "You have no active todos."@
}

/// The command that a (command, sub-command) name pair is registered under.
pub open spec fn route_of(name: Seq<char>, sub: Option<Seq<char>>) -> Option<CommandKind> {
    if name == seq!['h', 'e', 'l', 'l', 'o'] && sub.is_none() {
        Some(CommandKind::Hello)
    } else if name == seq!['t', 'e', 's', 't'] && sub.is_none() {
        Some(CommandKind::Test)
    } else if name == seq!['t', 'o', 'd', 'o'] && sub == Some(seq!['a', 'd', 'd']) {
        Some(CommandKind::TodoAdd)
    } else if name == seq!['t', 'o', 'd', 'o'] && sub == Some(
        seq!['c', 'o', 'm', 'p', 'l', 'e', 't', 'e'],
    ) {
        Some(CommandKind::TodoComplete)
    } else if name == seq!['t', 'o', 'd', 'o'] && sub == Some(seq!['l', 'i', 's', 't']) {
        Some(CommandKind::TodoList)
    } else {
        None
    }
}

/// The characters of an optional sub-command name.
pub open spec fn sub_view(sub: Option<String>) -> Option<Seq<char>> {
    match sub {
        Some(s) => Some(s@),
        None => None,
    }
}

/// The actions owed when the session becomes ready: presence, notice,
/// global publish, then one publish per available community.
pub open spec fn ready_actions_of(guilds: Seq<Guild>) -> Seq<Action> {
    seq![Action::SetPresence, Action::AnnounceStartup, Action::PublishGlobal] + available_ids(
        guilds,
    ).map_values(|id: u64| Action::PublishGuild(id))
}

/// The reply to `todo list` for the active notes `notes`.
pub open spec fn list_text(notes: Seq<Seq<char>>) -> Seq<char> {
    if notes.len() == 0 {
        empty_list_text()
    } else {
        joined(list_lines(notes))
    }
}

/// The command, with its arguments, that interaction `i` invokes: `None`
/// where it names no registered command or lacks a required argument.
pub open spec fn command_of(i: Interaction) -> Option<Command> {
    match route_of(i.name@, sub_view(i.sub_command)) {
        None => None,
        Some(CommandKind::Hello) => Some(Command::Hello),
        Some(CommandKind::Test) => match i.user {
            Some(u) => Some(Command::Test { target_user_id: u }),
            None => None,
        },
        Some(CommandKind::TodoAdd) => match i.note {
            Some(n) => Some(Command::TodoAdd { note: n }),
            None => None,
        },
        Some(CommandKind::TodoComplete) => match i.index {
            Some(k) => Some(Command::TodoComplete { index: k }),
            None => None,
        },
        Some(CommandKind::TodoList) => Some(Command::TodoList),
    }
}

/// Running `cmd` for `author` on `d0` gave `d1` and the response `r`.
pub open spec fn executed(d0: Data, d1: Data, author: u64, cmd: Command, r: Response) -> bool {
    &&& d1.guild_id == d0.guild_id
    &&& d1.log_id == d0.log_id
    &&& match cmd {
        Command::Hello => d1.store@ == d0.store@ && r.reply.is_some() && r.reply.unwrap()@
            == hello_text() && !r.ephemeral && r.log_notice.is_none(),
        Command::Test { target_user_id } => d1.store@ == d0.store@ && r.reply.is_none()
            && r.log_notice.is_some() && r.log_notice.unwrap()@ == ping_notice_of(
            author as nat,
            target_user_id as nat,
        ),
        Command::TodoAdd { note } => r.log_notice.is_none() && r.reply.is_some() && if note_len_ok(
            note@.len(),
        ) && d0.store.next_id < u64::MAX {
            d1.store@ == d0.store@.added(author, note@) && r.reply.unwrap()@ == added_text(note@)
                && !r.ephemeral
        } else {
            d1.store@ == d0.store@ && r.ephemeral && r.reply.unwrap()@ == if !note_len_ok(
                note@.len(),
            ) {
                invalid_note_text()
            } else {
                store_failure_text()
            }
        },
        Command::TodoComplete { index } => r.log_notice.is_none() && r.reply.is_some() && if 1
            <= index <= active_notes(d0.store@.records, author).len() {
            d1.store@ == d0.store@.completed_at(author, index as int) && r.reply.unwrap()@
                == completed_text() && !r.ephemeral
        } else {
            d1.store@ == d0.store@ && r.ephemeral && r.reply.unwrap()@ == not_found_text()
        },
        Command::TodoList => d1.store@ == d0.store@ && r.log_notice.is_none() && r.reply.is_some()
            && !r.ephemeral && r.reply.unwrap()@ == list_text(
            active_notes(d0.store@.records, author),
        ),
    }
}

/// Finds the command registered under `name` and `sub`.
pub fn route(name: &str, sub: Option<&str>) -> (r: Option<CommandKind>)
    ensures
        r == route_of(
            name@,
            match sub {
                Some(s) => Some(s@),
                None => None,
            },
        ),
{
    proof {
        reveal_strlit("hello");
        reveal_strlit("test");
        reveal_strlit("todo");
        reveal_strlit("add");
        reveal_strlit("complete");
        reveal_strlit("list");
        assert("hello"@ =~= seq!['h', 'e', 'l', 'l', 'o']);
        assert("test"@ =~= seq!['t', 'e', 's', 't']);
        assert("todo"@ =~= seq!['t', 'o', 'd', 'o']);
        assert("add"@ =~= seq!['a', 'd', 'd']);
        assert("complete"@ =~= seq!['c', 'o', 'm', 'p', 'l', 'e', 't', 'e']);
        assert("list"@ =~= seq!['l', 'i', 's', 't']);
    }
    match sub {
        None => {
            if same_text(name, "hello") {
                Some(CommandKind::Hello)
            } else if same_text(name, "test") {
                Some(CommandKind::Test)
            } else {
                None
            }
        },
        Some(s) => {
            if !same_text(name, "todo") {
                None
            } else if same_text(s, "add") {
                Some(CommandKind::TodoAdd)
            } else if same_text(s, "complete") {
                Some(CommandKind::TodoComplete)
            } else if same_text(s, "list") {
                Some(CommandKind::TodoList)
            } else {
                None
            }
        },
    }
}

/// Reads the command and its arguments out of an interaction. An
/// interaction that names no registered command, or lacks an argument
/// that its command requires, gives `None`.
pub fn parse_command(i: &Interaction) -> (r: Option<Command>)
    ensures
        r == command_of(*i),
{
    let sub: Option<&str> = match &i.sub_command {
        Some(s) => Some(s.as_str()),
        None => None,
    };
    let kind = route(i.name.as_str(), sub);
    match kind {
        None => None,
        Some(CommandKind::Hello) => Some(Command::Hello),
        Some(CommandKind::Test) => match i.user {
            Some(u) => Some(Command::Test { target_user_id: u }),
            None => None,
        },
        Some(CommandKind::TodoAdd) => match &i.note {
            Some(n) => Some(Command::TodoAdd { note: n.clone() }),
            None => None,
        },
        Some(CommandKind::TodoComplete) => match i.index {
            Some(k) => Some(Command::TodoComplete { index: k }),
            None => None,
        },
        Some(CommandKind::TodoList) => Some(Command::TodoList),
    }
}

/// The actions owed when the session becomes ready.
pub fn ready_actions(guilds: &Vec<Guild>) -> (r: Vec<Action>)
    ensures
        r@ == ready_actions_of(guilds@),
{
    let mut r: Vec<Action> = Vec::new();
    r.push(Action::SetPresence);
    r.push(Action::AnnounceStartup);
    r.push(Action::PublishGlobal);
    let targets = registration_targets(guilds);
    let ghost head = r@;
    let mut i: usize = 0;
    while i < targets.len()
        invariant
            i <= targets@.len(),
            head == seq![Action::SetPresence, Action::AnnounceStartup, Action::PublishGlobal],
            r@ == head + targets@.subrange(0, i as int).map_values(|id: u64| Action::PublishGuild(id)),
        decreases targets@.len() - i,
    {
        r.push(Action::PublishGuild(targets[i]));
        proof {
            assert(targets@.subrange(0, i + 1).map_values(|id: u64| Action::PublishGuild(id))
                =~= targets@.subrange(0, i as int).map_values(|id: u64| Action::PublishGuild(id)).push(
                Action::PublishGuild(targets@[i as int]),
            ));
        }
        i = i + 1;
    }
    assert(targets@.subrange(0, i as int) =~= targets@);
    r
}

impl Session {
    /// A session whose handshake has not completed.
    pub fn new() -> (r: Session)
        ensures
            r.phase == Phase::Connecting,
    {
        Session { phase: Phase::Connecting }
    }
}

/// Answers one event. `Ready` moves the session to `Connected` and asks
/// for the startup actions, on every handshake; a disconnection moves it
/// back to `Connecting`. An interaction in a connected session that invokes
/// a registered command runs that command on the shared state, once, and
/// gives its response; any other event leaves the shared state alone.
pub fn handle(session: &mut Session, data: &mut Data, event: &Event) -> (r: Outcome)
    requires
        old(data).wf(),
    ensures
        final(data).wf(),
        match event {
            Event::Ready { guilds } => final(session).phase == Phase::Connected && r.actions@
                == ready_actions_of(guilds@) && r.response.is_none() && *final(data) == *old(data),
            Event::Disconnected => final(session).phase == Phase::Connecting && r.actions@.len()
                == 0 && r.response.is_none() && *final(data) == *old(data),
            Event::Interaction(i) => final(session).phase == old(session).phase
                && r.actions@.len() == 0 && if old(session).phase == Phase::Connected
                && command_of(*i).is_some() {
                r.response.is_some() && executed(
                    *old(data),
                    *final(data),
                    i.author_id,
                    command_of(*i).unwrap(),
                    r.response.unwrap(),
                )
            } else {
                r.response.is_none() && *final(data) == *old(data)
            },
        },
{
    match event {
        Event::Ready { guilds } => {
            session.phase = Phase::Connected;
            Outcome { actions: ready_actions(guilds), response: None }
        },
        Event::Disconnected => {
            session.phase = Phase::Connecting;
            Outcome { actions: Vec::new(), response: None }
        },
        Event::Interaction(i) => {
            if session.phase == Phase::Connected {
                match parse_command(i) {
                    Some(cmd) => {
                        let resp = data.execute(i.author_id, cmd);
                        Outcome { actions: Vec::new(), response: Some(resp) }
                    },
                    None => Outcome { actions: Vec::new(), response: None },
                }
            } else {
                Outcome { actions: Vec::new(), response: None }
            }
        },
    }
}

fn text(s: &str) -> (r: String)
    ensures
        r@ == s@,
{
    String::from_str(s)
}

impl Data {
    /// The store's invariant holds.
    pub open spec fn wf(&self) -> bool {
        self.store@.wf()
    }

    /// Shared state around an empty store.
    pub fn new(guild_id: u64, log_id: u64) -> (r: Data)
        ensures
            r.wf(),
            r.store@.records.len() == 0,
            r.guild_id == guild_id,
            r.log_id == log_id,
    {
        Data { store: TodoStore::new(), guild_id, log_id }
    }

    /// Runs `cmd` for user `author_id`.
    pub fn execute(&mut self, author_id: u64, cmd: Command) -> (r: Response)
        requires
            old(self).wf(),
        ensures
            final(self).wf(),
            executed(*old(self), *final(self), author_id, cmd, r),
    {
        match cmd {
            Command::Hello => {
                proof {
                    reveal_strlit("world!");
                    assert("world!"@ =~= hello_text());
                }
                Response { reply: Some(text("world!")), ephemeral: false, log_notice: None }
            },
            Command::Test { target_user_id } => {
                Response {
                    reply: None,
                    ephemeral: false,
                    log_notice: Some(ping_notice(author_id, target_user_id)),
                }
            },
            Command::TodoAdd { note } => {
                match self.store.add(author_id, note.as_str()) {
                    Ok(_) => {
                        proof {
                            reveal_strlit("Added: ");
                            assert("Added: "@ =~= seq!['A', 'd', 'd', 'e', 'd', ':', ' ']);
                        }
                        let mut s = text("Added: ");
                        s.append(note.as_str());
                        assert(s@ =~= added_text(note@));
                        Response { reply: Some(s), ephemeral: false, log_notice: None }
                    },
                    Err(StoreError::Validation) => Response {
                        reply: Some(text("The note must be 2 to 100 characters long.")),
                        ephemeral: true,
                        log_notice: None,
                    },
                    Err(_) => Response {
                        reply: Some(text("The todo list is unavailable right now.")),
                        ephemeral: true,
                        log_notice: None,
                    },
                }
            },
            Command::TodoComplete { index } => {
                match self.store.complete(author_id, index) {
                    Ok(()) => Response {
                        reply: Some(text("Completed.")),
                        ephemeral: false,
                        log_notice: None,
                    },
                    Err(_) => Response {
                        reply: Some(text("There is no active todo at that position.")),
                        ephemeral: true,
                        log_notice: None,
                    },
                }
            },
            Command::TodoList => {
                let notes = self.store.list_active(author_id);
                if notes.len() == 0 {
                    Response {
                        reply: Some(text("You have no active todos.")),
                        ephemeral: false,
                        log_notice: None,
                    }
                } else {
                    let lines = format_list(&notes);
                    Response { reply: Some(join_lines(&lines)), ephemeral: false, log_notice: None }
                }
            },
        }
    }
}

} // verus!
