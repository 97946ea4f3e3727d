use todo_bot::bot::{
    handle, parse_command, ready_actions, route, Action, Command, CommandKind, Data, Event,
    Interaction, Outcome, Phase, Session,
};
use todo_bot::registrar::{failed_targets, registration_targets, Guild, Registry, Scope};

fn interaction(name: &str, sub: Option<&str>) -> Interaction {
    Interaction {
        name: name.to_string(),
        sub_command: sub.map(|s| s.to_string()),
        author_id: 11,
        user: None,
        note: None,
        index: None,
    }
}

fn schema() -> Vec<String> {
    vec!["hello".to_string(), "test".to_string(), "todo".to_string()]
}

#[test]
fn routes_registered_commands() {
    assert_eq!(route("hello", None), Some(CommandKind::Hello));
    assert_eq!(route("test", None), Some(CommandKind::Test));
    assert_eq!(route("todo", Some("add")), Some(CommandKind::TodoAdd));
    assert_eq!(route("todo", Some("complete")), Some(CommandKind::TodoComplete));
    assert_eq!(route("todo", Some("list")), Some(CommandKind::TodoList));
    assert_eq!(route("todo", None), None);
    assert_eq!(route("hello", Some("add")), None);
    assert_eq!(route("unknown", None), None);
}

#[test]
fn parses_arguments() {
    let mut i = interaction("todo", Some("add"));
    assert!(parse_command(&i).is_none());
    i.note = Some("buy milk".to_string());
    match parse_command(&i) {
        Some(Command::TodoAdd { note }) => assert_eq!(note, "buy milk"),
        _ => panic!("expected todo add"),
    }
    let mut c = interaction("todo", Some("complete"));
    c.index = Some(3);
    assert!(matches!(parse_command(&c), Some(Command::TodoComplete { index: 3 })));
    let mut t = interaction("test", None);
    t.user = Some(99);
    assert!(matches!(parse_command(&t), Some(Command::Test { target_user_id: 99 })));
    assert!(parse_command(&interaction("nope", None)).is_none());
}

#[test]
fn hello_replies_world() {
    let mut d = Data::new(1, 2);
    let r = d.execute(5, Command::Hello);
    assert_eq!(r.reply.as_deref(), Some("world!"));
    assert!(!r.ephemeral);
    assert!(r.log_notice.is_none());
}

#[test]
fn test_posts_ping_notice() {
    let mut d = Data::new(1, 2);
    let r = d.execute(5, Command::Test { target_user_id: 6 });
    assert!(r.reply.is_none());
    assert_eq!(r.log_notice.as_deref(), Some("<@5> pinged: <@6>"));
}

#[test]
fn todo_commands_scenario() {
    let mut d = Data::new(1, 2);
    let r = d.execute(5, Command::TodoAdd { note: "buy milk".to_string() });
    assert_eq!(r.reply.as_deref(), Some("Added: buy milk"));
    let r = d.execute(5, Command::TodoList);
    assert_eq!(r.reply.as_deref(), Some("1: buy milk"));
    let r = d.execute(5, Command::TodoComplete { index: 1 });
    assert_eq!(r.reply.as_deref(), Some("Completed."));
    let r = d.execute(5, Command::TodoList);
    assert_eq!(r.reply.as_deref(), Some("You have no active todos."));
}

#[test]
fn todo_command_errors_are_ephemeral() {
    let mut d = Data::new(1, 2);
    let r = d.execute(5, Command::TodoComplete { index: 5 });
    assert!(r.ephemeral);
    assert_eq!(r.reply.as_deref(), Some("There is no active todo at that position."));
    let r = d.execute(5, Command::TodoAdd { note: "x".to_string() });
    assert!(r.ephemeral);
    assert_eq!(r.reply.as_deref(), Some("The note must be 2 to 100 characters long."));
    d.store.next_id = u64::MAX;
    let r = d.execute(5, Command::TodoAdd { note: "fine".to_string() });
    assert!(r.ephemeral);
    assert_eq!(r.reply.as_deref(), Some("The todo list is unavailable right now."));
}

#[test]
fn todo_list_numbers_lines() {
    let mut d = Data::new(1, 2);
    d.execute(5, Command::TodoAdd { note: "one".to_string() });
    d.execute(5, Command::TodoAdd { note: "two".to_string() });
    d.execute(6, Command::TodoAdd { note: "other".to_string() });
    let r = d.execute(5, Command::TodoList);
    assert_eq!(r.reply.as_deref(), Some("1: one\n2: two"));
}

#[test]
fn ready_publishes_to_available_guilds() {
    let guilds = vec![
        Guild { id: 10, available: true },
        Guild { id: 20, available: false },
        Guild { id: 30, available: true },
    ];
    assert_eq!(registration_targets(&guilds), vec![10, 30]);
    assert_eq!(
        ready_actions(&guilds),
        vec![
            Action::SetPresence,
            Action::AnnounceStartup,
            Action::PublishGlobal,
            Action::PublishGuild(10),
            Action::PublishGuild(30),
        ]
    );
}

#[test]
fn failed_guild_publishes_do_not_stop_the_pass() {
    let outcomes = vec![(1, false), (2, true), (3, false)];
    assert_eq!(failed_targets(&outcomes), vec![1, 3]);
    assert!(failed_targets(&vec![(4, true)]).is_empty());
}

fn reply_of(o: Outcome) -> Option<String> {
    o.response.and_then(|r| r.reply)
}

fn todo(sub: &str, author: u64) -> Interaction {
    let mut i = interaction("todo", Some(sub));
    i.author_id = author;
    i
}

fn add_event(author: u64, note: &str) -> Event {
    let mut i = todo("add", author);
    i.note = Some(note.to_string());
    Event::Interaction(i)
}

fn complete_event(author: u64, index: i64) -> Event {
    let mut i = todo("complete", author);
    i.index = Some(index);
    Event::Interaction(i)
}

fn list_event(author: u64) -> Event {
    Event::Interaction(todo("list", author))
}

fn connected() -> (Session, Data) {
    let mut s = Session::new();
    let mut d = Data::new(1, 2);
    handle(&mut s, &mut d, &Event::Ready { guilds: Vec::new() });
    (s, d)
}

#[test]
fn session_state_machine() {
    let mut s = Session::new();
    let mut d = Data::new(1, 2);
    assert_eq!(s.phase, Phase::Connecting);
    let early = Event::Interaction(interaction("hello", None));
    let o = handle(&mut s, &mut d, &early);
    assert!(o.actions.is_empty() && o.response.is_none());
    let ready = Event::Ready { guilds: vec![Guild { id: 3, available: true }] };
    let o = handle(&mut s, &mut d, &ready);
    assert_eq!(o.actions.len(), 4);
    assert!(o.response.is_none());
    assert_eq!(s.phase, Phase::Connected);
    assert_eq!(reply_of(handle(&mut s, &mut d, &early)).as_deref(), Some("world!"));
    let unknown = Event::Interaction(interaction("nope", None));
    let o = handle(&mut s, &mut d, &unknown);
    assert!(o.actions.is_empty() && o.response.is_none());
    assert!(handle(&mut s, &mut d, &Event::Disconnected).actions.is_empty());
    assert_eq!(s.phase, Phase::Connecting);
    assert_eq!(handle(&mut s, &mut d, &ready).actions.len(), 4);
}

#[test]
fn handle_add_list_complete_scenario() {
    let (mut s, mut d) = connected();
    assert_eq!(reply_of(handle(&mut s, &mut d, &add_event(1, "buy milk"))).as_deref(), Some("Added: buy milk"));
    assert_eq!(reply_of(handle(&mut s, &mut d, &list_event(1))).as_deref(), Some("1: buy milk"));
    assert_eq!(reply_of(handle(&mut s, &mut d, &complete_event(1, 1))).as_deref(), Some("Completed."));
    assert_eq!(
        reply_of(handle(&mut s, &mut d, &list_event(1))).as_deref(),
        Some("You have no active todos.")
    );
}

#[test]
fn handle_complete_on_empty_owner() {
    let (mut s, mut d) = connected();
    let o = handle(&mut s, &mut d, &complete_event(1, 5));
    let r = o.response.unwrap();
    assert!(r.ephemeral);
    assert_eq!(r.reply.as_deref(), Some("There is no active todo at that position."));
    assert!(d.store.records.is_empty());
}

#[test]
fn handle_keeps_order_and_owners_apart() {
    let (mut s, mut d) = connected();
    for note in ["one", "two", "three"] {
        handle(&mut s, &mut d, &add_event(1, note));
    }
    handle(&mut s, &mut d, &add_event(2, "other"));
    handle(&mut s, &mut d, &complete_event(1, 2));
    assert_eq!(reply_of(handle(&mut s, &mut d, &list_event(1))).as_deref(), Some("1: one\n2: three"));
    assert_eq!(reply_of(handle(&mut s, &mut d, &list_event(2))).as_deref(), Some("1: other"));
}

#[test]
fn handle_note_length_boundaries() {
    let (mut s, mut d) = connected();
    for bad in ["a".to_string(), "a".repeat(101)] {
        let r = handle(&mut s, &mut d, &add_event(1, &bad)).response.unwrap();
        assert!(r.ephemeral);
    }
    assert!(d.store.records.is_empty());
    for good in ["ab".to_string(), "a".repeat(100)] {
        let r = handle(&mut s, &mut d, &add_event(1, &good)).response.unwrap();
        assert!(!r.ephemeral);
        assert_eq!(d.store.list_active(1).last(), Some(&good));
    }
}

#[test]
fn publishing_twice_is_idempotent() {
    let mut reg = Registry::new();
    assert!(reg.publish(Scope::Global, schema()));
    assert!(reg.publish(Scope::Global, schema()));
    assert_eq!(reg.entries.len(), 1);
    assert_eq!(reg.schema_of(Scope::Global), Some(schema()));
    reg.publish(Scope::Guild(7), schema());
    reg.publish(Scope::Guild(7), vec!["hello".to_string()]);
    assert_eq!(reg.entries.len(), 2);
    assert_eq!(reg.schema_of(Scope::Guild(7)), Some(vec!["hello".to_string()]));
    assert_eq!(reg.schema_of(Scope::Guild(8)), None);
}

#[test]
fn schema_with_repeated_name_is_refused() {
    let mut reg = Registry::new();
    assert!(reg.publish(Scope::Global, schema()));
    let twice = vec!["hello".to_string(), "hello".to_string()];
    assert!(!reg.publish(Scope::Global, twice));
    assert_eq!(reg.schema_of(Scope::Global), Some(schema()));
    assert!(!reg.publish(Scope::Guild(1), vec!["a".to_string(), "b".to_string(), "a".to_string()]));
    assert_eq!(reg.schema_of(Scope::Guild(1)), None);
}
