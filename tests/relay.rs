use rustchat::history::{History, MAX_HISTORY_SIZE};
use rustchat::message::{ClientMessage, ServerMessage};
use rustchat::router::{Delivery, ServerState};
use rustchat::session::Session;

fn s(x: &str) -> String {
    x.to_string()
}

fn targets(d: &[Delivery]) -> Vec<u64> {
    d.iter().map(|d| d.handle).collect()
}

#[test]
fn register_announces_to_everyone() {
    let mut st = ServerState::new();
    let r = st.register(&s("A"), 1);
    assert_eq!(targets(&r), vec![1]);
    assert_eq!(r[0].msg, ServerMessage::System { content: s("A join the chat") });
    let r = st.register(&s("B"), 2);
    assert_eq!(targets(&r), vec![1, 2]);
    assert_eq!(r[1].msg, ServerMessage::System { content: s("B join the chat") });
}

#[test]
fn registration_overwrite_routes_to_second_handle() {
    let mut st = ServerState::new();
    st.register(&s("A"), 1);
    st.register(&s("A"), 2);
    assert_eq!(st.lookup(&s("A")), Some(2));
    let r = st.dispatch(&s("C"), &s("A"), &s("hi"));
    assert_eq!(targets(&r), vec![2]);
    assert_eq!(
        r[0].msg,
        ServerMessage::PrivateMessage { from: s("C"), to: s("A"), content: s("hi") }
    );
}

#[test]
fn private_history_symmetry() {
    let mut st = ServerState::new();
    st.register(&s("A"), 1);
    st.register(&s("B"), 2);
    let r = st.dispatch(&s("A"), &s("B"), &s("hi"));
    assert_eq!(targets(&r), vec![2]);
    assert_eq!(st.private_lines(&s("A")).last(), Some(&s("You → B: hi")));
    assert_eq!(st.private_lines(&s("B")).last(), Some(&s("A → You: hi")));
}

#[test]
fn missing_target_errors_to_sender_only() {
    let mut st = ServerState::new();
    st.register(&s("A"), 1);
    st.register(&s("C"), 3);
    let r = st.dispatch(&s("A"), &s("Nobody"), &s("hi"));
    assert_eq!(r.len(), 1);
    assert_eq!(r[0].handle, 1);
    assert_eq!(
        r[0].msg,
        ServerMessage::Error {
            content: s("Private object is not online or the name is incorrect "),
            to: s("A"),
        }
    );
    assert_eq!(st.private_lines(&s("Nobody")), vec![s("A → You: hi")]);
}

#[test]
fn bounded_fifo_drops_oldest() {
    let mut h = History::new();
    for i in 0..(MAX_HISTORY_SIZE + 1) {
        h.push(format!("line {}", i));
    }
    let lines = h.to_vec();
    assert_eq!(lines.len(), MAX_HISTORY_SIZE);
    assert_eq!(lines[0], s("line 1"));
    assert_eq!(lines[MAX_HISTORY_SIZE - 1], format!("line {}", MAX_HISTORY_SIZE));
}

#[test]
fn broadcast_history_is_bounded() {
    let mut st = ServerState::new();
    st.register(&s("A"), 1);
    for i in 0..(MAX_HISTORY_SIZE + 5) {
        st.broadcast(&s("A"), &format!("m{}", i));
    }
    let lines = st.broadcast_lines();
    assert_eq!(lines.len(), MAX_HISTORY_SIZE);
    assert_eq!(lines[0], s("A broadcast: m5"));
}

#[test]
fn broadcast_fans_out_and_journals() {
    let mut st = ServerState::new();
    st.register(&s("A"), 1);
    st.register(&s("B"), 2);
    let r = st.broadcast(&s("A"), &s("yo"));
    assert_eq!(targets(&r), vec![1, 2]);
    for d in &r {
        assert_eq!(d.msg, ServerMessage::BroadcastMessage { from: s("A"), content: s("yo") });
    }
    assert_eq!(st.broadcast_lines(), vec![s("A broadcast: yo")]);
}

#[test]
fn history_includes_its_own_request() {
    let mut st = ServerState::new();
    st.register(&s("A"), 1);
    st.register(&s("B"), 2);
    st.broadcast(&s("B"), &s("hello"));
    st.dispatch(&s("A"), &s("B"), &s("psst"));
    let r = st.command(&s("A"), &s("/history"));
    assert_eq!(targets(&r), vec![1]);
    let expected = "=== Broadcast History ===\nB broadcast: hello\n=== Your Private History ===\nYou → B: psst\nYou issued: /history";
    assert_eq!(r[0].msg, ServerMessage::History { content: s(expected), to: s("A") });
}

#[test]
fn users_lists_registered_names() {
    let mut st = ServerState::new();
    st.register(&s("A"), 1);
    st.register(&s("B"), 2);
    let r = st.command(&s("A"), &s("/users"));
    assert_eq!(targets(&r), vec![1]);
    match &r[0].msg {
        ServerMessage::UserList { content, to } => {
            let mut names = content.clone();
            names.sort();
            assert_eq!(names, vec![s("A"), s("B")]);
            assert_eq!(to, "A");
        }
        other => panic!("unexpected reply {:?}", other),
    }
    assert_eq!(st.private_lines(&s("A")), vec![s("You issued: /users")]);
}

#[test]
fn users_with_nobody_registered_sends_nothing() {
    let mut st = ServerState::new();
    let r = st.command(&s("A"), &s("/users"));
    assert!(r.is_empty());
    assert_eq!(st.private_lines(&s("A")), vec![s("You issued: /users")]);
}

#[test]
fn unknown_command_is_an_error() {
    let mut st = ServerState::new();
    st.register(&s("A"), 1);
    let r = st.command(&s("A"), &s("/dance"));
    assert_eq!(targets(&r), vec![1]);
    assert_eq!(r[0].msg, ServerMessage::Error { content: s("No User Online"), to: s("A") });
    assert!(st.private_lines(&s("A")).is_empty());
}

#[test]
fn leave_notifies_the_rest() {
    let mut st = ServerState::new();
    st.register(&s("A"), 1);
    st.register(&s("B"), 2);
    let r = st.leave(&s("A"));
    assert_eq!(targets(&r), vec![2]);
    assert_eq!(r[0].msg, ServerMessage::System { content: s("A leave the chat") });
    assert_eq!(st.lookup(&s("A")), None);
}

#[test]
fn shutdown_sends_one_exit_each() {
    let mut st = ServerState::new();
    st.register(&s("A"), 1);
    st.register(&s("B"), 2);
    st.register(&s("C"), 3);
    let r = st.shutdown();
    let mut t = targets(&r);
    t.sort();
    assert_eq!(t, vec![1, 2, 3]);
    assert!(r.iter().all(|d| d.msg == ServerMessage::Exit));
    assert!(st.user_names().is_empty());
}

#[test]
fn session_ignores_intents_before_register() {
    let mut st = ServerState::new();
    let mut sess = Session::new(7);
    let r = sess.on_intent(&mut st, &ClientMessage::Broadcast { from: s("X"), content: s("hi") });
    assert!(r.is_empty());
    assert!(st.broadcast_lines().is_empty());
    assert_eq!(sess.name(), None);
    let r = sess.on_intent(&mut st, &ClientMessage::Register { name: s("X") });
    assert_eq!(targets(&r), vec![7]);
    assert_eq!(sess.name(), Some(s("X")));
    let r = sess.on_intent(&mut st, &ClientMessage::Register { name: s("Y") });
    assert!(r.is_empty());
    assert_eq!(st.lookup(&s("Y")), None);
    let r = sess.on_intent(&mut st, &ClientMessage::Broadcast { from: s("X"), content: s("hi") });
    assert_eq!(targets(&r), vec![7]);
    let r = sess.close(&mut st);
    assert!(r.is_empty());
    assert_eq!(st.lookup(&s("X")), None);
}

#[test]
fn default_state_is_empty() {
    let st = ServerState::default();
    assert!(st.user_names().is_empty());
    assert!(st.broadcast_lines().is_empty());
    assert!(st.private_lines(&s("A")).is_empty());
}
