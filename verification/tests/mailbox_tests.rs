use rusty_dusty::mailbox::{fetch_sat_ids, CubeSat, GroundStation, Mailbox, Message};

#[test]
fn deliver_takes_the_most_recent_message() {
    let mut mailbox = Mailbox { messages: Vec::new() };
    mailbox.post(Message { to: 1, content: "first".to_string() });
    mailbox.post(Message { to: 2, content: "other".to_string() });
    mailbox.post(Message { to: 1, content: "second".to_string() });

    let sat = CubeSat { id: 1 };
    let msg = sat.recv(&mut mailbox).expect("a message was pending");
    assert_eq!(msg.to, 1);
    assert_eq!(msg.content, "second");

    let msg = sat.recv(&mut mailbox).expect("one more message was pending");
    assert_eq!(msg.content, "first");

    assert!(sat.recv(&mut mailbox).is_none());
    assert_eq!(mailbox.messages.len(), 1);
    assert_eq!(mailbox.messages[0].to, 2);
}

#[test]
fn pending_count_counts_only_the_recipient() {
    let mut mailbox = Mailbox { messages: Vec::new() };
    for id in [1u64, 2, 1, 3, 1] {
        mailbox.post(Message { to: id, content: format!("msg for {}", id) });
    }
    assert_eq!(CubeSat { id: 1 }.pending_count(&mailbox), 3);
    assert_eq!(CubeSat { id: 2 }.pending_count(&mailbox), 1);
    assert_eq!(CubeSat { id: 9 }.pending_count(&mailbox), 0);
}

#[test]
fn sending_styles_all_append() {
    let base = GroundStation;
    let sat = base.connect(7);
    assert_eq!(sat.id, 7);

    let mut mailbox = Mailbox { messages: Vec::new() };
    base.send_with_reference(&mut mailbox, Message { to: 7, content: "a".to_string() });
    assert_eq!(mailbox.messages.len(), 1);

    let mailbox = base.send_with_clone(mailbox, Message { to: 7, content: "b".to_string() });
    assert_eq!(mailbox.messages.len(), 2);

    let mailbox = base.send_with_refactor(mailbox, Message { to: 7, content: "c".to_string() });
    assert_eq!(mailbox.messages.len(), 3);
    assert_eq!(mailbox.messages[2].content, "c");

    let shared = std::rc::Rc::new(mailbox);
    base.send_with_rc(std::rc::Rc::clone(&shared), Message { to: 7, content: "d".to_string() });
    // the shared mailbox itself is never changed
    assert_eq!(shared.messages.len(), 3);
}

#[test]
fn fleet_ids_are_fixed() {
    assert_eq!(fetch_sat_ids(), vec![1, 2, 3]);
}
