use livereload::{fan_out, Connection, Delivery, Phase, Registry, SendOutcome, Subscriber, Update};

fn server() -> ws::WebSocket<impl ws::Factory> {
    ws::WebSocket::new(|_out: ws::Sender| |_msg: ws::Message| -> ws::Result<()> { Ok(()) }).unwrap()
}

fn subscriber(id: u64, topic: &str, handle: ws::Sender) -> Subscriber<ws::Sender> {
    Subscriber { id, topic: topic.to_string(), handle }
}

fn update(topic: &str, body: &str) -> Update {
    Update::new(topic.to_string(), body.to_string())
}

fn delivered(id: u64) -> (u64, SendOutcome) {
    (id, SendOutcome::Delivered)
}

fn outcomes(report: &[Delivery]) -> Vec<(u64, SendOutcome)> {
    report.iter().map(|d| (d.id, d.outcome)).collect()
}

fn sorted(report: Vec<Delivery>) -> Vec<(u64, SendOutcome)> {
    let mut v = outcomes(&report);
    v.sort_by_key(|p| p.0);
    v
}

#[test]
fn publish_reaches_only_subscribers_of_the_topic() {
    let live = server();
    let mut reg = Registry::new();
    reg.register(subscriber(1, "/index.html", live.broadcaster()));
    reg.register(subscriber(2, "/about.html", live.broadcaster()));
    let report = reg.send_update(&update("/index.html", "reload"));
    assert_eq!(outcomes(&report), vec![delivered(1)]);
}

#[test]
fn two_updates_reach_every_subscriber_in_order() {
    let live = server();
    let mut reg = Registry::new();
    reg.register(subscriber(1, "/a", live.broadcaster()));
    reg.register(subscriber(2, "/a", live.broadcaster()));
    let first = sorted(reg.send_update(&update("/a", "u1")));
    let second = sorted(reg.send_update(&update("/a", "u2")));
    assert_eq!(first, vec![delivered(1), delivered(2)]);
    assert_eq!(second, vec![delivered(1), delivered(2)]);
}

#[test]
fn disconnected_subscriber_is_pruned_before_next_update() {
    let live = server();
    let gone = server();
    let mut reg = Registry::new();
    reg.register(subscriber(1, "/a", gone.broadcaster()));
    reg.register(subscriber(2, "/a", live.broadcaster()));
    drop(gone);
    let first = sorted(reg.send_update(&update("/a", "u1")));
    assert_eq!(
        first,
        vec![(1, SendOutcome::Disconnected), delivered(2)]
    );
    let second = reg.send_update(&update("/a", "u2"));
    assert_eq!(outcomes(&second), vec![delivered(2)]);
}

#[test]
fn publish_to_topic_without_subscribers_is_a_no_op() {
    let live = server();
    let mut reg: Registry<ws::Sender> = Registry::new();
    let report = reg.send_update(&update("/empty", "x"));
    assert!(report.is_empty());
    reg.register(subscriber(5, "/empty", live.broadcaster()));
    let report = reg.send_update(&update("/empty", "y"));
    assert_eq!(outcomes(&report), vec![delivered(5)]);
}

#[test]
fn dropped_subscriber_is_replaced_by_fresh_one() {
    let gone = server();
    let live = server();
    let mut reg = Registry::new();
    let topic = "/x".to_string();
    reg.register(subscriber(1, "/x", gone.broadcaster()));
    drop(gone);
    let report = reg.send_update(&update("/x", "u1"));
    assert_eq!(outcomes(&report), vec![(1, SendOutcome::Disconnected)]);
    assert!(reg.snapshot(&topic).is_empty());
    reg.register(subscriber(3, "/x", live.broadcaster()));
    let report = reg.send_update(&update("/x", "u2"));
    assert_eq!(outcomes(&report), vec![delivered(3)]);
}

#[test]
fn fan_out_reports_in_snapshot_order() {
    let live = server();
    let gone = server();
    let subs = vec![
        subscriber(4, "/a", live.broadcaster()),
        subscriber(9, "/a", gone.broadcaster()),
        subscriber(2, "/a", live.broadcaster()),
    ];
    drop(gone);
    let report = fan_out(&subs, &"body".to_string());
    assert_eq!(
        outcomes(&report),
        vec![
            delivered(4),
            (9, SendOutcome::Disconnected),
            delivered(2)
        ]
    );
}

#[test]
fn connection_subscribes_on_open_and_leaves_on_close() {
    let live = server();
    let sender = live.broadcaster();
    let mut reg = Registry::new();
    let mut conn = Connection::new(sender);
    assert_eq!(conn.phase, Phase::Connecting);
    conn.open(&mut reg, "/index.html");
    assert_eq!(conn.phase, Phase::Open);
    assert_eq!(conn.topic, "/index.html");
    let snap = reg.snapshot(&conn.topic);
    assert_eq!(snap.len(), 1);
    assert_eq!(snap[0].id, conn.id);
    conn.close(&mut reg);
    assert_eq!(conn.phase, Phase::Closed);
    assert!(reg.snapshot(&conn.topic).is_empty());
    conn.close(&mut reg);
    assert_eq!(conn.phase, Phase::Closed);
}

#[test]
fn connection_topic_is_canonical() {
    let live = server();
    let mut reg = Registry::new();
    let mut conn = Connection::new(live.broadcaster());
    conn.open(&mut reg, "index.html");
    assert_eq!(conn.topic, "/index.html");
    assert_eq!(reg.snapshot(&"/index.html".to_string()).len(), 1);
}

#[test]
fn close_before_open_changes_no_subscription() {
    let live = server();
    let mut reg = Registry::new();
    reg.register(subscriber(1, "/a", live.broadcaster()));
    let mut conn = Connection::new(live.broadcaster());
    conn.close(&mut reg);
    assert_eq!(conn.phase, Phase::Closed);
    assert_eq!(reg.snapshot(&"/a".to_string()).len(), 1);
}

#[test]
fn prune_removes_failed_and_keeps_delivered() {
    let live = server();
    let gone = server();
    let mut reg = Registry::new();
    let t = "/x".to_string();
    reg.register(subscriber(1, "/x", live.broadcaster()));
    reg.register(subscriber(2, "/x", gone.broadcaster()));
    reg.register(subscriber(2, "/y", live.broadcaster()));
    drop(gone);
    let snap = reg.snapshot(&t);
    let report = fan_out(&snap, &"u".to_string());
    reg.prune(&t, &report);
    let left: Vec<u64> = reg.snapshot(&t).iter().map(|s| s.id).collect();
    assert_eq!(left, vec![1]);
    assert_eq!(reg.snapshot(&"/y".to_string()).len(), 1);
}

#[test]
fn prune_of_already_removed_subscriber_is_harmless() {
    let gone = server();
    let mut reg = Registry::new();
    let t = "/x".to_string();
    reg.register(subscriber(1, "/x", gone.broadcaster()));
    drop(gone);
    let snap = reg.snapshot(&t);
    let report = fan_out(&snap, &"u".to_string());
    assert_eq!(outcomes(&report), vec![(1, SendOutcome::Disconnected)]);
    reg.unregister(&t, 1);
    reg.prune(&t, &report);
    assert!(reg.snapshot(&t).is_empty());
}

#[test]
fn snapshot_copies_keep_the_connection() {
    let live = server();
    let mut reg = Registry::new();
    let sender = live.broadcaster();
    reg.register(subscriber(1, "/a", sender.clone()));
    let snap = reg.snapshot(&"/a".to_string());
    assert!(snap[0].handle == sender);
}

#[test]
fn connection_keeps_its_sender() {
    let live = server();
    let sender = live.broadcaster();
    let conn = Connection::new(sender.clone());
    assert!(conn.sender == sender);
    assert_eq!(conn.id, sender.connection_id() as u64);
}
