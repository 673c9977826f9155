use livereload::{canonical_topic, pipe, update_for_route, Update};

#[test]
fn canonical_topic_adds_leading_slash() {
    assert_eq!(canonical_topic("index.html"), "/index.html");
    assert_eq!(canonical_topic("blog/post.html"), "/blog/post.html");
}

#[test]
fn canonical_topic_keeps_existing_slash() {
    assert_eq!(canonical_topic("/index.html"), "/index.html");
    assert_eq!(canonical_topic("/"), "/");
}

#[test]
fn canonical_topic_of_empty_path_is_root() {
    assert_eq!(canonical_topic(""), "/");
}

#[test]
fn update_for_route_addresses_route_path() {
    let u = update_for_route("index.html", &"reload".to_string());
    assert_eq!(u.url, "/index.html");
    assert_eq!(u.body, "reload");
}

#[test]
fn update_new_keeps_fields() {
    let u = Update::new("/a".to_string(), "body".to_string());
    assert_eq!(u.url, "/a");
    assert_eq!(u.body, "body");
}

#[test]
fn publish_reaches_the_receiver() {
    let (tx, rx) = std::sync::mpsc::channel::<Update>();
    let p = pipe(tx);
    assert!(p.publish("index.html", &"reload".to_string()).is_ok());
    let u = rx.recv().unwrap();
    assert_eq!(u.url, "/index.html");
    assert_eq!(u.body, "reload");
}

#[test]
fn publish_keeps_order() {
    let (tx, rx) = std::sync::mpsc::channel::<Update>();
    let p = pipe(tx);
    assert!(p.publish("a.html", &"one".to_string()).is_ok());
    assert!(p.publish("a.html", &"two".to_string()).is_ok());
    assert_eq!(rx.recv().unwrap().body, "one");
    assert_eq!(rx.recv().unwrap().body, "two");
}

#[test]
fn publish_after_dispatcher_shutdown_returns_update() {
    let (tx, rx) = std::sync::mpsc::channel::<Update>();
    drop(rx);
    let p = pipe(tx);
    let back = p.publish("index.html", &"reload".to_string()).unwrap_err();
    assert_eq!(back.url, "/index.html");
    assert_eq!(back.body, "reload");
}
