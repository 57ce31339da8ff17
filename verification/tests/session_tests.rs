use pong::session::{split_route, Action, Session};
use pong::shared::Shared;

fn route(a: &Action) -> (String, String) {
    match a {
        Action::Route { to, message } => (to.clone(), message.clone()),
        _ => panic!("expected a route"),
    }
}

#[test]
fn open_registers_and_says_so() {
    let mut shared: Shared<u8> = Shared::new();
    let (session, action) = Session::open(&mut shared, b"c1".to_vec(), 7);
    assert_eq!(session.channel_name(), "c1");
    assert!(shared.has_peer(&"c1".to_string()));
    assert_eq!(route(&action), ("c1".to_string(), "c1 reg done !".to_string()));
}

#[test]
fn put_pair_then_get() {
    let mut shared: Shared<u8> = Shared::new();
    let (mut session, _) = Session::open(&mut shared, b"c1".to_vec(), 7);
    assert!(session.accepts(&shared, 3, &b"key".to_vec()));
    assert!(matches!(session.on_frame(&mut shared, 3, b"key".to_vec()), Action::Nothing));
    assert!(session.accepts(&shared, 3, &b"value".to_vec()));
    match session.on_frame(&mut shared, 3, b"value".to_vec()) {
        Action::Stored { key, reply } => {
            assert_eq!(key, "key");
            assert_eq!(reply, b"ok".to_vec());
        }
        _ => panic!("expected ok"),
    }
    assert!(session.accepts(&shared, 1, &b"key".to_vec()));
    match session.on_frame(&mut shared, 1, b"key".to_vec()) {
        Action::Reply(v) => assert_eq!(v, b"value".to_vec()),
        _ => panic!("expected the value"),
    }
}

#[test]
fn get_of_missing_key_is_not_accepted() {
    let mut shared: Shared<u8> = Shared::new();
    let (session, _) = Session::open(&mut shared, b"c1".to_vec(), 7);
    assert!(!session.accepts(&shared, 1, &b"nope".to_vec()));
    assert!(!session.accepts(&shared, 1, &vec![0xffu8]));
}

#[test]
fn put_key_must_be_utf8() {
    let mut shared: Shared<u8> = Shared::new();
    let (mut session, _) = Session::open(&mut shared, b"c1".to_vec(), 7);
    assert!(session.accepts(&shared, 3, &vec![0xffu8]));
    session.on_frame(&mut shared, 3, vec![0xffu8]);
    assert!(!session.accepts(&shared, 3, &b"v".to_vec()));
}

#[test]
fn route_frames_split_at_first_space() {
    let mut shared: Shared<u8> = Shared::new();
    let (mut session, _) = Session::open(&mut shared, b"c1".to_vec(), 7);
    let a = session.on_frame(&mut shared, 4, b"c2 hello there".to_vec());
    assert_eq!(route(&a), ("c2".to_string(), "hello there".to_string()));
    assert!(matches!(session.on_frame(&mut shared, 4, b"nospace".to_vec()), Action::Nothing));
    assert!(!session.accepts(&shared, 4, &vec![0xffu8, 32, 65]));
}

#[test]
fn unknown_frames_are_reported() {
    let mut shared: Shared<u8> = Shared::new();
    let (mut session, _) = Session::open(&mut shared, b"c1".to_vec(), 7);
    assert!(matches!(session.on_frame(&mut shared, 5, b"x".to_vec()), Action::Unknown(5)));
    assert!(matches!(session.on_frame(&mut shared, 0, vec![]), Action::Unknown(0)));
}

#[test]
fn close_says_unreg() {
    let mut shared: Shared<u8> = Shared::new();
    let (session, _) = Session::open(&mut shared, b"c1".to_vec(), 7);
    assert_eq!(route(&session.close()), ("c1".to_string(), "c1 unreg".to_string()));
}

#[test]
fn split_route_cases() {
    let (to, msg) = split_route(b"a b c").unwrap();
    assert_eq!((to, msg), (b"a".to_vec(), b"b c".to_vec()));
    let (to, msg) = split_route(b" x").unwrap();
    assert_eq!((to, msg), (Vec::new(), b"x".to_vec()));
    assert!(split_route(b"abc").is_none());
}

#[test]
fn client_route_body_splits_back() {
    let body = pong::codec::route_body(b"bob", b"hello world");
    let (to, msg) = split_route(&body).unwrap();
    assert_eq!(to, b"bob".to_vec());
    assert_eq!(msg, b"hello world".to_vec());
}

#[test]
fn broadcast_after_sessions_close() {
    let mut shared: Shared<u8> = Shared::new();
    let (s1, _) = Session::open(&mut shared, b"a".to_vec(), 1);
    let (_s2, _) = Session::open(&mut shared, b"b".to_vec(), 2);
    assert_eq!(shared.do_boardcast(&"a".to_string()), vec!["b".to_string()]);
    let name = s1.channel_name().clone();
    shared.remove_peer(&name);
    assert!(!shared.has_peer(&name));
    assert_eq!(shared.do_boardcast(&"b".to_string()), Vec::<String>::new());
}
