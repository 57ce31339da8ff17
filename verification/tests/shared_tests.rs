use pong::shared::Shared;

#[test]
fn get_after_put() {
    let mut s: Shared<u32> = Shared::new();
    assert!(s.do_get("k".to_string()).is_none());
    assert_eq!(s.do_put(b"k".to_vec(), b"v1".to_vec()), "k");
    assert_eq!(s.do_get("k".to_string()), Some(&b"v1".to_vec()));
    s.do_put(b"k".to_vec(), b"v2".to_vec());
    s.do_put(b"other".to_vec(), b"x".to_vec());
    assert_eq!(s.do_get("k".to_string()), Some(&b"v2".to_vec()));
    assert_eq!(s.do_get("other".to_string()), Some(&b"x".to_vec()));
}

#[test]
fn register_route_and_remove() {
    let mut s: Shared<u32> = Shared::new();
    let a = "a".to_string();
    s.register_peer(a.clone(), 1);
    assert!(s.has_peer(&a));
    assert_eq!(*s.do_route(&a), 1);
    s.register_peer(a.clone(), 2);
    assert_eq!(*s.do_route(&a), 2);
    s.remove_peer(&a);
    assert!(!s.has_peer(&a));
    s.remove_peer(&a);
    assert!(!s.has_peer(&a));
}

#[test]
fn broadcast_reaches_everyone_but_the_sender() {
    let mut s: Shared<u32> = Shared::new();
    for (i, n) in ["a", "b", "c"].iter().enumerate() {
        s.register_peer(n.to_string(), i as u32);
    }
    s.register_peer("b".to_string(), 9);
    let mut to = s.do_boardcast(&"b".to_string());
    to.sort();
    assert_eq!(to, vec!["a".to_string(), "c".to_string()]);
    s.remove_peer(&"a".to_string());
    let to = s.do_boardcast(&"x".to_string());
    assert_eq!(to.len(), 2);
}
