use threadkit::channel::Channel;

#[test]
fn single_sender_fifo_order() {
    let (mut ch, s, r) = Channel::create();
    assert!(ch.send(&s, "first".to_owned()).is_ok());
    assert!(ch.send(&s, "second".to_owned()).is_ok());
    assert!(ch.send(&s, "third".to_owned()).is_ok());
    ch.drop_sender(s);
    assert_eq!(ch.recv(&r), Ok("first".to_owned()));
    assert_eq!(ch.recv(&r), Ok("second".to_owned()));
    assert_eq!(ch.recv(&r), Ok("third".to_owned()));
}

#[test]
fn interleaved_senders_keep_their_own_order() {
    let (mut ch, s0, r) = Channel::create();
    let s1 = ch.clone_sender(&s0);
    assert!(ch.send(&s0, "a1".to_owned()).is_ok());
    assert!(ch.send(&s1, "b1".to_owned()).is_ok());
    assert!(ch.send(&s0, "a2".to_owned()).is_ok());
    assert!(ch.send(&s1, "b2".to_owned()).is_ok());
    ch.drop_sender(s0);
    ch.drop_sender(s1);
    let all = ch.iterate(r);
    assert_eq!(all, vec!["a1", "b1", "a2", "b2"]);
    let from_a: Vec<&String> = all.iter().filter(|m| m.starts_with('a')).collect();
    let from_b: Vec<&String> = all.iter().filter(|m| m.starts_with('b')).collect();
    assert_eq!(from_a, vec!["a1", "a2"]);
    assert_eq!(from_b, vec!["b1", "b2"]);
}

#[test]
fn two_senders_lose_and_duplicate_nothing() {
    let (mut ch, s0, r) = Channel::create();
    let s1 = ch.clone_sender(&s0);
    for i in 0..4 {
        assert!(ch.send(&s0, format!("x{}", i)).is_ok());
        assert!(ch.send(&s1, format!("y{}", i)).is_ok());
    }
    ch.drop_sender(s0);
    ch.drop_sender(s1);
    let all = ch.iterate(r);
    assert_eq!(all.len(), 8);
    for i in 0..4 {
        assert!(all.contains(&format!("x{}", i)));
        assert!(all.contains(&format!("y{}", i)));
    }
}

#[test]
fn recv_after_last_sender_dropped_is_disconnected() {
    let (mut ch, s, r) = Channel::create();
    assert!(ch.send(&s, "only".to_owned()).is_ok());
    ch.drop_sender(s);
    assert_eq!(ch.recv(&r), Ok("only".to_owned()));
    assert_eq!(ch.recv(&r), Err(threadkit::channel::Disconnected));
}

#[test]
fn send_after_receiver_dropped_fails() {
    let (mut ch, s, r) = Channel::create();
    ch.drop_receiver(r);
    assert_eq!(
        ch.send(&s, "nobody listens".to_owned()),
        Err(threadkit::channel::SendError)
    );
}

#[test]
fn iterate_on_empty_disconnected_channel_is_empty() {
    let (mut ch, s, r) = Channel::create();
    ch.drop_sender(s);
    let all = ch.iterate(r);
    assert!(all.is_empty());
}

#[test]
fn clone_counts_senders() {
    let (mut ch, s0, r) = Channel::create();
    let s1 = ch.clone_sender(&s0);
    let s2 = ch.clone_sender(&s1);
    ch.drop_sender(s1);
    assert!(ch.send(&s2, "still open".to_owned()).is_ok());
    ch.drop_sender(s0);
    ch.drop_sender(s2);
    assert_eq!(ch.recv(&r), Ok("still open".to_owned()));
    assert_eq!(ch.recv(&r), Err(threadkit::channel::Disconnected));
}
