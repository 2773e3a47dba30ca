use panama::channel::{channel, Inner, Step};
use std::collections::VecDeque;

#[test]
fn ping_pong() {
    let (mut tx, mut rx) = channel();
    tx.send(42);
    assert_eq!(rx.recv(), Some(42));
}

#[test]
fn closed_tx() {
    let (tx, mut rx) = channel::<()>();
    drop(tx);
    assert_eq!(rx.recv(), None);
}

#[test]
fn closed_rx() {
    let (mut tx, rx) = channel();
    drop(rx);
    tx.send(42);
}

#[test]
fn iterator() {
    let (mut tx, mut rx) = channel();

    tx.send(42);
    tx.send(43);
    tx.send(44);

    assert_eq!(
        std::iter::from_fn(|| rx.next()).take(3).collect::<Vec<i32>>(),
        vec![42, 43, 44]
    );
}

#[test]
fn order_of_one_sender_is_kept() {
    let (mut tx, mut rx) = channel();
    tx.send('a');
    tx.send('b');
    tx.send('c');
    assert_eq!(rx.recv(), Some('a'));
    assert_eq!(rx.recv(), Some('b'));
    assert_eq!(rx.recv(), Some('c'));
}

#[test]
fn iteration_ends_after_last_sender_drops() {
    let (mut tx, mut rx) = channel();
    tx.send(1);
    tx.send(2);
    tx.send(3);
    drop(tx);
    let got: Vec<i32> = std::iter::from_fn(|| rx.next()).collect();
    assert_eq!(got, vec![1, 2, 3]);
    assert_eq!(rx.recv(), None);
    assert_eq!(rx.recv(), None);
}

#[test]
fn fan_in_delivers_each_item_once() {
    let (tx, mut rx) = channel();
    let mut senders: Vec<_> = (0..4).map(|_| tx.clone()).collect();
    drop(tx);
    for round in 0..5 {
        for (who, s) in senders.iter_mut().enumerate() {
            s.send(who * 100 + round);
        }
    }
    drop(senders);
    let mut got: Vec<usize> = std::iter::from_fn(|| rx.recv()).collect();
    got.sort();
    let mut want: Vec<usize> = (0..4).flat_map(|who| (0..5).map(move |r| who * 100 + r)).collect();
    want.sort();
    assert_eq!(got, want);
}

#[test]
fn items_sent_before_close_still_drain() {
    let (mut tx, mut rx) = channel();
    let mut tx2 = tx.clone();
    tx.send(1);
    tx2.send(2);
    drop(tx);
    assert_eq!(rx.recv(), Some(1));
    tx2.send(3);
    drop(tx2);
    assert_eq!(rx.recv(), Some(2));
    assert_eq!(rx.recv(), Some(3));
    assert_eq!(rx.recv(), None);
}

#[test]
fn take_moves_the_rest_into_the_buffer() {
    let mut inner = Inner::new();
    inner.push(5);
    inner.push(6);
    inner.push(7);
    let mut buffer = VecDeque::new();
    assert!(matches!(inner.take(&mut buffer), Step::Item(5)));
    assert_eq!(buffer, VecDeque::from(vec![6, 7]));
    assert!(inner.queue.is_empty());
    assert_eq!(inner.senders, 1);
}

#[test]
fn take_waits_while_a_sender_lives() {
    let mut inner: Inner<i32> = Inner::new();
    let mut buffer = VecDeque::new();
    assert!(inner.must_wait());
    assert!(matches!(inner.take(&mut buffer), Step::Wait));
    assert!(inner.remove_sender());
    assert!(!inner.must_wait());
    assert!(matches!(inner.take(&mut buffer), Step::Closed));
}

#[test]
fn sender_count_follows_clones_and_drops() {
    let mut inner: Inner<u8> = Inner::new();
    inner.add_sender();
    inner.add_sender();
    assert_eq!(inner.senders, 3);
    assert!(!inner.remove_sender());
    assert!(!inner.remove_sender());
    assert!(inner.remove_sender());
    assert_eq!(inner.senders, 0);
    assert!(inner.remove_sender());
    assert_eq!(inner.senders, 0);
}
