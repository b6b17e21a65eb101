use monotone::error::ErrorKind;
use monotone::local::counter::Counter;
use monotone::local::queue::Queue;
use monotone::string::s;
use monotone::tags::Tags;
use monotone::{MonotonicCounter, MonotonicQueue, Ticket};

#[test]
fn it_works() {
}

#[test]
pub fn test_counter_get() {
    let c = Counter::new();
    assert_eq!(0, c.get_value().expect("get"));
}

#[test]
pub fn test_counter_next() {
    let mut c = Counter::new();
    assert_eq!(1, c.next_value().expect("next"));
    assert_eq!(1, c.get_value().expect("get"));

    assert_eq!(2, c.next_value().expect("next"));
    assert_eq!(2, c.get_value().expect("get"));
}

#[test]
pub fn queue_test_queue_no_row_get() {
    let q = Queue::new();
    assert!(q.get_ticket("foo").is_err());
}

#[test]
pub fn queue_test_queue_row_get() {
    let mut q = Queue::new();
    let (ft, tok) = q.join_queue(s("foo"), None).expect("join");
    assert_eq!(ft, 1);
    assert_eq!(&tok.process_id, "foo");
    assert_eq!(tok.counter, 1);
    assert_eq!(tok.position, 0);

    let (ft, tok2) = q.get_ticket("foo").expect("get");
    assert_eq!(ft, 1);
    assert_eq!(tok2, tok);
}

#[test]
pub fn queue_test_queue_no_row_get_all() {
    let q = Queue::new();
    let (ft, toks) = q.get_tickets().expect("get all");
    assert_eq!(ft, 0);
    assert_eq!(toks, vec![]);
}

#[test]
pub fn queue_test_queue_row_get_all() {
    let mut q = Queue::new();
    let (ft, tok) = q.join_queue(s("foo"), None).expect("join");
    assert_eq!(ft, 1);
    assert_eq!(&tok.process_id, "foo");
    assert_eq!(tok.counter, 1);
    assert_eq!(tok.position, 0);

    let (ft, toks) = q.get_tickets().expect("get all");
    assert_eq!(ft, 1);
    assert_eq!(toks, vec![tok]);
}

#[test]
pub fn test_queue_no_row_join() {
    let mut q = Queue::new();
    let (ft, tok) = q.join_queue(s("foo"), None).expect("join");
    assert_eq!(ft, 1);
    assert_eq!(&tok.process_id, "foo");
    assert_eq!(tok.counter, 1);
    assert_eq!(tok.position, 0);
}

#[test]
pub fn queue_test_queue_same_row_join() {
    let mut q = Queue::new();
    let (ft, tok) = q.join_queue(s("foo"), None).expect("join");
    assert_eq!(ft, 1);
    assert_eq!(&tok.process_id, "foo");
    assert_eq!(tok.counter, 1);
    assert_eq!(tok.position, 0);

    let (ft, tok2) = q.join_queue(s("foo"), None).expect("join");
    assert_eq!(ft, 1);
    assert_eq!(tok2, tok);
}

#[test]
pub fn queue_test_queue_different_row_join() {
    let mut q = Queue::new();
    let (ft, tok) = q.join_queue(s("foo"), None).expect("join");
    assert_eq!(ft, 1);
    assert_eq!(&tok.process_id, "foo");
    assert_eq!(tok.counter, 1);
    assert_eq!(tok.position, 0);

    let (ft, tok) = q.join_queue(s("bar"), None).expect("join");
    assert_eq!(ft, 2);
    assert_eq!(&tok.process_id, "bar");
    assert_eq!(tok.counter, 2);
    assert_eq!(tok.position, 1);
}

#[test]
pub fn queue_test_queue_no_row_leave() {
    let mut q = Queue::new();
    assert!(q.leave_queue("foo").is_err());
}

#[test]
pub fn queue_test_queue_row_leave() {
    let mut q = Queue::new();
    let (ft, _tok) = q.join_queue(s("foo"), None).expect("join");
    assert_eq!(ft, 1);

    let ft = q.leave_queue("foo").expect("leave");
    assert_eq!(ft, 2);
}

#[test]
pub fn test_queue_get_after_leave() {
    let mut q = Queue::new();
    let (ft, tok) = q.join_queue(s("foo"), None).expect("join");
    assert_eq!(ft, 1);
    assert_eq!(tok.position, 0);

    let (ft, tok) = q.join_queue(s("bar"), None).expect("join");
    assert_eq!(ft, 2);
    assert_eq!(tok.position, 1);

    let ft = q.leave_queue("foo").expect("leave");
    assert_eq!(ft, 3);

    let (ft, tok) = q.get_ticket("bar").expect("get");
    assert_eq!(ft, 3);
    assert_eq!(tok.position, 0);
    assert_eq!(&tok.process_id, "bar");
    assert_eq!(tok.counter, 2);
}

#[test]
fn local_join_keeps_the_first_tags() {
    let mut q = Queue::new();
    let (ft, first) = q.join_queue(s("foo"), None).expect("join");
    assert_eq!(ft, 1);
    assert_eq!(first, Ticket::new(s("foo"), 1, 0, Tags::new()));

    let mut tags = Tags::new();
    assert_eq!(tags.insert(s("role"), s("x")), None);
    let (ft, second) = q.join_queue(s("foo"), Some(tags)).expect("join");
    assert_eq!(ft, 1);
    assert_eq!(second, first);
    assert_eq!(second.tags.len(), 0);
}

#[test]
fn local_leave_of_a_stranger_is_not_found() {
    let mut q = Queue::new();
    assert_eq!(q.leave_queue("foo"), Err(ErrorKind::NotFound(s("foo"))));
    assert_eq!(
        ErrorKind::NotFound(s("foo")).message(),
        "ticket not found for process_id foo"
    );
}

#[test]
fn local_queue_stays_coherent() {
    let mut q = Queue::new();
    let mut tokens: Vec<u64> = vec![];
    let names = ["a", "b", "c", "a", "d", "b", "e"];
    for (round, name) in names.iter().enumerate() {
        let before = q.get_tickets().expect("get all").0;
        let (ft, _) = q.join_queue(s(name), None).expect("join");
        if ft > before {
            tokens.push(ft);
        }
        if round % 3 == 2 {
            tokens.push(q.leave_queue(names[round - 1]).expect("leave"));
            assert_eq!(q.get_ticket(names[round - 1]), Err(ErrorKind::NotFound(s(names[round - 1]))));
        }
        let (ft, toks) = q.get_tickets().expect("get all");
        assert_eq!(Some(&ft), tokens.last());
        for (i, tok) in toks.iter().enumerate() {
            assert_eq!(tok.position, i);
            assert_eq!(toks.iter().filter(|other| other.process_id == tok.process_id).count(), 1);
            if i > 0 {
                assert!(toks[i - 1].counter < tok.counter);
            }
            assert_eq!(q.get_ticket(&tok.process_id), Ok((ft, tok.clone())));
        }
    }
    assert_eq!(tokens, vec![1, 2, 3, 4, 5, 6, 7, 8]);
    let (ft, toks) = q.get_tickets().expect("get all");
    assert_eq!(ft, 8);
    assert_eq!(
        toks,
        vec![
            Ticket::new(s("a"), 1, 0, Tags::new()),
            Ticket::new(s("c"), 3, 1, Tags::new()),
            Ticket::new(s("b"), 5, 2, Tags::new()),
            Ticket::new(s("e"), 6, 3, Tags::new()),
        ]
    );
}

#[test]
fn local_counter_hands_out_consecutive_values() {
    let mut c = Counter::new();
    for expected in 1..=500u64 {
        assert_eq!(c.next_value(), Ok(expected));
        assert_eq!(c.get_value(), Ok(expected));
    }
}

#[test]
fn local_join_with_tags_gives_them_back() {
    let mut q = Queue::new();
    let mut tags = Tags::new();
    tags.insert(s("role"), s("x"));
    let (ft, tok) = q.join_queue(s("foo"), Some(tags.clone())).expect("join");
    assert_eq!(ft, 1);
    assert_eq!(tok, Ticket::new(s("foo"), 1, 0, tags.clone()));
    assert_eq!(q.get_tickets(), Ok((1, vec![Ticket::new(s("foo"), 1, 0, tags)])));
}
