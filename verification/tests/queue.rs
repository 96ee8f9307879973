use lockfree::queue::Queue;

const CONC_COUNT: i64 = 1000;

#[test]
fn push_try_pop() {
    let mut queue: Queue<i64> = Queue::new();
    assert!(queue.is_empty());
    queue.push(39);
    assert!(!queue.is_empty());
    assert_eq!(queue.try_pop(), Some(39));
    assert!(queue.is_empty());
}

#[test]
fn push_try_pop_many_spsc() {
    let mut queue: Queue<i64> = Queue::new();
    assert!(queue.is_empty());

    let mut next: i64 = 0;
    for i in 0..CONC_COUNT {
        queue.push(i);
        if let Some(elem) = queue.try_pop() {
            assert_eq!(next, elem);
            next += 1;
        }
    }
    assert_eq!(next, CONC_COUNT);
    assert!(queue.is_empty());
}

#[test]
fn push_try_pop_spmc() {
    let mut queue: Queue<i64> = Queue::new();
    assert!(queue.is_empty());
    for i in 0..CONC_COUNT {
        queue.push(i);
    }

    let mut cur = [-1i64; 3];
    let mut turn: usize = 0;
    while let Some(elem) = queue.try_pop() {
        assert!(elem > cur[turn]);
        cur[turn] = elem;
        turn = (turn + 1) % 3;
    }
    assert_eq!(cur, [CONC_COUNT - 1, CONC_COUNT - 3, CONC_COUNT - 2]);
    assert!(queue.is_empty());
}

enum LR {
    Left(i64),
    Right(i64),
}

#[test]
fn push_try_pop_mpmc() {
    let mut queue: Queue<LR> = Queue::new();
    assert!(queue.is_empty());

    for i in 0..CONC_COUNT {
        queue.push(LR::Left(i));
        queue.push(LR::Right(i));
    }

    let mut vl = vec![];
    let mut vr = vec![];
    for _ in 0..2 * CONC_COUNT {
        match queue.try_pop() {
            Some(LR::Left(left_value)) => vl.push(left_value),
            Some(LR::Right(right_value)) => vr.push(right_value),
            None => {}
        }
    }

    let mut vl2 = vl.clone();
    let mut vr2 = vr.clone();
    vl2.sort();
    vr2.sort();

    assert_eq!(vl, vl2);
    assert_eq!(vr, vr2);
    assert!(queue.is_empty());
}

#[test]
fn queue_fifo_order() {
    let mut queue: Queue<u32> = Queue::new();
    for v in [7u32, 3, 9, 9, 1] {
        queue.push(v);
    }
    assert_eq!(queue.try_pop(), Some(7));
    assert_eq!(queue.try_pop(), Some(3));
    assert_eq!(queue.try_pop(), Some(9));
    assert_eq!(queue.try_pop(), Some(9));
    assert_eq!(queue.try_pop(), Some(1));
    assert_eq!(queue.try_pop(), None);
}

#[test]
fn queue_empty_pop_idempotent() {
    let mut queue: Queue<u8> = Queue::new();
    for _ in 0..100 {
        assert_eq!(queue.try_pop(), None);
        assert!(queue.is_empty());
    }
    queue.push(5);
    assert_eq!(queue.try_pop(), Some(5));
    assert_eq!(queue.try_pop(), None);
}

#[test]
fn queue_drain_leaves_empty() {
    let mut queue: Queue<i64> = Queue::new();
    for round in 0..5 {
        for i in 0..CONC_COUNT {
            queue.push(round * CONC_COUNT + i);
        }
        let mut seen = vec![];
        while let Some(elem) = queue.try_pop() {
            seen.push(elem);
        }
        let expected: Vec<i64> = (0..CONC_COUNT).map(|i| round * CONC_COUNT + i).collect();
        assert_eq!(seen, expected);
        assert!(queue.is_empty());
        assert_eq!(queue.try_pop(), None);
    }
}

#[test]
fn queue_default_is_empty() {
    let mut queue: Queue<i64> = Queue::default();
    assert!(queue.is_empty());
    assert_eq!(queue.try_pop(), None);
}

#[test]
fn queue_drops_each_payload_exactly_once() {
    let token = std::rc::Rc::new(());
    let mut queue: Queue<std::rc::Rc<()>> = Queue::new();
    for _ in 0..100 {
        queue.push(token.clone());
    }
    assert_eq!(std::rc::Rc::strong_count(&token), 101);
    let mut popped: usize = 0;
    while let Some(handle) = queue.try_pop() {
        drop(handle);
        popped += 1;
    }
    assert_eq!(popped, 100);
    assert!(queue.is_empty());
    drop(queue);
    assert_eq!(std::rc::Rc::strong_count(&token), 1);
}
