use interleave::queue::Queue;

#[test]
fn a_new_queue_is_empty() {
    let queue = Queue::new(4);
    assert_eq!(queue.len(), 0);
}

#[test]
fn elements_come_out_in_the_order_they_went_in() {
    let mut queue = Queue::new(4);
    queue.push(10);
    queue.push(-20);
    queue.push(30);
    assert_eq!(queue.len(), 3);
    assert_eq!(queue.pop(), 10);
    assert_eq!(queue.len(), 2);
    assert_eq!(queue.pop(), -20);
    assert_eq!(queue.pop(), 30);
    assert_eq!(queue.len(), 0);
}

#[test]
fn the_ring_is_used_round_its_end() {
    let mut queue = Queue::new(3);
    queue.push(1);
    queue.push(2);
    assert_eq!(queue.pop(), 1);
    assert_eq!(queue.pop(), 2);
    queue.push(3);
    queue.push(4);
    assert_eq!(queue.pop(), 3);
    assert_eq!(queue.pop(), 4);
    queue.push(5);
    assert_eq!(queue.len(), 1);
    assert_eq!(queue.pop(), 5);
    assert_eq!(queue.len(), 0);
}

#[test]
fn a_push_into_the_last_free_slot_empties_the_queue() {
    let mut queue = Queue::new(2);
    queue.push(7);
    assert_eq!(queue.len(), 1);
    queue.push(8);
    assert_eq!(queue.len(), 0);
}

#[test]
fn a_ring_of_one_slot_holds_nothing() {
    let mut queue = Queue::new(1);
    queue.push(7);
    assert_eq!(queue.len(), 0);
    assert_eq!(queue.pop(), 7);
}

#[test]
fn a_pop_from_an_empty_queue_gives_what_the_slot_held() {
    let mut queue = Queue::new(3);
    assert_eq!(queue.pop(), 0);
    queue.push(9);
    queue.push(4);
    assert_eq!(queue.pop(), 4);
    assert_eq!(queue.pop(), 0);
    assert_eq!(queue.pop(), 9);
}

#[test]
fn a_queue_below_its_limit_follows_a_model() {
    arbtest::arbtest(|u| {
        let slots: usize = u.int_in_range(1..=10)?;
        let mut queue = Queue::new(slots);
        let mut model: std::collections::VecDeque<i32> = std::collections::VecDeque::new();
        let mut pushed = 0usize;
        let mut popped = 0usize;
        while !u.is_empty() {
            if u.arbitrary()? {
                if model.len() + 1 < slots {
                    let x: i32 = u.arbitrary()?;
                    model.push_back(x);
                    queue.push(x);
                    pushed += 1;
                }
            } else if let Some(expected) = model.pop_front() {
                assert_eq!(queue.pop(), expected);
                popped += 1;
            }
            if popped % slots <= pushed % slots {
                assert_eq!(queue.len(), model.len());
            }
        }
        Ok(())
    });
}
