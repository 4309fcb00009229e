use lib::queue::{SimpleQueue, LIMIT};

fn queue_of(items: &[i32]) -> SimpleQueue<i32> {
    let mut q: SimpleQueue<i32> = SimpleQueue::new();
    for &x in items {
        q.enqueue(x);
    }
    q
}

fn contents(q: &SimpleQueue<i32>) -> Vec<i32> {
    let mut v = Vec::new();
    let mut i = 0;
    while let Some(x) = q.get(i) {
        v.push(x);
        i += 1;
    }
    v
}

#[test]
fn new_queue_is_empty() {
    let q: SimpleQueue<i32> = SimpleQueue::new();
    assert_eq!(q.len(), 0);
    assert!(q.is_empty());
    assert!(!q.is_existing());
    assert_eq!(q.get(0), None);
}

#[test]
fn enqueue_then_dequeue_is_fifo() {
    let mut q = queue_of(&[1, 2, 3]);
    assert_eq!(q.len(), 3);
    assert!(q.is_existing());
    assert_eq!(q.dequeue(), Some(1));
    q.enqueue(4);
    assert_eq!(q.dequeue(), Some(2));
    assert_eq!(q.dequeue(), Some(3));
    assert_eq!(q.dequeue(), Some(4));
    assert_eq!(q.dequeue(), None);
    assert!(q.is_empty());
}

#[test]
fn enqueue_into_empty_then_dequeue_gives_it_back() {
    let mut q: SimpleQueue<i32> = SimpleQueue::new();
    q.enqueue(42);
    assert_eq!(q.dequeue(), Some(42));
    assert_eq!(q.len(), 0);
}

#[test]
fn full_queue_drops_new_elements() {
    let mut q: SimpleQueue<i32> = SimpleQueue::new();
    for i in 0..(LIMIT as i32 + 5) {
        q.enqueue(i);
    }
    assert_eq!(q.len(), LIMIT);
    assert_eq!(q.get(LIMIT - 1), Some(LIMIT as i32 - 1));
    q.enqueue_front(-1);
    assert_eq!(q.get(0), Some(0));
}

#[test]
fn ring_wraps_around() {
    let mut q: SimpleQueue<i32> = SimpleQueue::new();
    for round in 0..3 {
        for i in 0..20 {
            q.enqueue(round * 100 + i);
        }
        for i in 0..20 {
            assert_eq!(q.dequeue(), Some(round * 100 + i));
        }
    }
    assert!(q.is_empty());
}

#[test]
fn enqueue_front_and_dequeue_front() {
    let mut q = queue_of(&[1, 2]);
    q.enqueue_front(0);
    assert_eq!(contents(&q), vec![0, 1, 2]);
    assert_eq!(q.dequeue_front(7), Some(0));
    assert_eq!(contents(&q), vec![1, 2]);
    let mut e: SimpleQueue<i32> = SimpleQueue::new();
    assert_eq!(e.dequeue_front(7), None);
}

#[test]
fn add_inserts_at_position() {
    let mut q = queue_of(&[1, 2, 3]);
    q.add(9, 1);
    assert_eq!(contents(&q), vec![1, 9, 2, 3]);
    q.add(8, 4);
    assert_eq!(contents(&q), vec![1, 9, 2, 3, 8]);
    q.add(7, 0);
    assert_eq!(contents(&q), vec![7, 1, 9, 2, 3, 8]);
}

#[test]
fn remove_takes_out_position() {
    let mut q = queue_of(&[1, 2, 3, 4]);
    assert_eq!(q.remove(1), Some(2));
    assert_eq!(contents(&q), vec![1, 3, 4]);
    assert_eq!(q.remove(2), Some(4));
    assert_eq!(q.remove(0), Some(1));
    assert_eq!(contents(&q), vec![3]);
    assert_eq!(q.remove(5), None);
    assert_eq!(contents(&q), vec![3]);
}

#[test]
fn add_then_remove_restores_queue() {
    let mut q = queue_of(&[5, 6, 7]);
    q.add(100, 2);
    assert_eq!(q.remove(2), Some(100));
    assert_eq!(contents(&q), vec![5, 6, 7]);
}

#[test]
fn get_position_in_queue_results() {
    let e: SimpleQueue<i32> = SimpleQueue::new();
    assert_eq!(e.get_position_in_queue(1), Err("queue is empty.".to_string()));
    let q = queue_of(&[4, 5, 4]);
    assert_eq!(q.get_position_in_queue(4), Ok(0));
    assert_eq!(q.get_position_in_queue(5), Ok(1));
    assert_eq!(q.get_position_in_queue(6), Err("data is not existing".to_string()));
}

#[test]
fn update_and_remove_entry() {
    let mut q = queue_of(&[4, 5, 4]);
    assert_eq!(q.update(5), Ok(()));
    assert_eq!(contents(&q), vec![4, 5, 4]);
    assert_eq!(q.update(9), Err("Error in update queue.".to_string()));
    assert_eq!(q.remove_entry(4), Ok(()));
    assert_eq!(contents(&q), vec![5, 4]);
    assert_eq!(q.remove_entry(9), Err("Removing Target is not existing.".to_string()));
    assert_eq!(contents(&q), vec![5, 4]);
}

#[test]
fn clear_empties() {
    let mut q = queue_of(&[1, 2, 3]);
    q.clear();
    assert!(q.is_empty());
    q.enqueue(1);
    assert_eq!(q.dequeue(), Some(1));
}

#[test]
fn add_to_full_queue_ignores_any_index() {
    let mut q: SimpleQueue<i32> = SimpleQueue::new();
    for i in 0..LIMIT as i32 {
        q.enqueue(i);
    }
    q.add(99, 100);
    assert_eq!(q.len(), LIMIT);
    assert_eq!(q.get(0), Some(0));
}
