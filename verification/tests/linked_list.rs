use lib::linked_list::{LinkedList, LinkedListNode};

fn list_of(items: &[i32]) -> LinkedList<i32> {
    let mut l: LinkedList<i32> = LinkedList::new();
    for &x in items {
        assert_eq!(l.add(x), Ok(()));
    }
    l
}

fn contents(l: &LinkedList<i32>) -> Vec<i32> {
    (0..l.len()).map(|i| l.get_data_from_position(i).unwrap()).collect()
}

#[test]
fn node_holds_data() {
    let n = LinkedListNode::new(5);
    let _ = n;
    let l: LinkedList<i32> = LinkedList::new();
    assert_eq!(l.len(), 0);
    assert_eq!(l.get_data_from_position(0), None);
}

#[test]
fn add_appends_and_push_front_prepends() {
    let mut l = list_of(&[1, 2]);
    assert_eq!(l.push_front(0), Ok(()));
    assert_eq!(contents(&l), vec![0, 1, 2]);
    assert_eq!(l.len(), 3);
}

#[test]
fn positions_and_neighbours() {
    let l = list_of(&[10, 20, 30, 20]);
    assert_eq!(l.get_position_from_data(20), Some(1));
    assert_eq!(l.get_position_from_data(40), None);
    assert_eq!(l.get_next_data(20), Some(30));
    assert_eq!(l.get_next_data(30), Some(20));
    assert_eq!(l.get_next_data(10), Some(20));
    assert_eq!(l.get_prev_data(20), Some(10));
    assert_eq!(l.get_prev_data(10), None);
    assert_eq!(l.get_next_data(99), None);
    let single = list_of(&[7]);
    assert_eq!(single.get_next_data(7), None);
}

#[test]
fn remove_results() {
    let mut e: LinkedList<i32> = LinkedList::new();
    assert_eq!(e.remove(1), Err("LinkedList length is 0.".to_string()));
    let mut l = list_of(&[1, 2, 3, 2]);
    assert_eq!(l.remove(2), Ok(()));
    assert_eq!(contents(&l), vec![1, 3, 2]);
    assert_eq!(l.remove(9), Err("Data is not existing.".to_string()));
    assert_eq!(l.remove(1), Ok(()));
    assert_eq!(l.remove(2), Ok(()));
    assert_eq!(l.remove(3), Ok(()));
    assert_eq!(l.len(), 0);
    assert_eq!(l.add(4), Ok(()));
    assert_eq!(contents(&l), vec![4]);
}

#[test]
fn add_then_remove_restores_list() {
    let mut l = list_of(&[1, 2, 3]);
    assert_eq!(l.add(4), Ok(()));
    assert_eq!(l.remove(4), Ok(()));
    assert_eq!(contents(&l), vec![1, 2, 3]);
}

#[test]
fn update_replaces_match() {
    let mut l = list_of(&[1, 2, 3]);
    assert_eq!(l.update(2), Ok(()));
    assert_eq!(contents(&l), vec![1, 2, 3]);
    assert_eq!(l.update(5), Err("Data is not existing.".to_string()));
}

#[test]
fn change_order_moves_element() {
    let mut l = list_of(&[0, 1, 2, 3]);
    assert_eq!(l.change_order(1, 3), Ok(()));
    assert_eq!(contents(&l), vec![0, 2, 3, 1]);

    let mut l = list_of(&[0, 1, 2, 3]);
    assert_eq!(l.change_order(2, 0), Ok(()));
    assert_eq!(contents(&l), vec![2, 0, 1, 3]);

    let mut l = list_of(&[0, 1, 2, 3]);
    assert_eq!(l.change_order(1, 10), Ok(()));
    assert_eq!(contents(&l), vec![0, 2, 3, 1]);

    let mut l = list_of(&[0, 1, 2, 3]);
    assert_eq!(l.change_order(9, 1), Err("data is not existing in LinkedList".to_string()));
    assert_eq!(contents(&l), vec![0, 1, 2, 3]);
}

#[test]
fn change_order_from_front_lands_one_before_target() {
    let mut l = list_of(&[0, 1, 2, 3]);
    assert_eq!(l.change_order(0, 2), Ok(()));
    assert_eq!(contents(&l), vec![1, 0, 2, 3]);

    let mut l = list_of(&[0, 1, 2, 3]);
    assert_eq!(l.change_order(0, 3), Ok(()));
    assert_eq!(contents(&l), vec![1, 2, 3, 0]);
}

#[test]
fn change_order_keeps_elements() {
    let mut l = list_of(&[5, 6, 7, 8, 9]);
    assert_eq!(l.change_order(7, 1), Ok(()));
    let mut c = contents(&l);
    c.sort();
    assert_eq!(c, vec![5, 6, 7, 8, 9]);
}

#[test]
fn change_order_in_place_is_no_op() {
    let mut l = list_of(&[0, 1, 2]);
    assert_eq!(l.change_order(1, 1), Ok(()));
    assert_eq!(contents(&l), vec![0, 1, 2]);
}
