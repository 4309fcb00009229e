//! The queue of key codes from the keyboard.
use vstd::prelude::*;
use crate::queue::{SimpleQueue, LIMIT};

verus! {

/// Queues a key code; codes of 0x80 and above (key releases) are dropped.
pub fn store_data(queue: &mut SimpleQueue<i32>, data: i32)
    requires
        old(queue).wf(),
    ensures
        final(queue).wf(),
        data >= 0x80 || old(queue)@.len() == LIMIT ==> final(queue)@ == old(queue)@,
        data < 0x80 && old(queue)@.len() < LIMIT ==> final(queue)@ == old(queue)@.push(data),
{
    if data >= 0x80 {
        return;
    }
    queue.enqueue(data);
}

/// Takes the next key code from `queue`; an error when there is none.
pub fn get_data(queue: &mut SimpleQueue<i32>) -> (r: Result<i32, ()>)
    requires
        old(queue).wf(),
    ensures
        final(queue).wf(),
        old(queue)@.len() == 0 ==> r is Err && final(queue)@ == old(queue)@,
        old(queue)@.len() > 0 ==> r == Ok::<i32, ()>(old(queue)@[0]) && final(queue)@ == old(queue)@.drop_first(),
{
    match queue.dequeue() {
        Some(data) => Ok(data),
        None => Err(()),
    }
}

} // verus!
