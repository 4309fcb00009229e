//! Decoding of the three-byte packets a PS/2 mouse sends.
use vstd::prelude::*;
use crate::queue::SimpleQueue;

verus! {

/// The state of the packet decoder and the last decoded movement.
#[derive(Clone, Copy)]
pub struct MouseBuf {
    /// 0: waiting for the mouse's 0xfa acknowledgement; 1, 2, 3: waiting for
    /// the first, second, third byte of a packet.
    pub phase: usize,
    pub buf: [i32; 3],
    pub x: i32,
    pub y: i32,
    pub btn: i32,
}

/// The horizontal movement of a packet whose first byte is `b0` and second
/// byte is `b1`: bit 4 of `b0` marks it negative.
pub open spec fn packet_x(b0: i32, b1: i32) -> i32 {
    if (b0 & 0x10) != 0 {
        b1 | 0x7fffff00
    } else {
        b1
    }
}

/// The vertical movement, before the sign flip, of a packet whose first
/// byte is `b0` and third byte is `b2`: bit 5 of `b0` marks it negative.
pub open spec fn packet_raw_y(b0: i32, b2: i32) -> i32 {
    if (b0 & 0x20) != 0 {
        b2 | 0x7fffff00
    } else {
        b2
    }
}

/// The movement and buttons of `a` and `b` are the same.
pub open spec fn same_movement(a: MouseBuf, b: MouseBuf) -> bool {
    a.x == b.x && a.y == b.y && a.btn == b.btn
}

/// `new` is `old` after the third byte `data` of a packet: the decoder waits
/// for a new packet, and the buttons and movement come from the packet, the
/// vertical movement with its sign flipped.
pub open spec fn completes_packet(old: MouseBuf, new: MouseBuf, data: i32) -> bool {
    &&& new.phase == 1
    &&& new.buf@ == old.buf@.update(2, data)
    &&& new.btn == old.buf[0] & 0x07
    &&& new.x == packet_x(old.buf[0], old.buf[1])
    &&& new.y == -packet_raw_y(old.buf[0], data)
}

/// A completed packet's movement: the horizontal movement is the second
/// byte, with bits 8 to 30 set exactly when bit 4 of the first byte is set;
/// the vertical movement is the negated third byte, with bits 8 to 30 set
/// before the negation exactly when bit 5 of the first byte is set; the
/// buttons are the low three bits of the first byte. Each sign bit acts on
/// its own axis only.
pub proof fn lemma_packet_decoding(old: MouseBuf, new: MouseBuf, data: i32)
    requires
        completes_packet(old, new, data),
    ensures
        (old.buf[0] & 0x10) == 0 ==> new.x == old.buf[1],
        (old.buf[0] & 0x10) != 0 ==> new.x == old.buf[1] | 0x7fffff00,
        (old.buf[0] & 0x20) == 0 ==> new.y == -data,
        (old.buf[0] & 0x20) != 0 ==> new.y == -(data | 0x7fffff00),
        new.btn == old.buf[0] & 0x07,
        new.phase == 1,
{
}

impl MouseBuf {
    /// A decoder waiting for the acknowledgement, with no movement.
    pub fn new() -> (r: Self)
        ensures
            r.phase == 0,
            r.buf@ == seq![0i32, 0i32, 0i32],
            r.x == 0,
            r.y == 0,
            r.btn == 0,
    {
        let r = MouseBuf { phase: 0, buf: [0; 3], x: 0, y: 0, btn: 0 };
        assert(r.buf@ =~= seq![0i32, 0i32, 0i32]);
        r
    }

    /// Feeds one byte from the mouse. `Ok(1)` when it completes a packet and
    /// the movement is updated, `Ok(0)` when it is taken in, `Err` when the
    /// decoder waits for the acknowledgement and gets another byte.
    pub fn get_from_mouse_dev(&mut self, data: i32) -> (r: Result<i32, ()>)
        requires
            old(self).phase == 3 && (old(self).buf[0] & 0x20) == 0 ==> data != i32::MIN,
        ensures
            old(self).phase == 0 && data == 0xfa ==> (r == Ok::<i32, ()>(0) && final(self).phase == 1
                && final(self).buf == old(self).buf && same_movement(*old(self), *final(self))),
            old(self).phase == 1 && (data & 0xc8) == 0x08 ==> (r == Ok::<i32, ()>(0) && final(self).phase == 2
                && final(self).buf@ == old(self).buf@.update(0, data) && same_movement(*old(self), *final(self))),
            old(self).phase == 1 && (data & 0xc8) != 0x08 ==> (r == Ok::<i32, ()>(0) && *final(self) == *old(self)),
            old(self).phase == 2 ==> (r == Ok::<i32, ()>(0) && final(self).phase == 3 && final(self).buf@
                == old(self).buf@.update(1, data) && same_movement(*old(self), *final(self))),
            old(self).phase == 3 ==> (r == Ok::<i32, ()>(1) && completes_packet(*old(self), *final(self), data)),
            (old(self).phase == 0 && data != 0xfa) || old(self).phase > 3 ==> (r is Err && *final(self) == *old(self)),
    {
        if self.phase == 0 && data == 0xfa {
            self.phase = 1;
            return Ok(0);
        }
        if self.phase == 1 {
            if (data & 0xc8) == 0x08 {
                self.buf[0] = data;
                self.phase = 2;
            }
            return Ok(0);
        }
        if self.phase == 2 {
            self.buf[1] = data;
            self.phase = 3;
            return Ok(0);
        }
        if self.phase == 3 {
            self.buf[2] = data;
            self.phase = 1;
            self.btn = self.buf[0] & 0x07;
            self.x = self.buf[1];
            self.y = self.buf[2];
            if (self.buf[0] & 0x10) != 0x00 {
                self.x = self.x | 0x7fffff00;
            }
            if (self.buf[0] & 0x20) != 0x00 {
                self.y = self.y | 0x7fffff00;
                assert(data | 0x7fffff00i32 != i32::MIN) by (bit_vector);
            }
            self.y = -self.y;
            return Ok(1);
        }
        Err(())
    }

    /// The buttons and the movement of the last packet.
    pub fn get_status(&self) -> (r: (i32, i32, i32))
        ensures
            r == (self.btn, self.x, self.y),
    {
        (self.btn, self.x, self.y)
    }
}

/// `new` is `old` after it took in the byte `data` before the third byte of
/// a packet: the acknowledgement 0xfa starts the wait for a packet; a first
/// byte with bit 3 set and bits 6 and 7 clear is kept and the second is
/// awaited, any other first byte is skipped; a second byte is kept and the
/// third is awaited. The buttons and movement stay as they were.
pub open spec fn takes_in(old: MouseBuf, new: MouseBuf, data: i32) -> bool {
    &&& old.phase == 0 ==> new.phase == 1 && new.buf == old.buf && same_movement(old, new)
    &&& old.phase == 1 && (data & 0xc8) == 0x08 ==> new.phase == 2 && new.buf@ == old.buf@.update(0, data)
        && same_movement(old, new)
    &&& old.phase == 1 && (data & 0xc8) != 0x08 ==> new == old
    &&& old.phase == 2 ==> new.phase == 3 && new.buf@ == old.buf@.update(1, data) && same_movement(old, new)
}

/// The decoder in state `b` refuses the byte `data`.
pub open spec fn rejects(b: MouseBuf, data: i32) -> bool {
    (b.phase == 0 && data != 0xfa) || b.phase > 3
}

/// Takes the next byte the mouse sent from `queue` and feeds it to `buf`:
/// `Ok(Some(status))` when it completes a packet, `Ok(None)` when it does
/// not, an error when the queue is empty or the decoder refuses the byte.
pub fn get_data(queue: &mut SimpleQueue<i32>, buf: &mut MouseBuf) -> (r: Result<
    Option<(i32, i32, i32)>,
    String,
>)
    requires
        old(queue).wf(),
        old(queue)@.len() > 0 && old(buf).phase == 3 && (old(buf).buf[0] & 0x20) == 0 ==> old(queue)@[0]
            != i32::MIN,
    ensures
        final(queue).wf(),
        old(queue)@.len() == 0 ==> (r matches Err(e) && e@ == "dequeue is error at mouse."@ && final(queue)@
            == old(queue)@ && *final(buf) == *old(buf)),
        old(queue)@.len() > 0 ==> final(queue)@ == old(queue)@.drop_first(),
        old(queue)@.len() > 0 && rejects(*old(buf), old(queue)@[0]) ==> (r matches Err(e) && e@
            == "get_from_mouse_dev is Error."@ && *final(buf) == *old(buf)),
        old(queue)@.len() > 0 && old(buf).phase == 3 ==> (r matches Ok(Some(status)) && status == (
            final(buf).btn,
            final(buf).x,
            final(buf).y,
        ) && completes_packet(*old(buf), *final(buf), old(queue)@[0])),
        old(queue)@.len() > 0 && old(buf).phase <= 2 && !rejects(*old(buf), old(queue)@[0]) ==> (r matches Ok(
            None,
        ) && takes_in(*old(buf), *final(buf), old(queue)@[0])),
{
    let data = match queue.dequeue() {
        Some(d) => d,
        None => {
            return Err("dequeue is error at mouse.".to_owned());
        },
    };
    let code = match buf.get_from_mouse_dev(data) {
        Ok(c) => c,
        Err(_) => {
            return Err("get_from_mouse_dev is Error.".to_owned());
        },
    };
    if code == 0 {
        Ok(None)
    } else {
        Ok(Some(buf.get_status()))
    }
}

/// Queues a byte the mouse sent.
pub fn store_data(queue: &mut SimpleQueue<i32>, data: i32)
    requires
        old(queue).wf(),
    ensures
        final(queue).wf(),
        old(queue)@.len() == crate::queue::LIMIT ==> final(queue)@ == old(queue)@,
        old(queue)@.len() < crate::queue::LIMIT ==> final(queue)@ == old(queue)@.push(data),
{
    queue.enqueue(data);
}

} // verus!
