//! PS/2 mouse packet decoding and the bounded queue of mouse events.
use vstd::prelude::*;
use std::collections::VecDeque;

verus! {

#[derive(Debug, Clone, Copy, PartialEq, Eq, Structural)]
pub enum MouseButton {
    Left,
    Right,
    Middle,
}

#[derive(Debug, Clone, Copy, PartialEq, Eq, Structural)]
pub enum MouseEvent {
    Move(i32, i32),
    ButtonDown(MouseButton),
    ButtonUp(MouseButton),
    Scroll(i32),
}

/// The most events the queue holds; further events are dropped.
pub const BUFFER_CAPACITY: usize = 64;

/// The mouse driver: the bytes of the packet being received, the buttons last reported
/// and the queue of events not yet read.
pub struct MouseState {
    pub buttons: u8,
    pub packet_buf: [u8; 4],
    pub packet_idx: u8,
    pub initialized: bool,
    pub events: VecDeque<MouseEvent>,
}

impl MouseState {
    /// A packet is never more than two bytes in, and the queue never over capacity.
    pub open spec fn wf(&self) -> bool {
        self.packet_idx < 3 && self.events@.len() <= BUFFER_CAPACITY
    }

    /// A driver that has not been initialised and holds no events.
    pub fn new() -> (res: Self)
        ensures
            res.wf(),
            !res.initialized,
            res.events@.len() == 0,
            res.buttons == 0,
            res.packet_idx == 0,
    {
        MouseState { buttons: 0, packet_buf: [0u8; 4], packet_idx: 0, initialized: false, events: VecDeque::new() }
    }

    /// Records that the device has been set up, so that its data is decoded.
    pub fn mark_initialized(&mut self)
        ensures
            final(self).initialized,
            final(self).buttons == old(self).buttons,
            final(self).packet_idx == old(self).packet_idx,
            final(self).packet_buf == old(self).packet_buf,
            final(self).events@ == old(self).events@,
    {
        self.initialized = true;
    }
}

/// Bit `k` of a byte.
pub open spec fn bit(x: u8, k: nat) -> bool {
    (x as nat / pow2_nat(k)) % 2 == 1
}

pub open spec fn pow2_nat(k: nat) -> nat
    decreases k,
{
    if k == 0 { 1 } else { 2 * pow2_nat((k - 1) as nat) }
}

/// A 9-bit movement: the byte, negative when the sign bit is set.
pub open spec fn sign_extend(v: u8, negative: bool) -> int {
    if negative { v - 256 } else { v as int }
}

/// The event for one button whose state changed.
pub open spec fn button_event(b: MouseButton, down: bool) -> MouseEvent {
    if down { MouseEvent::ButtonDown(b) } else { MouseEvent::ButtonUp(b) }
}

/// The events of a complete packet `b0 b1 b2`, given the buttons reported before:
/// button changes (left, right, middle), then the movement with the vertical axis
/// flipped, if there is any.
pub open spec fn packet_events(b0: u8, b1: u8, b2: u8, old: u8) -> Seq<MouseEvent> {
    let dx = sign_extend(b1, bit(b0, 4));
    let dy = sign_extend(b2, bit(b0, 5));
    let e1: Seq<MouseEvent> = if bit(b0, 0) != bit(old, 0) { seq![button_event(MouseButton::Left, bit(b0, 0))] } else { Seq::empty() };
    let e2: Seq<MouseEvent> = if bit(b0, 1) != bit(old, 1) { seq![button_event(MouseButton::Right, bit(b0, 1))] } else { Seq::empty() };
    let e3: Seq<MouseEvent> = if bit(b0, 2) != bit(old, 2) { seq![button_event(MouseButton::Middle, bit(b0, 2))] } else { Seq::empty() };
    let e4: Seq<MouseEvent> = if dx != 0 || dy != 0 { seq![MouseEvent::Move(dx as i32, (-dy) as i32)] } else { Seq::empty() };
    e1 + e2 + e3 + e4
}

/// The queue after offering it the events in order; each is dropped when the queue is full.
pub open spec fn enqueue_all(q: Seq<MouseEvent>, evs: Seq<MouseEvent>) -> Seq<MouseEvent>
    decreases evs.len(),
{
    if evs.len() == 0 {
        q
    } else {
        let q1 = enqueue_all(q, evs.drop_last());
        if q1.len() < BUFFER_CAPACITY { q1.push(evs.last()) } else { q1 }
    }
}

/// The queue after offering it one event.
pub open spec fn enqueue(q: Seq<MouseEvent>, e: MouseEvent) -> Seq<MouseEvent> {
    if q.len() < BUFFER_CAPACITY { q.push(e) } else { q }
}

fn push_event(q: &mut VecDeque<MouseEvent>, e: MouseEvent)
    requires
        old(q)@.len() <= BUFFER_CAPACITY,
    ensures
        final(q)@ == enqueue(old(q)@, e),
        final(q)@.len() <= BUFFER_CAPACITY,
{
    if q.len() < BUFFER_CAPACITY {
        q.push_back(e);
    }
}

proof fn lemma_bits(x: u8)
    ensures
        x & 1 == (if bit(x, 0) { 1u8 } else { 0u8 }),
        x & 2 == (if bit(x, 1) { 2u8 } else { 0u8 }),
        x & 4 == (if bit(x, 2) { 4u8 } else { 0u8 }),
        x & 0x10 == (if bit(x, 4) { 0x10u8 } else { 0u8 }),
        x & 0x20 == (if bit(x, 5) { 0x20u8 } else { 0u8 }),
        x & 7 == x % 8,
{
    reveal_with_fuel(pow2_nat, 6);
    assert(x & 1 == (if (x / 1) % 2 == 1 { 1u8 } else { 0u8 })) by (bit_vector);
    assert(x & 2 == (if (x / 2) % 2 == 1 { 2u8 } else { 0u8 })) by (bit_vector);
    assert(x & 4 == (if (x / 4) % 2 == 1 { 4u8 } else { 0u8 })) by (bit_vector);
    assert(x & 0x10 == (if (x / 16) % 2 == 1 { 0x10u8 } else { 0u8 })) by (bit_vector);
    assert(x & 0x20 == (if (x / 32) % 2 == 1 { 0x20u8 } else { 0u8 })) by (bit_vector);
    assert(x & 7 == x % 8) by (bit_vector);
}

/// The driver after receiving one byte of a packet.
pub open spec fn spec_handle_data(
    st: (u8, Seq<u8>, u8, bool, Seq<MouseEvent>),
    data: u8,
) -> (u8, Seq<u8>, u8, bool, Seq<MouseEvent>) {
    let (buttons, buf, idx, init, q) = st;
    if !init {
        st
    } else {
        let buf2 = buf.update(idx as int, data);
        if idx + 1 >= 3 {
            let evs = packet_events(buf2[0], buf2[1], buf2[2], buttons);
            ((buf2[0] % 8) as u8, buf2, 0, init, enqueue_all(q, evs))
        } else {
            (buttons, buf2, (idx + 1) as u8, init, q)
        }
    }
}

/// The driver's fields as a tuple, for the contracts.
pub open spec fn mouse_view(m: &MouseState) -> (u8, Seq<u8>, u8, bool, Seq<MouseEvent>) {
    (m.buttons, m.packet_buf@, m.packet_idx, m.initialized, m.events@)
}

/// Receives one byte of a three-byte packet; a complete packet queues its events.
pub fn handle_data(m: &mut MouseState, data: u8)
    requires
        old(m).wf(),
    ensures
        final(m).wf(),
        mouse_view(final(m)) == spec_handle_data(mouse_view(old(m)), data),
{
    if !m.initialized {
        return;
    }
    let idx = m.packet_idx as usize;
    m.packet_buf[idx] = data;
    m.packet_idx = m.packet_idx + 1;
    if m.packet_idx >= 3 {
        let b0 = m.packet_buf[0];
        let b1 = m.packet_buf[1];
        let b2 = m.packet_buf[2];
        proof {
            lemma_bits(b0);
            lemma_bits(m.buttons);
        }
        let dx: i32 = if (b0 & 0x10) != 0 { b1 as i32 - 256 } else { b1 as i32 };
        let dy: i32 = if (b0 & 0x20) != 0 { b2 as i32 - 256 } else { b2 as i32 };
        let new_buttons = b0 & 0x07;
        let old = m.buttons;
        let ghost q0 = m.events@;
        let ghost e1: Seq<MouseEvent> = if bit(b0, 0) != bit(old, 0) { seq![button_event(MouseButton::Left, bit(b0, 0))] } else { Seq::empty() };
        let ghost e2: Seq<MouseEvent> = if bit(b0, 1) != bit(old, 1) { seq![button_event(MouseButton::Right, bit(b0, 1))] } else { Seq::empty() };
        let ghost e3: Seq<MouseEvent> = if bit(b0, 2) != bit(old, 2) { seq![button_event(MouseButton::Middle, bit(b0, 2))] } else { Seq::empty() };
        let ghost e4: Seq<MouseEvent> = if dx != 0 || dy != 0 { seq![MouseEvent::Move(dx, (-dy) as i32)] } else { Seq::empty() };
        if (new_buttons & 1) != (old & 1) {
            push_event(&mut m.events, if (new_buttons & 1) != 0 {
                MouseEvent::ButtonDown(MouseButton::Left)
            } else {
                MouseEvent::ButtonUp(MouseButton::Left)
            });
        }
        proof {
            lemma_bits(new_buttons);
            assert(new_buttons & 1 == b0 & 1 && new_buttons & 2 == b0 & 2 && new_buttons & 4 == b0 & 4) by (bit_vector)
                requires new_buttons == b0 & 7;
            lemma_enqueue_step(q0, Seq::empty(), e1);
        }
        if (new_buttons & 2) != (old & 2) {
            push_event(&mut m.events, if (new_buttons & 2) != 0 {
                MouseEvent::ButtonDown(MouseButton::Right)
            } else {
                MouseEvent::ButtonUp(MouseButton::Right)
            });
        }
        proof { lemma_enqueue_step(q0, e1, e2); }
        if (new_buttons & 4) != (old & 4) {
            push_event(&mut m.events, if (new_buttons & 4) != 0 {
                MouseEvent::ButtonDown(MouseButton::Middle)
            } else {
                MouseEvent::ButtonUp(MouseButton::Middle)
            });
        }
        proof { lemma_enqueue_step(q0, e1 + e2, e3); }
        if dx != 0 || dy != 0 {
            push_event(&mut m.events, MouseEvent::Move(dx, -dy));
        }
        proof {
            lemma_enqueue_step(q0, e1 + e2 + e3, e4);
            assert(packet_events(b0, b1, b2, old) =~= e1 + e2 + e3 + e4);
        }
        m.buttons = new_buttons;
        m.packet_idx = 0;
    }
}

/// Offering a prefix and then at most one more event is offering their concatenation.
proof fn lemma_enqueue_step(q: Seq<MouseEvent>, pre: Seq<MouseEvent>, more: Seq<MouseEvent>)
    requires
        more.len() <= 1,
    ensures
        more.len() == 0 ==> enqueue_all(q, pre + more) == enqueue_all(q, pre),
        more.len() == 1 ==> enqueue_all(q, pre + more) == enqueue(enqueue_all(q, pre), more[0]),
{
    if more.len() == 0 {
        assert(pre + more =~= pre);
    } else {
        assert((pre + more).drop_last() =~= pre);
    }
}

/// Takes the oldest event from the queue.
pub fn read_event(m: &mut MouseState) -> (res: Option<MouseEvent>)
    requires
        old(m).wf(),
    ensures
        final(m).wf(),
        old(m).events@.len() == 0 ==> res is None && final(m).events@ == old(m).events@,
        old(m).events@.len() > 0 ==> res == Some(old(m).events@[0]) && final(m).events@ == old(m).events@.drop_first(),
        final(m).buttons == old(m).buttons && final(m).packet_idx == old(m).packet_idx
            && final(m).packet_buf == old(m).packet_buf && final(m).initialized == old(m).initialized,
{
    m.events.pop_front()
}

pub fn has_events(m: &MouseState) -> (res: bool)
    ensures
        res == (m.events@.len() > 0),
{
    m.events.len() > 0
}

/// Drops every queued event.
pub fn clear_buffer(m: &mut MouseState)
    requires
        old(m).wf(),
    ensures
        final(m).wf(),
        final(m).events@.len() == 0,
        final(m).buttons == old(m).buttons && final(m).packet_idx == old(m).packet_idx
            && final(m).packet_buf == old(m).packet_buf && final(m).initialized == old(m).initialized,
{
    m.events.clear();
}

/// Queues an event from another pointing device (dropped when the queue is full).
pub fn inject_event(m: &mut MouseState, event: MouseEvent)
    requires
        old(m).wf(),
    ensures
        final(m).wf(),
        final(m).events@ == enqueue(old(m).events@, event),
        final(m).buttons == old(m).buttons && final(m).packet_idx == old(m).packet_idx
            && final(m).packet_buf == old(m).packet_buf && final(m).initialized == old(m).initialized,
{
    push_event(&mut m.events, event);
}

pub fn is_initialized(m: &MouseState) -> (res: bool)
    ensures
        res == m.initialized,
{
    m.initialized
}

/// Events come out in the order they went in: an event queued into a queue with room is
/// read after all the events already there.
pub proof fn law_queue_fifo(q: Seq<MouseEvent>, e: MouseEvent)
    requires
        q.len() < BUFFER_CAPACITY,
    ensures
        enqueue(q, e).len() == q.len() + 1,
        enqueue(q, e)[q.len() as int] == e,
        forall|i: int| 0 <= i < q.len() ==> enqueue(q, e)[i] == q[i],
{
}

/// The queue never holds more than its capacity.
pub proof fn law_queue_bounded(q: Seq<MouseEvent>, evs: Seq<MouseEvent>)
    requires
        q.len() <= BUFFER_CAPACITY,
    ensures
        enqueue_all(q, evs).len() <= BUFFER_CAPACITY,
    decreases evs.len(),
{
    if evs.len() > 0 {
        law_queue_bounded(q, evs.drop_last());
    }
}

} // verus!
