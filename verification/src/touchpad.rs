//! Elan touchpad: how the probe outcome sets up the driver, and how each 8-byte touch
//! report becomes mouse events.
use vstd::prelude::*;
use crate::mouse::{enqueue, inject_event, MouseButton, MouseEvent, MouseState};
use crate::text::{alt_hex, bool_text, dec, push_alt_hex, push_dec, push_str};

verus! {

/// The length of a touch report.
pub const ELAN_REPORT_LEN: usize = 8;

/// The touchpad driver's memory.
pub struct TouchpadState {
    pub touchpad_ok: bool,
    pub i2c_ok: bool,
    pub smbus_ok: bool,
    pub i2c_no_abrt: bool,
    pub smbus_io: u16,
    pub i2c_base: u32,
    pub screen_w: u16,
    pub screen_h: u16,
    pub poll_ok: u32,
    pub poll_fail: u32,
    pub last_report: [u16; 4],
    pub last_parsed: [u16; 3],
    pub last_buttons: u16,
    pub last_x: u16,
    pub last_y: u16,
}

impl TouchpadState {
    /// Nothing found yet.
    pub fn new() -> (res: Self)
        ensures
            !res.touchpad_ok && !res.i2c_ok && !res.smbus_ok,
            res.poll_ok == 0 && res.poll_fail == 0,
            res.last_x == 0 && res.last_y == 0 && res.last_buttons == 0,
    {
        TouchpadState {
            touchpad_ok: false,
            i2c_ok: false,
            smbus_ok: false,
            i2c_no_abrt: false,
            smbus_io: 0,
            i2c_base: 0,
            screen_w: 0,
            screen_h: 0,
            poll_ok: 0,
            poll_fail: 0,
            last_report: [0u16; 4],
            last_parsed: [0u16; 3],
            last_buttons: 0,
            last_x: 0,
            last_y: 0,
        }
    }
}

/// Records the screen size and the outcome of probing: an I2C controller with the Elan
/// device on it (and whether its firmware version could be read), else an SMBus
/// controller (and whether the device answered on it).
pub fn init(tp: &mut TouchpadState, screen_w: u16, screen_h: u16, i2c: Option<(u32, bool)>, smbus: Option<(u16, bool)>)
    ensures
        final(tp).screen_w == screen_w && final(tp).screen_h == screen_h,
        final(tp).poll_ok == old(tp).poll_ok && final(tp).poll_fail == old(tp).poll_fail,
        i2c matches Some((base, fw)) ==> final(tp).i2c_ok && final(tp).i2c_base == base
            && (fw ==> final(tp).touchpad_ok && final(tp).smbus_ok == old(tp).smbus_ok),
        (i2c is None || i2c matches Some((_, false))) ==> match smbus {
            Some((io, fw)) => final(tp).smbus_ok && final(tp).smbus_io == io
                && final(tp).touchpad_ok == (fw || old(tp).touchpad_ok),
            None => final(tp).smbus_ok == old(tp).smbus_ok && final(tp).touchpad_ok == old(tp).touchpad_ok,
        },
        i2c is None ==> final(tp).i2c_ok == old(tp).i2c_ok,
{
    tp.screen_w = screen_w;
    tp.screen_h = screen_h;
    if let Some((base, fw_ok)) = i2c {
        tp.i2c_base = base;
        tp.i2c_ok = true;
        if fw_ok {
            tp.touchpad_ok = true;
            return;
        }
    }
    match smbus {
        Some((io, fw_ok)) => {
            tp.smbus_io = io;
            tp.smbus_ok = true;
            if fw_ok {
                tp.touchpad_ok = true;
            }
        },
        None => {},
    }
}

/// A report's little-endian 16-bit word `k`.
pub open spec fn word(r: Seq<u8>, k: int) -> u16 {
    (r[2 * k] + 256 * r[2 * k + 1]) as u16
}

/// A relative movement from two absolute positions: three times the difference, limited
/// to 100 either way.
pub open spec fn scaled_delta(now: u16, last: u16) -> i32 {
    let d = 3 * (now - last);
    (if d < -100 { -100 } else if d > 100 { 100 } else { d }) as i32
}

/// The events of a touch report, given the buttons and position of the previous one.
pub open spec fn report_events(r: Seq<u8>, old_buttons: u16, lx: u16, ly: u16) -> Seq<MouseEvent> {
    let buttons = (r[1] / 16) % 8;
    let old = (old_buttons % 256) as u8;
    let fingers = r[1] % 16;
    let x = word(r, 1);
    let y = word(r, 2);
    let e1: Seq<MouseEvent> = if buttons % 2 != old % 2 {
        seq![if buttons % 2 == 1 { MouseEvent::ButtonDown(MouseButton::Left) } else { MouseEvent::ButtonUp(MouseButton::Left) }]
    } else { Seq::empty() };
    let e2: Seq<MouseEvent> = if (buttons / 2) % 2 != (old / 2) % 2 {
        seq![if (buttons / 2) % 2 == 1 { MouseEvent::ButtonDown(MouseButton::Right) } else { MouseEvent::ButtonUp(MouseButton::Right) }]
    } else { Seq::empty() };
    let moving = fingers > 0 && x > 0 && y > 0 && lx != 0 && ly != 0;
    let dx = scaled_delta(x, lx);
    let dy = scaled_delta(y, ly);
    let e3: Seq<MouseEvent> = if moving && (dx != 0 || dy != 0) { seq![MouseEvent::Move(dx, dy)] } else { Seq::empty() };
    e1 + e2 + e3
}

/// Offers each event to the queue in turn.
pub open spec fn enqueue_seq(q: Seq<MouseEvent>, evs: Seq<MouseEvent>) -> Seq<MouseEvent>
    decreases evs.len(),
{
    if evs.len() == 0 { q } else { enqueue(enqueue_seq(q, evs.drop_last()), evs.last()) }
}

proof fn lemma_enqueue_seq_step(q: Seq<MouseEvent>, pre: Seq<MouseEvent>, more: Seq<MouseEvent>)
    requires
        more.len() <= 1,
    ensures
        more.len() == 0 ==> enqueue_seq(q, pre + more) == enqueue_seq(q, pre),
        more.len() == 1 ==> enqueue_seq(q, pre + more) == enqueue(enqueue_seq(q, pre), more[0]),
{
    if more.len() == 0 {
        assert(pre + more =~= pre);
    } else {
        assert((pre + more).drop_last() =~= pre);
    }
}

/// Handles one poll: `None` when no report could be read. A report with id 0 updates the
/// buttons and position and queues the mouse events of `report_events`.
pub fn poll(tp: &mut TouchpadState, mouse: &mut MouseState, report: Option<&[u8]>)
    requires
        old(mouse).wf(),
        report matches Some(r) ==> r@.len() >= ELAN_REPORT_LEN,
    ensures
        final(mouse).wf(),
        !old(tp).touchpad_ok ==> *final(mouse) == *old(mouse) && *final(tp) == *old(tp),
        old(tp).touchpad_ok && report is None ==> final(tp).poll_fail == old(tp).poll_fail.wrapping_add(1)
            && final(mouse).events@ == old(mouse).events@,
        old(tp).touchpad_ok && report is Some ==> final(tp).poll_ok == old(tp).poll_ok.wrapping_add(1),
        old(tp).touchpad_ok ==> (report matches Some(r) ==> (r@[0] != 0 ==> final(mouse).events@ == old(mouse).events@
            && final(tp).last_x == old(tp).last_x && final(tp).last_y == old(tp).last_y)),
        old(tp).touchpad_ok ==> (report matches Some(r) ==> (r@[0] == 0 ==> ({
            let fingers = r@[1] % 16;
            let x = word(r@, 1);
            let y = word(r@, 2);
            &&& final(mouse).events@ == enqueue_seq(old(mouse).events@, report_events(r@, old(tp).last_buttons, old(tp).last_x, old(tp).last_y))
            &&& final(tp).last_buttons == (r@[1] / 16) % 8
            &&& (fingers > 0 && x > 0 && y > 0) ==> final(tp).last_x == x && final(tp).last_y == y
            &&& !(fingers > 0 && x > 0 && y > 0) ==> final(tp).last_x == 0 && final(tp).last_y == 0
        }))),
        final(mouse).buttons == old(mouse).buttons && final(mouse).packet_idx == old(mouse).packet_idx
            && final(mouse).initialized == old(mouse).initialized,
{
    if !tp.touchpad_ok {
        return;
    }
    let buf = match report {
        Some(r) => r,
        None => {
            tp.poll_fail = tp.poll_fail.wrapping_add(1);
            return;
        },
    };
    tp.poll_ok = tp.poll_ok.wrapping_add(1);
    tp.last_report = [
        buf[0] as u16 + 256 * buf[1] as u16,
        buf[2] as u16 + 256 * buf[3] as u16,
        buf[4] as u16 + 256 * buf[5] as u16,
        buf[6] as u16 + 256 * buf[7] as u16,
    ];
    if buf[0] != 0 {
        return;
    }
    let btn_finger = buf[1];
    let finger_count = btn_finger % 16;
    let buttons = (btn_finger / 16) % 8;
    let x_raw: u16 = buf[2] as u16 + 256 * buf[3] as u16;
    let y_raw: u16 = buf[4] as u16 + 256 * buf[5] as u16;
    tp.last_parsed = [finger_count as u16, x_raw, y_raw];
    let old_btns = (tp.last_buttons % 256) as u8;
    let lx = tp.last_x;
    let ly = tp.last_y;
    tp.last_buttons = buttons as u16;
    let ghost q0 = mouse.events@;
    let ghost r = buf@;
    let ghost e1: Seq<MouseEvent> = if buttons % 2 != old_btns % 2 {
        seq![if buttons % 2 == 1 { MouseEvent::ButtonDown(MouseButton::Left) } else { MouseEvent::ButtonUp(MouseButton::Left) }]
    } else { Seq::empty() };
    let ghost e2: Seq<MouseEvent> = if (buttons / 2) % 2 != (old_btns / 2) % 2 {
        seq![if (buttons / 2) % 2 == 1 { MouseEvent::ButtonDown(MouseButton::Right) } else { MouseEvent::ButtonUp(MouseButton::Right) }]
    } else { Seq::empty() };
    if buttons % 2 != old_btns % 2 {
        if buttons % 2 == 1 {
            inject_event(mouse, MouseEvent::ButtonDown(MouseButton::Left));
        } else {
            inject_event(mouse, MouseEvent::ButtonUp(MouseButton::Left));
        }
    }
    proof { lemma_enqueue_seq_step(q0, Seq::empty(), e1); assert(Seq::<MouseEvent>::empty() + e1 =~= e1); }
    if (buttons / 2) % 2 != (old_btns / 2) % 2 {
        if (buttons / 2) % 2 == 1 {
            inject_event(mouse, MouseEvent::ButtonDown(MouseButton::Right));
        } else {
            inject_event(mouse, MouseEvent::ButtonUp(MouseButton::Right));
        }
    }
    proof { lemma_enqueue_seq_step(q0, e1, e2); }
    let ghost mut e3: Seq<MouseEvent> = Seq::empty();
    if finger_count > 0 && x_raw > 0 && y_raw > 0 {
        if lx != 0 && ly != 0 {
            let mut dx: i32 = 3 * (x_raw as i32 - lx as i32);
            let mut dy: i32 = 3 * (y_raw as i32 - ly as i32);
            dx = if dx < -100 { -100 } else if dx > 100 { 100 } else { dx };
            dy = if dy < -100 { -100 } else if dy > 100 { 100 } else { dy };
            if dx != 0 || dy != 0 {
                inject_event(mouse, MouseEvent::Move(dx, dy));
                proof { e3 = seq![MouseEvent::Move(dx, dy)]; }
            }
        }
        tp.last_x = x_raw;
        tp.last_y = y_raw;
    } else {
        tp.last_x = 0;
        tp.last_y = 0;
    }
    proof {
        lemma_enqueue_seq_step(q0, e1 + e2, e3);
        assert(report_events(r, old(tp).last_buttons, lx, ly) =~= e1 + e2 + e3);
    }
}

pub fn is_present(tp: &TouchpadState) -> (res: bool)
    ensures
        res == tp.touchpad_ok,
{
    tp.touchpad_ok
}

/// The diagnostic text of the driver.
pub open spec fn spec_status(tp: TouchpadState) -> Seq<char> {
    "Touchpad Elan:\n  I2C: "@ + (if tp.i2c_ok { "OK"@ } else { "NO"@ }) + " @ "@ + alt_hex(tp.i2c_base as nat, 10)
        + " (no_abort="@ + bool_text(tp.i2c_no_abrt) + ")\n  SMBus: "@ + (if tp.smbus_ok { "OK"@ } else { "NO"@ })
        + " @ "@ + alt_hex(tp.smbus_io as nat, 6) + "\n  Touchpad: "@
        + (if tp.touchpad_ok { "PRESENTE"@ } else { "AUSENTE"@ }) + "\n  Polls (ok="@ + dec(tp.poll_ok as nat)
        + ", fail="@ + dec(tp.poll_fail as nat) + ")\n  Raw: ["@ + alt_hex(tp.last_report[0] as nat, 4) + " "@
        + alt_hex(tp.last_report[1] as nat, 4) + " "@ + alt_hex(tp.last_report[2] as nat, 4) + " "@
        + alt_hex(tp.last_report[3] as nat, 4) + "]\n  Parsed: fingers="@ + dec(tp.last_parsed[0] as nat)
        + ", X="@ + dec(tp.last_parsed[1] as nat) + ", Y="@ + dec(tp.last_parsed[2] as nat)
}

pub fn status(tp: &TouchpadState) -> (res: String)
    ensures
        res@ == spec_status(*tp),
{
    let mut s = String::new();
    push_str(&mut s, "Touchpad Elan:\n  I2C: ");
    push_str(&mut s, if tp.i2c_ok { "OK" } else { "NO" });
    push_str(&mut s, " @ ");
    push_alt_hex(&mut s, tp.i2c_base as u64, 10);
    push_str(&mut s, " (no_abort=");
    push_str(&mut s, if tp.i2c_no_abrt { "true" } else { "false" });
    push_str(&mut s, ")\n  SMBus: ");
    push_str(&mut s, if tp.smbus_ok { "OK" } else { "NO" });
    push_str(&mut s, " @ ");
    push_alt_hex(&mut s, tp.smbus_io as u64, 6);
    push_str(&mut s, "\n  Touchpad: ");
    push_str(&mut s, if tp.touchpad_ok { "PRESENTE" } else { "AUSENTE" });
    push_str(&mut s, "\n  Polls (ok=");
    push_dec(&mut s, tp.poll_ok as u64);
    push_str(&mut s, ", fail=");
    push_dec(&mut s, tp.poll_fail as u64);
    push_str(&mut s, ")\n  Raw: [");
    push_alt_hex(&mut s, tp.last_report[0] as u64, 4);
    push_str(&mut s, " ");
    push_alt_hex(&mut s, tp.last_report[1] as u64, 4);
    push_str(&mut s, " ");
    push_alt_hex(&mut s, tp.last_report[2] as u64, 4);
    push_str(&mut s, " ");
    push_alt_hex(&mut s, tp.last_report[3] as u64, 4);
    push_str(&mut s, "]\n  Parsed: fingers=");
    push_dec(&mut s, tp.last_parsed[0] as u64);
    push_str(&mut s, ", X=");
    push_dec(&mut s, tp.last_parsed[1] as u64);
    push_str(&mut s, ", Y=");
    push_dec(&mut s, tp.last_parsed[2] as u64);
    assert(s@ =~= spec_status(*tp));
    s
}

} // verus!
