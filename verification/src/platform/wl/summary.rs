//! The running summary of the Wayland backend: the latest state of the tool in use and of
//! every pad, updated as events arrive.
//!
//! Times are milliseconds on a monotonic clock the caller reads. Positions are `F`, a pose is
//! `P`: the caller computes them.

use vstd::prelude::*;

use super::lists::{self, button_changes, held_buttons, ButtonChanges, HeldButtons};
use crate::pad::TouchSource;

verus! {

/// The state of one pad button.
#[derive(Copy, Clone, Debug, PartialEq, Eq, Structural)]
pub struct PadButton {
    pub pressed: bool,
    /// Presses since the last summary, counted on the rising edge.
    pub count: usize,
}

impl Default for PadButton {
    fn default() -> (r: PadButton)
        ensures
            r == (PadButton { pressed: false, count: 0 }),
    {
        PadButton { pressed: false, count: 0 }
    }
}

/// How long a press lasts without news: not all hardware reports the end of a touch.
pub const EXPIRY_MS: u64 = 1000;

/// A touch on a ring or strip.
#[derive(Clone, Copy, Debug, PartialEq, Eq, Structural)]
pub struct PressInfo {
    pub source: TouchSource,
    /// Newly pressed: set when posed and unset at the frame.
    pub just_pressed: bool,
    /// When the press is forgotten if nothing is heard of it.
    pub expiry: u64,
}

impl PressInfo {
    /// A new press by `source` at time `now`.
    pub fn new(source: TouchSource, now: u64) -> (r: PressInfo)
        requires
            now <= u64::MAX - EXPIRY_MS,
        ensures
            r == (PressInfo { source, just_pressed: true, expiry: (now + EXPIRY_MS) as u64 }),
    {
        PressInfo { source, just_pressed: true, expiry: now + EXPIRY_MS }
    }

    /// News of the press at time `now`: it lasts another while.
    pub fn refresh_expiry(&mut self, now: u64)
        requires
            now <= u64::MAX - EXPIRY_MS,
        ensures
            *final(self) == (PressInfo { expiry: (now + EXPIRY_MS) as u64, ..*old(self) }),
    {
        self.expiry = now + EXPIRY_MS;
    }
}

/// A press after its frame at time `now`: no longer new, and refreshed.
pub open spec fn framed(press: Option<PressInfo>, now: u64) -> Option<PressInfo> {
    match press {
        Some(p) => Some(PressInfo { just_pressed: false, expiry: (now + EXPIRY_MS) as u64, ..p }),
        None => None,
    }
}

/// A press told its source at time `now`: a held press changes source and is refreshed,
/// otherwise a new press starts.
pub open spec fn touched(press: Option<PressInfo>, source: TouchSource, now: u64) -> Option<PressInfo> {
    match press {
        Some(p) => Some(PressInfo { source, expiry: (now + EXPIRY_MS) as u64, ..p }),
        None => Some(PressInfo { source, just_pressed: true, expiry: (now + EXPIRY_MS) as u64 }),
    }
}

/// A press at time `now` after its expiry is forgotten.
pub open spec fn unexpired(press: Option<PressInfo>, now: u64) -> Option<PressInfo> {
    match press {
        Some(p) => if now > p.expiry {
            None
        } else {
            press
        },
        None => None,
    }
}

fn frame_press(press: &mut Option<PressInfo>, now: u64)
    requires
        now <= u64::MAX - EXPIRY_MS,
    ensures
        *final(press) == framed(*old(press), now),
{
    match press {
        Some(p) => {
            p.just_pressed = false;
            p.refresh_expiry(now);
        },
        None => {},
    }
}

fn touch_press(press: &mut Option<PressInfo>, source: TouchSource, now: u64)
    requires
        now <= u64::MAX - EXPIRY_MS,
    ensures
        *final(press) == touched(*old(press), source, now),
{
    match press {
        Some(p) => {
            p.source = source;
            p.refresh_expiry(now);
        },
        None => {
            *press = Some(PressInfo::new(source, now));
        },
    }
}

fn expire_press(press: &mut Option<PressInfo>, now: u64)
    ensures
        *final(press) == unexpired(*old(press), now),
{
    let expired = match press {
        Some(p) => now > p.expiry,
        None => false,
    };
    if expired {
        *press = None;
    }
}

/// The state of a ring: its angle `F`, the change during the current slide, the touch.
#[derive(Debug)]
pub struct Ring<F> {
    pub id: u64,
    pub last_pos: Option<F>,
    pub delta: Option<F>,
    pub pressed: Option<PressInfo>,
}

/// The state of a strip: its position `F`, the change during the current slide, the touch.
#[derive(Debug)]
pub struct Strip<F> {
    pub id: u64,
    pub last_pos: Option<F>,
    pub delta: Option<F>,
    pub pressed: Option<PressInfo>,
}

impl<F> Ring<F> {
    /// The ring's frame at time `now`: its press is no longer new, and is refreshed.
    pub fn frame(&mut self, now: u64)
        requires
            now <= u64::MAX - EXPIRY_MS,
        ensures
            final(self).pressed == framed(old(self).pressed, now),
            final(self).id == old(self).id,
            final(self).last_pos == old(self).last_pos,
            final(self).delta == old(self).delta,
    {
        frame_press(&mut self.pressed, now);
    }
}

impl<F> Strip<F> {
    /// The strip's frame at time `now`: its press is no longer new, and is refreshed.
    pub fn frame(&mut self, now: u64)
        requires
            now <= u64::MAX - EXPIRY_MS,
        ensures
            final(self).pressed == framed(old(self).pressed, now),
            final(self).id == old(self).id,
            final(self).last_pos == old(self).last_pos,
            final(self).delta == old(self).delta,
    {
        frame_press(&mut self.pressed, now);
    }
}

/// The state of a pad group.
#[derive(Debug)]
pub struct Group<F> {
    pub id: u64,
    pub mode: Option<u32>,
    pub rings: Vec<Ring<F>>,
    pub strips: Vec<Strip<F>>,
}

/// The state of a pad: the tablet it is attached to and its buttons by index.
#[derive(Debug)]
pub struct Pad<F> {
    pub id: u64,
    pub tablet_id: Option<u64>,
    pub buttons: Vec<PadButton>,
    pub groups: Vec<Group<F>>,
}

/// The state of the tool in use.
pub struct Tool<P> {
    pub id: u64,
    pub tablet_id: u64,
    pub down: bool,
    pub pose: P,
    /// The buttons currently held, in the order they were pressed.
    pub buttons: HeldButtons,
}

impl<P> Tool<P> {
    /// The buttons currently held.
    pub open spec fn held(&self) -> Seq<u32> {
        held_buttons(self.buttons)
    }

    /// The buttons currently held, in the order they were pressed.
    pub fn pressed_buttons(&self) -> (r: &[u32])
        ensures
            r@ == self.held(),
    {
        lists::held_slice(&self.buttons)
    }
}

/// The buttons held after `button` changed: a press adds it if not held, a release removes it.
pub open spec fn held_after(held: Seq<u32>, button: u32, pressed: bool) -> Seq<u32> {
    if pressed {
        if held.contains(button) {
            held
        } else {
            held.push(button)
        }
    } else {
        lists::without(held, button)
    }
}

/// A pad button after a change: a press while released is counted.
pub open spec fn button_after(b: PadButton, pressed: bool) -> PadButton {
    PadButton {
        pressed,
        count: if !b.pressed && pressed {
            if b.count == usize::MAX {
                b.count
            } else {
                (b.count + 1) as usize
            }
        } else {
            b.count
        },
    }
}

/// The latest state of the tool in use (a `P` pose) and of every pad (`F` positions).
pub struct Summary<P, F> {
    pub tool: Option<Tool<P>>,
    pub pads: Vec<Pad<F>>,
}

/// The position of the pad `pad`, if summarized.
pub open spec fn pad_index<F>(pads: Seq<Pad<F>>, pad: u64) -> Option<int> {
    if exists|i: int| 0 <= i < pads.len() && pads[i].id == pad {
        Some(choose|i: int| 0 <= i < pads.len() && pads[i].id == pad && forall|j: int| 0 <= j < i ==> pads[j].id != pad)
    } else {
        None
    }
}

impl<P, F> Summary<P, F> {
    /// An empty summary.
    pub fn new() -> (r: Self)
        ensures
            r.tool is None,
            r.pads@.len() == 0,
    {
        Summary { tool: None, pads: Vec::new() }
    }

    /// Whether the summarized tool is `tool`.
    pub fn tool_is(&self, tool: u64) -> (r: bool)
        ensures
            r == (self.tool matches Some(t) && t.id == tool),
    {
        match &self.tool {
            Some(t) => t.id == tool,
            None => false,
        }
    }

    /// Tool `tool` came in over `tablet`: it is summarized, with `pose`, unless another tool
    /// already is.
    pub fn tool_in(&mut self, tool: u64, tablet: u64, pose: P)
        ensures
            final(self).pads@ == old(self).pads@,
            old(self).tool is Some ==> final(self).tool == old(self).tool,
            old(self).tool is None ==> (final(self).tool matches Some(t) && t.id == tool && t.tablet_id == tablet
                && !t.down && t.pose == pose && t.held() == Seq::<u32>::empty()),
    {
        if self.tool.is_none() {
            self.tool = Some(Tool { id: tool, tablet_id: tablet, down: false, pose, buttons: lists::new_held() });
        }
    }

    /// Tool `tool` went out: if it is the one summarized, it no longer is.
    pub fn tool_out(&mut self, tool: u64)
        ensures
            final(self).pads@ == old(self).pads@,
            final(self).tool == if old(self).tool matches Some(t) && t.id == tool {
                None
            } else {
                old(self).tool
            },
    {
        if self.tool_is(tool) {
            self.tool = None;
        }
    }

    /// Tool `tool` went down or up: recorded if it is the one summarized.
    pub fn tool_set_down(&mut self, tool: u64, down: bool)
        ensures
            final(self).pads@ == old(self).pads@,
            match old(self).tool {
                Some(t) if t.id == tool => final(self).tool matches Some(n) && n.id == t.id && n.tablet_id
                    == t.tablet_id && n.down == down && n.pose == t.pose && n.buttons == t.buttons,
                _ => final(self).tool == old(self).tool,
            },
    {
        match &mut self.tool {
            Some(t) => {
                if t.id == tool {
                    t.down = down;
                }
            },
            None => {},
        }
    }

    /// Button `button` of tool `tool` changed: if the tool is the one summarized, a press
    /// adds the button to those held (once), a release removes it.
    pub fn tool_button(&mut self, tool: u64, button: u32, pressed: bool)
        ensures
            final(self).pads@ == old(self).pads@,
            match old(self).tool {
                Some(t) if t.id == tool && !(pressed && !t.held().contains(button) && t.held().len()
                    >= lists::LIST_LIMIT) => final(self).tool matches Some(n) && n.id == t.id && n.tablet_id
                    == t.tablet_id && n.down == t.down && n.pose == t.pose && n.held() == held_after(
                    t.held(),
                    button,
                    pressed,
                ),
                _ => final(self).tool == old(self).tool,
            },
    {
        match &mut self.tool {
            Some(t) => {
                if t.id == tool {
                    if pressed {
                        let held = lists::held_slice(&t.buttons);
                        let mut found = false;
                        let mut i: usize = 0;
                        while i < held.len()
                            invariant
                                i <= held@.len(),
                                found == exists|j: int| 0 <= j < i && held@[j] == button,
                            decreases held@.len() - i,
                        {
                            if held[i] == button {
                                found = true;
                            }
                            i = i + 1;
                        }
                        proof {
                            assert(found == held@.contains(button));
                        }
                        if !found && held.len() < lists::LIST_LIMIT {
                            lists::held_push(&mut t.buttons, button);
                        }
                    } else {
                        lists::held_remove_all(&mut t.buttons, button);
                    }
                }
            },
            None => {},
        }
    }

    /// The position of pad `pad`, added with no state if it was not summarized.
    pub fn pad_or_insert(&mut self, pad: u64) -> (i: usize)
        ensures
            final(self).tool == old(self).tool,
            i < final(self).pads@.len(),
            final(self).pads@[i as int].id == pad,
            forall|j: int| 0 <= j < i ==> final(self).pads@[j].id != pad,
            match pad_index(old(self).pads@, pad) {
                Some(k) => i == k && final(self).pads@ == old(self).pads@,
                None => {
                    &&& i == old(self).pads@.len()
                    &&& final(self).pads@.drop_last() == old(self).pads@
                    &&& final(self).pads@[i as int].tablet_id is None
                    &&& final(self).pads@[i as int].buttons@.len() == 0
                    &&& final(self).pads@[i as int].groups@.len() == 0
                },
            },
    {
        let mut i: usize = 0;
        while i < self.pads.len()
            invariant
                i <= self.pads@.len(),
                self.pads@ == old(self).pads@,
                self.tool == old(self).tool,
                forall|j: int| 0 <= j < i ==> self.pads@[j].id != pad,
            decreases self.pads@.len() - i,
        {
            if self.pads[i].id == pad {
                proof {
                    let p = self.pads@;
                    assert(exists|k: int| 0 <= k < p.len() && p[k].id == pad);
                    let c = choose|k: int| 0 <= k < p.len() && p[k].id == pad && forall|j: int| 0 <= j < k ==> p[j].id != pad;
                    assert(0 <= i < p.len() && p[i as int].id == pad && forall|j: int| 0 <= j < i ==> p[j].id != pad);
                    if c < i {
                        assert(p[c].id != pad);
                    }
                    if i < c {
                        assert(p[i as int].id != pad);
                    }
                }
                return i;
            }
            i = i + 1;
        }
        self.pads.push(Pad { id: pad, tablet_id: None, buttons: Vec::new(), groups: Vec::new() });
        assert(self.pads@.drop_last() =~= old(self).pads@);
        assert forall|j: int| 0 <= j < i implies self.pads@[j].id != pad by {
            assert(self.pads@[j] == old(self).pads@[j]);
        }
        i
    }

    /// Button `button` of pad `pad` changed: the pad's buttons grow to include it, a press
    /// while released is counted (saturating), and the new state is recorded.
    pub fn pad_button(&mut self, pad: u64, button: u32, pressed: bool)
        ensures
            final(self).tool == old(self).tool,
            ({
                let i = match pad_index(old(self).pads@, pad) {
                    Some(k) => k,
                    None => old(self).pads@.len() as int,
                };
                let before = match pad_index(old(self).pads@, pad) {
                    Some(k) => old(self).pads@[k].buttons@,
                    None => Seq::<PadButton>::empty(),
                };
                let grown = if before.len() <= button {
                    before + Seq::new(
                        (button + 1 - before.len()) as nat,
                        |j: int| PadButton { pressed: false, count: 0 },
                    )
                } else {
                    before
                };
                &&& final(self).pads@.len() == if pad_index(old(self).pads@, pad) is Some {
                    old(self).pads@.len()
                } else {
                    old(self).pads@.len() + 1
                }
                &&& final(self).pads@[i].id == pad
                &&& final(self).pads@[i].buttons@ == grown.update(button as int, button_after(grown[button as int], pressed))
                &&& forall|j: int| 0 <= j < old(self).pads@.len() && j != i ==> final(self).pads@[j] == old(self).pads@[j]
                &&& pad_index(old(self).pads@, pad) is Some ==> final(self).pads@[i].tablet_id == old(self).pads@[i].tablet_id
                    && final(self).pads@[i].groups@ == old(self).pads@[i].groups@
            }),
    {
        let i = self.pad_or_insert(pad);
        let ghost mid = self.pads@;
        let ghost before = self.pads@[i as int].buttons@;
        let target = button as usize;
        while self.pads[i].buttons.len() <= target
            invariant
                i < self.pads@.len(),
                self.pads@.len() == mid.len(),
                self.tool == old(self).tool,
                forall|j: int| 0 <= j < mid.len() && j != i ==> self.pads@[j] == mid[j],
                self.pads@[i as int].id == mid[i as int].id,
                self.pads@[i as int].tablet_id == mid[i as int].tablet_id,
                self.pads@[i as int].groups@ == mid[i as int].groups@,
                target == button,
                self.pads@[i as int].buttons@.len() >= before.len(),
                self.pads@[i as int].buttons@.subrange(0, before.len() as int) == before,
                forall|j: int|
                    before.len() <= j < self.pads@[i as int].buttons@.len() ==> #[trigger] self.pads@[i as int].buttons@[j]
                        == (PadButton { pressed: false, count: 0 }),
                self.pads@[i as int].buttons@.len() <= if before.len() <= target {
                    target + 1
                } else {
                    before.len() as int
                },
            decreases target + 1 - self.pads@[i as int].buttons@.len(),
        {
            self.pads[i].buttons.push(PadButton { pressed: false, count: 0 });
        }
        proof {
            let grown = if before.len() <= button {
                before + Seq::new((button + 1 - before.len()) as nat, |j: int| PadButton { pressed: false, count: 0 })
            } else {
                before
            };
            assert(self.pads@[i as int].buttons@ =~= grown);
        }
        let b = self.pads[i].buttons[target];
        let count = if !b.pressed && pressed {
            b.count.saturating_add(1)
        } else {
            b.count
        };
        self.pads[i].buttons.set(target, PadButton { pressed, count });
        proof {
            assert(forall|j: int| 0 <= j < old(self).pads@.len() ==> #[trigger] mid[j] == old(self).pads@[j]) by {
                if pad_index(old(self).pads@, pad) is None {
                    assert forall|j: int| 0 <= j < old(self).pads@.len() implies #[trigger] mid[j] == old(self).pads@[j] by {
                        assert(mid.drop_last()[j] == mid[j]);
                    }
                }
            }
        }
    }
}

impl<F> Ring<F> {
    /// The ring was touched by `source` at time `now`: a held press changes source and is
    /// refreshed, otherwise a new press starts.
    pub fn touch(&mut self, source: TouchSource, now: u64)
        requires
            now <= u64::MAX - EXPIRY_MS,
        ensures
            final(self).pressed == touched(old(self).pressed, source, now),
            final(self).id == old(self).id,
            final(self).last_pos == old(self).last_pos,
            final(self).delta == old(self).delta,
    {
        touch_press(&mut self.pressed, source, now);
    }

    /// The touch ended.
    pub fn stop(&mut self)
        ensures
            final(self).pressed is None,
            final(self).id == old(self).id,
            final(self).last_pos == old(self).last_pos,
            final(self).delta == old(self).delta,
    {
        self.pressed = None;
    }
}

impl<F> Strip<F> {
    /// The strip was touched by `source` at time `now`: a held press changes source and is
    /// refreshed, otherwise a new press starts.
    pub fn touch(&mut self, source: TouchSource, now: u64)
        requires
            now <= u64::MAX - EXPIRY_MS,
        ensures
            final(self).pressed == touched(old(self).pressed, source, now),
            final(self).id == old(self).id,
            final(self).last_pos == old(self).last_pos,
            final(self).delta == old(self).delta,
    {
        touch_press(&mut self.pressed, source, now);
    }

    /// The touch ended.
    pub fn stop(&mut self)
        ensures
            final(self).pressed is None,
            final(self).id == old(self).id,
            final(self).last_pos == old(self).last_pos,
            final(self).delta == old(self).delta,
    {
        self.pressed = None;
    }
}

impl<F> Group<F> {
    /// The position of ring `ring`, added with no state if it was not summarized.
    pub fn ring_or_insert(&mut self, ring: u64) -> (i: usize)
        ensures
            final(self).id == old(self).id,
            final(self).mode == old(self).mode,
            final(self).strips@ == old(self).strips@,
            i < final(self).rings@.len(),
            final(self).rings@[i as int].id == ring,
            forall|j: int| 0 <= j < i ==> final(self).rings@[j].id != ring,
            i < old(self).rings@.len() ==> final(self).rings@ == old(self).rings@,
            i >= old(self).rings@.len() ==> {
                &&& i == old(self).rings@.len()
                &&& final(self).rings@.drop_last() == old(self).rings@
                &&& final(self).rings@[i as int].last_pos is None
                &&& final(self).rings@[i as int].delta is None
                &&& final(self).rings@[i as int].pressed is None
            },
    {
        let mut i: usize = 0;
        while i < self.rings.len()
            invariant
                i <= self.rings@.len(),
                self.rings@ == old(self).rings@,
                self.id == old(self).id,
                self.mode == old(self).mode,
                self.strips@ == old(self).strips@,
                forall|j: int| 0 <= j < i ==> self.rings@[j].id != ring,
            decreases self.rings@.len() - i,
        {
            if self.rings[i].id == ring {
                return i;
            }
            i = i + 1;
        }
        self.rings.push(Ring { id: ring, last_pos: None, delta: None, pressed: None });
        assert(self.rings@.drop_last() =~= old(self).rings@);
        i
    }

    /// The position of strip `strip`, added with no state if it was not summarized.
    pub fn strip_or_insert(&mut self, strip: u64) -> (i: usize)
        ensures
            final(self).id == old(self).id,
            final(self).mode == old(self).mode,
            final(self).rings@ == old(self).rings@,
            i < final(self).strips@.len(),
            final(self).strips@[i as int].id == strip,
            forall|j: int| 0 <= j < i ==> final(self).strips@[j].id != strip,
            i < old(self).strips@.len() ==> final(self).strips@ == old(self).strips@,
            i >= old(self).strips@.len() ==> {
                &&& i == old(self).strips@.len()
                &&& final(self).strips@.drop_last() == old(self).strips@
                &&& final(self).strips@[i as int].last_pos is None
                &&& final(self).strips@[i as int].delta is None
                &&& final(self).strips@[i as int].pressed is None
            },
    {
        let mut i: usize = 0;
        while i < self.strips.len()
            invariant
                i <= self.strips@.len(),
                self.strips@ == old(self).strips@,
                self.id == old(self).id,
                self.mode == old(self).mode,
                self.rings@ == old(self).rings@,
                forall|j: int| 0 <= j < i ==> self.strips@[j].id != strip,
            decreases self.strips@.len() - i,
        {
            if self.strips[i].id == strip {
                return i;
            }
            i = i + 1;
        }
        self.strips.push(Strip { id: strip, last_pos: None, delta: None, pressed: None });
        assert(self.strips@.drop_last() =~= old(self).strips@);
        i
    }
}

impl<F> Pad<F> {
    /// The position of group `group`, added with no state if it was not summarized.
    pub fn group_or_insert(&mut self, group: u64) -> (i: usize)
        ensures
            final(self).id == old(self).id,
            final(self).tablet_id == old(self).tablet_id,
            final(self).buttons@ == old(self).buttons@,
            i < final(self).groups@.len(),
            final(self).groups@[i as int].id == group,
            forall|j: int| 0 <= j < i ==> final(self).groups@[j].id != group,
            i < old(self).groups@.len() ==> final(self).groups@ == old(self).groups@,
            i >= old(self).groups@.len() ==> {
                &&& i == old(self).groups@.len()
                &&& final(self).groups@.drop_last() == old(self).groups@
                &&& final(self).groups@[i as int].mode is None
                &&& final(self).groups@[i as int].rings@.len() == 0
                &&& final(self).groups@[i as int].strips@.len() == 0
            },
    {
        let mut i: usize = 0;
        while i < self.groups.len()
            invariant
                i <= self.groups@.len(),
                self.groups@ == old(self).groups@,
                self.id == old(self).id,
                self.tablet_id == old(self).tablet_id,
                self.buttons@ == old(self).buttons@,
                forall|j: int| 0 <= j < i ==> self.groups@[j].id != group,
            decreases self.groups@.len() - i,
        {
            if self.groups[i].id == group {
                return i;
            }
            i = i + 1;
        }
        self.groups.push(Group { id: group, mode: None, rings: Vec::new(), strips: Vec::new() });
        assert(self.groups@.drop_last() =~= old(self).groups@);
        i
    }
}

impl<P, F> Summary<P, F> {
    /// Pad `pad` entered `tablet`, or left any (`None`).
    #[verifier::rlimit(40)]
    pub fn pad_set_tablet(&mut self, pad: u64, tablet: Option<u64>) -> (i: usize)
        ensures
            final(self).tool == old(self).tool,
            i < final(self).pads@.len(),
            final(self).pads@[i as int].id == pad,
            final(self).pads@[i as int].tablet_id == tablet,
            forall|j: int| 0 <= j < i ==> final(self).pads@[j].id != pad,
            forall|j: int| 0 <= j < old(self).pads@.len() && j != i ==> final(self).pads@[j] == old(self).pads@[j],
            final(self).pads@.len() == old(self).pads@.len() || (final(self).pads@.len() == old(self).pads@.len() + 1
                && i == old(self).pads@.len()),
    {
        let i = self.pad_or_insert(pad);
        let ghost mid = self.pads@;
        self.pads[i].tablet_id = tablet;
        proof {
            assert forall|j: int| 0 <= j < i implies self.pads@[j].id != pad by {
                if pad_index(old(self).pads@, pad) is None {
                    assert(mid.drop_last()[j] == mid[j]);
                }
            }
            assert forall|j: int| 0 <= j < old(self).pads@.len() && j != i implies self.pads@[j] == old(self).pads@[j] by {
                if pad_index(old(self).pads@, pad) is None {
                    assert(mid.drop_last()[j] == mid[j]);
                }
            }
        }
        i
    }

    /// Group `group` of pad `pad` switched to `mode`.
    pub fn group_set_mode(&mut self, pad: u64, group: u64, mode: u32) -> (r: (usize, usize))
        ensures
            final(self).tool == old(self).tool,
            r.0 < final(self).pads@.len(),
            final(self).pads@[r.0 as int].id == pad,
            r.1 < final(self).pads@[r.0 as int].groups@.len(),
            final(self).pads@[r.0 as int].groups@[r.1 as int].id == group,
            final(self).pads@[r.0 as int].groups@[r.1 as int].mode == Some(mode),
            forall|j: int| 0 <= j < old(self).pads@.len() && j != r.0 ==> final(self).pads@[j] == old(self).pads@[j],
    {
        let p = self.pad_or_insert(pad);
        let ghost mid = self.pads@;
        let g = self.pads[p].group_or_insert(group);
        self.pads[p].groups[g].mode = Some(mode);
        proof {
            assert forall|j: int| 0 <= j < old(self).pads@.len() && j != p implies self.pads@[j] == old(self).pads@[j] by {
                if pad_index(old(self).pads@, pad) is None {
                    assert(mid.drop_last()[j] == mid[j]);
                }
            }
        }
        (p, g)
    }

    /// The positions of ring `ring` of group `group` of pad `pad`, each added with no state
    /// if it was not summarized.
    pub fn ring_or_insert(&mut self, pad: u64, group: u64, ring: u64) -> (r: (usize, usize, usize))
        ensures
            final(self).tool == old(self).tool,
            r.0 < final(self).pads@.len(),
            final(self).pads@[r.0 as int].id == pad,
            r.1 < final(self).pads@[r.0 as int].groups@.len(),
            final(self).pads@[r.0 as int].groups@[r.1 as int].id == group,
            r.2 < final(self).pads@[r.0 as int].groups@[r.1 as int].rings@.len(),
            final(self).pads@[r.0 as int].groups@[r.1 as int].rings@[r.2 as int].id == ring,
            forall|j: int| 0 <= j < old(self).pads@.len() && j != r.0 ==> final(self).pads@[j] == old(self).pads@[j],
    {
        let p = self.pad_or_insert(pad);
        let ghost mid = self.pads@;
        let g = self.pads[p].group_or_insert(group);
        let k = self.pads[p].groups[g].ring_or_insert(ring);
        proof {
            assert forall|j: int| 0 <= j < old(self).pads@.len() && j != p implies self.pads@[j] == old(self).pads@[j] by {
                if pad_index(old(self).pads@, pad) is None {
                    assert(mid.drop_last()[j] == mid[j]);
                }
            }
        }
        (p, g, k)
    }

    /// The positions of strip `strip` of group `group` of pad `pad`, each added with no state
    /// if it was not summarized.
    pub fn strip_or_insert(&mut self, pad: u64, group: u64, strip: u64) -> (r: (usize, usize, usize))
        ensures
            final(self).tool == old(self).tool,
            r.0 < final(self).pads@.len(),
            final(self).pads@[r.0 as int].id == pad,
            r.1 < final(self).pads@[r.0 as int].groups@.len(),
            final(self).pads@[r.0 as int].groups@[r.1 as int].id == group,
            r.2 < final(self).pads@[r.0 as int].groups@[r.1 as int].strips@.len(),
            final(self).pads@[r.0 as int].groups@[r.1 as int].strips@[r.2 as int].id == strip,
            forall|j: int| 0 <= j < old(self).pads@.len() && j != r.0 ==> final(self).pads@[j] == old(self).pads@[j],
    {
        let p = self.pad_or_insert(pad);
        let ghost mid = self.pads@;
        let g = self.pads[p].group_or_insert(group);
        let k = self.pads[p].groups[g].strip_or_insert(strip);
        proof {
            assert forall|j: int| 0 <= j < old(self).pads@.len() && j != p implies self.pads@[j] == old(self).pads@[j] by {
                if pad_index(old(self).pads@, pad) is None {
                    assert(mid.drop_last()[j] == mid[j]);
                }
            }
        }
        (p, g, k)
    }

    /// Pad `pad` was removed: it is no longer summarized.
    pub fn remove_pad(&mut self, pad: u64)
        ensures
            final(self).tool == old(self).tool,
            final(self).pads@ == old(self).pads@.filter(|p: Pad<F>| p.id != pad),
    {
        let mut kept: Vec<Pad<F>> = Vec::new();
        std::mem::swap(&mut kept, &mut self.pads);
        let ghost all = kept@;
        assert(all.len() == kept.len());
        let mut j: usize = 0;
        while kept.len() > 0
            invariant
                j + kept@.len() == all.len(),
                all.len() <= usize::MAX,
                kept@ == all.subrange(j as int, all.len() as int),
                self.pads@ == all.take(j as int).filter(|p: Pad<F>| p.id != pad),
                self.tool == old(self).tool,
                all == old(self).pads@,
            decreases kept@.len(),
        {
            let p = kept.remove(0);
            assert(p == all[j as int]);
            proof {
                assert(all.take(j + 1).drop_last() =~= all.take(j as int));
                assert(all.take(j + 1).last() == p);
            }
            if p.id != pad {
                self.pads.push(p);
            }
            proof {
                reveal(Seq::filter);
                assert(self.pads@ == all.take(j + 1).filter(|p: Pad<F>| p.id != pad));
            }
            j = j + 1;
            proof {
                assert(kept@ =~= all.subrange(j as int, all.len() as int));
            }
        }
        proof {
            assert(all.take(j as int) =~= all);
        }
    }
}

/// A ring after the one-shot state is consumed at time `now`: no slide, and no expired press.
pub open spec fn ring_consumed<F>(before: Ring<F>, after: Ring<F>, now: u64) -> bool {
    &&& after.id == before.id
    &&& after.last_pos == before.last_pos
    &&& after.delta is None
    &&& after.pressed == unexpired(before.pressed, now)
}

/// A strip after the one-shot state is consumed at time `now`: no slide, and no expired press.
pub open spec fn strip_consumed<F>(before: Strip<F>, after: Strip<F>, now: u64) -> bool {
    &&& after.id == before.id
    &&& after.last_pos == before.last_pos
    &&& after.delta is None
    &&& after.pressed == unexpired(before.pressed, now)
}

/// A group after the one-shot state of its rings and strips is consumed.
pub open spec fn group_consumed<F>(before: Group<F>, after: Group<F>, now: u64) -> bool {
    &&& after.id == before.id
    &&& after.mode == before.mode
    &&& after.rings@.len() == before.rings@.len()
    &&& forall|i: int| 0 <= i < before.rings@.len() ==> ring_consumed(before.rings@[i], #[trigger] after.rings@[i], now)
    &&& after.strips@.len() == before.strips@.len()
    &&& forall|i: int|
        0 <= i < before.strips@.len() ==> strip_consumed(before.strips@[i], #[trigger] after.strips@[i], now)
}

/// A pad after its one-shot state is consumed: no presses counted, and its groups consumed.
pub open spec fn pad_consumed<F>(before: Pad<F>, after: Pad<F>, now: u64) -> bool {
    &&& after.id == before.id
    &&& after.tablet_id == before.tablet_id
    &&& after.buttons@ == before.buttons@.map_values(|b: PadButton| PadButton { pressed: b.pressed, count: 0 })
    &&& after.groups@.len() == before.groups@.len()
    &&& forall|i: int|
        0 <= i < before.groups@.len() ==> group_consumed(before.groups@[i], #[trigger] after.groups@[i], now)
}

impl<F> Ring<F> {
    /// Consume the one-shot state at time `now`.
    pub fn consume_oneshot(&mut self, now: u64)
        ensures
            ring_consumed(*old(self), *final(self), now),
    {
        self.delta = None;
        expire_press(&mut self.pressed, now);
    }
}

impl<F> Strip<F> {
    /// Consume the one-shot state at time `now`.
    pub fn consume_oneshot(&mut self, now: u64)
        ensures
            strip_consumed(*old(self), *final(self), now),
    {
        self.delta = None;
        expire_press(&mut self.pressed, now);
    }
}

impl<F> Group<F> {
    /// Consume the one-shot state of every ring and strip at time `now`.
    pub fn consume_oneshot(&mut self, now: u64)
        ensures
            group_consumed(*old(self), *final(self), now),
    {
        let mut i: usize = 0;
        while i < self.rings.len()
            invariant
                i <= self.rings@.len(),
                self.rings@.len() == old(self).rings@.len(),
                self.id == old(self).id,
                self.mode == old(self).mode,
                self.strips@ == old(self).strips@,
                forall|j: int| 0 <= j < i ==> ring_consumed(old(self).rings@[j], #[trigger] self.rings@[j], now),
                forall|j: int| i <= j < self.rings@.len() ==> #[trigger] self.rings@[j] == old(self).rings@[j],
            decreases self.rings@.len() - i,
        {
            self.rings[i].consume_oneshot(now);
            i = i + 1;
        }
        let mut i: usize = 0;
        while i < self.strips.len()
            invariant
                i <= self.strips@.len(),
                self.strips@.len() == old(self).strips@.len(),
                self.id == old(self).id,
                self.mode == old(self).mode,
                self.rings@.len() == old(self).rings@.len(),
                forall|j: int|
                    0 <= j < old(self).rings@.len() ==> ring_consumed(old(self).rings@[j], #[trigger] self.rings@[j], now),
                forall|j: int| 0 <= j < i ==> strip_consumed(old(self).strips@[j], #[trigger] self.strips@[j], now),
                forall|j: int| i <= j < self.strips@.len() ==> #[trigger] self.strips@[j] == old(self).strips@[j],
            decreases self.strips@.len() - i,
        {
            self.strips[i].consume_oneshot(now);
            i = i + 1;
        }
    }
}

impl<F> Pad<F> {
    /// Consume the one-shot state at time `now`: presses counted so far are forgotten, and
    /// every group is consumed.
    pub fn consume_oneshot(&mut self, now: u64)
        ensures
            pad_consumed(*old(self), *final(self), now),
    {
        let mut i: usize = 0;
        while i < self.buttons.len()
            invariant
                i <= self.buttons@.len(),
                self.buttons@.len() == old(self).buttons@.len(),
                self.id == old(self).id,
                self.tablet_id == old(self).tablet_id,
                self.groups@ == old(self).groups@,
                forall|j: int|
                    0 <= j < i ==> #[trigger] self.buttons@[j] == (PadButton { pressed: old(self).buttons@[j].pressed, count: 0 }),
                forall|j: int| i <= j < self.buttons@.len() ==> #[trigger] self.buttons@[j] == old(self).buttons@[j],
            decreases self.buttons@.len() - i,
        {
            let pressed = self.buttons[i].pressed;
            self.buttons.set(i, PadButton { pressed, count: 0 });
            i = i + 1;
        }
        assert(self.buttons@ =~= old(self).buttons@.map_values(|b: PadButton| PadButton { pressed: b.pressed, count: 0 }));
        let mut i: usize = 0;
        while i < self.groups.len()
            invariant
                i <= self.groups@.len(),
                self.groups@.len() == old(self).groups@.len(),
                self.id == old(self).id,
                self.tablet_id == old(self).tablet_id,
                self.buttons@ == old(self).buttons@.map_values(|b: PadButton| PadButton { pressed: b.pressed, count: 0 }),
                forall|j: int| 0 <= j < i ==> group_consumed(old(self).groups@[j], #[trigger] self.groups@[j], now),
                forall|j: int| i <= j < self.groups@.len() ==> #[trigger] self.groups@[j] == old(self).groups@[j],
            decreases self.groups@.len() - i,
        {
            self.groups[i].consume_oneshot(now);
            i = i + 1;
        }
    }
}

impl<P, F> Summary<P, F> {
    /// Clear the one-shot state at time `now`: per-summary press counts and slides, and
    /// touches that expired.
    pub fn consume_oneshot(&mut self, now: u64)
        ensures
            final(self).tool == old(self).tool,
            final(self).pads@.len() == old(self).pads@.len(),
            forall|i: int| 0 <= i < old(self).pads@.len() ==> pad_consumed(old(self).pads@[i], #[trigger] final(self).pads@[i], now),
    {
        let mut i: usize = 0;
        while i < self.pads.len()
            invariant
                i <= self.pads@.len(),
                self.pads@.len() == old(self).pads@.len(),
                self.tool == old(self).tool,
                forall|j: int| 0 <= j < i ==> pad_consumed(old(self).pads@[j], #[trigger] self.pads@[j], now),
                forall|j: int| i <= j < self.pads@.len() ==> #[trigger] self.pads@[j] == old(self).pads@[j],
            decreases self.pads@.len() - i,
        {
            self.pads[i].consume_oneshot(now);
            i = i + 1;
        }
    }
}

/// Presses are counted on the rising edge: a press while pressed and a release count
/// nothing, and a press after a release counts one (until the count saturates).
pub proof fn lemma_rising_edge_counting(b: PadButton)
    ensures
        button_after(button_after(b, true), true) == button_after(b, true),
        button_after(b, false).count == b.count,
        !button_after(b, false).pressed,
        b.count < usize::MAX ==> button_after(button_after(b, false), true).count == b.count + 1,
{
}

} // verus!
