//! Which camera shows the fleet: the free one, or one that follows a ship.
use crate::geometry::SHIP_INSTANCE_COUNT;
use vstd::prelude::*;

verus! {

/// The keyboard usage of Tab.
pub const HID_KEY_TAB: u8 = 0x2b;

/// The keyboard usages that steer the free camera: A, D, E, Q, S and W.
pub const FLYCAM_KEYS: [u8; 6] = [0x04, 0x07, 0x08, 0x14, 0x16, 0x1a];

/// The keys that are down, by usage.
pub struct KeyboardState {
    pub down: Vec<u8>,
}

impl KeyboardState {
    /// Whether a key is down.
    pub fn is_down(&self, key: u8) -> (down: bool)
        ensures
            down == self.down@.contains(key),
    {
        let mut i: usize = 0;
        while i < self.down.len()
            invariant
                i <= self.down@.len(),
                forall|k: int| 0 <= k < i ==> self.down@[k] != key,
            decreases self.down@.len() - i,
        {
            if self.down[i] == key {
                return true;
            }
            i += 1;
        }
        false
    }
}

/// Whether a keyboard that may be absent has a key down.
pub open spec fn key_down(keyboard: Option<&KeyboardState>, key: u8) -> bool {
    keyboard matches Some(state) && state.down@.contains(key)
}

/// Whether a keyboard that may be absent has any steering key down.
pub open spec fn fly_key_down(keyboard: Option<&KeyboardState>) -> bool {
    exists|i: int| 0 <= i < 6 && key_down(keyboard, #[trigger] FLYCAM_KEYS[i])
}

/// What the camera does.
#[derive(Clone, Copy, Debug, PartialEq, Eq, Structural)]
pub enum CameraMode {
    /// It is steered by hand.
    Fly,
    /// It looks down on the ship in a slot.
    BirdFollow(usize),
}

/// The camera's mode, and whether Tab was down when it was last serviced.
#[derive(Clone, Copy, Debug, PartialEq, Eq, Structural)]
pub struct CameraControl {
    pub mode: CameraMode,
    pub tab_down: bool,
}

impl CameraControl {
    /// A followed ship exists.
    pub open spec fn wf(self) -> bool {
        self.mode matches CameraMode::BirdFollow(slot) ==> slot < SHIP_INSTANCE_COUNT
    }

    /// The ship that is followed, if any.
    pub open spec fn followed(self) -> Option<usize> {
        match self.mode {
            CameraMode::Fly => None,
            CameraMode::BirdFollow(slot) => Some(slot),
        }
    }

    /// The control after a frame in which Tab and the steering keys were down
    /// as told.  A steering key wins; otherwise Tab moves on when it goes down.
    pub open spec fn serviced(self, tab: bool, fly: bool) -> CameraControl {
        CameraControl {
            mode: if fly {
                CameraMode::Fly
            } else if tab && !self.tab_down {
                match self.mode {
                    CameraMode::Fly => CameraMode::BirdFollow(0),
                    CameraMode::BirdFollow(slot) => CameraMode::BirdFollow(
                        ((slot + 1) % SHIP_INSTANCE_COUNT as int) as usize,
                    ),
                }
            } else {
                self.mode
            },
            tab_down: tab,
        }
    }

    /// The control after Tab went down and up again.
    pub open spec fn tapped(self) -> CameraControl {
        self.serviced(true, false).serviced(false, false)
    }

    /// The control at start: steered by hand.
    pub fn new() -> (control: CameraControl)
        ensures
            control.wf(),
            control.mode == CameraMode::Fly,
            !control.tab_down,
    {
        CameraControl { mode: CameraMode::Fly, tab_down: false }
    }

    /// Take a frame's keyboard into account, and tell which ship to follow.
    pub fn service_camera_mode(&mut self, keyboard: Option<&KeyboardState>) -> (follow: Option<
        usize,
    >)
        requires
            old(self).wf(),
        ensures
            final(self).wf(),
            *final(self) == old(self).serviced(
                key_down(keyboard, HID_KEY_TAB),
                fly_key_down(keyboard),
            ),
            final(self).tab_down == key_down(keyboard, HID_KEY_TAB),
            follow == final(self).followed(),
    {
        let mut tab_down = false;
        let mut fly_key = false;
        match keyboard {
            Some(state) => {
                tab_down = state.is_down(HID_KEY_TAB);
                let keys = FLYCAM_KEYS;
                let mut i: usize = 0;
                while i < 6
                    invariant
                        i <= 6,
                        keys == FLYCAM_KEYS,
                        keyboard == Some(state),
                        fly_key == exists|k: int|
                            0 <= k < i && key_down(keyboard, #[trigger] FLYCAM_KEYS[k]),
                    decreases 6 - i,
                {
                    let down = state.is_down(keys[i]);
                    assert(down == key_down(keyboard, FLYCAM_KEYS[i as int]));
                    fly_key = fly_key || down;
                    i += 1;
                }
            },
            None => {},
        }
        if fly_key {
            self.mode = CameraMode::Fly;
        } else if tab_down && !self.tab_down {
            self.mode =
            match self.mode {
                CameraMode::Fly => CameraMode::BirdFollow(0),
                CameraMode::BirdFollow(slot) => CameraMode::BirdFollow(
                    (slot + 1) % SHIP_INSTANCE_COUNT,
                ),
            };
        }
        self.tab_down = tab_down;
        match self.mode {
            CameraMode::Fly => None,
            CameraMode::BirdFollow(slot) => Some(slot),
        }
    }
}

/// Any steering key hands the camera back at once, whatever Tab does.
pub proof fn lemma_steering_releases(control: CameraControl, tab: bool)
    ensures
        control.serviced(tab, true).mode == CameraMode::Fly,
{
}

/// Holding Tab moves on once only.
pub proof fn lemma_held_tab_does_not_repeat(control: CameraControl)
    ensures
        control.serviced(true, false).serviced(true, false) == control.serviced(true, false),
{
}

/// With no key down the mode stays.
pub proof fn lemma_idle_keeps_mode(control: CameraControl)
    ensures
        control.serviced(false, false).mode == control.mode,
{
}

/// Taps lead from the free camera to the first ship, from each ship to the
/// next, and from the last back to the first.
pub proof fn lemma_taps_cycle_through_the_fleet(control: CameraControl)
    requires
        control.wf(),
        !control.tab_down,
    ensures
        control.mode == CameraMode::Fly ==> control.tapped().mode == CameraMode::BirdFollow(0),
        control.mode matches CameraMode::BirdFollow(slot) ==> control.tapped().mode
            == CameraMode::BirdFollow(
            if slot + 1 == SHIP_INSTANCE_COUNT {
                0
            } else {
                (slot + 1) as usize
            },
        ),
        control.mode is BirdFollow ==> control.tapped().tapped().tapped() == control,
        control.tapped().wf(),
{
}

/// The control after Tab went down and up again a number of times.
pub open spec fn after_taps(control: CameraControl, taps: nat) -> CameraControl
    decreases taps,
{
    if taps == 0 {
        control
    } else {
        after_taps(control, (taps - 1) as nat).tapped()
    }
}

/// From the free camera the taps visit the ships in turn, from the first one,
/// over and over; from a ship they go on from it.
pub proof fn lemma_taps_visit_the_ships_in_turn(control: CameraControl, taps: nat)
    requires
        control.wf(),
        !control.tab_down,
        taps > 0,
    ensures
        !after_taps(control, taps).tab_down,
        control.mode == CameraMode::Fly ==> after_taps(control, taps).mode
            == CameraMode::BirdFollow(((taps - 1) % (SHIP_INSTANCE_COUNT as int)) as usize),
        control.mode matches CameraMode::BirdFollow(slot) ==> after_taps(control, taps).mode
            == CameraMode::BirdFollow(((slot + taps) % (SHIP_INSTANCE_COUNT as int)) as usize),
    decreases taps,
{
    if taps > 1 {
        lemma_taps_visit_the_ships_in_turn(control, (taps - 1) as nat);
    } else {
        assert(after_taps(control, 0) == control);
    }
}

/// After every frame the control knows whether Tab was down in it, whatever the
/// mode was and whatever else was down.
pub proof fn lemma_tab_is_remembered(control: CameraControl, tab: bool, fly: bool)
    ensures
        control.serviced(tab, fly).tab_down == tab,
{
}

/// Tab works again as soon as it was up for a frame: from any state, a frame
/// without Tab and then one with Tab and without a steering key move the mode
/// on, and no other frames do.
pub proof fn lemma_a_fresh_tab_moves_on(control: CameraControl, fly: bool)
    requires
        control.wf(),
    ensures
        ({
            let released = control.serviced(false, fly);
            let pressed = released.serviced(true, false);
            &&& released.mode == CameraMode::Fly ==> pressed.mode == CameraMode::BirdFollow(0)
            &&& released.mode matches CameraMode::BirdFollow(slot) ==> {
                &&& pressed.mode matches CameraMode::BirdFollow(next)
                &&& slot < 2 ==> next == slot + 1
                &&& slot == 2 ==> next == 0
            }
            &&& pressed.mode != released.mode
            &&& pressed.serviced(true, false).mode == pressed.mode
            &&& pressed.serviced(false, false).mode == pressed.mode
        }),
{
}

/// What a frame does to the mode rests on the mode, on whether Tab went down in
/// it, and on whether a steering key was down in it: a steering key frees the
/// camera, and otherwise the mode changes exactly where Tab went down.
pub proof fn lemma_only_a_fresh_tab_or_a_steering_key_counts(
    control: CameraControl,
    tab: bool,
    fly: bool,
)
    requires
        control.wf(),
    ensures
        control.serviced(tab, fly).wf(),
        fly ==> control.serviced(tab, fly).mode == CameraMode::Fly,
        !fly ==> (control.serviced(tab, fly).mode != control.mode <==> tab && !control.tab_down),
        !fly ==> (control.serviced(tab, fly).mode == CameraMode::Fly ==> control.mode
            == CameraMode::Fly),
        control.serviced(tab, fly).followed() is None <==> control.serviced(tab, fly).mode
            == CameraMode::Fly,
        control.followed() matches Some(slot) ==> control.mode == CameraMode::BirdFollow(slot),
{
}

/// The steering keys are A, D, E, Q, S and W and no others, the key that goes
/// on is Tab, and without a keyboard nothing is down.
pub proof fn lemma_the_keys(keyboard: Option<&KeyboardState>)
    ensures
        keyboard is None ==> !fly_key_down(keyboard) && !key_down(keyboard, HID_KEY_TAB),
        keyboard matches Some(state) ==> {
            let down = state.down@;
            &&& key_down(keyboard, HID_KEY_TAB) <==> down.contains(0x2b)
            &&& fly_key_down(keyboard) <==> {
                ||| down.contains(0x04)
                ||| down.contains(0x07)
                ||| down.contains(0x08)
                ||| down.contains(0x14)
                ||| down.contains(0x16)
                ||| down.contains(0x1a)
            }
        },
{
    let keys = FLYCAM_KEYS@;
    assert(keys[0] == 0x04 && keys[1] == 0x07 && keys[2] == 0x08 && keys[3] == 0x14 && keys[4]
        == 0x16 && keys[5] == 0x1a);
    if let Some(state) = keyboard {
        assert(key_down(keyboard, FLYCAM_KEYS[0]) == state.down@.contains(0x04));
        assert(key_down(keyboard, FLYCAM_KEYS[1]) == state.down@.contains(0x07));
        assert(key_down(keyboard, FLYCAM_KEYS[2]) == state.down@.contains(0x08));
        assert(key_down(keyboard, FLYCAM_KEYS[3]) == state.down@.contains(0x14));
        assert(key_down(keyboard, FLYCAM_KEYS[4]) == state.down@.contains(0x16));
        assert(key_down(keyboard, FLYCAM_KEYS[5]) == state.down@.contains(0x1a));
    }
}

} // verus!
