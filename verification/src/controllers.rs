//! What a game controller reports.

use vstd::prelude::*;

verus! {

/// A button of a game controller.
#[derive(Debug, Clone, Copy, PartialEq, Eq, Hash, Structural)]
pub enum Button {
    South,
    East,
    North,
    West,
    C,
    Z,
    LeftTrigger,
    LeftTrigger2,
    RightTrigger,
    RightTrigger2,
    Select,
    Start,
    Mode,
    LeftThumb,
    RightThumb,
    DPadUp,
    DPadDown,
    DPadLeft,
    DPadRight,
    Unknown,
}

/// An axis of a game controller.
#[derive(Debug, Clone, Copy, PartialEq, Eq, Hash, Structural)]
pub enum Axis {
    LeftStickX,
    LeftStickY,
    LeftZ,
    RightStickX,
    RightStickY,
    RightZ,
    DPadX,
    DPadY,
    Unknown,
}

/// What a controller reports to the game.
#[derive(Debug, Clone, Copy, PartialEq, Eq, Structural)]
pub enum ControllerEventType {
    ControllerConnected,
    ControllerDisconnected,
    ButtonPressed(Button),
    ButtonReleased(Button),
    AxisMotion { axis: Axis },
}

/// One report of a controller, stamped when it was captured.
#[derive(Debug, Clone, Copy, PartialEq, Eq, Structural)]
pub struct ControllerEvent {
    /// Which controller reports.
    pub controller: usize,
    pub event: ControllerEventType,
    /// Microseconds since the input clock started.
    pub timestamp: u128,
}

/// The lane that a button plays, if it plays one.
pub open spec fn lane_of(button: Button) -> Option<u8> {
    match button {
        Button::West => Some(0u8),
        Button::South => Some(1u8),
        Button::North => Some(2u8),
        Button::East => Some(3u8),
        Button::LeftTrigger => Some(4u8),
        _ => None,
    }
}

/// The lane that a button plays, if it plays one.
pub fn button_lane(button: Button) -> (lane: Option<u8>)
    ensures
        lane == lane_of(button),
{
    match button {
        Button::West => Some(0),
        Button::South => Some(1),
        Button::North => Some(2),
        Button::East => Some(3),
        Button::LeftTrigger => Some(4),
        _ => None,
    }
}

/// What a controller can report, before it is decided what of it is
/// passed on.
#[derive(Debug, Clone, Copy, PartialEq, Eq, Structural)]
pub enum Report {
    Connected,
    Disconnected,
    ButtonPressed(Button),
    ButtonRepeated(Button),
    ButtonReleased(Button),
    ButtonChanged(Button),
    AxisChanged(Axis),
    /// A report that a filter has taken away.
    Dropped,
    /// Anything else.
    Other,
}

/// What is passed on of a report: connections, presses, releases and axis
/// motions are, the rest is not.
pub open spec fn passed_on(report: Report) -> Option<ControllerEventType> {
    match report {
        Report::Connected => Some(ControllerEventType::ControllerConnected),
        Report::Disconnected => Some(ControllerEventType::ControllerDisconnected),
        Report::ButtonPressed(button) => Some(ControllerEventType::ButtonPressed(button)),
        Report::ButtonReleased(button) => Some(ControllerEventType::ButtonReleased(button)),
        Report::AxisChanged(axis) => Some(ControllerEventType::AxisMotion { axis }),
        _ => None,
    }
}

/// The controllers that are connected after a report of one of them.
pub open spec fn connected_after(connected: Set<usize>, controller: usize, report: Report) -> Set<
    usize,
> {
    match report {
        Report::Connected => connected.insert(controller),
        Report::Disconnected => connected.remove(controller),
        _ => connected,
    }
}

/// The controllers that are connected.
#[derive(Debug)]
pub struct Roster {
    ids: Vec<usize>,
}

impl View for Roster {
    type V = Set<usize>;

    closed spec fn view(&self) -> Set<usize> {
        self.ids@.to_set()
    }
}

impl Roster {
    #[verifier::type_invariant]
    spec fn valid(&self) -> bool {
        self.ids@.no_duplicates()
    }

    /// No controller is connected.
    pub fn new() -> (roster: Roster)
        ensures
            roster@ == Set::<usize>::empty(),
    {
        Roster { ids: Vec::new() }
    }

    /// Whether a controller is connected.
    pub fn contains(&self, controller: usize) -> (b: bool)
        ensures
            b == self@.contains(controller),
    {
        let mut i: usize = 0;
        while i < self.ids.len()
            invariant
                i <= self.ids.len(),
                forall|k: int| 0 <= k < i ==> self.ids@[k] != controller,
            decreases self.ids.len() - i,
        {
            if self.ids[i] == controller {
                return true;
            }
            i += 1;
        }
        false
    }

    /// The connected controllers, each once, in no stated order.
    pub fn ids(&self) -> (ids: Vec<usize>)
        ensures
            ids@.no_duplicates(),
            ids@.to_set() == self@,
    {
        proof {
            use_type_invariant(self);
        }
        let mut ids: Vec<usize> = Vec::new();
        let mut i: usize = 0;
        while i < self.ids.len()
            invariant
                i <= self.ids.len(),
                ids@ == self.ids@.take(i as int),
            decreases self.ids.len() - i,
        {
            ids.push(self.ids[i]);
            i += 1;
        }
        assert(ids@ =~= self.ids@);
        ids
    }

    /// Takes a controller in.
    pub fn connect(&mut self, controller: usize)
        ensures
            final(self)@ == old(self)@.insert(controller),
    {
        proof {
            use_type_invariant(&*self);
        }
        let ghost before = self.ids@;
        if !self.contains(controller) {
            let mut ids: Vec<usize> = Vec::new();
            core::mem::swap(&mut self.ids, &mut ids);
            ids.push(controller);
            proof {
                assert forall|id: usize| #[trigger]
                    ids@.to_set().contains(id) == before.to_set().insert(controller).contains(
                        id,
                    ) by {
                    if before.contains(id) {
                        let k = choose|k: int| 0 <= k < before.len() && before[k] == id;
                        assert(ids@[k] == id);
                    }
                    if id == controller {
                        assert(ids@[before.len() as int] == id);
                    }
                }
            }
            self.ids = ids;
        }
    }

    /// Lets a controller go.
    pub fn disconnect(&mut self, controller: usize)
        ensures
            final(self)@ == old(self)@.remove(controller),
    {
        proof {
            use_type_invariant(&*self);
        }
        let ghost before = self.ids@;
        let mut ids: Vec<usize> = Vec::new();
        core::mem::swap(&mut self.ids, &mut ids);
        let mut i: usize = 0;
        while i < ids.len()
            invariant
                i <= ids.len(),
                ids@ == before,
                before == old(self).ids@,
                before.no_duplicates(),
                forall|k: int| 0 <= k < i ==> ids@[k] != controller,
            decreases ids.len() - i,
        {
            if ids[i] == controller {
                ids.remove(i);
                proof {
                    let after = ids@;
                    assert forall|id: usize| #[trigger]
                        after.to_set().contains(id) == before.to_set().remove(controller).contains(
                            id,
                        ) by {
                        if before.contains(id) && id != controller {
                            let k = choose|k: int| 0 <= k < before.len() && before[k] == id;
                            let k1 = if k < i {
                                k
                            } else {
                                k - 1
                            };
                            assert(after[k1] == id);
                        }
                    }
                }
                self.ids = ids;
                return;
            }
            i += 1;
        }
        self.ids = ids;
    }
}

/// Takes a report of a controller: keeps the roster of connected
/// controllers and says what is passed on to the game, stamped with the
/// time of capture.
pub fn capture(roster: &mut Roster, controller: usize, report: Report, timestamp: u128) -> (out:
    Option<ControllerEvent>)
    ensures
        final(roster)@ == connected_after(old(roster)@, controller, report),
        out == match passed_on(report) {
            Some(event) => Some(ControllerEvent { controller, event, timestamp }),
            None => None,
        },
{
    let event = match report {
        Report::Connected => {
            roster.connect(controller);
            ControllerEventType::ControllerConnected
        },
        Report::Disconnected => {
            roster.disconnect(controller);
            ControllerEventType::ControllerDisconnected
        },
        Report::ButtonPressed(button) => ControllerEventType::ButtonPressed(button),
        Report::ButtonReleased(button) => ControllerEventType::ButtonReleased(button),
        Report::AxisChanged(axis) => ControllerEventType::AxisMotion { axis },
        _ => {
            return None;
        },
    };
    Some(ControllerEvent { controller, event, timestamp })
}

} // verus!
