//! What the controls report.
use vstd::prelude::*;
use crate::vector::Vec2;

verus! {

#[derive(Clone, Copy, Debug, PartialEq, Eq, Structural)]
pub enum InputEventType {
    Pressed,
    Released,
}

#[derive(Clone, Copy, Debug, PartialEq, Eq, Structural)]
pub enum InputEventAction {
    Shoot,
}

/// The stick, the keys or a finger ask for movement along `direction`.
#[derive(Clone, Copy, Debug, PartialEq, Eq)]
pub struct InputMovementEvent {
    pub direction: Vec2,
}

impl InputMovementEvent {
    pub fn new(direction: Vec2) -> (r: Self)
        ensures
            r == (InputMovementEvent { direction }),
    {
        InputMovementEvent { direction }
    }
}

/// A button has gone down or come up.
#[derive(Clone, Copy, Debug, PartialEq, Eq)]
pub struct InputTriggerEvent {
    pub action: InputEventAction,
    pub input_type: InputEventType,
}

impl InputTriggerEvent {
    pub fn new(action: InputEventAction, input_type: InputEventType) -> (r: Self)
        ensures
            r == (InputTriggerEvent { action, input_type }),
    {
        InputTriggerEvent { action, input_type }
    }
}

/// Whether one of `events` is the fire button going down.
pub open spec fn fire_pressed(events: Seq<InputTriggerEvent>) -> bool {
    exists|k: int|
        0 <= k < events.len() && (#[trigger] events[k]).action == InputEventAction::Shoot
            && events[k].input_type == InputEventType::Pressed
}

/// Whether one of `events` is the fire button going down.
pub fn shoot_pressed(events: &Vec<InputTriggerEvent>) -> (r: bool)
    ensures
        r == fire_pressed(events@),
{
    let n: usize = events.len();
    let mut k: usize = 0;
    while k < n
        invariant
            n == events@.len(),
            k <= n,
            forall|j: int|
                0 <= j < k ==> !((#[trigger] events@[j]).action == InputEventAction::Shoot
                    && events@[j].input_type == InputEventType::Pressed),
        decreases n - k,
    {
        let event: InputTriggerEvent = events[k];
        let shoot: bool = match event.action {
            InputEventAction::Shoot => true,
        };
        let pressed: bool = match event.input_type {
            InputEventType::Pressed => true,
            InputEventType::Released => false,
        };
        if shoot && pressed {
            return true;
        }
        k += 1;
    }
    false
}

/// The sum of the directions that `events` ask for.
pub open spec fn summed_direction(events: Seq<InputMovementEvent>) -> Vec2
    decreases events.len(),
{
    if events.len() == 0 {
        Vec2 { x: 0, y: 0 }
    } else {
        summed_direction(events.drop_last()).spec_plus(events.last().direction)
    }
}

/// The sum of the directions that `events` ask for.
pub fn sum_directions(events: &Vec<InputMovementEvent>) -> (r: Vec2)
    ensures
        r == summed_direction(events@),
{
    let n: usize = events.len();
    let mut sum: Vec2 = Vec2::new(0, 0);
    let mut k: usize = 0;
    assert(events@.take(0) =~= Seq::<InputMovementEvent>::empty());
    while k < n
        invariant
            n == events@.len(),
            k <= n,
            sum == summed_direction(events@.take(k as int)),
        decreases n - k,
    {
        proof {
            assert(events@.take(k + 1).drop_last() =~= events@.take(k as int));
        }
        sum = sum.plus(events[k].direction);
        k += 1;
    }
    assert(events@.take(n as int) =~= events@);
    sum
}

} // verus!
