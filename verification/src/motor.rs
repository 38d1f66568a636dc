//! Logical state of the two drive motors and the fixed direction table.

use vstd::prelude::*;

verus! {

/// Commanded turning/translation mode for the differential drive.
///
/// There are exactly four modes; no intermediate or combined values exist.
#[derive(Clone, Copy, PartialEq, Eq, Structural, Debug)]
pub enum Direction {
    Forward,
    Back,
    Left,
    Right,
}

/// Signal level commanded on the left direction output by `d`
/// (`true` = high, `false` = low).
pub open spec fn left_signal(d: Direction) -> bool {
    match d {
        Direction::Forward => true,
        Direction::Back => false,
        Direction::Left => false,
        Direction::Right => true,
    }
}

/// Signal level commanded on the right direction output by `d`
/// (`true` = high, `false` = low).
pub open spec fn right_signal(d: Direction) -> bool {
    match d {
        Direction::Forward => true,
        Direction::Back => false,
        Direction::Left => true,
        Direction::Right => false,
    }
}

/// Live, logical state of the drive unit: one direction level and one
/// enable flag per motor. The physical actuators (direction pins and PWM
/// channels) are driven by the platform shell from these levels.
#[derive(Clone, Copy, PartialEq, Eq, Structural, Debug)]
pub struct MotorControl {
    /// Direction level of the left motor (`true` = high).
    pub left_direction: bool,
    /// Direction level of the right motor (`true` = high).
    pub right_direction: bool,
    /// Whether the left motor's drive signal is energized.
    pub left_enabled: bool,
    /// Whether the right motor's drive signal is energized.
    pub right_enabled: bool,
}

impl MotorControl {
    /// Well-formedness: enable and disable are only ever applied to both
    /// motors together, so the two enable flags always agree.
    pub open spec fn wf(self) -> bool {
        self.left_enabled == self.right_enabled
    }

    /// The state after commanding direction `d`: both direction levels are
    /// set as a pair, per the fixed table; the enable flags are untouched.
    pub open spec fn with_direction(self, d: Direction) -> MotorControl {
        MotorControl { left_direction: left_signal(d), right_direction: right_signal(d), ..self }
    }

    /// The state after commanding enable `e`: both motors are energized or
    /// de-energized together; the direction levels are untouched.
    pub open spec fn with_enable(self, e: bool) -> MotorControl {
        MotorControl { left_enabled: e, right_enabled: e, ..self }
    }

    /// The initial state after hardware bring-up: both motors disabled,
    /// both direction outputs at the low level.
    pub fn new() -> (r: MotorControl)
        ensures
            r == (MotorControl {
                left_direction: false,
                right_direction: false,
                left_enabled: false,
                right_enabled: false,
            }),
            r.wf(),
    {
        MotorControl {
            left_direction: false,
            right_direction: false,
            left_enabled: false,
            right_enabled: false,
        }
    }

    /// Set both direction outputs as one logical operation, per the fixed
    /// table: Forward = (high, high), Back = (low, low), Left = (low, high),
    /// Right = (high, low). The enable flags are not touched.
    pub fn set_direction(&mut self, direction: Direction)
        ensures
            *final(self) == old(self).with_direction(direction),
            final(self).left_direction == left_signal(direction),
            final(self).right_direction == right_signal(direction),
            final(self).left_enabled == old(self).left_enabled,
            final(self).right_enabled == old(self).right_enabled,
    {
        match direction {
            Direction::Forward => {
                self.left_direction = true;
                self.right_direction = true;
            },
            Direction::Back => {
                self.left_direction = false;
                self.right_direction = false;
            },
            Direction::Left => {
                self.left_direction = false;
                self.right_direction = true;
            },
            Direction::Right => {
                self.left_direction = true;
                self.right_direction = false;
            },
        }
    }

    /// Energize (`true`) or de-energize (`false`) both drive signals as one
    /// logical operation. The direction levels are not touched.
    pub fn set_enable(&mut self, enable: bool)
        ensures
            *final(self) == old(self).with_enable(enable),
            final(self).left_enabled == enable,
            final(self).right_enabled == enable,
            final(self).left_direction == old(self).left_direction,
            final(self).right_direction == old(self).right_direction,
            final(self).wf(),
    {
        self.left_enabled = enable;
        self.right_enabled = enable;
    }
}

/// The full direction table, and that no two directions command the same
/// signal pair: every reachable pair of direction levels belongs to exactly
/// one `Direction`.
pub proof fn lemma_signal_table()
    ensures
        left_signal(Direction::Forward) && right_signal(Direction::Forward),
        !left_signal(Direction::Back) && !right_signal(Direction::Back),
        !left_signal(Direction::Left) && right_signal(Direction::Left),
        left_signal(Direction::Right) && !right_signal(Direction::Right),
        forall|a: Direction, b: Direction|
            left_signal(a) == left_signal(b) && right_signal(a) == right_signal(b) ==> a == b,
{
}

} // verus!
