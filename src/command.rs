//! The protocol's vocabulary: one-byte opcodes fixed by the controller
//! firmware, and the joint, axis and jog-direction ids.

use vstd::prelude::*;

verus! {

/// Byte that opens (twice) and closes every frame.
pub const HEADER: u8 = 0xFE;

/// Byte that closes every frame; the same value as the header byte.
pub const FOOTER: u8 = HEADER;

pub const VERSION: u8 = 0x00;

pub const POWER_ON: u8 = 0x10;

pub const POWER_OFF: u8 = 0x11;

pub const IS_POWER_ON: u8 = 0x12;

pub const RELEASE_ALL_SERVOS: u8 = 0x13;

pub const IS_CONTROLLER_CONNECTED: u8 = 0x14;

pub const GET_ANGLES: u8 = 0x20;

pub const SEND_ANGLE: u8 = 0x21;

pub const SEND_ANGLES: u8 = 0x22;

pub const GET_COORDS: u8 = 0x23;

pub const SEND_COORD: u8 = 0x24;

pub const SEND_COORDS: u8 = 0x25;

pub const PAUSE: u8 = 0x26;

pub const IS_PAUSED: u8 = 0x27;

pub const RESUME: u8 = 0x28;

pub const STOP: u8 = 0x29;

pub const IS_IN_POSITION: u8 = 0x2A;

pub const IS_MOVING: u8 = 0x2B;

pub const JOG_ANGLE: u8 = 0x30;

pub const JOG_COORD: u8 = 0x31;

pub const JOG_STOP: u8 = 0x34;

pub const SET_ENCODER: u8 = 0x3A;

pub const GET_ENCODER: u8 = 0x3B;

/// Query whose two-byte reply carries its value in the second byte only.
pub const IS_SERVO_ENABLE: u8 = 0x50;

/// One of the six joints of the arm; on the wire its ordinal, 1 to 6.
#[derive(Clone, Copy, Debug, PartialEq, Eq, Structural)]
pub enum Angle {
    J1,
    J2,
    J3,
    J4,
    J5,
    J6,
}

impl Angle {
    pub open spec fn spec_code(self) -> u8 {
        match self {
            Angle::J1 => 1,
            Angle::J2 => 2,
            Angle::J3 => 3,
            Angle::J4 => 4,
            Angle::J5 => 5,
            Angle::J6 => 6,
        }
    }

    /// The joint's ordinal, as sent on the wire.
    pub fn code(&self) -> (r: u8)
        ensures
            r == self.spec_code(),
    {
        match self {
            Angle::J1 => 1,
            Angle::J2 => 2,
            Angle::J3 => 3,
            Angle::J4 => 4,
            Angle::J5 => 5,
            Angle::J6 => 6,
        }
    }
}

/// One of the six pose axes: position x, y, z and rotation about x, y, z.
/// Its ordinal runs from 1 to 6.
#[derive(Clone, Copy, Debug, PartialEq, Eq, Structural)]
pub enum Coord {
    X,
    Y,
    Z,
    Rx,
    Ry,
    Rz,
}

impl Coord {
    pub open spec fn spec_code(self) -> u8 {
        match self {
            Coord::X => 1,
            Coord::Y => 2,
            Coord::Z => 3,
            Coord::Rx => 4,
            Coord::Ry => 5,
            Coord::Rz => 6,
        }
    }

    /// The axis's ordinal, 1 to 6.
    pub fn code(&self) -> (r: u8)
        ensures
            r == self.spec_code(),
            1 <= r <= 6,
    {
        match self {
            Coord::X => 1,
            Coord::Y => 2,
            Coord::Z => 3,
            Coord::Rx => 4,
            Coord::Ry => 5,
            Coord::Rz => 6,
        }
    }
}

/// Direction of a jog along a joint or an axis.
#[derive(Clone, Copy, Debug, PartialEq, Eq, Structural)]
pub enum Direction {
    Decrease,
    Increase,
}

impl Direction {
    pub open spec fn spec_code(self) -> u8 {
        match self {
            Direction::Decrease => 0,
            Direction::Increase => 1,
        }
    }

    /// The direction's byte: 0 to decrease, 1 to increase.
    pub fn code(&self) -> (r: u8)
        ensures
            r == self.spec_code(),
    {
        match self {
            Direction::Decrease => 0,
            Direction::Increase => 1,
        }
    }
}

} // verus!
