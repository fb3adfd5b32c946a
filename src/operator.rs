//! The operator: for each robot operation it assembles the payload, frames
//! it, makes one transaction on its connection and decodes the reply.
//!
//! Each operator keeps, as ghost state, the frames it handed to its
//! connection and the replies it got back, in order; the contracts of the
//! operations are stated over those two records.

use vstd::prelude::*;
use crate::command::{Angle, Coord, Direction, GET_ANGLES, GET_COORDS, GET_ENCODER, IS_CONTROLLER_CONNECTED, IS_IN_POSITION, IS_MOVING, IS_PAUSED, IS_POWER_ON, JOG_ANGLE, JOG_COORD, JOG_STOP, PAUSE, POWER_OFF, POWER_ON, RELEASE_ALL_SERVOS, RESUME, SEND_ANGLE, SEND_ANGLES, SEND_COORD, SEND_COORDS, SET_ENCODER, STOP, VERSION};
use crate::frame::{concat_message, encode_int16, encode_int16_vec, frame, hi_byte, int16_bytes, lo_byte, process_received, received};
use crate::units::{angle_to_int, coord_to_int, coords_to_int_vec, int_vec_to_coords, int_to_angle, pose_to_wire, scaled, wire_to_pose, ANGLE_STEP, COORD_STEP};

verus! {

/// std's `io::Error`, carried through unread: a connection's errors reach the
/// caller as they came.
#[verifier::external_type_specification]
#[verifier::external_body]
pub struct ExIoError(std::io::Error);

/// A half-duplex byte link to the controller, such as a serial port.
pub trait Connection {
    /// Writes all of `data` to the link.
    fn write(&mut self, data: &[u8]) -> Result<(), std::io::Error>;

    /// Writes all of `data`, then returns the bytes that arrived in reply,
    /// which may be noisy, partial or none.
    fn write_and_read(&mut self, data: &[u8]) -> Result<Vec<u8>, std::io::Error>;
}

/// The status value of a reply: the first value it carries for `genre`, or
/// -1 where it carries none.
pub open spec fn status_of(raw: Seq<u8>, genre: u8) -> i32 {
    let d = received(raw, genre);
    if d.len() == 0 {
        -1i32
    } else {
        d[0] as i32
    }
}

/// Each byte of a reply read as one character.
pub open spec fn chars_of(raw: Seq<u8>) -> Seq<char> {
    Seq::new(raw.len(), |i: int| raw[i] as char)
}

/// The wire values of a sequence of angles.
pub open spec fn angles_to_wire(degrees: Seq<i32>) -> Seq<i16> {
    Seq::new(degrees.len(), |i: int| scaled(degrees[i] as int, ANGLE_STEP as int))
}

/// The joint angles, in millidegrees, that a reply to the angle query carries.
pub open spec fn angles_of(raw: Seq<u8>) -> Seq<i32> {
    let d = received(raw, GET_ANGLES);
    Seq::new(d.len(), |i: int| (d[i] * ANGLE_STEP) as i32)
}

/// The pose that a reply to the pose query carries.
pub open spec fn coords_of(raw: Seq<u8>) -> Seq<i32> {
    wire_to_pose(received(raw, GET_COORDS))
}

/// The frame of an operation with an empty payload.
pub open spec fn bare(genre: u8) -> Seq<u8> {
    frame(genre, Seq::<u8>::empty())
}

/// The payload of a single-joint move.
pub open spec fn send_angle_payload(id: Angle, degree: i32, speed: u8) -> Seq<u8> {
    let a = scaled(degree as int, ANGLE_STEP as int);
    seq![id.spec_code(), hi_byte(a), lo_byte(a), speed]
}

/// The payload of a single-axis move: the axis's ordinal less one.
pub open spec fn send_coord_payload(id: Coord, coord: i32, speed: u8) -> Seq<u8> {
    let c = scaled(coord as int, COORD_STEP as int);
    seq![(id.spec_code() - 1) as u8, hi_byte(c), lo_byte(c), speed]
}

/// Relies on `String::push`: appends one character.
#[verifier::external_body]
fn push_char(s: &mut String, c: char)
    ensures
        final(s)@ == old(s)@.push(c),
{
    s.push(c)
}

fn angles_to_int_vec(degrees: &[i32]) -> (r: Vec<i16>)
    ensures
        r@ == angles_to_wire(degrees@),
{
    let mut r: Vec<i16> = Vec::new();
    let mut i: usize = 0;
    while i < degrees.len()
        invariant
            i <= degrees@.len(),
            r@ =~= angles_to_wire(degrees@.subrange(0, i as int)),
        decreases degrees@.len() - i,
    {
        r.push(angle_to_int(degrees[i]));
        i = i + 1;
        assert(r@ =~= angles_to_wire(degrees@.subrange(0, i as int)));
    }
    assert(degrees@.subrange(0, i as int) =~= degrees@);
    r
}

/// Each byte of a reply as one character.
pub fn version_from_reply(reply: &[u8]) -> (r: String)
    ensures
        r@ == chars_of(reply@),
{
    let mut r = String::new();
    let mut i: usize = 0;
    while i < reply.len()
        invariant
            i <= reply@.len(),
            r@ =~= chars_of(reply@.subrange(0, i as int)),
        decreases reply@.len() - i,
    {
        push_char(&mut r, reply[i] as char);
        i = i + 1;
        assert(r@ =~= chars_of(reply@.subrange(0, i as int)));
    }
    assert(reply@.subrange(0, i as int) =~= reply@);
    r
}

/// The status value that a raw reply carries for `genre`, or -1.
pub fn status_from_reply(reply: &[u8], genre: u8) -> (r: i32)
    ensures
        r == status_of(reply@, genre),
{
    let d = process_received(reply, genre);
    if d.len() == 0 {
        -1
    } else {
        d[0] as i32
    }
}

/// The joint angles, in millidegrees, that a raw reply carries.
pub fn angles_from_reply(reply: &[u8]) -> (r: Vec<i32>)
    ensures
        r@ == angles_of(reply@),
{
    let d = process_received(reply, GET_ANGLES);
    let mut r: Vec<i32> = Vec::new();
    let mut i: usize = 0;
    while i < d.len()
        invariant
            i <= d@.len(),
            d@ == received(reply@, GET_ANGLES),
            r@.len() == i,
            forall|j: int| 0 <= j < i ==> #[trigger] r@[j] == (d@[j] * ANGLE_STEP) as i32,
        decreases d@.len() - i,
    {
        r.push(int_to_angle(d[i]));
        i = i + 1;
    }
    assert(r@ =~= angles_of(reply@));
    r
}

/// The pose that a raw reply carries: lengths in micrometres at indices 0 to
/// 2, angles in millidegrees from index 3 on.
pub fn coords_from_reply(reply: &[u8]) -> (r: Vec<i32>)
    ensures
        r@ == coords_of(reply@),
{
    let d = process_received(reply, GET_COORDS);
    int_vec_to_coords(d.as_slice())
}

/// Operates the arm through the connection it owns.
pub struct MyCobotOperator<T: Connection> {
    connection: T,
    sent: Ghost<Seq<Seq<u8>>>,
    replies: Ghost<Seq<Seq<u8>>>,
}

impl<T: Connection> MyCobotOperator<T> {
    /// The frames handed to the connection so far, in order.
    pub closed spec fn frames_sent(&self) -> Seq<Seq<u8>> {
        self.sent@
    }

    /// The replies that the connection returned so far, in order.
    pub closed spec fn replies(&self) -> Seq<Seq<u8>> {
        self.replies@
    }

    /// The latest reply.
    pub open spec fn last_reply(&self) -> Seq<u8> {
        self.replies().last()
    }

    /// `after` is `before` with `f` written and no reply read.
    pub open spec fn wrote(before: Self, after: Self, f: Seq<u8>) -> bool {
        &&& after.frames_sent() == before.frames_sent().push(f)
        &&& after.replies() == before.replies()
    }

    /// `after` is `before` with `f` written and, where `ok`, one reply read.
    pub open spec fn asked(before: Self, after: Self, f: Seq<u8>, ok: bool) -> bool {
        &&& after.frames_sent() == before.frames_sent().push(f)
        &&& if ok {
            after.replies().len() == before.replies().len() + 1 && after.replies().drop_last()
                == before.replies()
        } else {
            after.replies() == before.replies()
        }
    }

    pub fn new(connection: T) -> (r: MyCobotOperator<T>)
        ensures
            r.frames_sent() == Seq::<Seq<u8>>::empty(),
            r.replies() == Seq::<Seq<u8>>::empty(),
    {
        MyCobotOperator { connection, sent: Ghost(Seq::empty()), replies: Ghost(Seq::empty()) }
    }

    fn send(&mut self, command: Vec<u8>) -> (r: Result<(), std::io::Error>)
        ensures
            Self::wrote(*old(self), *final(self), command@),
    {
        let r = self.connection.write(command.as_slice());
        self.sent = Ghost(self.sent@.push(command@));
        r
    }

    fn exchange(&mut self, command: Vec<u8>) -> (r: Result<Vec<u8>, std::io::Error>)
        ensures
            Self::asked(*old(self), *final(self), command@, r is Ok),
            r matches Ok(reply) ==> final(self).last_reply() == reply@,
    {
        let r = self.connection.write_and_read(command.as_slice());
        self.sent = Ghost(self.sent@.push(command@));
        match r {
            Ok(reply) => {
                self.replies = Ghost(self.replies@.push(reply@));
                assert(self.replies@.drop_last() =~= old(self).replies@);
                Ok(reply)
            },
            Err(e) => Err(e),
        }
    }

    fn query_status(&mut self, genre: u8, command_data: &[u8]) -> (r: Result<i32, std::io::Error>)
        ensures
            Self::asked(*old(self), *final(self), frame(genre, command_data@), r is Ok),
            r matches Ok(v) ==> v == status_of(final(self).last_reply(), genre),
    {
        let command = concat_message(genre, command_data);
        let reply = self.exchange(command)?;
        Ok(status_from_reply(reply.as_slice(), genre))
    }

    /// The controller's version: the reply's bytes read as characters.
    pub fn version(&mut self) -> (r: Result<String, std::io::Error>)
        ensures
            Self::asked(*old(self), *final(self), bare(VERSION), r is Ok),
            r matches Ok(s) ==> s@ == chars_of(final(self).last_reply()),
    {
        let command = concat_message(VERSION, &[]);
        let reply = self.exchange(command)?;
        Ok(version_from_reply(reply.as_slice()))
    }

    pub fn power_on(&mut self) -> (r: Result<(), std::io::Error>)
        ensures
            Self::wrote(*old(self), *final(self), bare(POWER_ON)),
    {
        self.send(concat_message(POWER_ON, &[]))
    }

    pub fn power_off(&mut self) -> (r: Result<(), std::io::Error>)
        ensures
            Self::wrote(*old(self), *final(self), bare(POWER_OFF)),
    {
        self.send(concat_message(POWER_OFF, &[]))
    }

    /// Whether the arm is powered, as the controller reports it; -1 where the
    /// reply carries no value.
    pub fn is_power_on(&mut self) -> (r: Result<i32, std::io::Error>)
        ensures
            Self::asked(*old(self), *final(self), bare(IS_POWER_ON), r is Ok),
            r matches Ok(v) ==> v == status_of(final(self).last_reply(), IS_POWER_ON),
    {
        self.query_status(IS_POWER_ON, &[])
    }

    pub fn release_all_servos(&mut self) -> (r: Result<(), std::io::Error>)
        ensures
            Self::wrote(*old(self), *final(self), bare(RELEASE_ALL_SERVOS)),
    {
        self.send(concat_message(RELEASE_ALL_SERVOS, &[]))
    }

    pub fn is_controller_connected(&mut self) -> (r: Result<i32, std::io::Error>)
        ensures
            Self::asked(*old(self), *final(self), bare(IS_CONTROLLER_CONNECTED), r is Ok),
            r matches Ok(v) ==> v == status_of(final(self).last_reply(), IS_CONTROLLER_CONNECTED),
    {
        self.query_status(IS_CONTROLLER_CONNECTED, &[])
    }

    /// The six joint angles, in millidegrees; empty where the reply carries
    /// no values.
    pub fn get_angles(&mut self) -> (r: Result<Vec<i32>, std::io::Error>)
        ensures
            Self::asked(*old(self), *final(self), bare(GET_ANGLES), r is Ok),
            r matches Ok(v) ==> v@ == angles_of(final(self).last_reply()),
    {
        let command = concat_message(GET_ANGLES, &[]);
        let reply = self.exchange(command)?;
        Ok(angles_from_reply(reply.as_slice()))
    }

    /// Moves one joint to `degree` millidegrees at `speed`.
    pub fn send_angle(&mut self, id: Angle, degree: i32, speed: u8) -> (r: Result<(), std::io::Error>)
        ensures
            Self::wrote(*old(self), *final(self), frame(SEND_ANGLE, send_angle_payload(id, degree, speed))),
    {
        let b = encode_int16(angle_to_int(degree));
        let command_data = [id.code(), b[0], b[1], speed];
        assert(command_data@ =~= send_angle_payload(id, degree, speed));
        self.send(concat_message(SEND_ANGLE, command_data.as_slice()))
    }

    /// Moves all joints to `degrees`, in millidegrees, at `speed`.
    pub fn send_angles(&mut self, degrees: &[i32], speed: u8) -> (r: Result<(), std::io::Error>)
        ensures
            Self::wrote(
                *old(self),
                *final(self),
                frame(SEND_ANGLES, int16_bytes(angles_to_wire(degrees@)).push(speed)),
            ),
    {
        let mut command_data = encode_int16_vec(angles_to_int_vec(degrees).as_slice());
        command_data.push(speed);
        self.send(concat_message(SEND_ANGLES, command_data.as_slice()))
    }

    /// The pose: lengths in micrometres at indices 0 to 2, angles in
    /// millidegrees from index 3 on; empty where the reply carries no values.
    pub fn get_coords(&mut self) -> (r: Result<Vec<i32>, std::io::Error>)
        ensures
            Self::asked(*old(self), *final(self), bare(GET_COORDS), r is Ok),
            r matches Ok(v) ==> v@ == coords_of(final(self).last_reply()),
    {
        let command = concat_message(GET_COORDS, &[]);
        let reply = self.exchange(command)?;
        Ok(coords_from_reply(reply.as_slice()))
    }

    /// Moves along one axis to `coord` (a length in micrometres) at `speed`.
    pub fn send_coord(&mut self, id: Coord, coord: i32, speed: u8) -> (r: Result<(), std::io::Error>)
        ensures
            Self::wrote(*old(self), *final(self), frame(SEND_COORD, send_coord_payload(id, coord, speed))),
    {
        let b = encode_int16(coord_to_int(coord));
        let command_data = [id.code() - 1, b[0], b[1], speed];
        assert(command_data@ =~= send_coord_payload(id, coord, speed));
        self.send(concat_message(SEND_COORD, command_data.as_slice()))
    }

    /// Moves to the pose `coords` at `speed`, in the given motion `mode`.
    pub fn send_coords(&mut self, coords: &[i32], speed: u8, mode: u8) -> (r: Result<(), std::io::Error>)
        ensures
            Self::wrote(
                *old(self),
                *final(self),
                frame(SEND_COORDS, int16_bytes(pose_to_wire(coords@)).push(speed).push(mode)),
            ),
    {
        let mut command_data = encode_int16_vec(coords_to_int_vec(coords).as_slice());
        command_data.push(speed);
        command_data.push(mode);
        self.send(concat_message(SEND_COORDS, command_data.as_slice()))
    }

    /// Whether the joints stand at `degrees` (millidegrees); -1 where the
    /// reply carries no value.
    pub fn is_in_angle_position(&mut self, degrees: &[i32; 6]) -> (r: Result<i32, std::io::Error>)
        ensures
            Self::asked(
                *old(self),
                *final(self),
                frame(IS_IN_POSITION, int16_bytes(angles_to_wire(degrees@)).push(0u8)),
                r is Ok,
            ),
            r matches Ok(v) ==> v == status_of(final(self).last_reply(), IS_IN_POSITION),
    {
        let mut command_data = encode_int16_vec(angles_to_int_vec(degrees.as_slice()).as_slice());
        command_data.push(0u8);
        self.query_status(IS_IN_POSITION, command_data.as_slice())
    }

    /// Whether the arm stands at the pose `coords`; -1 where the reply
    /// carries no value.
    pub fn is_in_coord_position(&mut self, coords: &[i32]) -> (r: Result<i32, std::io::Error>)
        ensures
            Self::asked(
                *old(self),
                *final(self),
                frame(IS_IN_POSITION, int16_bytes(pose_to_wire(coords@)).push(1u8)),
                r is Ok,
            ),
            r matches Ok(v) ==> v == status_of(final(self).last_reply(), IS_IN_POSITION),
    {
        let mut command_data = encode_int16_vec(coords_to_int_vec(coords).as_slice());
        command_data.push(1u8);
        self.query_status(IS_IN_POSITION, command_data.as_slice())
    }

    pub fn is_moving(&mut self) -> (r: Result<i32, std::io::Error>)
        ensures
            Self::asked(*old(self), *final(self), bare(IS_MOVING), r is Ok),
            r matches Ok(v) ==> v == status_of(final(self).last_reply(), IS_MOVING),
    {
        self.query_status(IS_MOVING, &[])
    }

    /// Starts moving one joint in `direction` at `speed`.
    pub fn jog_angle(&mut self, id: Angle, direction: Direction, speed: u8) -> (r: Result<(), std::io::Error>)
        ensures
            Self::wrote(
                *old(self),
                *final(self),
                frame(JOG_ANGLE, seq![id.spec_code(), direction.spec_code(), speed]),
            ),
    {
        let command_data = [id.code(), direction.code(), speed];
        assert(command_data@ =~= seq![id.spec_code(), direction.spec_code(), speed]);
        self.send(concat_message(JOG_ANGLE, command_data.as_slice()))
    }

    /// Starts moving along one axis in `direction` at `speed`; the axis goes
    /// by its ordinal here.
    pub fn jog_coord(&mut self, id: Coord, direction: Direction, speed: u8) -> (r: Result<(), std::io::Error>)
        ensures
            Self::wrote(
                *old(self),
                *final(self),
                frame(JOG_COORD, seq![id.spec_code(), direction.spec_code(), speed]),
            ),
    {
        let command_data = [id.code(), direction.code(), speed];
        assert(command_data@ =~= seq![id.spec_code(), direction.spec_code(), speed]);
        self.send(concat_message(JOG_COORD, command_data.as_slice()))
    }

    pub fn jog_stop(&mut self) -> (r: Result<(), std::io::Error>)
        ensures
            Self::wrote(*old(self), *final(self), bare(JOG_STOP)),
    {
        self.send(concat_message(JOG_STOP, &[]))
    }

    pub fn pause(&mut self) -> (r: Result<(), std::io::Error>)
        ensures
            Self::wrote(*old(self), *final(self), bare(PAUSE)),
    {
        self.send(concat_message(PAUSE, &[]))
    }

    pub fn is_paused(&mut self) -> (r: Result<i32, std::io::Error>)
        ensures
            Self::asked(*old(self), *final(self), bare(IS_PAUSED), r is Ok),
            r matches Ok(v) ==> v == status_of(final(self).last_reply(), IS_PAUSED),
    {
        self.query_status(IS_PAUSED, &[])
    }

    pub fn resume(&mut self) -> (r: Result<(), std::io::Error>)
        ensures
            Self::wrote(*old(self), *final(self), bare(RESUME)),
    {
        self.send(concat_message(RESUME, &[]))
    }

    pub fn stop(&mut self) -> (r: Result<(), std::io::Error>)
        ensures
            Self::wrote(*old(self), *final(self), bare(STOP)),
    {
        self.send(concat_message(STOP, &[]))
    }

    /// Sets the encoder value of one joint.
    pub fn set_encoder(&mut self, id: Angle, encoder: i16) -> (r: Result<(), std::io::Error>)
        ensures
            Self::wrote(
                *old(self),
                *final(self),
                frame(SET_ENCODER, seq![id.spec_code(), hi_byte(encoder), lo_byte(encoder)]),
            ),
    {
        let b = encode_int16(encoder);
        let command_data = [id.code(), b[0], b[1]];
        assert(command_data@ =~= seq![id.spec_code(), hi_byte(encoder), lo_byte(encoder)]);
        self.send(concat_message(SET_ENCODER, command_data.as_slice()))
    }

    /// The encoder value of one joint; -1 where the reply carries no value.
    pub fn get_encoder(&mut self, id: Angle) -> (r: Result<i32, std::io::Error>)
        ensures
            Self::asked(*old(self), *final(self), frame(GET_ENCODER, seq![id.spec_code()]), r is Ok),
            r matches Ok(v) ==> v == status_of(final(self).last_reply(), GET_ENCODER),
    {
        let command_data = [id.code()];
        assert(command_data@ =~= seq![id.spec_code()]);
        self.query_status(GET_ENCODER, command_data.as_slice())
    }
}

} // verus!
