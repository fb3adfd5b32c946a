//! Protocol client for a six-axis robotic arm controller reached over a
//! half-duplex byte link: frame codec, fixed-point unit codec and the
//! per-operation payload layouts, with their contracts proved by Verus.

pub mod command;
pub mod frame;
pub mod operator;
pub mod units;

pub use command::{Angle, Coord, Direction};
pub use frame::{concat_message, decode_payload, parse_frame, process_received};
pub use operator::{angles_from_reply, coords_from_reply, status_from_reply, version_from_reply, Connection, MyCobotOperator};
pub use units::{angle_to_int, coord_to_int, coords_to_int_vec, int_to_angle, int_to_coord, int_vec_to_coords};
