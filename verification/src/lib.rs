//! Checks that the CAN frames a test rig expects were seen on the bus:
//! frames with an identity that ignores their label, a capture that counts
//! the receives that deliver, and the report of what never arrived.
pub mod bus;
pub mod capture;
pub mod config;
pub mod frame;
pub mod observed;
pub mod report;
pub mod trace;
