//! The bridge to `socketcan`: the frame type of the bus layer and what is
//! read from it.
use socketcan::CanFrame;
use socketcan::EmbeddedFrame;
use socketcan::Frame;
use vstd::prelude::*;

verus! {

/// The classic CAN frame of `socketcan`, carried through as an opaque value.
#[verifier::external_type_specification]
#[verifier::external_body]
pub struct ExCanFrame(CanFrame);

/// The arbitration identifier that `socketcan` reports for a frame, flags removed.
pub uninterp spec fn can_frame_raw_id(frame: CanFrame) -> u32;

/// The data length code that `socketcan` reports for a frame.
pub uninterp spec fn can_frame_dlc(frame: CanFrame) -> usize;

/// The payload bytes that `socketcan` hands out for a frame.
pub uninterp spec fn can_frame_data(frame: CanFrame) -> Seq<u8>;

/// Calls `socketcan::Frame::raw_id` on a `CanFrame`.
///
/// Not proved: the result is the frame's identifier word masked to the
/// 29 identifier bits (11 for a standard frame), so it never exceeds
/// `0x1FFF_FFFF`, and it depends on the frame alone.
#[verifier::external_body]
pub(crate) fn raw_id_of(frame: &CanFrame) -> (id: u32)
    ensures
        id == can_frame_raw_id(*frame),
        id <= 0x1FFF_FFFF,
{
    frame.raw_id()
}

/// Calls `embedded_can::Frame::dlc` on a `CanFrame`.
///
/// Not proved: the result is the length field stored in the frame, which
/// the trait documents as no greater than eight, and it depends on the
/// frame alone.
#[verifier::external_body]
pub(crate) fn dlc_of(frame: &CanFrame) -> (dlc: usize)
    ensures
        dlc == can_frame_dlc(*frame),
        dlc <= 8,
{
    frame.dlc()
}

/// Calls `embedded_can::Frame::data` on a `CanFrame` and copies the slice.
///
/// Not proved: the slice holds at most eight bytes and depends on the frame
/// alone. Its length need not equal the data length code: a remote frame
/// hands out an empty slice whatever its code.
#[verifier::external_body]
pub(crate) fn data_of(frame: &CanFrame) -> (data: Vec<u8>)
    ensures
        data@ == can_frame_data(*frame),
        data@.len() <= 8,
{
    frame.data().to_vec()
}

} // verus!
