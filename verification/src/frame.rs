//! The frame as it is compared: equal to another when identifier, data
//! length code and payload agree, whatever the labels.
use crate::bus::can_frame_data;
use crate::bus::can_frame_dlc;
use crate::bus::can_frame_raw_id;
use crate::bus::data_of;
use crate::bus::dlc_of;
use crate::bus::raw_id_of;
use socketcan::CanFrame;
use std::collections::hash_map::DefaultHasher;
use std::hash::Hash;
use std::hash::Hasher;
use vstd::bytes::spec_u32_to_le_bytes;
use vstd::bytes::spec_u64_to_le_bytes;
use vstd::bytes::u32_to_le_bytes;
use vstd::bytes::u64_to_le_bytes;
use vstd::prelude::*;
use vstd::std_specs::cmp::PartialEqSpec;
use vstd::std_specs::hash::DefaultHasherAdditionalSpecFns;

verus! {

/// `u64`'s `Hash::hash` of std: feeds the value to the hasher. Nothing is
/// claimed of what the hasher makes of it.
pub assume_specification<H: Hasher>[ <u64 as Hash>::hash::<H> ](value: &u64, state: &mut H);

/// The identity of a frame: what equality, hashing and set membership go by.
pub ghost struct FrameKey {
    pub id: u32,
    pub dlc: usize,
    pub data: Seq<u8>,
}

/// The digest of an identity: std's default hasher, freshly made, fed the
/// identifier, the data length code and the payload, in that order.
pub open spec fn digest_of(key: FrameKey) -> u64 {
    DefaultHasher::spec_finish(
        seq![spec_u32_to_le_bytes(key.id), spec_u64_to_le_bytes(key.dlc as u64), key.data],
    )
}

/// What a label holds, if there is one.
pub open spec fn label_of(name: Option<String>) -> Option<Seq<char>> {
    match name {
        Some(text) => Some(text@),
        None => None,
    }
}

/// The identities of a sequence of frames, in order.
pub open spec fn keys_of(frames: Seq<SimpleCanFrame>) -> Seq<FrameKey> {
    frames.map_values(|frame: SimpleCanFrame| frame.key())
}

/// The basic components of a CAN frame, with an optional label.
#[derive(Debug)]
pub struct SimpleCanFrame {
    name: Option<String>,
    id: u32,
    dlc: usize,
    data: Vec<u8>,
}

impl SimpleCanFrame {
    /// The frame's identity: its identifier, data length code and payload.
    pub closed spec fn key(&self) -> FrameKey {
        FrameKey { id: self.id, dlc: self.dlc, data: self.data@ }
    }

    /// The frame's label, which is no part of its identity.
    pub closed spec fn label(&self) -> Option<Seq<char>> {
        label_of(self.name)
    }

    /// A frame of the fields given, taken as they are: the data length code
    /// need not equal the length of the payload.
    pub fn new(name: Option<String>, id: u32, dlc: usize, data: Vec<u8>) -> (frame: Self)
        ensures
            frame.label() == label_of(name),
            frame.key() == (FrameKey { id, dlc, data: data@ }),
    {
        Self { name, id, dlc, data }
    }

    /// The unlabelled frame that stands for a frame received from the bus.
    pub fn from_can_frame(from_frame: CanFrame) -> (frame: Self)
        ensures
            frame.label() is None,
            frame.key().id <= 0x1FFF_FFFF,
            frame.key().dlc <= 8,
            frame.key().data.len() <= 8,
            frame.key() == (FrameKey {
                id: can_frame_raw_id(from_frame),
                dlc: can_frame_dlc(from_frame),
                data: can_frame_data(from_frame),
            }),
    {
        let id = raw_id_of(&from_frame);
        let dlc = dlc_of(&from_frame);
        let data = data_of(&from_frame);
        Self::new(None, id, dlc, data)
    }

    /// The label, if the frame has one.
    pub fn name(&self) -> (name: &Option<String>)
        ensures
            label_of(*name) == self.label(),
    {
        &self.name
    }

    /// The arbitration identifier.
    pub fn id(&self) -> (id: u32)
        ensures
            id == self.key().id,
    {
        self.id
    }

    /// The data length code.
    pub fn dlc(&self) -> (dlc: usize)
        ensures
            dlc == self.key().dlc,
    {
        self.dlc
    }

    /// The payload.
    pub fn data(&self) -> (data: &Vec<u8>)
        ensures
            data@ == self.key().data,
    {
        &self.data
    }

    /// A digest of the frame's identity and of nothing else.
    pub fn identity_digest(&self) -> (digest: u64)
        ensures
            digest == digest_of(self.key()),
    {
        let mut hasher = DefaultHasher::new();
        let id_bytes = u32_to_le_bytes(self.id);
        hasher.write(id_bytes.as_slice());
        let dlc_bytes = u64_to_le_bytes(self.dlc as u64);
        hasher.write(dlc_bytes.as_slice());
        hasher.write(self.data.as_slice());
        let digest = hasher.finish();
        assert(hasher@ =~= seq![
            spec_u32_to_le_bytes(self.id),
            spec_u64_to_le_bytes(self.dlc as u64),
            self.data@,
        ]);
        digest
    }
}

/// Whether two payloads hold the same bytes in the same order.
fn same_bytes(a: &Vec<u8>, b: &Vec<u8>) -> (same: bool)
    ensures
        same == (a@ == b@),
{
    if a.len() != b.len() {
        return false;
    }
    let mut i: usize = 0;
    while i < a.len()
        invariant
            a.len() == b.len(),
            i <= a.len(),
            forall|j: int| 0 <= j < i ==> a@[j] == b@[j],
        decreases a.len() - i,
    {
        if a[i] != b[i] {
            return false;
        }
        i += 1;
    }
    assert(a@ =~= b@);
    true
}

impl PartialEq for SimpleCanFrame {
    fn eq(&self, other: &Self) -> (equal: bool) {
        self.id == other.id && self.dlc == other.dlc && same_bytes(&self.data, &other.data)
    }
}

impl Eq for SimpleCanFrame {}

impl vstd::std_specs::cmp::PartialEqSpecImpl for SimpleCanFrame {
    open spec fn obeys_eq_spec() -> bool {
        true
    }

    open spec fn eq_spec(&self, other: &Self) -> bool {
        self.key() == other.key()
    }
}

/// Hashes the digest of the identity, so that frames with one identity hash
/// alike whatever their labels.
impl Hash for SimpleCanFrame {
    fn hash<H: Hasher>(&self, state: &mut H) {
        self.identity_digest().hash(state);
    }
}

/// Frames with one identity are equal and have one digest, whatever their
/// labels.
pub proof fn law_identity_ignores_name(a: SimpleCanFrame, b: SimpleCanFrame)
    requires
        a.key() == b.key(),
    ensures
        a.eq_spec(&b),
        b.eq_spec(&a),
        digest_of(a.key()) == digest_of(b.key()),
{
}

/// Frames that differ in the identifier, in the data length code, in the
/// length of the payload or in any byte of it are unequal.
pub proof fn law_identity_sensitive_to_payload(a: SimpleCanFrame, b: SimpleCanFrame)
    requires
        a.key().id != b.key().id || a.key().dlc != b.key().dlc || a.key().data.len()
            != b.key().data.len() || exists|i: int|
            0 <= i < a.key().data.len() && a.key().data[i] != b.key().data[i],
    ensures
        !a.eq_spec(&b),
        !b.eq_spec(&a),
{
}

} // verus!
