//! The set of frames observed during a capture.
use crate::frame::FrameKey;
use crate::frame::SimpleCanFrame;
use vstd::prelude::*;

verus! {

/// The frames seen on the bus so far, one per identity.
///
/// Holds no two frames with the same identity; the order in which they are
/// kept carries no meaning.
#[derive(Debug)]
pub struct ObservedSet {
    frames: Vec<SimpleCanFrame>,
}

impl View for ObservedSet {
    type V = Set<FrameKey>;

    /// The identities of the frames in the set.
    closed spec fn view(&self) -> Set<FrameKey> {
        self.keys().to_set()
    }
}

impl ObservedSet {
    pub closed spec fn keys(&self) -> Seq<FrameKey> {
        self.frames@.map_values(|f: SimpleCanFrame| f.key())
    }

    /// No two frames of the set share an identity.
    pub closed spec fn wf(&self) -> bool {
        self.keys().no_duplicates()
    }

    /// A set holds finitely many identities.
    pub proof fn lemma_finite(&self)
        ensures
            self@.finite(),
    {
        vstd::seq_lib::seq_to_set_is_finite(self.keys());
    }

    /// The empty set.
    pub fn new() -> (set: Self)
        ensures
            set.wf(),
            set@ == Set::<FrameKey>::empty(),
    {
        let set = ObservedSet { frames: Vec::new() };
        assert(set.keys() =~= Seq::<FrameKey>::empty());
        assert(set@ =~= Set::<FrameKey>::empty());
        set
    }

    /// The number of distinct identities in the set.
    pub fn len(&self) -> (n: usize)
        requires
            self.wf(),
        ensures
            self@.finite(),
            n == self@.len(),
    {
        proof {
            self.keys().unique_seq_to_set();
        }
        self.frames.len()
    }

    /// Whether a frame with the identity of `frame` is in the set.
    pub fn contains(&self, frame: &SimpleCanFrame) -> (found: bool)
        ensures
            found == self@.contains(frame.key()),
    {
        let mut i: usize = 0;
        while i < self.frames.len()
            invariant
                i <= self.frames.len(),
                forall|j: int| 0 <= j < i ==> self.keys()[j] != frame.key(),
            decreases self.frames.len() - i,
        {
            if self.frames[i] == *frame {
                assert(self.keys()[i as int] == frame.key());
                return true;
            }
            i += 1;
        }
        false
    }

    /// Puts `frame` into the set unless a frame of its identity is there
    /// already, and says whether the set grew.
    pub fn insert(&mut self, frame: SimpleCanFrame) -> (grew: bool)
        requires
            old(self).wf(),
        ensures
            final(self).wf(),
            final(self)@ == old(self)@.insert(frame.key()),
            grew == !old(self)@.contains(frame.key()),
            !grew ==> final(self)@ == old(self)@,
    {
        if self.contains(&frame) {
            assert(self@.insert(frame.key()) =~= self@);
            false
        } else {
            let ghost before = self.keys();
            self.frames.push(frame);
            proof {
                assert(self.keys() =~= before.push(frame.key()));
                assert(self@ =~= old(self)@.insert(frame.key())) by {
                    assert forall|k: FrameKey| self@.contains(k) <==> old(self)@.insert(
                        frame.key(),
                    ).contains(k) by {
                        if self.keys().contains(k) {
                            let j = choose|j: int| 0 <= j < self.keys().len() && self.keys()[j] == k;
                            if j < before.len() {
                                assert(before[j] == k);
                            }
                        }
                        if before.contains(k) {
                            let j = choose|j: int| 0 <= j < before.len() && before[j] == k;
                            assert(self.keys()[j] == k);
                        }
                        if k == frame.key() {
                            assert(self.keys()[before.len() as int] == k);
                        }
                    }
                }
            }
            true
        }
    }
}

/// Inserting an identity that the set holds already changes neither the
/// set nor its size: after the first insertion every further one of the
/// same identity is without effect.
pub proof fn law_insert_deduplicates(set: Set<FrameKey>, key: FrameKey)
    requires
        set.finite(),
    ensures
        set.contains(key) ==> set.insert(key) == set,
        set.insert(key).insert(key) == set.insert(key),
        set.insert(key).insert(key).len() == set.insert(key).len(),
{
    if set.contains(key) {
        assert(set.insert(key) =~= set);
    }
    assert(set.insert(key).insert(key) =~= set.insert(key));
}

} // verus!
