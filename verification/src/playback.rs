use vstd::prelude::*;

verus! {

/// The positions, in order, of the changes that end a frame.
pub open spec fn end_frame_positions(is_end_frame: Seq<bool>) -> Seq<usize>
    decreases is_end_frame.len(),
{
    if is_end_frame.len() == 0 {
        Seq::empty()
    } else {
        let before = end_frame_positions(is_end_frame.drop_last());
        if is_end_frame.last() {
            before.push((is_end_frame.len() - 1) as usize)
        } else {
            before
        }
    }
}

/// The changes of a recorded play split into frames, and the frame that plays next.
pub struct HistoryPlayback {
    frame_indexes: Vec<usize>,
    current_frame_index: usize,
}

impl HistoryPlayback {
    #[verifier::type_invariant]
    spec fn inv(self) -> bool {
        self.current_frame_index <= self.frame_indexes.len()
    }

    /// For each frame, the position of the change that ends it.
    pub closed spec fn frame_ends(self) -> Seq<usize> {
        self.frame_indexes@
    }

    /// The number of frames played so far.
    pub closed spec fn played(self) -> nat {
        self.current_frame_index as nat
    }

    /// The frames of a recorded play, given for each change whether it ends a frame; none is
    /// played yet.
    pub fn from_end_frame_marks(is_end_frame: &Vec<bool>) -> (r: HistoryPlayback)
        ensures
            r.frame_ends() == end_frame_positions(is_end_frame@),
            r.played() == 0,
    {
        let mut frame_indexes: Vec<usize> = Vec::new();
        let mut k: usize = 0;
        while k < is_end_frame.len()
            invariant
                k <= is_end_frame.len(),
                frame_indexes@ == end_frame_positions(is_end_frame@.take(k as int)),
            decreases is_end_frame.len() - k,
        {
            assert(is_end_frame@.take(k as int + 1).drop_last() == is_end_frame@.take(k as int));
            if is_end_frame[k] {
                frame_indexes.push(k);
            }
            k = k + 1;
        }
        assert(is_end_frame@.take(k as int) == is_end_frame@);
        HistoryPlayback { frame_indexes, current_frame_index: 0 }
    }

    /// The number of frames played so far.
    pub fn current_frame_index(&self) -> (r: usize)
        ensures
            r == self.played(),
            r <= self.frame_ends().len(),
    {
        proof {
            use_type_invariant(self);
        }
        self.current_frame_index
    }

    /// The number of frames of the play.
    pub fn number_frames(&self) -> (r: usize)
        ensures
            r == self.frame_ends().len(),
    {
        self.frame_indexes.len()
    }

    /// Where play is requested and a frame is left, the range of changes to apply for the
    /// next frame (from the end of the frame before, or the start, up to this frame's end),
    /// and that frame counts as played. Otherwise nothing happens.
    pub fn next_frame_range(&mut self, play: bool) -> (r: Option<(usize, usize)>)
        ensures
            final(self).frame_ends() == old(self).frame_ends(),
            old(self).played() <= old(self).frame_ends().len(),
            r == (if play && old(self).played() < old(self).frame_ends().len() {
                Some(
                    (
                        if old(self).played() == 0 {
                            0usize
                        } else {
                            old(self).frame_ends()[old(self).played() - 1]
                        },
                        old(self).frame_ends()[old(self).played() as int],
                    ),
                )
            } else {
                None::<(usize, usize)>
            }),
            final(self).played() == (if r is Some {
                old(self).played() + 1
            } else {
                old(self).played()
            }),
    {
        proof {
            use_type_invariant(&*self);
        }
        if play && self.frame_indexes.len() != self.current_frame_index {
            let begin_index = if self.current_frame_index == 0 {
                0
            } else {
                self.frame_indexes[self.current_frame_index - 1]
            };
            let end_index = self.frame_indexes[self.current_frame_index];
            self.current_frame_index = self.current_frame_index + 1;
            Some((begin_index, end_index))
        } else {
            None
        }
    }

    /// Whether the frame played last is the last frame of the play.
    pub fn is_last_frame(&self) -> (r: bool)
        requires
            self.frame_ends().len() > 0,
        ensures
            r == (self.played() == self.frame_ends().len() - 1),
    {
        self.current_frame_index == self.frame_indexes.len() - 1
    }
}

/// Each frame ends at a change that ends a frame, after the end of the frame before.
pub proof fn lemma_frames_in_order(is_end_frame: Seq<bool>)
    requires
        is_end_frame.len() <= usize::MAX,
    ensures
        forall|i: int| 0 <= i < end_frame_positions(is_end_frame).len() ==> {
            let p = #[trigger] end_frame_positions(is_end_frame)[i];
            p < is_end_frame.len() && is_end_frame[p as int]
        },
        forall|i: int, j: int|
            0 <= i < j < end_frame_positions(is_end_frame).len() ==> #[trigger] end_frame_positions(is_end_frame)[i]
                < #[trigger] end_frame_positions(is_end_frame)[j],
    decreases is_end_frame.len(),
{
    if is_end_frame.len() > 0 {
        let rest = is_end_frame.drop_last();
        lemma_frames_in_order(rest);
        let before = end_frame_positions(rest);
        let all = end_frame_positions(is_end_frame);
        if is_end_frame.last() {
            assert(all == before.push((is_end_frame.len() - 1) as usize));
        } else {
            assert(all == before);
        }
        assert forall|i: int| 0 <= i < before.len() implies before[i] < rest.len() && is_end_frame[before[i] as int] by {
            assert(rest[before[i] as int] == is_end_frame[before[i] as int]);
        }
        assert forall|i: int| 0 <= i < all.len() implies {
            let p = #[trigger] all[i];
            p < is_end_frame.len() && is_end_frame[p as int]
        } by {
            if i < before.len() {
                assert(all[i] == before[i]);
            }
        }
        assert forall|i: int, j: int| 0 <= i < j < all.len() implies #[trigger] all[i] < #[trigger] all[j] by {
            assert(all[i] == before[i]);
            if j < before.len() {
                assert(all[j] == before[j]);
            }
        }
    }
}

} // verus!
