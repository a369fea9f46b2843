//! Per-frame decisions of the renderer: when the swapchain is rebuilt, whether a
//! frame is drawn, and how the draw list splits into static and dynamic objects.
use vstd::prelude::*;

verus! {

/// Whether the swapchain has to be rebuilt before the next frame.
pub struct FrameControl {
    pub need_to_update_swapchain: bool,
}

impl FrameControl {
    /// A new renderer builds its swapchain before its first frame.
    pub fn new() -> (c: Self)
        ensures
            c.need_to_update_swapchain,
    {
        FrameControl { need_to_update_swapchain: true }
    }

    /// The start of a frame: returns whether the swapchain is rebuilt now, and
    /// afterwards it no longer needs to be.
    pub fn start_frame(&mut self) -> (rebuild: bool)
        ensures
            rebuild == old(self).need_to_update_swapchain,
            !final(self).need_to_update_swapchain,
    {
        let rebuild = self.need_to_update_swapchain;
        self.need_to_update_swapchain = false;
        rebuild
    }

    /// An image was acquired: a suboptimal one skips the frame and asks for a
    /// new swapchain. Returns whether the frame is drawn.
    pub fn image_acquired(&mut self, suboptimal: bool) -> (draw: bool)
        ensures
            draw == !suboptimal,
            final(self).need_to_update_swapchain == (old(self).need_to_update_swapchain || suboptimal),
    {
        if suboptimal {
            self.need_to_update_swapchain = true;
            return false;
        }
        true
    }

    /// The frame was submitted: an out-of-date swapchain is rebuilt before the
    /// next frame.
    pub fn frame_submitted(&mut self, out_of_date: bool)
        ensures
            final(self).need_to_update_swapchain == (old(self).need_to_update_swapchain || out_of_date),
    {
        if out_of_date {
            self.need_to_update_swapchain = true;
        }
    }
}

/// The positions among the first `n` entries of `s` that hold `flag`, in order.
pub open spec fn indices_with(s: Seq<bool>, flag: bool, n: nat) -> Seq<usize>
    decreases n,
{
    if n == 0 {
        Seq::empty()
    } else {
        let r = indices_with(s, flag, (n - 1) as nat);
        if s[n - 1] == flag {
            r.push((n - 1) as usize)
        } else {
            r
        }
    }
}

/// The static and the dynamic objects of a draw list (given by whether each is
/// static), as positions in the list, each part in list order.
pub fn split_static(is_static: &Vec<bool>) -> (r: (Vec<usize>, Vec<usize>))
    ensures
        r.0@ == indices_with(is_static@, true, is_static@.len()),
        r.1@ == indices_with(is_static@, false, is_static@.len()),
{
    let mut statics: Vec<usize> = Vec::new();
    let mut dynamics: Vec<usize> = Vec::new();
    let mut i: usize = 0;
    while i < is_static.len()
        invariant
            i <= is_static@.len(),
            statics@ == indices_with(is_static@, true, i as nat),
            dynamics@ == indices_with(is_static@, false, i as nat),
        decreases is_static@.len() - i,
    {
        if is_static[i] {
            statics.push(i);
        } else {
            dynamics.push(i);
        }
        i = i + 1;
    }
    (statics, dynamics)
}

/// Every object of the list is in exactly one of the two parts.
pub proof fn lemma_split_covers(s: Seq<bool>, n: nat, k: usize)
    requires
        n <= s.len(),
        n <= usize::MAX,
    ensures
        k < n ==> (indices_with(s, true, n).contains(k) <==> s[k as int]),
        k < n ==> (indices_with(s, false, n).contains(k) <==> !s[k as int]),
        k >= n ==> !indices_with(s, true, n).contains(k) && !indices_with(s, false, n).contains(k),
    decreases n,
{
    if n > 0 {
        lemma_split_covers(s, (n - 1) as nat, k);
        let a = indices_with(s, true, (n - 1) as nat);
        let b = indices_with(s, false, (n - 1) as nat);
        let last = (n - 1) as usize;
        if s[n - 1] {
            assert(indices_with(s, true, n) == a.push(last));
            assert(indices_with(s, false, n) == b);
            assert(a.push(last)[a.len() as int] == last);
            if a.push(last).contains(k) {
                let i = choose|i: int| 0 <= i < a.push(last).len() && a.push(last)[i] == k;
                if i < a.len() {
                    assert(a[i] == k);
                    assert(a.contains(k));
                }
            }
            if a.contains(k) {
                let i = choose|i: int| 0 <= i < a.len() && a[i] == k;
                assert(a.push(last)[i] == k);
            }
        } else {
            assert(indices_with(s, false, n) == b.push(last));
            assert(indices_with(s, true, n) == a);
            assert(b.push(last)[b.len() as int] == last);
            if b.push(last).contains(k) {
                let i = choose|i: int| 0 <= i < b.push(last).len() && b.push(last)[i] == k;
                if i < b.len() {
                    assert(b[i] == k);
                    assert(b.contains(k));
                }
            }
            if b.contains(k) {
                let i = choose|i: int| 0 <= i < b.len() && b[i] == k;
                assert(b.push(last)[i] == k);
            }
        }
    }
}

} // verus!
