//! Frustum culling decided from where the corners of a bounding box project.
use vstd::prelude::*;

verus! {

/// Where one corner of a bounding box lies after the model-view-projection
/// transform, with `(x, y, z, w)` its clip-space position.
#[derive(Clone, Copy, Debug, PartialEq, Eq, Structural)]
pub struct CornerClip {
    /// `w < 0`: the corner is behind the camera.
    pub behind: bool,
    /// `z / w > 1`: past the far plane.
    pub beyond_far: bool,
    /// `x / w < -1`
    pub left_of: bool,
    /// `x / w > 1`
    pub right_of: bool,
    /// `y / w < -1`
    pub below: bool,
    /// `y / w > 1`
    pub above: bool,
}

/// Every corner satisfies `p`.
pub open spec fn all_corners(s: Seq<CornerClip>, p: spec_fn(CornerClip) -> bool) -> bool {
    forall|i: int| 0 <= i < s.len() ==> p(#[trigger] s[i])
}

/// A figure is kept unless all its corners lie behind the camera, or all lie in
/// front of it and beyond one and the same plane of the view frustum. A figure
/// without corners is never kept.
pub open spec fn spec_figure_visible(s: Seq<CornerClip>) -> bool {
    !(all_corners(s, |c: CornerClip| c.behind)
        || all_corners(s, |c: CornerClip| !c.behind && c.left_of)
        || all_corners(s, |c: CornerClip| !c.behind && c.right_of)
        || all_corners(s, |c: CornerClip| !c.behind && c.above)
        || all_corners(s, |c: CornerClip| !c.behind && c.below)
        || all_corners(s, |c: CornerClip| !c.behind && c.beyond_far))
}

/// The corner lies in front of the camera and inside every plane of the view frustum.
pub open spec fn corner_inside(c: CornerClip) -> bool {
    !c.behind && !c.beyond_far && !c.left_of && !c.right_of && !c.below && !c.above
}

/// A figure with a corner inside the view frustum is kept, whatever its other
/// corners do.
pub proof fn lemma_inside_corner_keeps_figure(s: Seq<CornerClip>, i: int)
    requires
        0 <= i < s.len(),
        corner_inside(s[i]),
    ensures
        spec_figure_visible(s),
{
    assert(!s[i].behind);
    assert(!(!s[i].behind && s[i].left_of));
    assert(!(!s[i].behind && s[i].right_of));
    assert(!(!s[i].behind && s[i].above));
    assert(!(!s[i].behind && s[i].below));
    assert(!(!s[i].behind && s[i].beyond_far));
}

/// A figure is culled exactly when it has no corners, or every corner is
/// behind the camera, or every corner is in front of it and beyond one and the
/// same plane; in particular a culled figure has no corner inside the frustum,
/// and corners beyond different planes keep it.
pub proof fn lemma_culled_figure(s: Seq<CornerClip>)
    ensures
        s.len() == 0 ==> !spec_figure_visible(s),
        (forall|i: int| 0 <= i < s.len() ==> #[trigger] s[i].behind) ==> !spec_figure_visible(s),
        (forall|i: int| 0 <= i < s.len() ==> !#[trigger] s[i].behind && s[i].above) ==> !spec_figure_visible(s),
        (forall|i: int| 0 <= i < s.len() ==> !#[trigger] s[i].behind && s[i].below) ==> !spec_figure_visible(s),
        (forall|i: int| 0 <= i < s.len() ==> !#[trigger] s[i].behind && s[i].left_of) ==> !spec_figure_visible(s),
        (forall|i: int| 0 <= i < s.len() ==> !#[trigger] s[i].behind && s[i].right_of) ==> !spec_figure_visible(s),
        (forall|i: int| 0 <= i < s.len() ==> !#[trigger] s[i].behind && s[i].beyond_far) ==> !spec_figure_visible(s),
        !spec_figure_visible(s) ==> forall|i: int| 0 <= i < s.len() ==> !corner_inside(#[trigger] s[i]),
{
    if !spec_figure_visible(s) {
        assert forall|i: int| 0 <= i < s.len() implies !corner_inside(#[trigger] s[i]) by {
            if corner_inside(s[i]) {
                lemma_inside_corner_keeps_figure(s, i);
            }
        }
    }
}

/// Adding corners to a figure never culls it: a kept figure stays kept.
pub proof fn lemma_more_corners_keep_figure(s: Seq<CornerClip>, t: Seq<CornerClip>)
    requires
        spec_figure_visible(s),
    ensures
        spec_figure_visible(s + t),
{
    let u = s + t;
    assert forall|i: int| 0 <= i < s.len() implies #[trigger] u[i] == s[i] by {}
    if all_corners(u, |c: CornerClip| c.behind) {
        assert(all_corners(s, |c: CornerClip| c.behind)) by {
            assert forall|i: int| 0 <= i < s.len() implies (|c: CornerClip| c.behind)(#[trigger] s[i]) by {
                assert(u[i] == s[i]);
            }
        }
    }
    if all_corners(u, |c: CornerClip| !c.behind && c.left_of) {
        assert(all_corners(s, |c: CornerClip| !c.behind && c.left_of)) by {
            assert forall|i: int| 0 <= i < s.len() implies (|c: CornerClip| !c.behind && c.left_of)(#[trigger] s[i]) by {
                assert(u[i] == s[i]);
            }
        }
    }
    if all_corners(u, |c: CornerClip| !c.behind && c.right_of) {
        assert(all_corners(s, |c: CornerClip| !c.behind && c.right_of)) by {
            assert forall|i: int| 0 <= i < s.len() implies (|c: CornerClip| !c.behind && c.right_of)(#[trigger] s[i]) by {
                assert(u[i] == s[i]);
            }
        }
    }
    if all_corners(u, |c: CornerClip| !c.behind && c.above) {
        assert(all_corners(s, |c: CornerClip| !c.behind && c.above)) by {
            assert forall|i: int| 0 <= i < s.len() implies (|c: CornerClip| !c.behind && c.above)(#[trigger] s[i]) by {
                assert(u[i] == s[i]);
            }
        }
    }
    if all_corners(u, |c: CornerClip| !c.behind && c.below) {
        assert(all_corners(s, |c: CornerClip| !c.behind && c.below)) by {
            assert forall|i: int| 0 <= i < s.len() implies (|c: CornerClip| !c.behind && c.below)(#[trigger] s[i]) by {
                assert(u[i] == s[i]);
            }
        }
    }
    if all_corners(u, |c: CornerClip| !c.behind && c.beyond_far) {
        assert(all_corners(s, |c: CornerClip| !c.behind && c.beyond_far)) by {
            assert forall|i: int| 0 <= i < s.len() implies (|c: CornerClip| !c.behind && c.beyond_far)(#[trigger] s[i]) by {
                assert(u[i] == s[i]);
            }
        }
    }
}

/// Whether the figure whose corners project as given (through the model-view-
/// projection matrix) may be visible.
pub fn fast_check_figure_in_matrix(corners: &[CornerClip]) -> (r: bool)
    ensures
        r == spec_figure_visible(corners@),
        (exists|i: int| 0 <= i < corners@.len() && corner_inside(#[trigger] corners@[i])) ==> r,
        corners@.len() == 0 ==> !r,
        (forall|i: int| 0 <= i < corners@.len() ==> #[trigger] corners@[i].behind) ==> !r,
        (forall|i: int| 0 <= i < corners@.len() ==> !#[trigger] corners@[i].behind && corners@[i].above) ==> !r,
        (forall|i: int| 0 <= i < corners@.len() ==> !#[trigger] corners@[i].behind && corners@[i].below) ==> !r,
        (forall|i: int| 0 <= i < corners@.len() ==> !#[trigger] corners@[i].behind && corners@[i].left_of) ==> !r,
        (forall|i: int| 0 <= i < corners@.len() ==> !#[trigger] corners@[i].behind && corners@[i].right_of) ==> !r,
        (forall|i: int| 0 <= i < corners@.len() ==> !#[trigger] corners@[i].behind && corners@[i].beyond_far) ==> !r,
{
    let mut all_back = true;
    let mut all_left = true;
    let mut all_right = true;
    let mut all_top = true;
    let mut all_bottom = true;
    let mut all_front = true;
    let mut i: usize = 0;
    while i < corners.len()
        invariant
            i <= corners@.len(),
            all_back == all_corners(corners@.subrange(0, i as int), |c: CornerClip| c.behind),
            all_left == all_corners(corners@.subrange(0, i as int), |c: CornerClip| !c.behind && c.left_of),
            all_right == all_corners(corners@.subrange(0, i as int), |c: CornerClip| !c.behind && c.right_of),
            all_top == all_corners(corners@.subrange(0, i as int), |c: CornerClip| !c.behind && c.above),
            all_bottom == all_corners(corners@.subrange(0, i as int), |c: CornerClip| !c.behind && c.below),
            all_front == all_corners(corners@.subrange(0, i as int), |c: CornerClip| !c.behind && c.beyond_far),
        decreases corners@.len() - i,
    {
        let c = corners[i];
        let ghost prev = corners@.subrange(0, i as int);
        let ghost next = corners@.subrange(0, i as int + 1);
        assert(next =~= prev.push(c));
        if c.behind {
            all_left = false;
            all_right = false;
            all_top = false;
            all_bottom = false;
            all_front = false;
        } else {
            all_back = false;
            all_left = all_left && c.left_of;
            all_right = all_right && c.right_of;
            all_top = all_top && c.above;
            all_bottom = all_bottom && c.below;
            all_front = all_front && c.beyond_far;
        }
        proof {
            assert(next[i as int] == c);
            assert forall|p: spec_fn(CornerClip) -> bool| all_corners(next, p) == (all_corners(prev, p) && p(c)) by {
                if all_corners(prev, p) && p(c) {
                    assert forall|j: int| 0 <= j < next.len() implies p(#[trigger] next[j]) by {
                        if j < prev.len() {
                            assert(next[j] == prev[j]);
                        }
                    }
                }
                if all_corners(next, p) {
                    assert forall|j: int| 0 <= j < prev.len() implies p(#[trigger] prev[j]) by {
                        assert(next[j] == prev[j]);
                    }
                }
            }
        }
        i = i + 1;
    }
    assert(corners@.subrange(0, corners@.len() as int) =~= corners@);
    proof {
        lemma_culled_figure(corners@);
        if exists|i: int| 0 <= i < corners@.len() && corner_inside(#[trigger] corners@[i]) {
            let i = choose|i: int| 0 <= i < corners@.len() && corner_inside(#[trigger] corners@[i]);
            lemma_inside_corner_keeps_figure(corners@, i);
        }
    }
    !(all_back || all_left || all_right || all_top || all_bottom || all_front)
}

} // verus!
