use dsge_vk::culling::{fast_check_figure_in_matrix, CornerClip};

fn corner(behind: bool, left_of: bool, right_of: bool, below: bool, above: bool, beyond_far: bool) -> CornerClip {
    CornerClip { behind, beyond_far, left_of, right_of, below, above }
}

#[test]
fn no_corners_is_culled() {
    assert!(!fast_check_figure_in_matrix(&[]));
}

#[test]
fn corners_inside_are_kept() {
    let inside = corner(false, false, false, false, false, false);
    assert!(fast_check_figure_in_matrix(&[inside, inside]));
}

#[test]
fn all_behind_is_culled() {
    let behind = corner(true, false, false, false, false, false);
    assert!(!fast_check_figure_in_matrix(&[behind, behind, behind]));
}

#[test]
fn all_beyond_one_plane_is_culled() {
    let left = corner(false, true, false, true, false, false);
    let left_above = corner(false, true, false, false, true, false);
    assert!(!fast_check_figure_in_matrix(&[left, left_above]));
    let far = corner(false, false, false, false, false, true);
    assert!(!fast_check_figure_in_matrix(&[far]));
    let right = corner(false, false, true, false, false, false);
    assert!(!fast_check_figure_in_matrix(&[right, right]));
}

#[test]
fn corners_beyond_different_planes_are_kept() {
    let left = corner(false, true, false, false, false, false);
    let right = corner(false, false, true, false, false, false);
    assert!(fast_check_figure_in_matrix(&[left, right]));
}

#[test]
fn behind_corners_count_for_no_plane() {
    let behind_left = corner(true, true, false, false, false, false);
    let left = corner(false, true, false, false, false, false);
    assert!(fast_check_figure_in_matrix(&[behind_left, left]));
}
