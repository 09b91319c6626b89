//! Tests of TrueType contours as path commands (half font units).

use oxideav_scribe::face::{tt_outline_to_path, HalfPoint, OutlineCommand, TtContour, TtPoint};

fn on(x: i16, y: i16) -> TtPoint {
    TtPoint { x, y, on_curve: true }
}

fn off(x: i16, y: i16) -> TtPoint {
    TtPoint { x, y, on_curve: false }
}

fn hp(x: i32, y: i32) -> HalfPoint {
    HalfPoint { x, y }
}

#[test]
fn square_of_on_curve_points_is_lines() {
    let c = TtContour { points: vec![on(0, 0), on(10, 0), on(10, 10), on(0, 10)] };
    let cmds = tt_outline_to_path(&[c]);
    assert_eq!(
        cmds,
        vec![
            OutlineCommand::MoveTo(hp(0, 0)),
            OutlineCommand::LineTo(hp(20, 0)),
            OutlineCommand::LineTo(hp(20, 20)),
            OutlineCommand::LineTo(hp(0, 20)),
            OutlineCommand::Close,
        ]
    );
}

#[test]
fn walk_starts_at_first_on_curve_point() {
    // Control point first: the walk starts at the on-curve point and
    // the leading control point curves back to the start at the end.
    let c = TtContour { points: vec![off(5, 5), on(10, 0), on(0, 0)] };
    let cmds = tt_outline_to_path(&[c]);
    assert_eq!(
        cmds,
        vec![
            OutlineCommand::MoveTo(hp(20, 0)),
            OutlineCommand::LineTo(hp(0, 0)),
            OutlineCommand::QuadCurveTo { control: hp(10, 10), end: hp(20, 0) },
            OutlineCommand::Close,
        ]
    );
}

#[test]
fn consecutive_controls_imply_a_midpoint() {
    let c = TtContour { points: vec![on(0, 0), off(4, 8), off(8, 8), on(12, 0)] };
    let cmds = tt_outline_to_path(&[c]);
    assert_eq!(
        cmds,
        vec![
            OutlineCommand::MoveTo(hp(0, 0)),
            OutlineCommand::QuadCurveTo { control: hp(8, 16), end: hp(12, 16) },
            OutlineCommand::QuadCurveTo { control: hp(16, 16), end: hp(24, 0) },
            OutlineCommand::Close,
        ]
    );
}

#[test]
fn all_control_contour_starts_at_a_midpoint() {
    let c = TtContour { points: vec![off(0, 0), off(2, 0), off(2, 2)] };
    let cmds = tt_outline_to_path(&[c]);
    assert_eq!(
        cmds,
        vec![
            OutlineCommand::MoveTo(hp(2, 0)),
            OutlineCommand::QuadCurveTo { control: hp(0, 0), end: hp(2, 0) },
            OutlineCommand::QuadCurveTo { control: hp(4, 0), end: hp(4, 2) },
            OutlineCommand::QuadCurveTo { control: hp(4, 4), end: hp(2, 0) },
            OutlineCommand::Close,
        ]
    );
}

#[test]
fn empty_contours_draw_nothing_and_contours_concatenate() {
    assert!(tt_outline_to_path(&[]).is_empty());
    let empty = TtContour { points: vec![] };
    let a = TtContour { points: vec![on(1, 1)] };
    let cmds = tt_outline_to_path(&[empty, a.clone(), a]);
    assert_eq!(
        cmds,
        vec![
            OutlineCommand::MoveTo(hp(2, 2)),
            OutlineCommand::Close,
            OutlineCommand::MoveTo(hp(2, 2)),
            OutlineCommand::Close,
        ]
    );
}
