use phystext::frames::{FrameAction, FrameScheduler, LoopEvent, LoopState};
use phystext::geometry::{
    project, Affine, Cuboid, Extent, Fragment, Matrix2, ObjectKind, PhysNode, Pose, RenderPose,
    ScreenBox,
};
use phystext::realm::{ConstructionError, Realm, Update};

const ONE: i64 = 1000000;

fn px(v: i64) -> i64 {
    v * ONE
}

fn word(id: u32, top: i64, left: i64, width: i64, height: i64) -> Fragment {
    Fragment {
        id,
        kind: ObjectKind::Dynamic,
        bounds: ScreenBox { top: px(top), left: px(left), width: px(width), height: px(height) },
    }
}

fn unrotated() -> Matrix2 {
    Matrix2 { m00: ONE, m01: 0, m10: 0, m11: ONE }
}

fn identity() -> Affine {
    Affine { a: ONE, b: 0, c: 0, d: ONE, e: 0, f: 0 }
}

fn container() -> Option<Extent> {
    Some(Extent { width: px(400), height: px(800) })
}

#[test]
fn one_word_scene_before_and_after_settling() {
    let realm = Realm::new(container(), &vec![word(0, 10, 20, 60, 20)]).unwrap();
    let poses = realm.initial_poses();
    let frame = realm.render_step(&poses);
    assert_eq!(
        frame,
        vec![Update { id: 0, pose: RenderPose { left: px(20), top: px(10), transform: identity() } }]
    );
    assert_eq!(frame[0].pose.style(), "position: absolute; left: 20px; top: 10px;");
    // resting on the ground: bottom edge on its top surface, one unit up
    let node = realm.phys_nodes[0];
    let rest = Pose { x: node.x, y: px(1) + node.half_height, rotation: unrotated() };
    let frame = realm.render_step(&vec![Some(rest)]);
    assert_eq!(frame[0].pose.top, px(800 - 1 - 20));
    assert_eq!(frame[0].pose.left, px(20));
    assert_eq!(frame[0].pose.style(), "position: absolute; left: 20px; top: 779px;");
}

#[test]
fn scene_geometry() {
    let realm = Realm::new(container(), &vec![word(0, 10, 20, 60, 20)]).unwrap();
    assert_eq!(
        realm.ground,
        Cuboid { x: px(200), y: 500000, half_width: px(200) - 1000, half_height: 499000 }
    );
    assert_eq!(
        realm.walls,
        vec![
            Cuboid { x: -500000, y: px(400), half_width: 499000, half_height: px(400) - 1000 },
            Cuboid { x: px(400) + 500000, y: px(400), half_width: 499000, half_height: px(400) - 1000 },
        ]
    );
    assert_eq!(
        realm.phys_nodes,
        vec![PhysNode {
            id: 0,
            kind: ObjectKind::Dynamic,
            half_width: px(30),
            half_height: px(10),
            x: px(50),
            y: px(780),
        }]
    );
    assert_eq!(
        realm.phys_nodes[0].collider(),
        Cuboid { x: px(50), y: px(780), half_width: px(30) - 1000, half_height: px(10) - 1000 }
    );
}

#[test]
fn missing_container() {
    let fs = vec![word(0, 10, 20, 60, 20)];
    assert_eq!(Realm::new(None, &fs).err(), Some(ConstructionError::MissingContainer));
    let flat = Some(Extent { width: px(400), height: 0 });
    assert_eq!(Realm::new(flat, &fs).err(), Some(ConstructionError::MissingContainer));
}

#[test]
fn zero_area_fragment_is_left_out() {
    let fs = vec![word(0, 10, 20, 60, 20), word(1, 10, 90, 0, 20), word(2, 40, 20, 30, 0), word(3, 40, 60, 10, 10)];
    let realm = Realm::new(container(), &fs).unwrap();
    let ids: Vec<u32> = realm.phys_nodes.iter().map(|n| n.id).collect();
    assert_eq!(ids, vec![0, 3]);
}

#[test]
fn ids_of_every_frame() {
    let fs: Vec<Fragment> = (0..5u32).map(|i| word(i, 10, 20 + 70 * i as i64, 60, 20)).collect();
    let realm = Realm::new(container(), &fs).unwrap();
    let mut poses = realm.initial_poses();
    for step in 0..3 {
        let frame = realm.render_step(&poses);
        let ids: Vec<u32> = frame.iter().map(|u| u.id).collect();
        assert_eq!(ids, vec![0, 1, 2, 3, 4]);
        for p in poses.iter_mut() {
            if let Some(p) = p {
                p.y -= px(step + 1);
            }
        }
    }
    poses[2] = None;
    let ids: Vec<u32> = realm.render_step(&poses).iter().map(|u| u.id).collect();
    assert_eq!(ids, vec![0, 1, 3, 4]);
}

#[test]
fn fixed_object_is_never_moved() {
    let mut button = word(1, 100, 20, 80, 30);
    button.kind = ObjectKind::Fixed;
    let realm = Realm::new(container(), &vec![word(0, 10, 20, 60, 20), button]).unwrap();
    let poses = realm.initial_poses();
    assert_eq!(poses[1], None);
    let moved = Pose { x: 0, y: 0, rotation: unrotated() };
    let frame = realm.render_step(&vec![Some(moved), Some(moved)]);
    let ids: Vec<u32> = frame.iter().map(|u| u.id).collect();
    assert_eq!(ids, vec![0]);
    assert_eq!(project(&realm.phys_nodes[1], Some(moved), px(800)), None);
}

#[test]
fn rotation_is_flipped_for_the_screen() {
    let node = PhysNode { id: 0, kind: ObjectKind::Dynamic, half_width: px(30), half_height: px(10), x: 0, y: 0 };
    // a quarter turn counter-clockwise: cos 0, sin 1
    let turned = Pose { x: px(50), y: px(780), rotation: Matrix2 { m00: 0, m01: -ONE, m10: ONE, m11: 0 } };
    let r = project(&node, Some(turned), px(800)).unwrap();
    // the screen's rotate(-90deg): matrix(cos, sin, -sin, cos) with sin = -1
    assert_eq!(r.transform, Affine { a: 0, b: -ONE, c: ONE, d: 0, e: 0, f: 0 });
    assert_eq!(r.left, px(20));
    assert_eq!(r.top, px(10));
    assert_eq!(
        r.transform_style(),
        "position: absolute; left: 20px; top: 10px; transform: matrix(0, -1, 1, 0, 0, 0);"
    );
    // a small turn: cos 0.8, sin 0.6
    let small = Pose { x: px(50), y: px(780), rotation: Matrix2 { m00: 800000, m01: -600000, m10: 600000, m11: 800000 } };
    let r = project(&node, Some(small), px(800)).unwrap();
    assert_eq!(r.transform, Affine { a: 800000, b: -600000, c: 600000, d: 800000, e: 0, f: 0 });
    assert_eq!(
        r.transform_style(),
        "position: absolute; left: 20px; top: 10px; transform: matrix(0.8, -0.6, 0.6, 0.8, 0, 0);"
    );
}

#[test]
fn no_body_no_update() {
    let node = PhysNode { id: 0, kind: ObjectKind::Dynamic, half_width: px(30), half_height: px(10), x: 0, y: 0 };
    assert_eq!(project(&node, None, px(800)), None);
}

#[test]
fn fractional_position_style() {
    let rp = RenderPose { left: 20500000, top: -1250000, transform: identity() };
    assert_eq!(rp.style(), "position: absolute; left: 20.5px; top: -1.25px;");
}

#[test]
fn scheduler_runs_until_cancelled() {
    let mut s = FrameScheduler::new();
    assert_eq!(s.state, LoopState::Idle);
    assert_eq!(s.on_event(LoopEvent::Frame), FrameAction::Nothing);
    assert_eq!(s.state, LoopState::Idle);
    assert_eq!(s.on_event(LoopEvent::Start), FrameAction::RequestFrame);
    assert_eq!(s.state, LoopState::Running);
    for _ in 0..3 {
        assert_eq!(s.on_event(LoopEvent::Frame), FrameAction::StepRenderAndRequest);
    }
    assert_eq!(s.on_event(LoopEvent::Start), FrameAction::Nothing);
    assert_eq!(s.on_event(LoopEvent::Cancel), FrameAction::Nothing);
    assert_eq!(s.state, LoopState::Terminated);
    assert_eq!(s.on_event(LoopEvent::Frame), FrameAction::Nothing);
    assert_eq!(s.on_event(LoopEvent::Start), FrameAction::Nothing);
    assert_eq!(s.state, LoopState::Terminated);
}

#[test]
fn scheduler_ends_on_unload() {
    let mut s = FrameScheduler::new();
    s.on_event(LoopEvent::Start);
    assert_eq!(s.on_event(LoopEvent::Unload), FrameAction::Nothing);
    assert_eq!(s.state, LoopState::Terminated);
    let mut idle = FrameScheduler::new();
    assert_eq!(idle.on_event(LoopEvent::Unload), FrameAction::Nothing);
    assert_eq!(idle.state, LoopState::Terminated);
}

#[test]
fn fixed_object_drawn_where_measured() {
    let mut button = word(1, 100, 20, 80, 30);
    button.kind = ObjectKind::Fixed;
    let realm = Realm::new(container(), &vec![word(0, 10, 20, 60, 20), button]).unwrap();
    let rp = realm.initial_render(1);
    assert_eq!(rp, RenderPose { left: px(20), top: px(100), transform: identity() });
    assert_eq!(rp.style(), "position: absolute; left: 20px; top: 100px;");
}

#[test]
fn round_trip_with_fractional_box() {
    let f = Fragment {
        id: 9,
        kind: ObjectKind::Dynamic,
        bounds: ScreenBox { top: 10250001, left: 3333333, width: 60000001, height: 19999999 },
    };
    let realm = Realm::new(container(), &vec![f]).unwrap();
    let frame = realm.render_step(&realm.initial_poses());
    assert_eq!(
        frame,
        vec![Update { id: 9, pose: RenderPose { left: 3333333, top: 10250001, transform: identity() } }]
    );
    assert_eq!(realm.initial_render(0), frame[0].pose);
}

#[test]
fn unchanged_poses_give_unchanged_frames() {
    let fs = vec![word(0, 10, 20, 60, 20), word(1, 40, 100, 30, 20)];
    let realm = Realm::new(container(), &fs).unwrap();
    let poses = realm.initial_poses();
    let first = realm.render_step(&poses);
    for _ in 0..10 {
        assert_eq!(realm.render_step(&poses), first);
    }
    assert_eq!(first[1].pose.left, px(100));
    assert_eq!(first[1].pose.top, px(40));
}
