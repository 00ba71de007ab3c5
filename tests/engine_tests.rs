use fixed::types::I48F16;
use kinetic_engine::bezier::bezier_args;
use kinetic_engine::computed::Sample;
use kinetic_engine::engine::KineticEngine;
use kinetic_engine::geometry::{Circle, Group, Image, Point, Rect, Shape};
use kinetic_engine::interpolation::{locate, parse_easing, Easing, Segment};
use kinetic_engine::path::{BooleanOp, PathCommand, PathError, PathShape};
use kinetic_engine::physics::{circle_intersects_circle, circle_intersects_rect, resolve_collision};
use kinetic_engine::scalar::{FloatBits, Scalar};
use kinetic_engine::spatial::Quadtree;
use kinetic_engine::state::{
    insert_keyframe, reducer, Action, EngineState, Keyframe, Presence, Transform,
};
use kinetic_engine::validate::{validate_state, StateError};

fn s(v: f32) -> Scalar {
    Scalar::from_bits(I48F16::from_num(v).to_bits())
}

fn n(v: i32) -> Scalar {
    Scalar::from_int(v)
}

fn fb(v: f32) -> FloatBits {
    FloatBits::from_bits(v.to_bits())
}

fn rect(x: i32, y: i32, w: i32, h: i32) -> Rect {
    Rect::new(n(x), n(y), n(w), n(h))
}

fn kf(t: f32, v: f32, easing: &str) -> Keyframe {
    Keyframe { time: fb(t), value: fb(v), easing: easing.to_string() }
}

fn add(id: &str, shape: Shape) -> Action {
    Action::AddElement {
        id: id.to_string(),
        name: id.to_string(),
        shape,
        fill: "#ff0000".to_string(),
    }
}

fn run(actions: Vec<Action>) -> EngineState {
    let mut st = EngineState::new();
    for a in actions {
        reducer(&mut st, a);
    }
    st
}

#[test]
fn test_determinism() {
    let mut engine = KineticEngine::new();
    let id = "box1".to_string();
    engine.dispatch(Action::AddElement {
        id: id.clone(),
        name: id.clone(),
        shape: Shape::Rect(Rect::new(s(0.0), s(0.0), s(100.0), s(100.0))),
        fill: "#ff0000".to_string(),
    });
    engine.dispatch(Action::MoveElement { id: id.clone(), dx: s(10.5), dy: s(20.7) });
    let state_text = format!("{:?}", engine.get_state(&vec![vec![]]));

    let mut engine2 = KineticEngine::new();
    engine2.dispatch(Action::AddElement {
        id: id.clone(),
        name: id.clone(),
        shape: Shape::Rect(Rect::new(s(0.0), s(0.0), s(100.0), s(100.0))),
        fill: "#ff0000".to_string(),
    });
    engine2.dispatch(Action::MoveElement { id, dx: s(10.5), dy: s(20.7) });
    let state_text2 = format!("{:?}", engine2.get_state(&vec![vec![]]));

    assert_eq!(state_text, state_text2);
}

#[test]
fn translate_quantizes_offsets() {
    let st = run(vec![
        add("r", Shape::Rect(rect(0, 0, 100, 100))),
        Action::MoveElement { id: "r".to_string(), dx: s(10.5), dy: s(20.7) },
    ]);
    match &st.elements[0].shape {
        Shape::Rect(r) => {
            assert_eq!(r.origin.x.to_bits(), 688128);
            assert_eq!(r.origin.y.to_bits(), 1356595);
            assert_eq!(r.width.to_bits(), 100 * 65536);
        }
        _ => panic!("not a rect"),
    }
}

#[test]
fn circle_contains_by_squared_distance() {
    let c = Circle::new(n(50), n(50), n(10));
    assert!(c.contains(&Point::new(n(55), n(55))));
    assert!(!c.contains(&Point::new(n(60), n(60))));
    let shape = Shape::Circle(c);
    assert!(shape.contains_point(&Point::new(n(55), n(55))));
    assert!(!shape.contains_point(&Point::new(n(60), n(60))));
}

#[test]
fn circle_bounding_box_is_square_of_diameter() {
    let b = Circle::new(n(50), n(50), n(10)).get_bounding_box();
    assert_eq!(b, rect(40, 40, 20, 20));
}

#[test]
fn rect_contains_edges_and_intersects_touching() {
    let r = rect(0, 0, 10, 10);
    assert!(r.contains(&Point::new(n(10), n(10))));
    assert!(r.contains(&Point::new(n(0), n(5))));
    assert!(!r.contains(&Point::new(n(11), n(5))));
    assert!(r.intersects(&rect(10, 0, 5, 5)));
    assert!(!r.intersects(&rect(11, 0, 5, 5)));
}

#[test]
fn rect_resize_scales_and_clamps() {
    let mut r = rect(1, 2, 10, 20);
    r.resize(s(1.5));
    assert_eq!(r, rect(1, 2, 15, 30));
    r.resize(n(-2));
    assert_eq!(r.width.to_bits(), 0);
    assert_eq!(r.height.to_bits(), 0);
    assert_eq!(r.origin, Point::new(n(1), n(2)));
}

#[test]
fn scalar_arithmetic_saturates_and_rounds() {
    assert_eq!(n(3).mul(n(2)), n(6));
    assert_eq!(s(1.5).mul(s(1.5)), s(2.25));
    assert_eq!(n(7).sub(n(10)), n(-3));
    assert_eq!(n(7).add(n(10)), n(17));
    assert_eq!(Scalar::from_bits(7).half().to_bits(), 3);
    assert_eq!(Scalar::from_bits(-7).half().to_bits(), -3);
    assert_eq!(Scalar::from_bits(i64::MAX).add(n(1)).to_bits(), i64::MAX);
    assert_eq!(Scalar::from_bits(i64::MIN).sub(n(1)).to_bits(), i64::MIN);
    assert_eq!(Scalar::from_bits(i64::MAX).mul(n(2)).to_bits(), i64::MAX);
    assert_eq!(Scalar::from_bits(i64::MAX).mul(n(-2)).to_bits(), i64::MIN);
    assert_eq!(Scalar::from_bits(-1).mul(Scalar::from_bits(1)).to_bits(), -1);
}

#[test]
fn image_bounds_and_hit_test() {
    let img = Image { src: "a.png".to_string(), width: n(4), height: n(3), origin: Point::new(n(1), n(1)) };
    assert_eq!(img.get_bounding_box(), rect(1, 1, 4, 3));
    assert!(img.contains(&Point::new(n(5), n(4))));
    assert!(!img.contains(&Point::new(n(6), n(4))));
}

#[test]
fn group_has_zero_bounds_and_never_hits() {
    let g = Shape::Group(Group { children: vec!["a".to_string()] });
    assert_eq!(g.get_bounding_box(), rect(0, 0, 0, 0));
    assert!(!g.contains_point(&Point::new(n(0), n(0))));
}

#[test]
fn path_bounds_include_control_points() {
    let mut p = PathShape::new();
    p.move_to(n(10), n(10));
    p.cubic_to(n(0), n(50), n(40), n(-20), n(30), n(10));
    p.line_to(n(20), n(5));
    p.close();
    assert_eq!(p.get_bounds(), rect(0, -20, 40, 70));
    assert_eq!(PathShape::new().get_bounds(), rect(0, 0, 0, 0));
    let shape = Shape::Path(p);
    assert!(shape.contains_point(&Point::new(n(1), n(40))));
    assert!(!shape.contains_point(&Point::new(n(41), n(0))));
}

#[test]
fn path_translate_moves_every_point() {
    let mut p = PathShape::new();
    p.move_to(n(0), n(0));
    p.cubic_to(n(1), n(2), n(3), n(4), n(5), n(6));
    p.close();
    let mut shape = Shape::Path(p);
    shape.translate(n(10), n(100));
    match shape {
        Shape::Path(q) => {
            assert_eq!(q.commands[0], PathCommand::MoveTo(Point::new(n(10), n(100))));
            assert_eq!(
                q.commands[1],
                PathCommand::CurveTo(
                    Point::new(n(11), n(102)),
                    Point::new(n(13), n(104)),
                    Point::new(n(15), n(106))
                )
            );
            assert_eq!(q.commands[2], PathCommand::Close);
        }
        _ => panic!("not a path"),
    }
}

#[test]
fn path_combine_union_appends_and_others_fail() {
    let mut a = PathShape::new();
    a.move_to(n(0), n(0));
    let mut b = PathShape::new();
    b.line_to(n(1), n(1));
    b.close();
    assert_eq!(a.combine(&b, BooleanOp::Union), Ok(()));
    assert_eq!(a.commands.len(), 3);
    assert_eq!(a.commands[1], PathCommand::LineTo(Point::new(n(1), n(1))));
    assert_eq!(
        a.combine(&b, BooleanOp::Subtract),
        Err(PathError::UnsupportedOperation(BooleanOp::Subtract))
    );
    assert_eq!(
        a.combine(&b, BooleanOp::Intersect),
        Err(PathError::UnsupportedOperation(BooleanOp::Intersect))
    );
    assert_eq!(a.commands.len(), 3);
}

#[test]
fn locate_linear_midpoint_and_bounds() {
    let kfs = vec![kf(0.0, 0.0, "linear"), kf(1000.0, 100.0, "linear")];
    assert_eq!(locate(&kfs, fb(500.0)), Segment::Between(0, 1));
    assert_eq!(locate(&kfs, fb(0.0)), Segment::Hold(fb(0.0)));
    assert_eq!(locate(&kfs, fb(-5.0)), Segment::Hold(fb(0.0)));
    assert_eq!(locate(&kfs, fb(1000.0)), Segment::Hold(fb(100.0)));
    assert_eq!(locate(&kfs, fb(2000.0)), Segment::Hold(fb(100.0)));
    assert_eq!(locate(&vec![], fb(1.0)), Segment::Empty);
}

#[test]
fn locate_picks_earliest_enclosing_pair() {
    let kfs = vec![kf(0.0, 1.0, "linear"), kf(5.0, 2.0, "linear"), kf(5.0, 3.0, "linear"), kf(10.0, 4.0, "linear")];
    assert_eq!(locate(&kfs, fb(5.0)), Segment::Between(0, 1));
    assert_eq!(locate(&kfs, fb(7.0)), Segment::Between(2, 3));
}

#[test]
fn easing_names() {
    assert_eq!(parse_easing("linear"), Easing::Linear);
    assert_eq!(parse_easing("ease-in"), Easing::EaseIn);
    assert_eq!(parse_easing("ease-out"), Easing::EaseOut);
    assert_eq!(parse_easing("ease-in-out"), Easing::EaseInOut);
    assert_eq!(parse_easing("bounce"), Easing::Bounce);
    assert_eq!(parse_easing("elastic"), Easing::Elastic);
    assert_eq!(parse_easing("cubic-bezier(0.25,0.1,0.25,1.0)"), Easing::CubicBezier);
    assert_eq!(parse_easing("wobble"), Easing::Linear);
}

#[test]
fn add_element_twice_overwrites() {
    let st = run(vec![
        add("a", Shape::Rect(rect(0, 0, 1, 1))),
        add("a", Shape::Circle(Circle::new(n(5), n(5), n(2)))),
    ]);
    assert_eq!(st.elements.len(), 1);
    assert_eq!(st.elements[0].id, "a");
    assert!(matches!(st.elements[0].shape, Shape::Circle(_)));
    assert_eq!(st.elements[0].opacity, FloatBits::one());
    assert!(st.elements[0].visible);
}

#[test]
fn remove_element_drops_it_and_its_selection() {
    let mut st = run(vec![add("a", Shape::Rect(rect(0, 0, 1, 1))), add("b", Shape::Rect(rect(0, 0, 1, 1)))]);
    st.selection = vec!["a".to_string(), "b".to_string(), "a".to_string()];
    reducer(&mut st, Action::RemoveElement { id: "a".to_string() });
    assert_eq!(st.elements.len(), 1);
    assert_eq!(st.elements[0].id, "b");
    assert_eq!(st.selection, vec!["b".to_string()]);
}

#[test]
fn missing_targets_are_noops() {
    let mut st = run(vec![add("a", Shape::Rect(rect(0, 0, 1, 1)))]);
    let before = format!("{:?}", st);
    reducer(&mut st, Action::MoveElement { id: "gone".to_string(), dx: n(0), dy: n(0) });
    reducer(&mut st, Action::SetFill { id: "gone".to_string(), fill: "#000".to_string() });
    reducer(&mut st, Action::AddKeyframe { element_id: "gone".to_string(), property: "x".to_string(), keyframe: kf(1.0, 1.0, "linear") });
    assert_eq!(format!("{:?}", st), before);
}

#[test]
fn set_fill_time_view_and_playback() {
    let mut st = run(vec![add("a", Shape::Rect(rect(0, 0, 1, 1)))]);
    reducer(&mut st, Action::SetFill { id: "a".to_string(), fill: "#00ff00".to_string() });
    reducer(&mut st, Action::SetTime { time: fb(-20.0) });
    reducer(&mut st, Action::TogglePlayback);
    let t = Transform { x: fb(1.0), y: fb(2.0), scale: fb(3.0) };
    reducer(&mut st, Action::SetView { transform: t });
    assert_eq!(st.elements[0].fill, "#00ff00");
    assert_eq!(st.current_time, fb(-20.0));
    assert!(st.is_playing);
    assert_eq!(st.transform, t);
    reducer(&mut st, Action::TogglePlayback);
    assert!(!st.is_playing);
}

#[test]
fn presence_is_one_record_per_user() {
    let mut st = EngineState::new();
    let p = |c: i32, color: &str| Presence { user_id: "u1".to_string(), cursor: Point::new(n(c), n(c)), color: color.to_string() };
    reducer(&mut st, Action::UpdatePresence { presence: p(1, "red") });
    reducer(&mut st, Action::UpdatePresence { presence: p(2, "blue") });
    assert_eq!(st.presence.len(), 1);
    assert_eq!(st.presence[0].color, "blue");
    assert_eq!(st.presence[0].cursor, Point::new(n(2), n(2)));
}

#[test]
fn keyframes_stay_sorted_and_stable() {
    let mut st = run(vec![add("a", Shape::Rect(rect(0, 0, 1, 1)))]);
    for (t, v) in [(500.0, 1.0), (100.0, 2.0), (500.0, 3.0), (-1.0, 4.0), (300.0, 5.0)] {
        reducer(&mut st, Action::AddKeyframe { element_id: "a".to_string(), property: "x".to_string(), keyframe: kf(t, v, "linear") });
    }
    reducer(&mut st, Action::AddKeyframe { element_id: "a".to_string(), property: "y".to_string(), keyframe: kf(1.0, 1.0, "linear") });
    let anims = &st.elements[0].animations;
    assert_eq!(anims.len(), 2);
    assert_eq!(anims[0].property, "x");
    let values: Vec<f32> = anims[0].keyframes.iter().map(|k| f32::from_bits(k.value.bits)).collect();
    assert_eq!(values, vec![4.0, 2.0, 5.0, 1.0, 3.0]);
    assert_eq!(anims[1].keyframes.len(), 1);
}

#[test]
fn insert_keyframe_after_equal_times() {
    let mut kfs = vec![kf(0.0, 0.0, "linear"), kf(10.0, 1.0, "linear")];
    insert_keyframe(&mut kfs, kf(10.0, 2.0, "linear"));
    insert_keyframe(&mut kfs, kf(-0.0, 3.0, "linear"));
    let values: Vec<f32> = kfs.iter().map(|k| f32::from_bits(k.value.bits)).collect();
    assert_eq!(values, vec![0.0, 3.0, 1.0, 2.0]);
}

#[test]
fn computed_view_writes_samples() {
    let mut st = run(vec![
        add("a", Shape::Rect(rect(0, 0, 10, 10))),
        add("p", Shape::Path(PathShape::new())),
    ]);
    for prop in ["x", "opacity", "y", "spin"] {
        reducer(&mut st, Action::AddKeyframe { element_id: "a".to_string(), property: prop.to_string(), keyframe: kf(0.0, 1.0, "linear") });
    }
    reducer(&mut st, Action::AddKeyframe { element_id: "p".to_string(), property: "x".to_string(), keyframe: kf(0.0, 1.0, "linear") });
    let sample = |v: i32, o: f32| Sample { scalar: n(v), raw: fb(o) };
    let samples = vec![
        vec![sample(7, 7.0), sample(0, 0.5), sample(9, 9.0), sample(1, 1.0)],
        vec![sample(3, 3.0)],
    ];
    let computed = st.clone().get_computed_state(&samples);
    match &computed.elements[0].shape {
        Shape::Rect(r) => assert_eq!(*r, rect(7, 9, 10, 10)),
        _ => panic!("not a rect"),
    }
    assert_eq!(computed.elements[0].opacity, fb(0.5));
    assert_eq!(format!("{:?}", computed.elements[1]), format!("{:?}", st.elements[1]));
}

#[test]
fn quadtree_returns_all_ten_in_fixed_order() {
    let build = || {
        let mut q = Quadtree::new(rect(0, 0, 100, 100), 4);
        for i in 0..10 {
            let id = format!("r{}", i);
            assert!(q.insert(&id, &rect(i * 9, i * 9, 5, 5)));
        }
        q
    };
    let q = build();
    let mut found = Vec::new();
    q.query(&rect(0, 0, 100, 100), &mut found);
    assert_eq!(found.len(), 10);
    let mut sorted = found.clone();
    sorted.sort();
    let mut expected: Vec<String> = (0..10).map(|i| format!("r{}", i)).collect();
    expected.sort();
    assert_eq!(sorted, expected);
    let mut again = Vec::new();
    build().query(&rect(0, 0, 100, 100), &mut again);
    assert_eq!(found, again);
    assert_eq!(&found[..4], &["r0", "r1", "r2", "r3"]);
}

#[test]
fn quadtree_rejects_outside_and_finds_enclosed() {
    let mut q = Quadtree::new(rect(0, 0, 100, 100), 1);
    assert!(!q.insert("far", &rect(200, 200, 5, 5)));
    assert!(q.insert("a", &rect(10, 10, 5, 5)));
    assert!(q.insert("b", &rect(60, 60, 5, 5)));
    assert!(q.divided);
    let mut found = Vec::new();
    q.query(&rect(55, 55, 20, 20), &mut found);
    assert!(found.contains(&"b".to_string()));
    let mut none = Vec::new();
    q.query(&rect(300, 300, 1, 1), &mut none);
    assert!(none.is_empty());
    q.clear();
    assert!(!q.divided);
    assert!(q.elements.is_empty());
}

#[test]
fn engine_query_spatial_sees_elements() {
    let mut engine = KineticEngine::new();
    engine.dispatch(add("a", Shape::Rect(rect(0, 0, 10, 10))));
    engine.dispatch(add("b", Shape::Circle(Circle::new(n(-100), n(-100), n(5)))));
    let ids = engine.query_spatial(rect(-5000, -5000, 10000, 10000));
    assert_eq!(ids, vec!["a".to_string(), "b".to_string()]);
    engine.dispatch(Action::RemoveElement { id: "a".to_string() });
    let ids = engine.query_spatial(rect(-5000, -5000, 10000, 10000));
    assert_eq!(ids, vec!["b".to_string()]);
}

#[test]
fn resolve_collision_pushes_along_least_overlap() {
    let mut m = rect(8, 0, 10, 10);
    assert!(resolve_collision(&mut m, &rect(0, 0, 10, 10)));
    assert_eq!(m, rect(10, 0, 10, 10));
    let mut far = rect(50, 50, 1, 1);
    assert!(!resolve_collision(&mut far, &rect(0, 0, 10, 10)));
    assert_eq!(far, rect(50, 50, 1, 1));
}

#[test]
fn circle_collisions() {
    let a = Circle::new(n(0), n(0), n(5));
    assert!(circle_intersects_circle(&a, &Circle::new(n(10), n(0), n(5))));
    assert!(!circle_intersects_circle(&a, &Circle::new(n(11), n(0), n(5))));
    assert!(circle_intersects_rect(&a, &rect(3, 3, 10, 10)));
    assert!(!circle_intersects_rect(&a, &rect(4, 4, 10, 10)));
    assert!(circle_intersects_rect(&a, &rect(-1, -1, 2, 2)));
}

#[test]
fn deserialize_rejects_broken_states() {
    let good = run(vec![add("a", Shape::Rect(rect(0, 0, 1, 1))), add("b", Shape::Rect(rect(0, 0, 1, 1)))]);
    assert_eq!(validate_state(&good), Ok(()));

    let mut dup = good.clone();
    dup.elements[1].id = "a".to_string();
    assert_eq!(validate_state(&dup), Err(StateError::DuplicateId));

    let mut neg = good.clone();
    neg.elements[0].shape = Shape::Rect(rect(0, 0, -1, 1));
    assert_eq!(validate_state(&neg), Err(StateError::NegativeDimension));

    let mut cyc = good.clone();
    cyc.elements[0].parent_id = Some("b".to_string());
    assert_eq!(validate_state(&cyc), Ok(()));
    cyc.elements[1].parent_id = Some("a".to_string());
    assert_eq!(validate_state(&cyc), Err(StateError::CyclicParent));

    let mut dangling = good.clone();
    dangling.elements[0].parent_id = Some("zzz".to_string());
    assert_eq!(validate_state(&dangling), Ok(()));

    let mut unsorted = good.clone();
    reducer(&mut unsorted, Action::AddKeyframe { element_id: "a".to_string(), property: "x".to_string(), keyframe: kf(5.0, 1.0, "linear") });
    unsorted.elements[0].animations[0].keyframes.push(kf(1.0, 1.0, "linear"));
    assert_eq!(validate_state(&unsorted), Err(StateError::MalformedAnimation));

    let mut pres = good.clone();
    let p = Presence { user_id: "u".to_string(), cursor: Point::new(n(0), n(0)), color: "red".to_string() };
    pres.presence = vec![p.clone(), p];
    assert_eq!(validate_state(&pres), Err(StateError::DuplicatePresence));

    let mut engine = KineticEngine::new();
    engine.dispatch(add("x", Shape::Rect(rect(0, 0, 1, 1))));
    assert_eq!(engine.deserialize_state(dup), Err(StateError::DuplicateId));
    assert_eq!(engine.get_raw_state().elements[0].id, "x");
    assert_eq!(engine.deserialize_state(good), Ok(()));
    assert_eq!(engine.get_raw_state().elements.len(), 2);
    assert_eq!(engine.query_spatial(rect(0, 0, 1, 1)).len(), 2);
}

#[test]
fn engine_get_state_applies_samples_to_a_copy() {
    let mut engine = KineticEngine::new();
    engine.dispatch(add("a", Shape::Circle(Circle::new(n(1), n(2), n(3)))));
    engine.dispatch(Action::AddKeyframe { element_id: "a".to_string(), property: "y".to_string(), keyframe: kf(0.0, 1.0, "linear") });
    let view = engine.get_state(&vec![vec![Sample { scalar: n(40), raw: fb(40.0) }]]);
    match &view.elements[0].shape {
        Shape::Circle(c) => assert_eq!(*c, Circle::new(n(1), n(40), n(3))),
        _ => panic!("not a circle"),
    }
    match &engine.get_raw_state().elements[0].shape {
        Shape::Circle(c) => assert_eq!(*c, Circle::new(n(1), n(2), n(3))),
        _ => panic!("not a circle"),
    }
}

#[test]
fn duplicate_copies_every_value() {
    let mut st = run(vec![
        add("a", Shape::Group(Group { children: vec!["b".to_string()] })),
        add("b", Shape::Image(Image { src: "i.png".to_string(), width: n(1), height: n(2), origin: Point::new(n(3), n(4)) })),
    ]);
    st.selection = vec!["a".to_string()];
    reducer(&mut st, Action::AddKeyframe { element_id: "b".to_string(), property: "x".to_string(), keyframe: kf(3.0, 4.0, "bounce") });
    let copy = st.duplicate();
    assert_eq!(format!("{:?}", copy), format!("{:?}", st));
}

#[test]
fn engine_with_custom_index() {
    let mut engine = KineticEngine::with_index(rect(0, 0, 10, 10), 1);
    engine.dispatch(add("in", Shape::Rect(rect(1, 1, 1, 1))));
    engine.dispatch(add("out", Shape::Rect(rect(50, 50, 1, 1))));
    assert_eq!(engine.query_spatial(rect(0, 0, 10, 10)), vec!["in".to_string()]);
    assert_eq!(engine.rebuild_quadtree(), vec![true, false]);
}

#[test]
fn quadtree_query_is_coarse_for_boxes_spanning_quadrants() {
    let mut q = Quadtree::new(rect(0, 0, 100, 100), 1);
    assert!(q.insert("a", &rect(10, 10, 5, 5)));
    assert!(q.insert("big", &rect(0, 0, 100, 100)));
    let mut found = Vec::new();
    q.query(&rect(90, 90, 5, 5), &mut found);
    assert_eq!(found, vec!["a".to_string()]);
    let mut all = Vec::new();
    q.query(&rect(-1, -1, 102, 102), &mut all);
    assert_eq!(all, vec!["a".to_string(), "big".to_string()]);
}

fn texts(name: &str) -> Vec<String> {
    bezier_args(name).iter().map(|p| p.iter().collect()).collect()
}

#[test]
fn bezier_argument_texts() {
    assert_eq!(texts("cubic-bezier(0.25,0.1,0.25,1.0)"), vec!["0.25", "0.1", "0.25", "1.0"]);
    assert_eq!(texts("cubic-bezier( 0.42, 0 ,\t0.58 , 1 )"), vec!["0.42", "0", "0.58", "1"]);
    assert_eq!(texts("cubic-bezier(1,2)"), vec!["1", "2"]);
    assert_eq!(texts("cubic-bezier()"), vec![""]);
    assert_eq!(texts("cubic-bezier(1,,2)"), vec!["1", "", "2"]);
}

#[test]
fn quadtree_ten_boxes_come_back_in_order() {
    let mut q = Quadtree::new(rect(0, 0, 100, 100), 4);
    for i in 0..10 {
        assert!(q.insert(&format!("r{}", i), &rect(10 * i, 10 * i, 5, 5)));
    }
    let mut found = Vec::new();
    q.query(&rect(0, 0, 100, 100), &mut found);
    let expected: Vec<String> = (0..10).map(|i| format!("r{}", i)).collect();
    assert_eq!(found, expected);
}

#[test]
fn add_element_clamps_negative_sizes() {
    let st = run(vec![
        add("r", Shape::Rect(rect(1, 2, -3, 4))),
        add("c", Shape::Circle(Circle::new(n(0), n(0), n(-5)))),
        add("i", Shape::Image(Image { src: "x".to_string(), width: n(-1), height: n(-2), origin: Point::new(n(0), n(0)) })),
    ]);
    match &st.elements[0].shape {
        Shape::Rect(r) => assert_eq!(*r, rect(1, 2, 0, 4)),
        _ => panic!("not a rect"),
    }
    match &st.elements[1].shape {
        Shape::Circle(c) => assert_eq!(c.radius.to_bits(), 0),
        _ => panic!("not a circle"),
    }
    match &st.elements[2].shape {
        Shape::Image(i) => assert_eq!((i.width.to_bits(), i.height.to_bits()), (0, 0)),
        _ => panic!("not an image"),
    }
    assert_eq!(validate_state(&st), Ok(()));
}

#[test]
fn dispatched_state_round_trips_through_deserialize() {
    let mut e1 = KineticEngine::new();
    e1.dispatch(add("a", Shape::Rect(rect(0, 0, -10, 10))));
    e1.dispatch(add("b", Shape::Circle(Circle::new(n(30), n(30), n(3)))));
    e1.dispatch(Action::AddKeyframe { element_id: "a".to_string(), property: "x".to_string(), keyframe: kf(0.0, 1.0, "linear") });
    let mut e2 = KineticEngine::new();
    assert_eq!(e2.deserialize_state(e1.get_raw_state().duplicate()), Ok(()));
    assert_eq!(format!("{:?}", e2.get_raw_state()), format!("{:?}", e1.get_raw_state()));
    let all = rect(-5000, -5000, 10000, 10000);
    assert_eq!(e2.query_spatial(all), e1.query_spatial(all));
}

#[test]
fn new_engine_defaults() {
    let e = KineticEngine::new();
    let st = e.get_raw_state();
    assert!(st.elements.is_empty() && st.selection.is_empty() && st.presence.is_empty());
    assert_eq!(st.transform, Transform { x: fb(0.0), y: fb(0.0), scale: fb(1.0) });
    assert_eq!(st.current_time, fb(0.0));
    assert_eq!(st.duration, fb(5000.0));
    assert!(!st.is_playing);
    assert!(e.query_spatial(rect(-5000, -5000, 10000, 10000)).is_empty());
    assert_eq!(e.quadtree.bounds, rect(-5000, -5000, 10000, 10000));
    assert_eq!(e.quadtree.capacity, 4);
}
