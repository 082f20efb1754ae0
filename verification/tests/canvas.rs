use vizardra::canvas::CanvasInteraction;
use vizardra::object::{ObjectData, ObjectKind, PathPoint, Transform};
use vizardra::state::AppState;

fn pt(x: f32, y: f32) -> PathPoint {
    PathPoint { x: x.to_bits(), y: y.to_bits() }
}

fn boxed(x: f32, y: f32, w: f32, h: f32) -> Transform {
    Transform { x: x.to_bits(), y: y.to_bits(), width: w.to_bits(), height: h.to_bits(), ..Transform::default() }
}

fn object(id: &str, kind: ObjectKind) -> ObjectData {
    ObjectData::new(id.to_string(), kind)
}

fn path_with(id: &str, points: Vec<PathPoint>) -> ObjectData {
    let mut o = object(id, ObjectKind::Path);
    o.points = points;
    o
}

fn with_tool(tool: &str) -> AppState {
    let mut s = AppState::new();
    s.active_tool = tool.to_string();
    s
}

#[test]
fn default_interaction_is_idle() {
    let c = CanvasInteraction::default();
    assert!(!c.is_creating && !c.is_dragging && !c.is_drawing_path);
    assert!(c.create_kind.is_none());
    assert!(c.dragging_node.is_none());
    assert!(c.temp_draw_points.is_empty() && c.drag_points_start.is_empty());
    assert_eq!(c.drag_object_start, Transform::default());
}

#[test]
fn select_press_on_object_starts_drag() {
    let mut s = with_tool("select");
    let mut o = path_with("a", vec![pt(1.0, 2.0)]);
    o.transform = boxed(5.0, 6.0, 7.0, 8.0);
    s.document.add_object(o);
    let mut c = CanvasInteraction::default();
    s.handle_canvas_press(&mut c, pt(10.0, 11.0), Some("a".to_string()), None, "unused".to_string(), Transform::default());
    assert_eq!(s.selected_id.as_deref(), Some("a"));
    assert!(c.is_dragging);
    assert_eq!(c.drag_start, pt(10.0, 11.0));
    assert_eq!(c.drag_object_start, boxed(5.0, 6.0, 7.0, 8.0));
    assert_eq!(c.drag_points_start, vec![pt(1.0, 2.0)]);
    assert_eq!(s.document.objects.len(), 1);
    assert!(!s.can_undo());
}

#[test]
fn select_press_on_nothing_clears_selection() {
    let mut s = with_tool("select");
    s.document.add_object(object("a", ObjectKind::Rectangle));
    s.selected_id = Some("a".to_string());
    let mut c = CanvasInteraction::default();
    s.handle_canvas_press(&mut c, pt(0.0, 0.0), None, None, "unused".to_string(), Transform::default());
    assert!(s.selected_id.is_none());
    assert!(!c.is_dragging);
}

#[test]
fn node_press_on_point_starts_node_drag() {
    let mut s = with_tool("node");
    s.document.add_object(path_with("p", vec![pt(0.0, 0.0), pt(4.0, 4.0)]));
    s.selected_id = Some("p".to_string());
    let mut c = CanvasInteraction::default();
    s.handle_canvas_press(&mut c, pt(4.0, 4.0), Some("p".to_string()), Some(1), "unused".to_string(), Transform::default());
    assert_eq!(c.dragging_node, Some(1));
    assert_eq!(c.drag_points_start, vec![pt(0.0, 0.0), pt(4.0, 4.0)]);
    assert!(s.can_undo());
    assert_eq!(s.selected_id.as_deref(), Some("p"));
}

#[test]
fn node_press_elsewhere_selects_hit() {
    let mut s = with_tool("node");
    s.document.add_object(object("r", ObjectKind::Rectangle));
    s.document.add_object(path_with("p", vec![pt(0.0, 0.0)]));
    s.selected_id = Some("r".to_string());
    let mut c = CanvasInteraction::default();
    // The selection is no path, so a node hit does not count.
    s.handle_canvas_press(&mut c, pt(0.0, 0.0), Some("p".to_string()), Some(0), "unused".to_string(), Transform::default());
    assert_eq!(s.selected_id.as_deref(), Some("p"));
    assert!(c.dragging_node.is_none());
    assert!(!s.can_undo());
    s.handle_canvas_press(&mut c, pt(0.0, 0.0), None, None, "unused".to_string(), Transform::default());
    assert!(s.selected_id.is_none());
}

#[test]
fn shape_press_creates_and_starts_drag_out() {
    for (tool, kind) in [("rectangle", ObjectKind::Rectangle), ("text", ObjectKind::Text), ("image", ObjectKind::Image)] {
        let mut s = with_tool(tool);
        let mut c = CanvasInteraction::default();
        s.handle_canvas_press(&mut c, pt(3.0, 4.0), None, None, "new".to_string(), Transform::default());
        assert_eq!(s.document.objects.len(), 1);
        let o = &s.document.objects[0];
        assert_eq!(o.id, "new");
        assert_eq!(o.kind, kind);
        assert_eq!(o.transform, boxed(3.0, 4.0, 1.0, 1.0));
        assert_eq!(o.name, ObjectData::new("new".to_string(), kind).name);
        assert_eq!(s.selected_id.as_deref(), Some("new"));
        assert!(s.can_undo());
        assert!(c.is_creating);
        assert_eq!(c.create_start, pt(3.0, 4.0));
        assert_eq!(c.create_kind, Some(kind));
    }
}

#[test]
fn draw_press_starts_and_extends_stroke() {
    let mut s = with_tool("draw");
    let mut c = CanvasInteraction::default();
    c.temp_draw_points = vec![pt(9.0, 9.0)];
    s.handle_canvas_press(&mut c, pt(1.0, 1.0), None, None, "unused".to_string(), Transform::default());
    assert!(c.is_drawing_path);
    assert_eq!(c.temp_draw_points, vec![pt(1.0, 1.0)]);
    s.handle_canvas_press(&mut c, pt(2.0, 2.0), None, None, "unused".to_string(), Transform::default());
    assert_eq!(c.temp_draw_points, vec![pt(1.0, 1.0), pt(2.0, 2.0)]);
    assert!(s.document.objects.is_empty());
}

#[test]
fn pen_presses_build_a_path() {
    let mut s = with_tool("pen");
    let mut c = CanvasInteraction::default();
    s.handle_canvas_press(&mut c, pt(1.0, 2.0), None, None, "pen1".to_string(), boxed(1.0, 2.0, 1.0, 1.0));
    assert!(c.is_drawing_path);
    assert_eq!(s.selected_id.as_deref(), Some("pen1"));
    assert_eq!(s.document.objects[0].points, vec![pt(1.0, 2.0)]);
    assert_eq!(s.document.objects[0].transform, boxed(1.0, 2.0, 1.0, 1.0));
    s.handle_canvas_press(&mut c, pt(5.0, 8.0), None, None, "other".to_string(), boxed(1.0, 2.0, 4.0, 6.0));
    assert_eq!(s.document.objects.len(), 1);
    assert_eq!(s.document.objects[0].points, vec![pt(1.0, 2.0), pt(5.0, 8.0)]);
    assert_eq!(s.document.objects[0].transform, boxed(1.0, 2.0, 4.0, 6.0));
}

#[test]
fn other_tools_ignore_presses() {
    let mut s = with_tool("hand");
    let mut c = CanvasInteraction::default();
    s.handle_canvas_press(&mut c, pt(1.0, 2.0), Some("x".to_string()), Some(0), "n".to_string(), Transform::default());
    assert!(s.document.objects.is_empty());
    assert!(s.selected_id.is_none());
    assert!(!c.is_creating && !c.is_dragging && !c.is_drawing_path);
}

#[test]
fn finalize_without_drawing_does_nothing() {
    let mut s = with_tool("draw");
    let mut c = CanvasInteraction::default();
    c.temp_draw_points = vec![pt(0.0, 0.0), pt(1.0, 1.0)];
    s.finalize_path(&mut c, vec![pt(0.0, 0.0), pt(1.0, 1.0)], false, "n".to_string(), Transform::default());
    assert!(s.document.objects.is_empty());
    assert_eq!(c.temp_draw_points.len(), 2);
    assert_eq!(s.active_tool, "draw");
}

#[test]
fn finalize_drops_short_stroke() {
    let mut s = with_tool("draw");
    let mut c = CanvasInteraction::default();
    c.is_drawing_path = true;
    c.temp_draw_points = vec![pt(0.0, 0.0)];
    s.finalize_path(&mut c, vec![pt(0.0, 0.0), pt(1.0, 1.0)], false, "n".to_string(), Transform::default());
    assert!(s.document.objects.is_empty());
    assert!(!c.is_drawing_path);
    assert!(c.temp_draw_points.is_empty());
    assert_eq!(s.active_tool, "draw");
    assert!(!s.can_undo());
    // A stroke whose simplification keeps fewer than two points is dropped too.
    c.is_drawing_path = true;
    c.temp_draw_points = vec![pt(0.0, 0.0), pt(1.0, 1.0)];
    s.finalize_path(&mut c, vec![pt(0.0, 0.0)], false, "n".to_string(), Transform::default());
    assert!(s.document.objects.is_empty());
    assert!(c.temp_draw_points.is_empty());
}

#[test]
fn finalize_makes_open_stroke_path() {
    let mut s = with_tool("draw");
    let mut c = CanvasInteraction::default();
    c.is_drawing_path = true;
    c.temp_draw_points = vec![pt(0.0, 0.0), pt(1.0, 0.0), pt(2.0, 2.0)];
    let simplified = vec![pt(0.0, 0.0), pt(2.0, 2.0)];
    // Two points never close, whatever `closes` says.
    s.finalize_path(&mut c, simplified.clone(), true, "stroke".to_string(), boxed(0.0, 0.0, 2.0, 2.0));
    assert_eq!(s.document.objects.len(), 1);
    let o = &s.document.objects[0];
    assert_eq!(o.id, "stroke");
    assert_eq!(o.kind, ObjectKind::Path);
    assert_eq!(o.name, "Path");
    assert_eq!(o.points, simplified);
    assert!(!o.closed);
    assert_eq!(o.transform, boxed(0.0, 0.0, 2.0, 2.0));
    assert_eq!(s.selected_id.as_deref(), Some("stroke"));
    assert_eq!(s.active_tool, "select");
    assert!(s.can_undo());
    assert!(!c.is_drawing_path && c.temp_draw_points.is_empty());
}

#[test]
fn finalize_closes_stroke_and_drops_last_point() {
    let mut s = with_tool("draw");
    let mut c = CanvasInteraction::default();
    c.is_drawing_path = true;
    c.temp_draw_points = vec![pt(0.0, 0.0), pt(5.0, 0.0), pt(5.0, 5.0), pt(0.0, 0.5)];
    let simplified = vec![pt(0.0, 0.0), pt(5.0, 0.0), pt(5.0, 5.0), pt(0.0, 0.5)];
    s.finalize_path(&mut c, simplified, true, "loop".to_string(), boxed(0.0, 0.0, 5.0, 5.0));
    let o = &s.document.objects[0];
    assert!(o.closed);
    assert_eq!(o.points, vec![pt(0.0, 0.0), pt(5.0, 0.0), pt(5.0, 5.0)]);
    assert_eq!(s.active_tool, "select");
}

#[test]
fn finalize_pen_removes_one_point_path() {
    let mut s = with_tool("pen");
    s.document.add_object(path_with("p", vec![pt(1.0, 1.0)]));
    s.selected_id = Some("p".to_string());
    let mut c = CanvasInteraction::default();
    c.is_drawing_path = true;
    s.finalize_path(&mut c, vec![], false, "n".to_string(), Transform::default());
    assert!(s.document.objects.is_empty());
    assert!(s.selected_id.is_none());
    assert!(!c.is_drawing_path);
    assert_eq!(s.active_tool, "select");
}

#[test]
fn finalize_pen_fits_longer_path() {
    let mut s = with_tool("pen");
    s.document.add_object(path_with("p", vec![pt(1.0, 1.0), pt(3.0, 4.0)]));
    s.selected_id = Some("p".to_string());
    let mut c = CanvasInteraction::default();
    c.is_drawing_path = true;
    s.finalize_path(&mut c, vec![], false, "n".to_string(), boxed(1.0, 1.0, 2.0, 3.0));
    assert_eq!(s.document.objects.len(), 1);
    assert_eq!(s.document.objects[0].transform, boxed(1.0, 1.0, 2.0, 3.0));
    assert_eq!(s.selected_id.as_deref(), Some("p"));
    assert_eq!(s.active_tool, "select");
}

#[test]
fn escape_finishes_pen_path() {
    let mut s = with_tool("pen");
    let mut c = CanvasInteraction::default();
    s.handle_canvas_press(&mut c, pt(1.0, 2.0), None, None, "pen1".to_string(), boxed(1.0, 2.0, 1.0, 1.0));
    s.press_escape(&mut c, boxed(1.0, 2.0, 1.0, 1.0));
    // One point is no path: it is removed again.
    assert!(s.document.objects.is_empty());
    assert!(s.selected_id.is_none());
    assert!(!c.is_drawing_path);
    assert_eq!(s.active_tool, "select");
}

#[test]
fn escape_drops_freehand_stroke() {
    let mut s = with_tool("draw");
    let mut c = CanvasInteraction::default();
    c.is_drawing_path = true;
    c.temp_draw_points = vec![pt(0.0, 0.0), pt(1.0, 1.0), pt(2.0, 0.0)];
    s.press_escape(&mut c, Transform::default());
    assert!(!c.is_drawing_path);
    assert!(c.temp_draw_points.is_empty());
    assert!(s.document.objects.is_empty());
    assert_eq!(s.active_tool, "draw");
}

#[test]
fn escape_while_idle_does_nothing() {
    let mut s = with_tool("pen");
    s.document.add_object(path_with("p", vec![pt(1.0, 1.0)]));
    s.selected_id = Some("p".to_string());
    let mut c = CanvasInteraction::default();
    s.press_escape(&mut c, Transform::default());
    assert_eq!(s.document.objects.len(), 1);
    assert_eq!(s.active_tool, "pen");
}

#[test]
fn undo_after_stroke_restores_document() {
    let mut s = with_tool("draw");
    s.document.add_object(object("old", ObjectKind::Rectangle));
    let mut c = CanvasInteraction::default();
    c.is_drawing_path = true;
    c.temp_draw_points = vec![pt(0.0, 0.0), pt(3.0, 3.0)];
    s.finalize_path(&mut c, vec![pt(0.0, 0.0), pt(3.0, 3.0)], false, "stroke".to_string(), boxed(0.0, 0.0, 3.0, 3.0));
    assert_eq!(s.document.objects.len(), 2);
    s.undo();
    assert_eq!(s.document.objects.len(), 1);
    assert_eq!(s.document.objects[0].id, "old");
    assert!(s.selected_id.is_none());
}

#[test]
fn undo_after_pen_start_restores_document() {
    let mut s = with_tool("pen");
    let mut c = CanvasInteraction::default();
    s.handle_canvas_press(&mut c, pt(1.0, 2.0), None, None, "pen1".to_string(), boxed(1.0, 2.0, 1.0, 1.0));
    s.handle_canvas_press(&mut c, pt(3.0, 2.0), None, None, "unused".to_string(), boxed(1.0, 2.0, 2.0, 1.0));
    s.undo();
    assert!(s.document.objects.is_empty());
    assert!(s.selected_id.is_none());
}

#[test]
fn release_ends_node_and_object_drags() {
    let mut s = with_tool("node");
    let mut c = CanvasInteraction::default();
    c.dragging_node = Some(2);
    c.is_dragging = true;
    s.handle_canvas_release(&mut c, vec![], false, "n".to_string(), Transform::default(), false, (0, 0));
    assert!(c.dragging_node.is_none());
    assert!(!c.is_dragging);
    assert_eq!(s.active_tool, "node");
}

#[test]
fn release_finishes_shape_with_click_size() {
    let mut s = with_tool("rectangle");
    let mut c = CanvasInteraction::default();
    s.handle_canvas_press(&mut c, pt(3.0, 4.0), None, None, "r".to_string(), Transform::default());
    s.handle_canvas_release(&mut c, vec![], false, "n".to_string(), Transform::default(), true, (0, 0));
    let t = s.document.objects[0].transform;
    assert_eq!((t.width, t.height), (200.0f32.to_bits(), 150.0f32.to_bits()));
    assert!(!c.is_creating);
    assert!(c.create_kind.is_none());
    assert_eq!(s.active_tool, "select");
}

#[test]
fn release_keeps_dragged_size() {
    let mut s = with_tool("image");
    let mut c = CanvasInteraction::default();
    s.handle_canvas_press(&mut c, pt(0.0, 0.0), None, None, "i".to_string(), Transform::default());
    // The drag made it 30 by 40.
    s.document.objects[0].transform = boxed(0.0, 0.0, 30.0, 40.0);
    s.handle_canvas_release(&mut c, vec![], false, "n".to_string(), Transform::default(), false, (0, 0));
    assert_eq!(s.document.objects[0].transform, boxed(0.0, 0.0, 30.0, 40.0));
    assert_eq!(s.active_tool, "select");
}

#[test]
fn release_finishes_freehand_stroke() {
    let mut s = with_tool("draw");
    let mut c = CanvasInteraction::default();
    s.handle_canvas_press(&mut c, pt(0.0, 0.0), None, None, "n".to_string(), Transform::default());
    c.temp_draw_points.push(pt(4.0, 4.0));
    s.handle_canvas_release(&mut c, vec![pt(0.0, 0.0), pt(4.0, 4.0)], false, "s".to_string(), boxed(0.0, 0.0, 4.0, 4.0), false, (0, 0));
    assert_eq!(s.document.objects.len(), 1);
    assert_eq!(s.document.objects[0].points, vec![pt(0.0, 0.0), pt(4.0, 4.0)]);
    assert!(!c.is_drawing_path);
    assert_eq!(s.active_tool, "select");
}

#[test]
fn escape_and_finalize_agree_for_pen() {
    let setup = || {
        let mut s = with_tool("pen");
        s.document.add_object(path_with("p", vec![pt(1.0, 1.0), pt(2.0, 5.0)]));
        s.selected_id = Some("p".to_string());
        let mut c = CanvasInteraction::default();
        c.is_drawing_path = true;
        (s, c)
    };
    let (mut a, mut ca) = setup();
    let (mut b, mut cb) = setup();
    a.press_escape(&mut ca, boxed(1.0, 1.0, 1.0, 4.0));
    b.finalize_path(&mut cb, vec![pt(9.0, 9.0), pt(8.0, 8.0)], true, "n".to_string(), boxed(1.0, 1.0, 1.0, 4.0));
    assert_eq!(a.document.objects.len(), b.document.objects.len());
    assert_eq!(a.document.objects[0].transform, b.document.objects[0].transform);
    assert_eq!(a.document.objects[0].points, b.document.objects[0].points);
    assert_eq!(a.selected_id, b.selected_id);
    assert_eq!(a.active_tool, b.active_tool);
    assert_eq!(ca.is_drawing_path, cb.is_drawing_path);
    assert_eq!(a.document.objects[0].transform, boxed(1.0, 1.0, 1.0, 4.0));
}

#[test]
fn release_sizes_small_shapes_by_kind() {
    for (tool, kind, size) in [
        ("rectangle", ObjectKind::Rectangle, (200.0f32, 150.0f32)),
        ("image", ObjectKind::Image, (240.0, 180.0)),
        ("text", ObjectKind::Text, (37.0, 12.0)),
    ] {
        let mut s = with_tool(tool);
        let mut c = CanvasInteraction::default();
        s.handle_canvas_press(&mut c, pt(3.0, 4.0), None, None, "o".to_string(), Transform::default());
        s.handle_canvas_release(&mut c, vec![], false, "n".to_string(), Transform::default(), true, (37.0f32.to_bits(), 12.0f32.to_bits()));
        let o = &s.document.objects[0];
        assert_eq!(o.kind, kind);
        assert_eq!(o.transform, boxed(3.0, 4.0, size.0, size.1));
    }
}

#[test]
fn new_at_places_a_one_by_one_object() {
    let o = ObjectData::new_at("p".to_string(), ObjectKind::Path, pt(7.0, 8.0));
    assert_eq!(o.transform, boxed(7.0, 8.0, 1.0, 1.0));
    assert_eq!(o.kind, ObjectKind::Path);
    assert!(o.points.is_empty());
}

fn mv(s: &mut AppState, c: &mut CanvasInteraction, at: PathPoint, far_enough: bool) {
    s.handle_canvas_move(
        c,
        at,
        boxed(0.0, 0.0, 9.0, 9.0),
        boxed(1.0, 1.0, 5.0, 6.0),
        far_enough,
        pt(20.0, 30.0),
        vec![pt(21.0, 31.0), pt(22.0, 32.0)],
    );
}

#[test]
fn move_drags_a_node() {
    let mut s = with_tool("node");
    s.document.add_object(path_with("p", vec![pt(0.0, 0.0), pt(4.0, 4.0)]));
    s.selected_id = Some("p".to_string());
    let mut c = CanvasInteraction::default();
    c.dragging_node = Some(1);
    c.is_dragging = true;
    mv(&mut s, &mut c, pt(9.0, 9.0), true);
    let o = &s.document.objects[0];
    assert_eq!(o.points, vec![pt(0.0, 0.0), pt(9.0, 9.0)]);
    assert_eq!(o.transform, boxed(0.0, 0.0, 9.0, 9.0));
    // A node beyond the path's points leaves it alone.
    c.dragging_node = Some(5);
    mv(&mut s, &mut c, pt(1.0, 1.0), true);
    assert_eq!(s.document.objects[0].points, vec![pt(0.0, 0.0), pt(9.0, 9.0)]);
}

#[test]
fn move_resizes_shape_being_created() {
    let mut s = with_tool("rectangle");
    let mut c = CanvasInteraction::default();
    s.handle_canvas_press(&mut c, pt(1.0, 1.0), None, None, "r".to_string(), Transform::default());
    mv(&mut s, &mut c, pt(6.0, 7.0), true);
    assert_eq!(s.document.objects[0].transform, boxed(1.0, 1.0, 5.0, 6.0));
}

#[test]
fn move_samples_freehand_stroke() {
    let mut s = with_tool("draw");
    let mut c = CanvasInteraction::default();
    s.handle_canvas_press(&mut c, pt(0.0, 0.0), None, None, String::new(), Transform::default());
    mv(&mut s, &mut c, pt(0.5, 0.5), false);
    assert_eq!(c.temp_draw_points, vec![pt(0.0, 0.0)]);
    mv(&mut s, &mut c, pt(8.0, 8.0), true);
    assert_eq!(c.temp_draw_points, vec![pt(0.0, 0.0), pt(8.0, 8.0)]);
    assert!(s.document.objects.is_empty());
}

#[test]
fn move_drags_selected_object() {
    let mut s = with_tool("select");
    s.document.add_object(path_with("p", vec![pt(1.0, 1.0), pt(2.0, 2.0), pt(3.0, 3.0)]));
    s.document.add_object(object("r", ObjectKind::Rectangle));
    let mut c = CanvasInteraction::default();
    s.handle_canvas_press(&mut c, pt(1.0, 1.0), Some("p".to_string()), None, String::new(), Transform::default());
    mv(&mut s, &mut c, pt(2.0, 2.0), true);
    let o = &s.document.objects[0];
    assert_eq!((o.transform.x, o.transform.y), (20.0f32.to_bits(), 30.0f32.to_bits()));
    assert_eq!(o.points, vec![pt(21.0, 31.0), pt(22.0, 32.0), pt(3.0, 3.0)]);
    s.selected_id = Some("r".to_string());
    mv(&mut s, &mut c, pt(2.0, 2.0), true);
    let r = &s.document.objects[1];
    assert_eq!((r.transform.x, r.transform.y), (20.0f32.to_bits(), 30.0f32.to_bits()));
    assert!(r.points.is_empty());
}

#[test]
fn move_without_gesture_does_nothing() {
    let mut s = with_tool("select");
    s.document.add_object(object("r", ObjectKind::Rectangle));
    s.selected_id = Some("r".to_string());
    let mut c = CanvasInteraction::default();
    mv(&mut s, &mut c, pt(2.0, 2.0), true);
    assert_eq!(s.document.objects[0].transform, Transform::default());
}
