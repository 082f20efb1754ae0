use vstd::prelude::*;
use vstd::string::*;

use crate::document::{first_index, lacks_id, lemma_first_index, without_id, DocumentView};
use crate::object::{click_size, placed_object, spec_click_size, spec_tool_kind, tool_object_kind, ObjectData, ObjectKind, ObjectView, PathPoint, Transform, F32_150, F32_200, F32_ONE, F32_ZERO};
use crate::state::{
    edit_first, lemma_undo_reverts_edit, opt_text, spec_create, spec_edit_object, spec_edit_selected, spec_push_undo, spec_undo, with_document,
    AppState, AppStateView,
};
use crate::text::same_text;

verus! {

/// What the canvas remembers about a gesture in progress: a shape being
/// dragged out, an object or a path node being moved, or a path being drawn.
/// Positions are document coordinates as `f32` bit patterns.
#[derive(Debug)]
pub struct CanvasInteraction {
    pub is_creating: bool,
    pub create_start: PathPoint,
    pub create_kind: Option<ObjectKind>,
    pub is_dragging: bool,
    pub drag_start: PathPoint,
    pub drag_object_start: Transform,
    pub drag_points_start: Vec<PathPoint>,
    pub is_drawing_path: bool,
    pub temp_draw_points: Vec<PathPoint>,
    pub dragging_node: Option<usize>,
}

/// The value of a [`CanvasInteraction`].
#[verifier::ext_equal]
pub struct CanvasInteractionView {
    pub is_creating: bool,
    pub create_start: PathPoint,
    pub create_kind: Option<ObjectKind>,
    pub is_dragging: bool,
    pub drag_start: PathPoint,
    pub drag_object_start: Transform,
    pub drag_points_start: Seq<PathPoint>,
    pub is_drawing_path: bool,
    pub temp_draw_points: Seq<PathPoint>,
    pub dragging_node: Option<usize>,
}

impl View for CanvasInteraction {
    type V = CanvasInteractionView;

    open spec fn view(&self) -> CanvasInteractionView {
        CanvasInteractionView {
            is_creating: self.is_creating,
            create_start: self.create_start,
            create_kind: self.create_kind,
            is_dragging: self.is_dragging,
            drag_start: self.drag_start,
            drag_object_start: self.drag_object_start,
            drag_points_start: self.drag_points_start@,
            is_drawing_path: self.is_drawing_path,
            temp_draw_points: self.temp_draw_points@,
            dragging_node: self.dragging_node,
        }
    }
}

impl Default for CanvasInteraction {
    /// No gesture in progress.
    fn default() -> (c: Self)
        ensures
            c@ == (CanvasInteractionView {
                is_creating: false,
                create_start: PathPoint { x: F32_ZERO, y: F32_ZERO },
                create_kind: None,
                is_dragging: false,
                drag_start: PathPoint { x: F32_ZERO, y: F32_ZERO },
                drag_object_start: Transform {
                    x: F32_ZERO,
                    y: F32_ZERO,
                    width: F32_200,
                    height: F32_150,
                    rotation: F32_ZERO,
                    opacity: F32_ONE,
                },
                drag_points_start: Seq::empty(),
                is_drawing_path: false,
                temp_draw_points: Seq::empty(),
                dragging_node: None,
            }),
    {
        let c = CanvasInteraction {
            is_creating: false,
            create_start: PathPoint { x: F32_ZERO, y: F32_ZERO },
            create_kind: None,
            is_dragging: false,
            drag_start: PathPoint { x: F32_ZERO, y: F32_ZERO },
            drag_object_start: Transform::default(),
            drag_points_start: Vec::new(),
            is_drawing_path: false,
            temp_draw_points: Vec::new(),
            dragging_node: None,
        };
        proof {
            assert(c@.drag_points_start =~= Seq::<PathPoint>::empty());
            assert(c@.temp_draw_points =~= Seq::<PathPoint>::empty());
        }
        c
    }
}

/// `t` moved and resized to the box `bbox` (rotation and opacity kept).
pub open spec fn fit_transform(t: Transform, bbox: Transform) -> Transform {
    Transform { x: bbox.x, y: bbox.y, width: bbox.width, height: bbox.height, ..t }
}

/// Fits an object to the box `bbox`.
pub open spec fn fit_box(bbox: Transform) -> spec_fn(ObjectView) -> ObjectView {
    |o: ObjectView| ObjectView { transform: fit_transform(o.transform, bbox), ..o }
}

/// Adds the point `at` to a path and fits it to the box `bbox`.
pub open spec fn add_point_fit(at: PathPoint, bbox: Transform) -> spec_fn(ObjectView) -> ObjectView {
    |o: ObjectView| ObjectView { points: o.points.push(at), transform: fit_transform(o.transform, bbox), ..o }
}

/// Gives a path its points, whether it is closed, and the box `bbox`.
pub open spec fn path_shape(points: Seq<PathPoint>, closed: bool, bbox: Transform) -> spec_fn(ObjectView) -> ObjectView {
    |o: ObjectView| ObjectView { points, closed, transform: fit_transform(o.transform, bbox), ..o }
}

/// The index of the selected object, when it is a path.
pub open spec fn selected_path(s: AppStateView) -> Option<int> {
    match s.selected_id {
        Some(id) => match first_index(s.document.objects, id) {
            Some(i) => if s.document.objects[i].kind == ObjectKind::Path {
                Some(i)
            } else {
                None
            },
            None => None,
        },
        None => None,
    }
}

/// Pressing with the select tool: the hit object (the top-most visible one
/// under the pointer) is selected and starts being dragged from `at`; with
/// nothing hit the selection is cleared.
pub open spec fn press_select(s: AppStateView, c: CanvasInteractionView, at: PathPoint, hit: Option<Seq<char>>) -> (AppStateView, CanvasInteractionView) {
    match hit {
        Some(id) => (
            AppStateView { selected_id: Some(id), ..s },
            match first_index(s.document.objects, id) {
                Some(i) => CanvasInteractionView {
                    is_dragging: true,
                    drag_start: at,
                    drag_object_start: s.document.objects[i].transform,
                    drag_points_start: s.document.objects[i].points,
                    ..c
                },
                None => c,
            },
        ),
        None => (AppStateView { selected_id: None, ..s }, c),
    }
}

/// Pressing with the node tool: on a point (`node_hit`) of the selected path
/// that point starts being dragged, as an undoable step; otherwise the hit
/// object, or nothing, becomes the selection.
pub open spec fn press_node(s: AppStateView, c: CanvasInteractionView, hit: Option<Seq<char>>, node_hit: Option<usize>) -> (AppStateView, CanvasInteractionView) {
    match (selected_path(s), node_hit) {
        (Some(i), Some(n)) => (
            spec_push_undo(s),
            CanvasInteractionView {
                dragging_node: Some(n),
                drag_points_start: s.document.objects[i].points,
                ..c
            },
        ),
        _ => (AppStateView { selected_id: hit, ..s }, c),
    }
}

/// Pressing with a shape tool: a new object of `kind` with id `fresh_id`,
/// placed at `at` and one by one, is added as an undoable step and selected,
/// and it starts being dragged out from `at`.
pub open spec fn press_create(s: AppStateView, c: CanvasInteractionView, at: PathPoint, kind: ObjectKind, fresh_id: Seq<char>) -> (AppStateView, CanvasInteractionView) {
    (
        spec_create(s, placed_object(fresh_id, kind, at)),
        CanvasInteractionView { is_creating: true, create_start: at, create_kind: Some(kind), ..c },
    )
}

/// Pressing with the freehand tool: `at` is added to the stroke, which
/// starts afresh when none is being drawn.
pub open spec fn press_draw(c: CanvasInteractionView, at: PathPoint) -> CanvasInteractionView {
    CanvasInteractionView {
        is_drawing_path: true,
        temp_draw_points: if c.is_drawing_path {
            c.temp_draw_points.push(at)
        } else {
            seq![at]
        },
        ..c
    }
}

/// Pressing with the pen tool: with no path being drawn, a new path with id
/// `fresh_id` placed at `at` is added as an undoable step and selected, and
/// becomes the path being drawn; the point
/// `at` is added to that path, or else to the selected object, which is then
/// fitted to `bbox`.
pub open spec fn press_pen(s: AppStateView, c: CanvasInteractionView, at: PathPoint, fresh_id: Seq<char>, bbox: Transform) -> (AppStateView, CanvasInteractionView) {
    if !c.is_drawing_path {
        (
            spec_edit_object(spec_create(s, placed_object(fresh_id, ObjectKind::Path, at)), fresh_id, add_point_fit(at, bbox)),
            CanvasInteractionView { is_drawing_path: true, ..c },
        )
    } else {
        match s.selected_id {
            Some(id) => (spec_edit_object(s, id, add_point_fit(at, bbox)), c),
            None => (s, c),
        }
    }
}

/// The freehand tool's part of [`AppState::handle_canvas_press`].
fn press_with_draw(canvas: &mut CanvasInteraction, at: PathPoint)
    ensures
        final(canvas)@ == press_draw(old(canvas)@, at),
{
    let ghost c0 = canvas@;
    if !canvas.is_drawing_path {
        canvas.is_drawing_path = true;
        canvas.temp_draw_points = Vec::new();
    }
    canvas.temp_draw_points.push(at);
    proof {
        assert(canvas@.temp_draw_points =~= press_draw(c0, at).temp_draw_points);
        assert(canvas@ =~= press_draw(c0, at));
    }
}

/// Ending the pen path being drawn: the selected object, when it has fewer
/// than two points, is removed and the selection cleared; otherwise it is
/// fitted to the box `bbox`.
pub open spec fn finish_pen(s: AppStateView, bbox: Transform) -> AppStateView {
    match s.selected_id {
        Some(id) => match first_index(s.document.objects, id) {
            Some(i) => if s.document.objects[i].points.len() < 2 {
                AppStateView {
                    document: DocumentView { objects: without_id(s.document.objects, id), ..s.document },
                    selected_id: None,
                    ..s
                }
            } else {
                spec_edit_object(s, id, fit_box(bbox))
            },
            None => s,
        },
        None => s,
    }
}

/// Whether a finished stroke closes: it has more than two points and its
/// ends are close together (`closes`).
pub open spec fn stroke_closes(points: Seq<PathPoint>, closes: bool) -> bool {
    closes && points.len() > 2
}

/// The points a finished stroke keeps: all of them, or all but the last when
/// the stroke closes.
pub open spec fn stroke_points(points: Seq<PathPoint>, closes: bool) -> Seq<PathPoint> {
    if stroke_closes(points, closes) {
        points.drop_last()
    } else {
        points
    }
}

/// Turning the simplified stroke `points` into a path: a new path with id
/// `fresh_id`, placed at the first point, is added as an undoable step and
/// selected, then given the stroke's points, whether it closes, and the box
/// `bbox`; the select tool becomes active.
pub open spec fn stroke_path(s: AppStateView, points: Seq<PathPoint>, closes: bool, fresh_id: Seq<char>, bbox: Transform) -> AppStateView {
    AppStateView {
        active_tool: "select"@,
        ..spec_edit_object(
            spec_create(s, placed_object(fresh_id, ObjectKind::Path, points[0])),
            fresh_id,
            path_shape(stroke_points(points, closes), stroke_closes(points, closes), bbox),
        )
    }
}

/// A stroke no longer being drawn, with its points dropped.
pub open spec fn stroke_dropped(c: CanvasInteractionView) -> CanvasInteractionView {
    CanvasInteractionView { is_drawing_path: false, temp_draw_points: Seq::empty(), ..c }
}

/// Ending the stroke or path being drawn (see [`AppState::finalize_path`]):
/// the state and the gesture afterwards.
pub open spec fn finish_drawing(
    s: AppStateView,
    c: CanvasInteractionView,
    simplified: Seq<PathPoint>,
    closes: bool,
    fresh_id: Seq<char>,
    bbox: Transform,
) -> (AppStateView, CanvasInteractionView) {
    if !c.is_drawing_path {
        (s, c)
    } else if s.active_tool == "draw"@ {
        if c.temp_draw_points.len() < 2 || simplified.len() < 2 {
            (s, stroke_dropped(c))
        } else {
            (stroke_path(s, simplified, closes, fresh_id, bbox), stroke_dropped(c))
        }
    } else {
        (AppStateView { active_tool: "select"@, ..finish_pen(s, bbox) }, CanvasInteractionView { is_drawing_path: false, ..c })
    }
}

/// The Escape key while a path is drawn (see [`AppState::press_escape`]):
/// the state and the gesture afterwards.
pub open spec fn escape_drawing(s: AppStateView, c: CanvasInteractionView, bbox: Transform) -> (AppStateView, CanvasInteractionView) {
    if !c.is_drawing_path {
        (s, c)
    } else if s.active_tool == "pen"@ {
        (AppStateView { active_tool: "select"@, ..finish_pen(s, bbox) }, CanvasInteractionView { is_drawing_path: false, ..c })
    } else {
        (s, stroke_dropped(c))
    }
}

/// The size a shape of `kind` takes when it came out too small: the size a
/// click gives that kind, or for text `text_size`, its measured size.
pub open spec fn release_size(kind: ObjectKind, text_size: (u32, u32)) -> (u32, u32) {
    match spec_click_size(kind) {
        Some(size) => size,
        None => text_size,
    }
}

/// `points` with each of its first points replaced by the point at the same
/// place in `shifted`, as far as `shifted` reaches.
pub open spec fn overlay(points: Seq<PathPoint>, shifted: Seq<PathPoint>) -> Seq<PathPoint> {
    Seq::new(points.len(), |i: int| if i < shifted.len() { shifted[i] } else { points[i] })
}

/// Moves point `n` of a path, when it has one, to `at` and fits the path to
/// the box `bbox`.
pub open spec fn node_moved(n: usize, at: PathPoint, bbox: Transform) -> spec_fn(ObjectView) -> ObjectView {
    |o: ObjectView| if n < o.points.len() {
        ObjectView { points: o.points.update(n as int, at), transform: fit_transform(o.transform, bbox), ..o }
    } else {
        o
    }
}

/// Moves an object's position to `to`; a path also takes the points
/// `shifted` (its points at the start of the drag, moved along).
pub open spec fn dragged(to: PathPoint, shifted: Seq<PathPoint>) -> spec_fn(ObjectView) -> ObjectView {
    |o: ObjectView| ObjectView {
        transform: Transform { x: to.x, y: to.y, ..o.transform },
        points: if o.kind == ObjectKind::Path {
            overlay(o.points, shifted)
        } else {
            o.points
        },
        ..o
    }
}

/// The pointer moving to the document point `at` on the canvas (see
/// [`AppState::handle_canvas_move`]): the state and the gesture afterwards.
pub open spec fn move_gesture(
    s: AppStateView,
    c: CanvasInteractionView,
    at: PathPoint,
    node_box: Transform,
    create_box: Transform,
    far_enough: bool,
    drag_to: PathPoint,
    shifted: Seq<PathPoint>,
) -> (AppStateView, CanvasInteractionView) {
    match c.dragging_node {
        Some(n) => (spec_edit_selected(s, node_moved(n, at, node_box)), c),
        None => if c.is_creating {
            (spec_edit_selected(s, fit_box(create_box)), c)
        } else if c.is_drawing_path && s.active_tool == "draw"@ {
            (s, if far_enough {
                CanvasInteractionView { temp_draw_points: c.temp_draw_points.push(at), ..c }
            } else {
                c
            })
        } else if c.is_dragging {
            (spec_edit_selected(s, dragged(drag_to, shifted)), c)
        } else {
            (s, c)
        },
    }
}

/// Gives an object the width `w` and height `h`.
pub open spec fn sized(w: u32, h: u32) -> spec_fn(ObjectView) -> ObjectView {
    |o: ObjectView| ObjectView { transform: Transform { width: w, height: h, ..o.transform }, ..o }
}

/// Replaces each point of `points` by the point at the same place in
/// `shifted`, as far as `shifted` reaches.
fn overlay_points(points: &mut Vec<PathPoint>, shifted: &Vec<PathPoint>)
    ensures
        final(points)@ == overlay(old(points)@, shifted@),
{
    let ghost given = points@;
    let n = points.len();
    let mut i: usize = 0;
    while i < n
        invariant
            n == given.len(),
            points@.len() == n,
            i <= n,
            forall|j: int| 0 <= j < i ==> points@[j] == overlay(given, shifted@)[j],
            forall|j: int| i <= j < n ==> points@[j] == given[j],
        decreases n - i,
    {
        if i < shifted.len() {
            points.set(i, shifted[i]);
        }
        i = i + 1;
    }
    proof {
        assert(points@ =~= overlay(given, shifted@));
    }
}

impl AppState {
    /// A press of the primary button on the canvas at the document point
    /// `tool_at`, acted on according to the active tool. The geometry is
    /// worked out by the caller: `hit` is the top-most visible object under
    /// the pointer, `node_hit` the first point of the selected path within
    /// reach of the pointer, `fresh_id` the id of the object a shape or pen
    /// tool creates (at the pointer, one by one), and `bbox` the box the pen
    /// path fits after the point is added. Other tools do nothing.
    pub fn handle_canvas_press(
        &mut self,
        canvas: &mut CanvasInteraction,
        tool_at: PathPoint,
        hit: Option<String>,
        node_hit: Option<usize>,
        fresh_id: String,
        bbox: Transform,
    )
        ensures
            old(self)@.active_tool == "select"@ ==> final(self)@ == press_select(old(self)@, old(canvas)@, tool_at, opt_text(hit)).0
                && final(canvas)@ == press_select(old(self)@, old(canvas)@, tool_at, opt_text(hit)).1,
            old(self)@.active_tool == "node"@ ==> final(self)@ == press_node(old(self)@, old(canvas)@, opt_text(hit), node_hit).0
                && final(canvas)@ == press_node(old(self)@, old(canvas)@, opt_text(hit), node_hit).1,
            spec_tool_kind(old(self)@.active_tool) matches Some(kind) ==> final(self)@ == press_create(
                old(self)@,
                old(canvas)@,
                tool_at,
                kind,
                fresh_id@,
            ).0 && final(canvas)@ == press_create(old(self)@, old(canvas)@, tool_at, kind, fresh_id@).1,
            old(self)@.active_tool == "draw"@ ==> final(self)@ == old(self)@ && final(canvas)@ == press_draw(old(canvas)@, tool_at),
            old(self)@.active_tool == "pen"@ ==> final(self)@ == press_pen(old(self)@, old(canvas)@, tool_at, fresh_id@, bbox).0
                && final(canvas)@ == press_pen(old(self)@, old(canvas)@, tool_at, fresh_id@, bbox).1,
            old(self)@.active_tool != "select"@ && old(self)@.active_tool != "node"@ && spec_tool_kind(old(self)@.active_tool) is None
                && old(self)@.active_tool != "draw"@ && old(self)@.active_tool != "pen"@
                ==> final(self)@ == old(self)@ && final(canvas)@ == old(canvas)@,
    {
        proof {
            reveal_strlit("select");
            reveal_strlit("node");
            reveal_strlit("rectangle");
            reveal_strlit("text");
            reveal_strlit("image");
            reveal_strlit("draw");
            reveal_strlit("pen");
            assert("node"@[0] != "select"@[0]);
            assert("draw"@[0] != "select"@[0]);
            assert("pen"@[0] != "select"@[0]);
        }
        let kind = tool_object_kind(self.active_tool.as_str());
        if same_text(self.active_tool.as_str(), "select") {
            self.press_with_select(canvas, tool_at, hit);
        } else if same_text(self.active_tool.as_str(), "node") {
            self.press_with_node(canvas, hit, node_hit);
        } else if let Some(kind) = kind {
            self.create_object(ObjectData::new_at(fresh_id, kind, tool_at));
            canvas.is_creating = true;
            canvas.create_start = tool_at;
            canvas.create_kind = Some(kind);
        } else if same_text(self.active_tool.as_str(), "draw") {
            press_with_draw(canvas, tool_at);
        } else if same_text(self.active_tool.as_str(), "pen") {
            self.press_with_pen(canvas, tool_at, fresh_id, bbox);
        }
    }

    /// The select tool's part of [`AppState::handle_canvas_press`].
    fn press_with_select(&mut self, canvas: &mut CanvasInteraction, at: PathPoint, hit: Option<String>)
        ensures
            final(self)@ == press_select(old(self)@, old(canvas)@, at, opt_text(hit)).0,
            final(canvas)@ == press_select(old(self)@, old(canvas)@, at, opt_text(hit)).1,
    {
        let ghost s0 = self@;
        let ghost c0 = canvas@;
        match hit {
            Some(id) => {
                proof {
                    lemma_first_index(s0.document.objects, id@);
                }
                match self.document.get_object(id.as_str()) {
                    Some(obj) => {
                        canvas.is_dragging = true;
                        canvas.drag_start = at;
                        canvas.drag_object_start = obj.transform;
                        canvas.drag_points_start = obj.points.clone();
                        proof {
                            assert(canvas.drag_points_start@ =~= obj.points@);
                        }
                    },
                    None => {},
                }
                self.selected_id = Some(id);
                proof {
                    let expected = press_select(s0, c0, at, Some(id@));
                    assert(self@ =~= expected.0);
                    assert(canvas@ =~= expected.1);
                }
            },
            None => {
                self.selected_id = None;
                proof {
                    assert(self@ =~= press_select(s0, c0, at, None).0);
                }
            },
        }
    }

    /// The node tool's part of [`AppState::handle_canvas_press`].
    fn press_with_node(&mut self, canvas: &mut CanvasInteraction, hit: Option<String>, node_hit: Option<usize>)
        ensures
            final(self)@ == press_node(old(self)@, old(canvas)@, opt_text(hit), node_hit).0,
            final(canvas)@ == press_node(old(self)@, old(canvas)@, opt_text(hit), node_hit).1,
    {
        let ghost s0 = self@;
        let ghost c0 = canvas@;
        let mut started = false;
        if let Some(n) = node_hit {
            if let Some(id) = &self.selected_id {
                proof {
                    lemma_first_index(s0.document.objects, id@);
                }
                match self.document.get_object(id.as_str()) {
                    Some(obj) => {
                        if obj.kind == ObjectKind::Path {
                            canvas.dragging_node = Some(n);
                            canvas.drag_points_start = obj.points.clone();
                            proof {
                                assert(canvas.drag_points_start@ =~= obj.points@);
                                assert(canvas@ =~= press_node(s0, c0, opt_text(hit), node_hit).1);
                            }
                            started = true;
                        }
                    },
                    None => {},
                }
            }
        }
        proof {
            assert(started <==> (selected_path(s0) is Some && node_hit is Some));
            if !started {
                assert(canvas@ =~= c0);
            }
        }
        if started {
            self.push_undo();
        } else {
            self.selected_id = hit;
            proof {
                assert(self@ =~= press_node(s0, c0, opt_text(hit), node_hit).0);
            }
        }
    }

    /// The pen tool's part of [`AppState::handle_canvas_press`].
    fn press_with_pen(&mut self, canvas: &mut CanvasInteraction, at: PathPoint, fresh_id: String, bbox: Transform)
        ensures
            final(self)@ == press_pen(old(self)@, old(canvas)@, at, fresh_id@, bbox).0,
            final(canvas)@ == press_pen(old(self)@, old(canvas)@, at, fresh_id@, bbox).1,
    {
        let ghost s0 = self@;
        let ghost c0 = canvas@;
        if !canvas.is_drawing_path {
            let id = fresh_id.clone();
            self.create_object(ObjectData::new_at(fresh_id, ObjectKind::Path, at));
            canvas.is_drawing_path = true;
            self.add_path_point(id.as_str(), at, bbox);
            proof {
                assert(canvas@ =~= press_pen(s0, c0, at, fresh_id@, bbox).1);
            }
        } else {
            match self.selected_id.clone() {
                Some(id) => self.add_path_point(id.as_str(), at, bbox),
                None => {},
            }
        }
    }

    /// Ends the stroke or path being drawn, if any. With the freehand tool
    /// the stroke's points are dropped; a stroke of two points or more whose
    /// simplification (`simplified`, worked out by the caller) keeps two
    /// points or more becomes a path with id `fresh_id` placed at its first
    /// point, closed when it has
    /// more than two points and `closes` says its ends meet, in which case its
    /// last point is dropped; `bbox` is the box of the points it keeps. With
    /// the pen tool the path being drawn is removed when it has fewer than
    /// two points, else fitted to `bbox`. Every path that is made or finished
    /// leaves the select tool active.
    pub fn finalize_path(
        &mut self,
        canvas: &mut CanvasInteraction,
        simplified: Vec<PathPoint>,
        closes: bool,
        fresh_id: String,
        bbox: Transform,
    )
        ensures
            final(self)@ == finish_drawing(old(self)@, old(canvas)@, simplified@, closes, fresh_id@, bbox).0,
            final(canvas)@ == finish_drawing(old(self)@, old(canvas)@, simplified@, closes, fresh_id@, bbox).1,
            !old(canvas)@.is_drawing_path ==> final(self)@ == old(self)@ && final(canvas)@ == old(canvas)@,
            old(canvas)@.is_drawing_path && old(self)@.active_tool == "draw"@ ==> final(canvas)@ == stroke_dropped(old(canvas)@),
            old(canvas)@.is_drawing_path && old(self)@.active_tool == "draw"@ && (old(canvas)@.temp_draw_points.len() < 2
                || simplified@.len() < 2) ==> final(self)@ == old(self)@,
            old(canvas)@.is_drawing_path && old(self)@.active_tool == "draw"@ && old(canvas)@.temp_draw_points.len() >= 2
                && simplified@.len() >= 2 ==> final(self)@ == stroke_path(old(self)@, simplified@, closes, fresh_id@, bbox),
            old(canvas)@.is_drawing_path && old(self)@.active_tool != "draw"@ ==> final(self)@ == (AppStateView {
                active_tool: "select"@,
                ..finish_pen(old(self)@, bbox)
            }) && final(canvas)@ == (CanvasInteractionView { is_drawing_path: false, ..old(canvas)@ }),
            old(canvas)@.is_drawing_path && (old(self)@.active_tool != "draw"@ || (old(canvas)@.temp_draw_points.len() >= 2
                && simplified@.len() >= 2)) ==> final(self)@.active_tool == "select"@,
            old(canvas)@.is_drawing_path && old(self)@.active_tool == "draw"@ && old(canvas)@.temp_draw_points.len() >= 2
                && simplified@.len() >= 2 && lacks_id(old(self)@.document.objects, fresh_id@) ==> {
                let o = final(self)@.document.objects.last();
                &&& final(self)@.document.objects.len() == old(self)@.document.objects.len() + 1
                &&& o.id == fresh_id@ && o.kind == ObjectKind::Path
                &&& !closes ==> !o.closed && o.points == simplified@
                &&& closes && simplified@.len() > 2 ==> o.closed && o.points == simplified@.drop_last()
                &&& simplified@.len() == 2 ==> !o.closed && o.points == simplified@
            },
    {
        let ghost s0 = self@;
        let ghost c0 = canvas@;
        if !canvas.is_drawing_path {
            return;
        }
        canvas.is_drawing_path = false;
        if same_text(self.active_tool.as_str(), "draw") {
            let raw_len = canvas.temp_draw_points.len();
            canvas.temp_draw_points = Vec::new();
            proof {
                assert(canvas@ =~= stroke_dropped(c0));
            }
            if raw_len < 2 || simplified.len() < 2 {
                return;
            }
            let ghost given = simplified@;
            let first = simplified[0];
            let mut points = simplified;
            let mut closed = false;
            if closes && points.len() > 2 {
                closed = true;
                points.pop();
            }
            proof {
                assert(points@ =~= stroke_points(given, closes));
            }
            let id = fresh_id.clone();
            self.create_object(ObjectData::new_at(fresh_id, ObjectKind::Path, first));
            self.shape_path(id.as_str(), points, closed, bbox);
            self.active_tool = String::from_str("select");
            proof {
                assert(self@ =~= stroke_path(s0, given, closes, fresh_id@, bbox));
                if lacks_id(s0.document.objects, fresh_id@) {
                    lemma_stroke_path_shape(s0, given, closes, fresh_id@, bbox);
                }
            }
        } else {
            self.finish_pen_path(bbox);
            self.active_tool = String::from_str("select");
            proof {
                assert(self@ =~= (AppStateView { active_tool: "select"@, ..finish_pen(s0, bbox) }));
            }
        }
    }

    /// The Escape key: a pen path being drawn is finished as by
    /// [`AppState::finalize_path`] (`bbox` is its box); a freehand stroke
    /// being drawn is dropped. Otherwise nothing happens.
    pub fn press_escape(&mut self, canvas: &mut CanvasInteraction, bbox: Transform)
        ensures
            final(self)@ == escape_drawing(old(self)@, old(canvas)@, bbox).0,
            final(canvas)@ == escape_drawing(old(self)@, old(canvas)@, bbox).1,
            !old(canvas)@.is_drawing_path ==> final(self)@ == old(self)@ && final(canvas)@ == old(canvas)@,
            old(canvas)@.is_drawing_path && old(self)@.active_tool == "pen"@ ==> final(self)@ == (AppStateView {
                active_tool: "select"@,
                ..finish_pen(old(self)@, bbox)
            }) && final(canvas)@ == (CanvasInteractionView { is_drawing_path: false, ..old(canvas)@ }),
            old(canvas)@.is_drawing_path && old(self)@.active_tool != "pen"@ ==> final(self)@ == old(self)@
                && final(canvas)@ == stroke_dropped(old(canvas)@),
    {
        let ghost s0 = self@;
        let ghost c0 = canvas@;
        if canvas.is_drawing_path {
            canvas.is_drawing_path = false;
            if same_text(self.active_tool.as_str(), "pen") {
                self.finish_pen_path(bbox);
                self.active_tool = String::from_str("select");
                proof {
                    assert(self@ =~= (AppStateView { active_tool: "select"@, ..finish_pen(s0, bbox) }));
                }
            } else {
                canvas.temp_draw_points = Vec::new();
                proof {
                    assert(canvas@ =~= stroke_dropped(c0));
                }
            }
        }
    }

    /// A release of the primary button on the canvas. A node drag ends. A
    /// freehand stroke being drawn is finished as by
    /// [`AppState::finalize_path`] (with `simplified`, `closes`, `fresh_id`
    /// and `bbox`). Otherwise a shape being dragged out is done: when it came
    /// out too small (`too_small`, less than five by five, worked out by the
    /// caller), the selected object takes the size a click gives its kind, or
    /// for text `text_size`, its measured size; the select tool becomes
    /// active. Any object drag ends.
    pub fn handle_canvas_release(
        &mut self,
        canvas: &mut CanvasInteraction,
        simplified: Vec<PathPoint>,
        closes: bool,
        fresh_id: String,
        bbox: Transform,
        too_small: bool,
        text_size: (u32, u32),
    )
        ensures
            ({
                let c = CanvasInteractionView { dragging_node: None, ..old(canvas)@ };
                let done = finish_drawing(old(self)@, c, simplified@, closes, fresh_id@, bbox);
                old(canvas)@.is_drawing_path && old(self)@.active_tool == "draw"@ ==> final(self)@ == done.0
                    && final(canvas)@ == (CanvasInteractionView { is_dragging: false, ..done.1 })
            }),
            !(old(canvas)@.is_drawing_path && old(self)@.active_tool == "draw"@) && old(canvas)@.is_creating ==> final(self)@
                == (AppStateView {
                active_tool: "select"@,
                ..match (too_small, old(canvas)@.create_kind) {
                    (true, Some(kind)) => spec_edit_selected(
                        old(self)@,
                        sized(release_size(kind, text_size).0, release_size(kind, text_size).1),
                    ),
                    _ => old(self)@,
                }
            }) && final(canvas)@ == (CanvasInteractionView {
                dragging_node: None,
                is_creating: false,
                create_kind: None,
                is_dragging: false,
                ..old(canvas)@
            }),
            !(old(canvas)@.is_drawing_path && old(self)@.active_tool == "draw"@) && !old(canvas)@.is_creating ==> final(self)@
                == old(self)@ && final(canvas)@ == (CanvasInteractionView {
                dragging_node: None,
                is_dragging: false,
                ..old(canvas)@
            }),
    {
        let ghost s0 = self@;
        canvas.dragging_node = None;
        let ghost c1 = canvas@;
        if canvas.is_drawing_path && same_text(self.active_tool.as_str(), "draw") {
            self.finalize_path(canvas, simplified, closes, fresh_id, bbox);
            proof {
                assert(c1 == (CanvasInteractionView { dragging_node: None, ..old(canvas)@ }));
            }
        } else if canvas.is_creating {
            if too_small {
                match canvas.create_kind {
                    Some(kind) => {
                        let (w, h) = match click_size(kind) {
                            Some(size) => size,
                            None => text_size,
                        };
                        self.size_selected(w, h);
                    },
                    None => {},
                }
            }
            canvas.is_creating = false;
            canvas.create_kind = None;
            self.active_tool = String::from_str("select");
        }
        canvas.is_dragging = false;
    }

    /// The pointer moving to the document point `at` on the canvas. The
    /// float work is the caller's: `node_box` is the box of the dragged path
    /// with the node moved to `at`, `create_box` the box dragged out from the
    /// creation's start to `at`, `far_enough` whether `at` is far enough from
    /// the stroke's last point to be sampled, `drag_to` the dragged object's
    /// new position and `shifted` its points at the start of the drag, moved
    /// along. A node drag moves that point of the selected path; otherwise a
    /// shape being created takes `create_box`; otherwise a freehand stroke
    /// gets `at` when it is far enough; otherwise a dragged object moves.
    pub fn handle_canvas_move(
        &mut self,
        canvas: &mut CanvasInteraction,
        at: PathPoint,
        node_box: Transform,
        create_box: Transform,
        far_enough: bool,
        drag_to: PathPoint,
        shifted: Vec<PathPoint>,
    )
        ensures
            final(self)@ == move_gesture(old(self)@, old(canvas)@, at, node_box, create_box, far_enough, drag_to, shifted@).0,
            final(canvas)@ == move_gesture(old(self)@, old(canvas)@, at, node_box, create_box, far_enough, drag_to, shifted@).1,
    {
        let ghost c0 = canvas@;
        match canvas.dragging_node {
            Some(n) => self.move_selected_node(n, at, node_box),
            None => {
                if canvas.is_creating {
                    match self.selected_id.clone() {
                        Some(id) => self.fit_object_box(id.as_str(), create_box),
                        None => {},
                    }
                } else if canvas.is_drawing_path && same_text(self.active_tool.as_str(), "draw") {
                    if far_enough {
                        canvas.temp_draw_points.push(at);
                        proof {
                            assert(canvas@ =~= (CanvasInteractionView { temp_draw_points: c0.temp_draw_points.push(at), ..c0 }));
                        }
                    }
                } else if canvas.is_dragging {
                    self.drag_selected(drag_to, &shifted);
                }
            },
        }
    }

    /// Moves point `n` of the selected path to `at` and fits it to `bbox`.
    fn move_selected_node(&mut self, n: usize, at: PathPoint, bbox: Transform)
        ensures
            final(self)@ == spec_edit_selected(old(self)@, node_moved(n, at, bbox)),
    {
        let ghost before = self@;
        match self.selected_id.clone() {
            Some(id) => {
                proof {
                    lemma_first_index(before.document.objects, id@);
                }
                match self.document.get_object_mut(id.as_str()) {
                    Some(obj) => {
                        if n < obj.points.len() {
                            obj.points.set(n, at);
                            obj.transform.x = bbox.x;
                            obj.transform.y = bbox.y;
                            obj.transform.width = bbox.width;
                            obj.transform.height = bbox.height;
                        }
                    },
                    None => {},
                }
                proof {
                    match first_index(before.document.objects, id@) {
                        Some(i) => {
                            assert(self.document@.objects =~= edit_first(before.document.objects, id@, node_moved(n, at, bbox)));
                        },
                        None => {
                            assert(self.document@.objects =~= before.document.objects);
                        },
                    }
                }
            },
            None => {},
        }
    }

    /// Moves the selected object to `to`; a path also takes the points
    /// `shifted`.
    fn drag_selected(&mut self, to: PathPoint, shifted: &Vec<PathPoint>)
        ensures
            final(self)@ == spec_edit_selected(old(self)@, dragged(to, shifted@)),
    {
        let ghost before = self@;
        match self.selected_id.clone() {
            Some(id) => {
                proof {
                    lemma_first_index(before.document.objects, id@);
                }
                match self.document.get_object_mut(id.as_str()) {
                    Some(obj) => {
                        obj.transform.x = to.x;
                        obj.transform.y = to.y;
                        if obj.kind == ObjectKind::Path {
                            overlay_points(&mut obj.points, shifted);
                        }
                    },
                    None => {},
                }
                proof {
                    match first_index(before.document.objects, id@) {
                        Some(i) => {
                            assert(self.document@.objects =~= edit_first(before.document.objects, id@, dragged(to, shifted@)));
                        },
                        None => {
                            assert(self.document@.objects =~= before.document.objects);
                        },
                    }
                }
            },
            None => {},
        }
    }

    /// Gives the selected object the width `w` and height `h`.
    fn size_selected(&mut self, w: u32, h: u32)
        ensures
            final(self)@ == spec_edit_selected(old(self)@, sized(w, h)),
    {
        let ghost before = self@;
        match self.selected_id.clone() {
            Some(id) => {
                proof {
                    lemma_first_index(before.document.objects, id@);
                }
                match self.document.get_object_mut(id.as_str()) {
                    Some(obj) => {
                        obj.transform.width = w;
                        obj.transform.height = h;
                    },
                    None => {},
                }
                proof {
                    match first_index(before.document.objects, id@) {
                        Some(i) => {
                            assert(self.document@.objects =~= edit_first(before.document.objects, id@, sized(w, h)));
                        },
                        None => {
                            assert(self.document@.objects =~= before.document.objects);
                        },
                    }
                }
            },
            None => {},
        }
    }

    /// Finishes the pen path being drawn (see [`finish_pen`]).
    fn finish_pen_path(&mut self, bbox: Transform)
        ensures
            final(self)@ == finish_pen(old(self)@, bbox),
    {
        let ghost s0 = self@;
        match self.selected_id.clone() {
            Some(id) => {
                proof {
                    lemma_first_index(s0.document.objects, id@);
                }
                let mut found = false;
                let mut short = false;
                match self.document.get_object(id.as_str()) {
                    Some(obj) => {
                        found = true;
                        short = obj.points.len() < 2;
                    },
                    None => {},
                }
                if found {
                    if short {
                        self.document.remove_object(id.as_str());
                        self.selected_id = None;
                        proof {
                            assert(self@ =~= finish_pen(s0, bbox));
                        }
                    } else {
                        self.fit_object_box(id.as_str(), bbox);
                    }
                }
            },
            None => {},
        }
    }

    /// Fits the first object with id `id` to the box `bbox`.
    fn fit_object_box(&mut self, id: &str, bbox: Transform)
        ensures
            final(self)@ == spec_edit_object(old(self)@, id@, fit_box(bbox)),
    {
        let ghost before = self@;
        proof {
            lemma_first_index(before.document.objects, id@);
        }
        match self.document.get_object_mut(id) {
            Some(obj) => {
                obj.transform.x = bbox.x;
                obj.transform.y = bbox.y;
                obj.transform.width = bbox.width;
                obj.transform.height = bbox.height;
            },
            None => {},
        }
        proof {
            match first_index(before.document.objects, id@) {
                Some(i) => {
                    assert(self.document@.objects =~= edit_first(before.document.objects, id@, fit_box(bbox)));
                },
                None => {
                    assert(self.document@.objects =~= before.document.objects);
                },
            }
        }
    }

    /// Adds the point `at` to the first object with id `id` and fits it to
    /// the box `bbox`.
    fn add_path_point(&mut self, id: &str, at: PathPoint, bbox: Transform)
        ensures
            final(self)@ == spec_edit_object(old(self)@, id@, add_point_fit(at, bbox)),
    {
        let ghost before = self@;
        proof {
            lemma_first_index(before.document.objects, id@);
        }
        match self.document.get_object_mut(id) {
            Some(obj) => {
                obj.points.push(at);
                obj.transform.x = bbox.x;
                obj.transform.y = bbox.y;
                obj.transform.width = bbox.width;
                obj.transform.height = bbox.height;
            },
            None => {},
        }
        proof {
            match first_index(before.document.objects, id@) {
                Some(i) => {
                    assert(self.document@.objects =~= edit_first(before.document.objects, id@, add_point_fit(at, bbox)));
                },
                None => {
                    assert(self.document@.objects =~= before.document.objects);
                },
            }
        }
    }

    /// Gives the first object with id `id` the path `points`, `closed`, and
    /// the box `bbox`.
    fn shape_path(&mut self, id: &str, points: Vec<PathPoint>, closed: bool, bbox: Transform)
        ensures
            final(self)@ == spec_edit_object(old(self)@, id@, path_shape(points@, closed, bbox)),
    {
        let ghost before = self@;
        let ghost pts = points@;
        proof {
            lemma_first_index(before.document.objects, id@);
        }
        match self.document.get_object_mut(id) {
            Some(obj) => {
                obj.points = points;
                obj.closed = closed;
                obj.transform.x = bbox.x;
                obj.transform.y = bbox.y;
                obj.transform.width = bbox.width;
                obj.transform.height = bbox.height;
            },
            None => {},
        }
        proof {
            match first_index(before.document.objects, id@) {
                Some(i) => {
                    assert(self.document@.objects =~= edit_first(before.document.objects, id@, path_shape(pts, closed, bbox)));
                },
                None => {
                    assert(self.document@.objects =~= before.document.objects);
                },
            }
        }
    }
}

/// Making a path of a freehand stroke is one undoable step: undoing right
/// after it gives back the document from before the stroke, with nothing
/// selected.
pub proof fn lemma_undo_stroke(s: AppStateView, points: Seq<PathPoint>, closes: bool, fresh_id: Seq<char>, bbox: Transform)
    ensures
        spec_undo(stroke_path(s, points, closes, fresh_id, bbox)).document == s.document,
        spec_undo(stroke_path(s, points, closes, fresh_id, bbox)).selected_id is None,
{
    let done = stroke_path(s, points, closes, fresh_id, bbox);
    lemma_undo_reverts_edit(s, done.document);
    assert(done.undo_stack == with_document(spec_push_undo(s), done.document).undo_stack);
}

/// Starting a pen path is one undoable step: undoing right after the first
/// point gives back the document from before it, with nothing selected.
pub proof fn lemma_undo_pen_start(s: AppStateView, c: CanvasInteractionView, at: PathPoint, fresh_id: Seq<char>, bbox: Transform)
    requires
        !c.is_drawing_path,
    ensures
        spec_undo(press_pen(s, c, at, fresh_id, bbox).0).document == s.document,
        spec_undo(press_pen(s, c, at, fresh_id, bbox).0).selected_id is None,
{
    let done = press_pen(s, c, at, fresh_id, bbox).0;
    lemma_undo_reverts_edit(s, done.document);
    assert(done.undo_stack == with_document(spec_push_undo(s), done.document).undo_stack);
}

/// Escape finishes a pen path exactly as ending the drawing does, whatever
/// stroke data comes with the latter.
pub proof fn lemma_escape_finishes_pen(
    s: AppStateView,
    c: CanvasInteractionView,
    bbox: Transform,
    simplified: Seq<PathPoint>,
    closes: bool,
    fresh_id: Seq<char>,
)
    requires
        s.active_tool == "pen"@,
    ensures
        escape_drawing(s, c, bbox) == finish_drawing(s, c, simplified, closes, fresh_id, bbox),
{
    reveal_strlit("pen");
    reveal_strlit("draw");
    assert("pen"@[0] != "draw"@[0]);
}

/// A finished freehand stroke becomes one new path on top of the document,
/// placed under the given fresh id, selected, with the select tool active
/// and the document from before kept for undo; the objects below it are
/// untouched. The path keeps every simplified point and stays open unless its
/// ends meet (`closes`) and it has more than two points; then it is closed
/// and its last point, which comes back to the start, is dropped. It takes
/// the box `bbox`.
pub proof fn lemma_stroke_path_shape(
    s: AppStateView,
    points: Seq<PathPoint>,
    closes: bool,
    fresh_id: Seq<char>,
    bbox: Transform,
)
    requires
        points.len() >= 2,
        lacks_id(s.document.objects, fresh_id),
    ensures
        ({
            let r = stroke_path(s, points, closes, fresh_id, bbox);
            let o = r.document.objects.last();
            &&& r.document.objects.len() == s.document.objects.len() + 1
            &&& r.document.objects.drop_last() == s.document.objects
            &&& o.id == fresh_id
            &&& o.kind == ObjectKind::Path
            &&& !closes ==> !o.closed && o.points == points
            &&& points.len() == 2 ==> !o.closed && o.points == points
            &&& closes && points.len() > 2 ==> o.closed && o.points == points.drop_last()
            &&& o.transform.x == bbox.x && o.transform.y == bbox.y
            &&& o.transform.width == bbox.width && o.transform.height == bbox.height
            &&& r.selected_id == Some(fresh_id)
            &&& r.active_tool == "select"@
            &&& r.undo_stack.last() == s.document
            &&& r.redo_stack.len() == 0
        }),
{
    let n = s.document.objects.len() as int;
    let placed = placed_object(fresh_id, ObjectKind::Path, points[0]);
    let objs = s.document.objects.push(placed);
    lemma_first_index(objs, fresh_id);
    let i = first_index(objs, fresh_id)->0;
    if i < n {
        assert(objs[i] == s.document.objects[i]);
    }
    assert(i == n);
    let r = stroke_path(s, points, closes, fresh_id, bbox);
    assert(r.document.objects == objs.update(n, path_shape(stroke_points(points, closes), stroke_closes(points, closes), bbox)(objs[n])));
    assert(r.document.objects.drop_last() =~= s.document.objects);
    let pushed = s.undo_stack.push(s.document);
    if pushed.len() > crate::state::HISTORY_LIMIT {
        assert(pushed.drop_first().last() == s.document);
    }
}

} // verus!
