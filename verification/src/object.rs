use vstd::prelude::*;
use vstd::string::*;

use crate::color::Color;

verus! {

/// What kind of shape an object is.
#[derive(Clone, Copy, Debug, PartialEq, Eq, Structural)]
pub enum ObjectKind {
    Rectangle,
    Text,
    Image,
    Path,
}

/// Bit pattern of the `f32` value 0.0.
pub const F32_ZERO: u32 = 0x0000_0000;

/// Bit pattern of the `f32` value 1.0.
pub const F32_ONE: u32 = 0x3f80_0000;

/// Bit pattern of the `f32` value 32.0 (default font size).
pub const F32_32: u32 = 0x4200_0000;

/// Bit pattern of the `f32` value 48.0 (font size of new text).
pub const F32_48: u32 = 0x4240_0000;

/// Bit pattern of the `f32` value 60.0.
pub const F32_60: u32 = 0x4270_0000;

/// Bit pattern of the `f32` value 150.0.
pub const F32_150: u32 = 0x4316_0000;

/// Bit pattern of the `f32` value 180.0.
pub const F32_180: u32 = 0x4334_0000;

/// Bit pattern of the `f32` value 200.0.
pub const F32_200: u32 = 0x4348_0000;

/// Bit pattern of the `f32` value 240.0.
pub const F32_240: u32 = 0x4370_0000;

/// A point of a path in document coordinates.
///
/// Coordinates are stored as the IEEE-754 bit patterns of `f32` values: the
/// library keeps and copies them but does no arithmetic on them.
#[derive(Clone, Copy, Debug, PartialEq, Eq, Structural)]
pub struct PathPoint {
    pub x: u32,
    pub y: u32,
}

/// Position, size, rotation (degrees) and opacity of an object, each as the
/// IEEE-754 bit pattern of an `f32`.
#[derive(Clone, Copy, Debug, PartialEq, Eq, Structural)]
pub struct Transform {
    pub x: u32,
    pub y: u32,
    pub width: u32,
    pub height: u32,
    pub rotation: u32,
    pub opacity: u32,
}

impl Default for Transform {
    /// At the origin, 200 by 150, unrotated and opaque.
    fn default() -> (t: Self)
        ensures
            t == (Transform {
                x: F32_ZERO,
                y: F32_ZERO,
                width: F32_200,
                height: F32_150,
                rotation: F32_ZERO,
                opacity: F32_ONE,
            }),
    {
        Transform {
            x: F32_ZERO,
            y: F32_ZERO,
            width: F32_200,
            height: F32_150,
            rotation: F32_ZERO,
            opacity: F32_ONE,
        }
    }
}

/// One object of a document.
#[derive(Debug)]
pub struct ObjectData {
    pub id: String,
    pub kind: ObjectKind,
    pub name: String,
    pub visible: bool,
    pub transform: Transform,
    pub fill_color: Color,
    pub text_content: String,
    /// Bit pattern of the `f32` font size.
    pub font_size: u32,
    pub text_color: Color,
    pub points: Vec<PathPoint>,
    pub closed: bool,
}

/// The value of an [`ObjectData`], with strings and lists as sequences.
#[verifier::ext_equal]
pub struct ObjectView {
    pub id: Seq<char>,
    pub kind: ObjectKind,
    pub name: Seq<char>,
    pub visible: bool,
    pub transform: Transform,
    pub fill_color: Color,
    pub text_content: Seq<char>,
    pub font_size: u32,
    pub text_color: Color,
    pub points: Seq<PathPoint>,
    pub closed: bool,
}

impl View for ObjectData {
    type V = ObjectView;

    open spec fn view(&self) -> ObjectView {
        ObjectView {
            id: self.id@,
            kind: self.kind,
            name: self.name@,
            visible: self.visible,
            transform: self.transform,
            fill_color: self.fill_color,
            text_content: self.text_content@,
            font_size: self.font_size,
            text_color: self.text_color,
            points: self.points@,
            closed: self.closed,
        }
    }
}

/// The layer name a new object of `kind` gets.
pub open spec fn kind_name(kind: ObjectKind) -> Seq<char> {
    match kind {
        ObjectKind::Rectangle => seq!['R', 'e', 'c', 't', 'a', 'n', 'g', 'l', 'e'],
        ObjectKind::Text => seq!['T', 'e', 'x', 't'],
        ObjectKind::Image => seq!['I', 'm', 'a', 'g', 'e'],
        ObjectKind::Path => seq!['P', 'a', 't', 'h'],
    }
}

/// Fill colour of a new object of `kind`.
pub open spec fn default_fill(kind: ObjectKind) -> Color {
    match kind {
        ObjectKind::Image => Color { r: 42, g: 42, b: 46, a: 255 },
        _ => Color { r: 91, g: 124, b: 250, a: 255 },
    }
}

/// Text colour of a new object of `kind`.
pub open spec fn default_text_color(kind: ObjectKind) -> Color {
    match kind {
        ObjectKind::Image => Color { r: 144, g: 144, b: 150, a: 255 },
        _ => Color { r: 232, g: 232, b: 234, a: 255 },
    }
}

/// Text of a new object of `kind`.
pub open spec fn default_text(kind: ObjectKind) -> Seq<char> {
    match kind {
        ObjectKind::Text => seq!['T', 'e', 'x', 't'],
        _ => Seq::empty(),
    }
}

/// Font size (bits) of a new object of `kind`.
pub open spec fn default_font_size(kind: ObjectKind) -> u32 {
    match kind {
        ObjectKind::Text => F32_48,
        _ => F32_32,
    }
}

/// Width and height (bits) of a new object of `kind`.
pub open spec fn default_size(kind: ObjectKind) -> (u32, u32) {
    match kind {
        ObjectKind::Rectangle => (F32_200, F32_150),
        ObjectKind::Text => (F32_200, F32_60),
        ObjectKind::Image => (F32_240, F32_180),
        ObjectKind::Path => (F32_ONE, F32_ONE),
    }
}

/// A new, visible object of `kind` at the origin with that kind's defaults.
pub open spec fn spec_new_object(id: Seq<char>, kind: ObjectKind) -> ObjectView {
    ObjectView {
        id,
        kind,
        name: kind_name(kind),
        visible: true,
        transform: Transform {
            x: F32_ZERO,
            y: F32_ZERO,
            width: default_size(kind).0,
            height: default_size(kind).1,
            rotation: F32_ZERO,
            opacity: F32_ONE,
        },
        fill_color: default_fill(kind),
        text_content: default_text(kind),
        font_size: default_font_size(kind),
        text_color: default_text_color(kind),
        points: Seq::empty(),
        closed: false,
    }
}

/// The defaults a new object gets, kind by kind, whatever its id: it is
/// visible, at the origin, unrotated, opaque, without points and open;
/// rectangles, text and paths are filled with the accent blue
/// rgb(91, 124, 250) and write in light grey rgb(232, 232, 234), images are
/// dark grey rgb(42, 42, 46) with mid-grey text rgb(144, 144, 150); text
/// reads "Text" at 48 points, everything else is empty at 32 points; the
/// sizes are 200×150, 200×60, 240×180 and 1×1.
pub proof fn lemma_new_object_defaults(id: Seq<char>)
    ensures
        forall|kind: ObjectKind| {
            let o = #[trigger] spec_new_object(id, kind);
            &&& o.id == id
            &&& o.kind == kind
            &&& o.visible
            &&& o.transform.x == 0 && o.transform.y == 0
            &&& o.transform.rotation == 0 && o.transform.opacity == 0x3f80_0000
            &&& o.points.len() == 0 && !o.closed
        },
        ({
            let o = spec_new_object(id, ObjectKind::Rectangle);
            &&& o.name == seq!['R', 'e', 'c', 't', 'a', 'n', 'g', 'l', 'e']
            &&& o.fill_color == (Color { r: 91, g: 124, b: 250, a: 255 })
            &&& o.text_color == (Color { r: 232, g: 232, b: 234, a: 255 })
            &&& o.text_content.len() == 0 && o.font_size == 0x4200_0000
            &&& o.transform.width == 0x4348_0000 && o.transform.height == 0x4316_0000
        }),
        ({
            let o = spec_new_object(id, ObjectKind::Text);
            &&& o.name == seq!['T', 'e', 'x', 't']
            &&& o.fill_color == (Color { r: 91, g: 124, b: 250, a: 255 })
            &&& o.text_color == (Color { r: 232, g: 232, b: 234, a: 255 })
            &&& o.text_content == seq!['T', 'e', 'x', 't'] && o.font_size == 0x4240_0000
            &&& o.transform.width == 0x4348_0000 && o.transform.height == 0x4270_0000
        }),
        ({
            let o = spec_new_object(id, ObjectKind::Image);
            &&& o.name == seq!['I', 'm', 'a', 'g', 'e']
            &&& o.fill_color == (Color { r: 42, g: 42, b: 46, a: 255 })
            &&& o.text_color == (Color { r: 144, g: 144, b: 150, a: 255 })
            &&& o.text_content.len() == 0 && o.font_size == 0x4200_0000
            &&& o.transform.width == 0x4370_0000 && o.transform.height == 0x4334_0000
        }),
        ({
            let o = spec_new_object(id, ObjectKind::Path);
            &&& o.name == seq!['P', 'a', 't', 'h']
            &&& o.fill_color == (Color { r: 91, g: 124, b: 250, a: 255 })
            &&& o.text_color == (Color { r: 232, g: 232, b: 234, a: 255 })
            &&& o.text_content.len() == 0 && o.font_size == 0x4200_0000
            &&& o.transform.width == 0x3f80_0000 && o.transform.height == 0x3f80_0000
        }),
{
}

impl ObjectData {
    /// A new object of `kind` with the given id and that kind's defaults.
    pub fn new(id: String, kind: ObjectKind) -> (o: Self)
        ensures
            o@ == spec_new_object(id@, kind),
    {
        let name = match kind {
            ObjectKind::Rectangle => String::from_str("Rectangle"),
            ObjectKind::Text => String::from_str("Text"),
            ObjectKind::Image => String::from_str("Image"),
            ObjectKind::Path => String::from_str("Path"),
        };
        proof {
            reveal_strlit("Rectangle");
            reveal_strlit("Text");
            reveal_strlit("Image");
            reveal_strlit("Path");
        }
        let (fill_color, text_content, font_size, text_color, width, height) = match kind {
            ObjectKind::Rectangle => (
                Color::rgb(91, 124, 250),
                String::new(),
                F32_32,
                Color::rgb(232, 232, 234),
                F32_200,
                F32_150,
            ),
            ObjectKind::Text => (
                Color::rgb(91, 124, 250),
                String::from_str("Text"),
                F32_48,
                Color::rgb(232, 232, 234),
                F32_200,
                F32_60,
            ),
            ObjectKind::Image => (
                Color::rgb(42, 42, 46),
                String::new(),
                F32_32,
                Color::rgb(144, 144, 150),
                F32_240,
                F32_180,
            ),
            ObjectKind::Path => (
                Color::rgb(91, 124, 250),
                String::new(),
                F32_32,
                Color::rgb(232, 232, 234),
                F32_ONE,
                F32_ONE,
            ),
        };
        let base = Transform::default();
        let o = ObjectData {
            id,
            kind,
            name,
            visible: true,
            transform: Transform { width, height, ..base },
            fill_color,
            text_content,
            font_size,
            text_color,
            points: Vec::new(),
            closed: false,
        };
        proof {
            assert(o.name@ =~= kind_name(kind));
            assert(o.text_content@ =~= default_text(kind));
            assert(o.points@ =~= Seq::<PathPoint>::empty());
        }
        o
    }
}

/// A new object of `kind` with id `id`, placed at `at` and one by one.
pub open spec fn placed_object(id: Seq<char>, kind: ObjectKind, at: PathPoint) -> ObjectView {
    let o = spec_new_object(id, kind);
    ObjectView { transform: Transform { x: at.x, y: at.y, width: F32_ONE, height: F32_ONE, ..o.transform }, ..o }
}

impl ObjectData {
    /// A new object of `kind` with id `id` and that kind's defaults, placed
    /// at `at` and one by one, as the canvas tools create it.
    pub fn new_at(id: String, kind: ObjectKind, at: PathPoint) -> (o: Self)
        ensures
            o@ == placed_object(id@, kind, at),
    {
        let mut o = ObjectData::new(id, kind);
        o.transform.x = at.x;
        o.transform.y = at.y;
        o.transform.width = F32_ONE;
        o.transform.height = F32_ONE;
        o
    }
}

impl Clone for ObjectData {
    /// A copy with the same value.
    fn clone(&self) -> (o: Self)
        ensures
            o@ == self@,
    {
        let points = self.points.clone();
        proof {
            assert(points@ =~= self.points@);
        }
        ObjectData {
            id: self.id.clone(),
            kind: self.kind,
            name: self.name.clone(),
            visible: self.visible,
            transform: self.transform,
            fill_color: self.fill_color,
            text_content: self.text_content.clone(),
            font_size: self.font_size,
            text_color: self.text_color,
            points,
            closed: self.closed,
        }
    }
}

/// Bit pattern of the `f32` value 100.0.
pub const F32_100: u32 = 0x42c8_0000;

/// The kind of object the tool named `tool` creates: rectangle, text and
/// image tools create their kind, other tools none.
pub open spec fn spec_tool_kind(tool: Seq<char>) -> Option<ObjectKind> {
    if tool == "rectangle"@ {
        Some(ObjectKind::Rectangle)
    } else if tool == "text"@ {
        Some(ObjectKind::Text)
    } else if tool == "image"@ {
        Some(ObjectKind::Image)
    } else {
        None
    }
}

/// The kind of object that pressing on the canvas with `tool` creates, for
/// the rectangle, text and image tools.
pub fn tool_object_kind(tool: &str) -> (k: Option<ObjectKind>)
    ensures
        k == spec_tool_kind(tool@),
{
    if crate::text::same_text(tool, "rectangle") {
        Some(ObjectKind::Rectangle)
    } else if crate::text::same_text(tool, "text") {
        Some(ObjectKind::Text)
    } else if crate::text::same_text(tool, "image") {
        Some(ObjectKind::Image)
    } else {
        None
    }
}

/// The width and height (bits) an object of `kind` gets when it was created
/// by a click rather than a drag; text is measured instead, so it has none.
pub open spec fn spec_click_size(kind: ObjectKind) -> Option<(u32, u32)> {
    match kind {
        ObjectKind::Rectangle => Some((F32_200, F32_150)),
        ObjectKind::Image => Some((F32_240, F32_180)),
        ObjectKind::Path => Some((F32_100, F32_100)),
        ObjectKind::Text => None,
    }
}

/// The width and height (bits) an object of `kind` gets when it was created
/// by a click rather than a drag; text is measured instead, so it has none.
pub fn click_size(kind: ObjectKind) -> (size: Option<(u32, u32)>)
    ensures
        size == spec_click_size(kind),
{
    match kind {
        ObjectKind::Rectangle => Some((F32_200, F32_150)),
        ObjectKind::Image => Some((F32_240, F32_180)),
        ObjectKind::Path => Some((F32_100, F32_100)),
        ObjectKind::Text => None,
    }
}

/// An object as shown in the layers panel.
pub struct LayerEntry {
    pub object: ObjectData,
}

impl LayerEntry {
    /// Wraps `object`.
    pub fn new(object: ObjectData) -> (e: Self)
        ensures
            e.object@ == object@,
    {
        LayerEntry { object }
    }
}

} // verus!
