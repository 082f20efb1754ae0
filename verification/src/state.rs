use vstd::prelude::*;
use vstd::string::*;

use crate::color::{hex_pairs_on_char_boundaries, hex_to_rgb6, lemma_from_hex_to_hex, spec_from_hex, spec_to_hex, Color};
use crate::document::{first_index, lemma_first_index, Document, DocumentView};
use crate::input::{LayersMessage, MenuBarMessage};
use crate::object::{ObjectData, ObjectView};
use crate::text::same_text;

verus! {

/// How many documents the undo and redo stacks hold together at most.
pub const HISTORY_LIMIT: usize = 50;

/// The editing state of the application that does not depend on the view:
/// the document, the selection, the active tool, the status line and the
/// undo/redo history.
#[derive(Debug)]
pub struct AppState {
    pub document: Document,
    pub selected_id: Option<String>,
    pub active_tool: String,
    pub status_text: String,
    pub undo_stack: Vec<Document>,
    pub redo_stack: Vec<Document>,
    pub editing_layer_id: Option<String>,
}

/// The value of an [`AppState`].
#[verifier::ext_equal]
pub struct AppStateView {
    pub document: DocumentView,
    pub selected_id: Option<Seq<char>>,
    pub active_tool: Seq<char>,
    pub status_text: Seq<char>,
    pub undo_stack: Seq<DocumentView>,
    pub redo_stack: Seq<DocumentView>,
    pub editing_layer_id: Option<Seq<char>>,
}

/// The characters of an optional string.
pub open spec fn opt_text(o: Option<String>) -> Option<Seq<char>> {
    match o {
        Some(s) => Some(s@),
        None => None,
    }
}

/// The documents of a history stack.
pub open spec fn history_view(stack: Seq<Document>) -> Seq<DocumentView> {
    stack.map_values(|d: Document| d@)
}

impl View for AppState {
    type V = AppStateView;

    open spec fn view(&self) -> AppStateView {
        AppStateView {
            document: self.document@,
            selected_id: opt_text(self.selected_id),
            active_tool: self.active_tool@,
            status_text: self.status_text@,
            undo_stack: history_view(self.undo_stack@),
            redo_stack: history_view(self.redo_stack@),
            editing_layer_id: opt_text(self.editing_layer_id),
        }
    }
}

/// The two history stacks together hold at most [`HISTORY_LIMIT`] documents.
pub open spec fn history_bounded(s: AppStateView) -> bool {
    s.undo_stack.len() + s.redo_stack.len() <= HISTORY_LIMIT
}

/// An undo stack that has grown past the limit loses its oldest entry.
pub open spec fn capped(stack: Seq<DocumentView>) -> Seq<DocumentView> {
    if stack.len() > HISTORY_LIMIT {
        stack.drop_first()
    } else {
        stack
    }
}

/// The state after recording the current document for undo.
pub open spec fn spec_push_undo(s: AppStateView) -> AppStateView {
    AppStateView {
        undo_stack: capped(s.undo_stack.push(s.document)),
        redo_stack: Seq::empty(),
        ..s
    }
}

/// The state after undoing the last recorded change, if there is one.
pub open spec fn spec_undo(s: AppStateView) -> AppStateView {
    if s.undo_stack.len() > 0 {
        AppStateView {
            document: s.undo_stack.last(),
            undo_stack: s.undo_stack.drop_last(),
            redo_stack: s.redo_stack.push(s.document),
            selected_id: None,
            status_text: "Undo"@,
            ..s
        }
    } else {
        s
    }
}

/// The state after redoing the last undone change, if there is one.
pub open spec fn spec_redo(s: AppStateView) -> AppStateView {
    if s.redo_stack.len() > 0 {
        AppStateView {
            document: s.redo_stack.last(),
            redo_stack: s.redo_stack.drop_last(),
            undo_stack: s.undo_stack.push(s.document),
            selected_id: None,
            status_text: "Redo"@,
            ..s
        }
    } else {
        s
    }
}

/// The state with `document` in place of the current document.
pub open spec fn with_document(s: AppStateView, document: DocumentView) -> AppStateView {
    AppStateView { document, ..s }
}

/// The objects after applying `f` to the first object with id `id`.
pub open spec fn edit_first(objects: Seq<ObjectView>, id: Seq<char>, f: spec_fn(ObjectView) -> ObjectView) -> Seq<ObjectView> {
    match first_index(objects, id) {
        Some(i) => objects.update(i, f(objects[i])),
        None => objects,
    }
}

/// The state after applying `f` to the first object with id `id`.
pub open spec fn spec_edit_object(s: AppStateView, id: Seq<char>, f: spec_fn(ObjectView) -> ObjectView) -> AppStateView {
    with_document(s, DocumentView { objects: edit_first(s.document.objects, id, f), ..s.document })
}

/// The state after applying `f` to the selected object, if any.
pub open spec fn spec_edit_selected(s: AppStateView, f: spec_fn(ObjectView) -> ObjectView) -> AppStateView {
    match s.selected_id {
        Some(id) => spec_edit_object(s, id, f),
        None => s,
    }
}

/// Gives an object a new name.
pub open spec fn renamed(name: Seq<char>) -> spec_fn(ObjectView) -> ObjectView {
    |o: ObjectView| ObjectView { name, ..o }
}

/// Shows a hidden object or hides a shown one.
pub open spec fn toggled() -> spec_fn(ObjectView) -> ObjectView {
    |o: ObjectView| ObjectView { visible: !o.visible, ..o }
}

/// Gives an object a new fill colour.
pub open spec fn filled(c: Color) -> spec_fn(ObjectView) -> ObjectView {
    |o: ObjectView| ObjectView { fill_color: c, ..o }
}

/// Gives an object a new text colour.
pub open spec fn text_colored(c: Color) -> spec_fn(ObjectView) -> ObjectView {
    |o: ObjectView| ObjectView { text_color: c, ..o }
}

/// The colour `hex` denotes, with alpha `alpha`.
pub open spec fn hex_with_alpha(hex: Seq<char>, alpha: u8) -> Color {
    Color { a: alpha, ..spec_from_hex(hex) }
}

/// The state after choosing `tool`: any tool but select clears the selection.
pub open spec fn spec_set_tool(s: AppStateView, tool: Seq<char>) -> AppStateView {
    AppStateView {
        active_tool: tool,
        selected_id: if tool == "select"@ {
            s.selected_id
        } else {
            None
        },
        ..s
    }
}

/// The state after selecting the object with id `id`.
pub open spec fn spec_select(s: AppStateView, id: Seq<char>) -> AppStateView {
    AppStateView { selected_id: Some(id), ..s }
}

/// The state after a double click on the layer of `id`: leaves name editing
/// if that layer is being edited, else selects it and starts editing it.
pub open spec fn spec_layer_double_click(s: AppStateView, id: Seq<char>) -> AppStateView {
    if s.editing_layer_id == Some(id) {
        AppStateView { editing_layer_id: None, ..s }
    } else {
        AppStateView { editing_layer_id: Some(id), ..spec_select(s, id) }
    }
}

/// The state after adding `object` on top as an undoable step and selecting
/// it.
pub open spec fn spec_create(s: AppStateView, object: ObjectView) -> AppStateView {
    let pushed = spec_push_undo(s);
    AppStateView {
        document: DocumentView { objects: s.document.objects.push(object), ..s.document },
        selected_id: Some(object.id),
        ..pushed
    }
}

/// A file operation that the menu asks the application to carry out.
#[derive(Clone, Copy, Debug, PartialEq, Eq, Structural)]
pub enum FileRequest {
    OpenProject,
    SaveProject,
    ExportPng,
}

/// Whether choosing `tool` ends a path being drawn (every tool but the
/// freehand and pen tools does).
pub fn ends_path_drawing(tool: &str) -> (ends: bool)
    ensures
        ends == (tool@ != "draw"@ && tool@ != "pen"@),
{
    !same_text(tool, "draw") && !same_text(tool, "pen")
}

impl AppState {
    /// A fresh session: an empty 1920 by 1080 document, the select tool,
    /// status "Ready" and no history.
    pub fn new() -> (s: Self)
        ensures
            s@ == (AppStateView {
                document: DocumentView { width: 1920, height: 1080, objects: Seq::empty() },
                selected_id: None,
                active_tool: "select"@,
                status_text: "Ready"@,
                undo_stack: Seq::empty(),
                redo_stack: Seq::empty(),
                editing_layer_id: None,
            }),
            history_bounded(s@),
    {
        let s = AppState {
            document: Document::default_1080p(),
            selected_id: None,
            active_tool: String::from_str("select"),
            status_text: String::from_str("Ready"),
            undo_stack: Vec::new(),
            redo_stack: Vec::new(),
            editing_layer_id: None,
        };
        proof {
            assert(s@.undo_stack =~= Seq::<DocumentView>::empty());
            assert(s@.redo_stack =~= Seq::<DocumentView>::empty());
        }
        s
    }

    /// Records the current document for undo and forgets what could be
    /// redone; the oldest entry is dropped past [`HISTORY_LIMIT`].
    pub fn push_undo(&mut self)
        ensures
            final(self)@ == spec_push_undo(old(self)@),
    {
        let ghost before = self@;
        let copy = self.document.clone();
        self.undo_stack.push(copy);
        proof {
            assert(history_view(self.undo_stack@) =~= before.undo_stack.push(before.document));
        }
        if self.undo_stack.len() > HISTORY_LIMIT {
            let ghost pushed = self.undo_stack@;
            self.undo_stack.remove(0);
            proof {
                assert(history_view(self.undo_stack@) =~= history_view(pushed).drop_first());
            }
        }
        self.redo_stack.clear();
        proof {
            assert(history_view(self.redo_stack@) =~= Seq::<DocumentView>::empty());
        }
    }

    /// Goes back to the last recorded document, keeping the current one for
    /// redo.
    pub fn undo(&mut self)
        ensures
            final(self)@ == spec_undo(old(self)@),
    {
        let ghost before = self@;
        if let Some(prev) = self.undo_stack.pop() {
            let copy = self.document.clone();
            self.redo_stack.push(copy);
            self.document = prev;
            self.selected_id = None;
            self.status_text = String::from_str("Undo");
            proof {
                assert(history_view(self.undo_stack@) =~= before.undo_stack.drop_last());
                assert(history_view(self.redo_stack@) =~= before.redo_stack.push(before.document));
                assert(prev@ == before.undo_stack.last());
            }
        }
    }

    /// Goes forward to the last undone document, keeping the current one for
    /// undo.
    pub fn redo(&mut self)
        ensures
            final(self)@ == spec_redo(old(self)@),
    {
        let ghost before = self@;
        if let Some(next) = self.redo_stack.pop() {
            let copy = self.document.clone();
            self.undo_stack.push(copy);
            self.document = next;
            self.selected_id = None;
            self.status_text = String::from_str("Redo");
            proof {
                assert(history_view(self.redo_stack@) =~= before.redo_stack.drop_last());
                assert(history_view(self.undo_stack@) =~= before.undo_stack.push(before.document));
            }
        }
    }

    /// Starts over with an empty 1920 by 1080 document, recording the old
    /// one for undo.
    pub fn new_project(&mut self)
        ensures
            final(self)@ == (AppStateView {
                document: DocumentView { width: 1920, height: 1080, objects: Seq::empty() },
                selected_id: None,
                status_text: "New project"@,
                ..spec_push_undo(old(self)@)
            }),
    {
        self.push_undo();
        self.document = Document::default_1080p();
        self.selected_id = None;
        self.status_text = String::from_str("New project");
    }

    /// Replaces the document by an opened one, recording the old one for
    /// undo.
    pub fn open_document(&mut self, document: Document)
        ensures
            final(self)@ == (AppStateView {
                document: document@,
                selected_id: None,
                status_text: "Project opened"@,
                ..spec_push_undo(old(self)@)
            }),
    {
        self.push_undo();
        self.document = document;
        self.selected_id = None;
        self.status_text = String::from_str("Project opened");
    }

    /// Makes `tool` the active tool; any tool but select clears the
    /// selection. A path being drawn is to be ended first when
    /// [`ends_path_drawing`] says so.
    pub fn set_tool(&mut self, tool: &str)
        ensures
            final(self)@ == spec_set_tool(old(self)@, tool@),
    {
        self.active_tool = tool.to_owned();
        if !same_text(tool, "select") {
            self.selected_id = None;
        }
    }

    /// Selects the object with id `id`.
    pub fn select_object(&mut self, id: &str)
        ensures
            final(self)@ == spec_select(old(self)@, id@),
    {
        self.selected_id = Some(id.to_owned());
    }

    /// Renames the first object with id `id`.
    pub fn rename_object(&mut self, id: &str, name: &str)
        ensures
            final(self)@ == spec_edit_object(old(self)@, id@, renamed(name@)),
    {
        let ghost before = self@;
        proof {
            lemma_first_index(before.document.objects, id@);
        }
        match self.document.get_object_mut(id) {
            Some(obj) => {
                obj.name = name.to_owned();
            },
            None => {},
        }
        proof {
            match first_index(before.document.objects, id@) {
                Some(i) => {
                    assert(self.document@.objects =~= edit_first(before.document.objects, id@, renamed(name@)));
                },
                None => {
                    assert(self.document@.objects =~= before.document.objects);
                },
            }
        }
    }

    /// Shows the first object with id `id` if hidden, hides it if shown.
    pub fn toggle_visibility(&mut self, id: &str)
        ensures
            final(self)@ == spec_edit_object(old(self)@, id@, toggled()),
    {
        let ghost before = self@;
        proof {
            lemma_first_index(before.document.objects, id@);
        }
        match self.document.get_object_mut(id) {
            Some(obj) => {
                obj.visible = !obj.visible;
            },
            None => {},
        }
        proof {
            match first_index(before.document.objects, id@) {
                Some(i) => {
                    assert(self.document@.objects =~= edit_first(before.document.objects, id@, toggled()));
                },
                None => {
                    assert(self.document@.objects =~= before.document.objects);
                },
            }
        }
    }

    /// Renames the selected object.
    pub fn update_object_name(&mut self, name: &str)
        ensures
            final(self)@ == spec_edit_selected(old(self)@, renamed(name@)),
    {
        match &self.selected_id {
            Some(id) => {
                let id = id.clone();
                self.rename_object(id.as_str(), name);
            },
            None => {},
        }
    }

    /// Sets the fill colour of the selected object to the colour `hex`
    /// denotes, with alpha `alpha`.
    pub fn update_fill_color_with_alpha(&mut self, hex: &str, alpha: u8)
        requires
            old(self)@.selected_id matches Some(id) && first_index(old(self)@.document.objects, id) is Some
                ==> hex_pairs_on_char_boundaries(hex@),
        ensures
            final(self)@ == spec_edit_selected(old(self)@, filled(hex_with_alpha(hex@, alpha))),
    {
        let ghost before = self@;
        if let Some(id) = &self.selected_id {
            let id = id.clone();
            proof {
                lemma_first_index(before.document.objects, id@);
            }
            match self.document.get_object_mut(id.as_str()) {
                Some(obj) => {
                    let mut color = Color::from_hex(hex);
                    color.a = alpha;
                    obj.fill_color = color;
                },
                None => {},
            }
            proof {
                let f = filled(hex_with_alpha(hex@, alpha));
                match first_index(before.document.objects, id@) {
                    Some(i) => {
                        assert(self.document@.objects =~= edit_first(before.document.objects, id@, f));
                    },
                    None => {
                        assert(self.document@.objects =~= before.document.objects);
                    },
                }
            }
        }
    }

    /// Sets the text colour of the selected object to the colour `hex`
    /// denotes, with alpha `alpha`.
    pub fn update_text_color_with_alpha(&mut self, hex: &str, alpha: u8)
        requires
            old(self)@.selected_id matches Some(id) && first_index(old(self)@.document.objects, id) is Some
                ==> hex_pairs_on_char_boundaries(hex@),
        ensures
            final(self)@ == spec_edit_selected(old(self)@, text_colored(hex_with_alpha(hex@, alpha))),
    {
        let ghost before = self@;
        if let Some(id) = &self.selected_id {
            let id = id.clone();
            proof {
                lemma_first_index(before.document.objects, id@);
            }
            match self.document.get_object_mut(id.as_str()) {
                Some(obj) => {
                    let mut color = Color::from_hex(hex);
                    color.a = alpha;
                    obj.text_color = color;
                },
                None => {},
            }
            proof {
                let f = text_colored(hex_with_alpha(hex@, alpha));
                match first_index(before.document.objects, id@) {
                    Some(i) => {
                        assert(self.document@.objects =~= edit_first(before.document.objects, id@, f));
                    },
                    None => {
                        assert(self.document@.objects =~= before.document.objects);
                    },
                }
            }
        }
    }

    /// The `#RRGGBB` text of the selected object's fill colour, if an object
    /// is selected.
    pub fn selected_fill_hex(&self) -> (t: Option<String>)
        ensures
            match self@.selected_id {
                Some(id) => match first_index(self@.document.objects, id) {
                    Some(i) => t matches Some(h) && h@ == spec_to_hex(self@.document.objects[i].fill_color),
                    None => t is None,
                },
                None => t is None,
            },
    {
        match &self.selected_id {
            Some(id) => {
                proof {
                    lemma_first_index(self@.document.objects, id@);
                }
                match self.document.get_object(id.as_str()) {
                    Some(obj) => {
                        let hex = obj.fill_color.to_hex();
                        proof {
                            lemma_from_hex_to_hex(obj.fill_color);
                        }
                        Some(hex_to_rgb6(hex.as_str()))
                    },
                    None => None,
                }
            },
            None => None,
        }
    }

    /// The `#RRGGBB` text of the selected object's text colour, if an object
    /// is selected.
    pub fn selected_text_hex(&self) -> (t: Option<String>)
        ensures
            match self@.selected_id {
                Some(id) => match first_index(self@.document.objects, id) {
                    Some(i) => t matches Some(h) && h@ == spec_to_hex(self@.document.objects[i].text_color),
                    None => t is None,
                },
                None => t is None,
            },
    {
        match &self.selected_id {
            Some(id) => {
                proof {
                    lemma_first_index(self@.document.objects, id@);
                }
                match self.document.get_object(id.as_str()) {
                    Some(obj) => {
                        let hex = obj.text_color.to_hex();
                        proof {
                            lemma_from_hex_to_hex(obj.text_color);
                        }
                        Some(hex_to_rgb6(hex.as_str()))
                    },
                    None => None,
                }
            },
            None => None,
        }
    }

    /// Carries out a message of the layers panel.
    pub fn handle_layers_message(&mut self, msg: LayersMessage)
        ensures
            final(self)@ == match msg {
                LayersMessage::LayerSelected(id) => spec_select(old(self)@, id@),
                LayersMessage::LayerDoubleClicked(id) => spec_layer_double_click(old(self)@, id@),
                LayersMessage::LayerNameChanged(id, name) => spec_edit_object(old(self)@, id@, renamed(name@)),
                LayersMessage::LayerNameSubmitted => AppStateView { editing_layer_id: None, ..old(self)@ },
                LayersMessage::LayerVisibilityToggled(id) => spec_edit_object(old(self)@, id@, toggled()),
            },
            msg matches LayersMessage::LayerDoubleClicked(id) ==> if old(self)@.editing_layer_id == Some(id@) {
                final(self)@.editing_layer_id is None && final(self)@.selected_id == old(self)@.selected_id
            } else {
                final(self)@.editing_layer_id == Some(id@) && final(self)@.selected_id == Some(id@)
            },
    {
        match msg {
            LayersMessage::LayerSelected(id) => self.select_object(id.as_str()),
            LayersMessage::LayerDoubleClicked(id) => {
                let editing_this = match &self.editing_layer_id {
                    Some(current) => *current == id,
                    None => false,
                };
                if editing_this {
                    self.editing_layer_id = None;
                } else {
                    self.select_object(id.as_str());
                    self.editing_layer_id = Some(id);
                }
            },
            LayersMessage::LayerNameChanged(id, name) => self.rename_object(id.as_str(), name.as_str()),
            LayersMessage::LayerNameSubmitted => {
                self.editing_layer_id = None;
            },
            LayersMessage::LayerVisibilityToggled(id) => self.toggle_visibility(id.as_str()),
        }
    }

    /// Carries out the menu commands that need no file: new project, undo and
    /// redo. For the others the state is left unchanged and the file operation
    /// to perform is returned.
    pub fn handle_menu_message(&mut self, msg: MenuBarMessage) -> (request: Option<FileRequest>)
        ensures
            request == match msg {
                MenuBarMessage::OpenProject => Some(FileRequest::OpenProject),
                MenuBarMessage::SaveProject => Some(FileRequest::SaveProject),
                MenuBarMessage::Export => Some(FileRequest::ExportPng),
                _ => None,
            },
            match msg {
                MenuBarMessage::NewProject => final(self)@ == (AppStateView {
                    document: DocumentView { width: 1920, height: 1080, objects: Seq::empty() },
                    selected_id: None,
                    status_text: "New project"@,
                    ..spec_push_undo(old(self)@)
                }),
                MenuBarMessage::Undo => final(self)@ == spec_undo(old(self)@),
                MenuBarMessage::Redo => final(self)@ == spec_redo(old(self)@),
                _ => final(self)@ == old(self)@,
            },
    {
        match msg {
            MenuBarMessage::NewProject => {
                self.new_project();
                None
            },
            MenuBarMessage::OpenProject => Some(FileRequest::OpenProject),
            MenuBarMessage::SaveProject => Some(FileRequest::SaveProject),
            MenuBarMessage::Export => Some(FileRequest::ExportPng),
            MenuBarMessage::Undo => {
                self.undo();
                None
            },
            MenuBarMessage::Redo => {
                self.redo();
                None
            },
        }
    }

    /// Adds `object` on top of the document as an undoable step and selects
    /// it.
    pub fn create_object(&mut self, object: ObjectData)
        ensures
            final(self)@ == spec_create(old(self)@, object@),
    {
        self.push_undo();
        let id = object.id.clone();
        self.document.add_object(object);
        self.selected_id = Some(id);
    }

    /// Whether there is something to undo.
    pub fn can_undo(&self) -> (b: bool)
        ensures
            b == (self@.undo_stack.len() > 0),
    {
        self.undo_stack.len() > 0
    }

    /// Whether there is something to redo.
    pub fn can_redo(&self) -> (b: bool)
        ensures
            b == (self@.redo_stack.len() > 0),
    {
        self.redo_stack.len() > 0
    }
}

impl Default for AppState {
    /// Same as [`AppState::new`].
    fn default() -> (s: Self)
        ensures
            s@ == (AppStateView {
                document: DocumentView { width: 1920, height: 1080, objects: Seq::empty() },
                selected_id: None,
                active_tool: "select"@,
                status_text: "Ready"@,
                undo_stack: Seq::empty(),
                redo_stack: Seq::empty(),
                editing_layer_id: None,
            }),
    {
        Self::new()
    }
}

/// Undoing right after recording the document and editing it brings back the
/// recorded document and offers the edited one for redo.
pub proof fn lemma_undo_reverts_edit(s: AppStateView, edited: DocumentView)
    ensures
        ({
            let after = spec_undo(with_document(spec_push_undo(s), edited));
            &&& after.document == s.document
            &&& after.redo_stack == seq![edited]
            &&& after.undo_stack == (if s.undo_stack.len() >= HISTORY_LIMIT {
                s.undo_stack.drop_first()
            } else {
                s.undo_stack
            })
        }),
{
    let pushed = s.undo_stack.push(s.document);
    if pushed.len() > HISTORY_LIMIT {
        assert(pushed.drop_first().drop_last() =~= s.undo_stack.drop_first());
    } else {
        assert(pushed.drop_last() =~= s.undo_stack);
    }
    assert(Seq::<DocumentView>::empty().push(edited) =~= seq![edited]);
}

/// Undoing the creation of an object gives back the document as it was, with
/// nothing selected, and the document with the object can be redone.
pub proof fn lemma_undo_create(s: AppStateView, object: ObjectView)
    requires
        s.undo_stack.len() < HISTORY_LIMIT,
    ensures
        spec_undo(spec_create(s, object)).document == s.document,
        spec_undo(spec_create(s, object)).selected_id is None,
        spec_undo(spec_create(s, object)).undo_stack == s.undo_stack,
        spec_redo(spec_undo(spec_create(s, object))).document == spec_create(s, object).document,
{
    let edited = DocumentView { objects: s.document.objects.push(object), ..s.document };
    lemma_undo_reverts_edit(s, edited);
    assert(spec_create(s, object) == AppStateView {
        selected_id: Some(object.id),
        ..with_document(spec_push_undo(s), edited)
    });
    lemma_redo_after_undo(spec_create(s, object));
}

/// Redo takes back an undo: document and both stacks are as before.
pub proof fn lemma_redo_after_undo(s: AppStateView)
    requires
        s.undo_stack.len() > 0,
    ensures
        spec_redo(spec_undo(s)).document == s.document,
        spec_redo(spec_undo(s)).undo_stack == s.undo_stack,
        spec_redo(spec_undo(s)).redo_stack == s.redo_stack,
{
    assert(s.undo_stack.drop_last().push(s.undo_stack.last()) =~= s.undo_stack);
    assert(s.redo_stack.push(s.document).drop_last() =~= s.redo_stack);
}

/// Undo takes back a redo: document and both stacks are as before.
pub proof fn lemma_undo_after_redo(s: AppStateView)
    requires
        s.redo_stack.len() > 0,
    ensures
        spec_undo(spec_redo(s)).document == s.document,
        spec_undo(spec_redo(s)).undo_stack == s.undo_stack,
        spec_undo(spec_redo(s)).redo_stack == s.redo_stack,
{
    assert(s.redo_stack.drop_last().push(s.redo_stack.last()) =~= s.redo_stack);
    assert(s.undo_stack.push(s.document).drop_last() =~= s.undo_stack);
}

/// Recording, undoing and redoing never let the history outgrow its limit.
pub proof fn lemma_history_stays_bounded(s: AppStateView)
    requires
        history_bounded(s),
    ensures
        history_bounded(spec_push_undo(s)),
        history_bounded(spec_undo(s)),
        history_bounded(spec_redo(s)),
{
}

/// A double click on a layer: on the layer whose name is being edited it
/// ends the editing and leaves the selection alone; on any other layer it
/// selects that layer and starts editing its name. The document and the
/// history are untouched either way.
pub proof fn lemma_layer_double_click(s: AppStateView, id: Seq<char>)
    ensures
        s.editing_layer_id == Some(id) ==> spec_layer_double_click(s, id).editing_layer_id is None
            && spec_layer_double_click(s, id).selected_id == s.selected_id,
        s.editing_layer_id != Some(id) ==> spec_layer_double_click(s, id).editing_layer_id == Some(id)
            && spec_layer_double_click(s, id).selected_id == Some(id),
        spec_layer_double_click(s, id).document == s.document,
        spec_layer_double_click(s, id).undo_stack == s.undo_stack,
        spec_layer_double_click(s, id).redo_stack == s.redo_stack,
        spec_layer_double_click(s, id).active_tool == s.active_tool,
{
}

} // verus!
