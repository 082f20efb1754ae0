use vizardra::color::Color;
use vizardra::document::Document;
use vizardra::input::{LayersMessage, MenuBarMessage};
use vizardra::object::{ObjectData, ObjectKind};
use vizardra::state::{ends_path_drawing, AppState, FileRequest, HISTORY_LIMIT};

fn with_object(id: &str) -> AppState {
    let mut s = AppState::new();
    s.document.add_object(ObjectData::new(id.to_string(), ObjectKind::Rectangle));
    s
}

#[test]
fn fresh_state() {
    let s = AppState::default();
    assert_eq!(s.active_tool, "select");
    assert_eq!(s.status_text, "Ready");
    assert!(s.selected_id.is_none());
    assert!(!s.can_undo());
    assert!(!s.can_redo());
    assert_eq!((s.document.width, s.document.height), (1920, 1080));
}

#[test]
fn undo_reverts_an_edit() {
    let mut s = AppState::new();
    s.push_undo();
    s.document.add_object(ObjectData::new("a".into(), ObjectKind::Text));
    s.selected_id = Some("a".into());
    assert!(s.can_undo());
    s.undo();
    assert!(s.document.objects.is_empty());
    assert!(s.selected_id.is_none());
    assert_eq!(s.status_text, "Undo");
    assert!(s.can_redo());
    assert!(!s.can_undo());
}

#[test]
fn redo_after_undo_restores() {
    let mut s = AppState::new();
    s.push_undo();
    s.document.add_object(ObjectData::new("a".into(), ObjectKind::Text));
    s.undo();
    s.redo();
    assert_eq!(s.document.objects.len(), 1);
    assert_eq!(s.status_text, "Redo");
    assert!(s.can_undo());
    assert!(!s.can_redo());
}

#[test]
fn undo_and_redo_on_empty_history_do_nothing() {
    let mut s = with_object("a");
    s.selected_id = Some("a".into());
    s.undo();
    s.redo();
    assert_eq!(s.selected_id.as_deref(), Some("a"));
    assert_eq!(s.status_text, "Ready");
}

#[test]
fn push_undo_clears_redo() {
    let mut s = AppState::new();
    s.push_undo();
    s.undo();
    assert!(s.can_redo());
    s.push_undo();
    assert!(!s.can_redo());
}

#[test]
fn history_is_capped() {
    let mut s = AppState::new();
    for i in 0..(HISTORY_LIMIT + 5) {
        s.document.width = i as u32;
        s.push_undo();
    }
    assert_eq!(s.undo_stack.len(), HISTORY_LIMIT);
    assert_eq!(s.undo_stack[0].width, 5);
}

#[test]
fn new_project_records_history() {
    let mut s = with_object("a");
    s.selected_id = Some("a".into());
    s.new_project();
    assert!(s.document.objects.is_empty());
    assert!(s.selected_id.is_none());
    assert_eq!(s.status_text, "New project");
    s.undo();
    assert_eq!(s.document.objects.len(), 1);
}

#[test]
fn open_document_replaces() {
    let mut s = AppState::new();
    s.open_document(Document::new(5, 6));
    assert_eq!((s.document.width, s.document.height), (5, 6));
    assert_eq!(s.status_text, "Project opened");
    assert!(s.can_undo());
}

#[test]
fn set_tool_clears_selection_unless_select() {
    let mut s = with_object("a");
    s.select_object("a");
    s.set_tool("select");
    assert_eq!(s.selected_id.as_deref(), Some("a"));
    s.set_tool("pen");
    assert_eq!(s.active_tool, "pen");
    assert!(s.selected_id.is_none());
}

#[test]
fn ends_path_drawing_for_other_tools() {
    assert!(!ends_path_drawing("draw"));
    assert!(!ends_path_drawing("pen"));
    assert!(ends_path_drawing("select"));
    assert!(ends_path_drawing("rectangle"));
}

#[test]
fn rename_and_toggle() {
    let mut s = with_object("a");
    s.rename_object("a", "Box");
    assert_eq!(s.document.objects[0].name, "Box");
    s.toggle_visibility("a");
    assert!(!s.document.objects[0].visible);
    s.toggle_visibility("a");
    assert!(s.document.objects[0].visible);
    s.rename_object("missing", "x");
    assert_eq!(s.document.objects[0].name, "Box");
}

#[test]
fn update_object_name_needs_selection() {
    let mut s = with_object("a");
    s.update_object_name("x");
    assert_eq!(s.document.objects[0].name, "Rectangle");
    s.select_object("a");
    s.update_object_name("x");
    assert_eq!(s.document.objects[0].name, "x");
}

#[test]
fn color_updates_on_selection() {
    let mut s = with_object("a");
    s.update_fill_color_with_alpha("#102030", 128);
    assert_eq!(s.document.objects[0].fill_color, Color::rgb(91, 124, 250));
    s.select_object("a");
    s.update_fill_color_with_alpha("#102030", 128);
    assert_eq!(s.document.objects[0].fill_color, Color::rgba(0x10, 0x20, 0x30, 128));
    s.update_text_color_with_alpha("#ABCDEF00", 200);
    assert_eq!(s.document.objects[0].text_color, Color::rgba(0xAB, 0xCD, 0xEF, 200));
}

#[test]
fn selected_hex_texts() {
    let mut s = with_object("a");
    assert!(s.selected_fill_hex().is_none());
    s.select_object("a");
    assert_eq!(s.selected_fill_hex().as_deref(), Some("#5B7CFA"));
    assert_eq!(s.selected_text_hex().as_deref(), Some("#E8E8EA"));
    s.select_object("gone");
    assert!(s.selected_text_hex().is_none());
}

#[test]
fn layers_messages() {
    let mut s = with_object("a");
    s.handle_layers_message(LayersMessage::LayerSelected("a".into()));
    assert_eq!(s.selected_id.as_deref(), Some("a"));
    s.selected_id = None;
    s.handle_layers_message(LayersMessage::LayerDoubleClicked("a".into()));
    assert_eq!(s.editing_layer_id.as_deref(), Some("a"));
    assert_eq!(s.selected_id.as_deref(), Some("a"));
    s.handle_layers_message(LayersMessage::LayerDoubleClicked("a".into()));
    assert!(s.editing_layer_id.is_none());
    s.handle_layers_message(LayersMessage::LayerNameChanged("a".into(), "N".into()));
    assert_eq!(s.document.objects[0].name, "N");
    s.editing_layer_id = Some("a".into());
    s.handle_layers_message(LayersMessage::LayerNameSubmitted);
    assert!(s.editing_layer_id.is_none());
    s.handle_layers_message(LayersMessage::LayerVisibilityToggled("a".into()));
    assert!(!s.document.objects[0].visible);
}

#[test]
fn menu_messages() {
    let mut s = with_object("a");
    assert_eq!(s.handle_menu_message(MenuBarMessage::OpenProject), Some(FileRequest::OpenProject));
    assert_eq!(s.handle_menu_message(MenuBarMessage::SaveProject), Some(FileRequest::SaveProject));
    assert_eq!(s.handle_menu_message(MenuBarMessage::Export), Some(FileRequest::ExportPng));
    assert_eq!(s.document.objects.len(), 1);
    assert_eq!(s.handle_menu_message(MenuBarMessage::NewProject), None);
    assert!(s.document.objects.is_empty());
    assert_eq!(s.handle_menu_message(MenuBarMessage::Undo), None);
    assert_eq!(s.document.objects.len(), 1);
    assert_eq!(s.handle_menu_message(MenuBarMessage::Redo), None);
    assert!(s.document.objects.is_empty());
}

#[test]
fn create_object_is_undoable_and_selected() {
    let mut s = with_object("a");
    s.create_object(ObjectData::new("b".into(), ObjectKind::Image));
    assert_eq!(s.selected_id.as_deref(), Some("b"));
    assert_eq!(s.document.objects.len(), 2);
    s.undo();
    assert_eq!(s.document.objects.len(), 1);
    assert!(s.selected_id.is_none());
    s.redo();
    assert_eq!(s.document.objects[1].id, "b");
}

#[test]
fn colour_text_is_not_read_without_selection() {
    // "é" takes two bytes, so this text cannot be cut into byte pairs; with
    // nothing selected it is never parsed.
    let mut s = AppState::new();
    s.update_fill_color_with_alpha("#ééé", 10);
    s.update_text_color_with_alpha("#ééé", 10);
    assert!(s.document.objects.is_empty());
    let mut t = with_object("a");
    t.selected_id = Some("missing".to_string());
    t.update_fill_color_with_alpha("#ééé", 10);
    assert_eq!(t.document.objects.len(), 1);
}
