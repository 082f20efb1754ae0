use vizardra::input::{cursor_style, scroll_action, CursorStyle, InteractionState, Modifiers, ScrollAction};
use vizardra::renderer::{DocumentRenderer, RenderError, WgpuRenderer};
use vizardra::document::Document;

#[test]
fn scroll_actions() {
    let none = Modifiers::default();
    assert_eq!(scroll_action(none), ScrollAction::PanVertical);
    assert_eq!(scroll_action(Modifiers { alt: true, control: true, shift: true }), ScrollAction::Zoom);
    assert_eq!(scroll_action(Modifiers { control: true, ..none }), ScrollAction::PanHorizontal);
    assert_eq!(scroll_action(Modifiers { shift: true, ..none }), ScrollAction::PanHorizontal);
}

#[test]
fn cursor_styles() {
    assert_eq!(cursor_style(true, "select", true), CursorStyle::Grabbing);
    assert_eq!(cursor_style(false, "select", true), CursorStyle::Pointer);
    assert_eq!(cursor_style(false, "select", false), CursorStyle::Default);
    assert_eq!(cursor_style(false, "pen", true), CursorStyle::Crosshair);
}

#[test]
fn interaction_state_default() {
    assert_eq!(InteractionState::default().last_modifiers, Modifiers::default());
}

#[test]
fn renderer_is_not_implemented() {
    let r = WgpuRenderer::new();
    assert_eq!(r.render_to_image(&Document::default(), 10, 10), Err(RenderError::NotImplemented));
    let d = WgpuRenderer::default();
    assert_eq!(d.render_to_image(&Document::default(), 1, 1), Err(RenderError::NotImplemented));
}

#[test]
fn render_error_messages() {
    assert_eq!(RenderError::NotImplemented.message(), "Rendering not yet implemented");
    assert_eq!(RenderError::InvalidDimensions.message(), "Invalid render dimensions");
}
