use mapeditor::color::Color;
use mapeditor::interface::dialog::{DialogButton, DialogButtonType};
use mapeditor::interface::tool_button::{ButtonState, ToolButton};

#[test]
fn tool_button_rows() {
    let mut b = ToolButton::new(3);
    assert_eq!(b.image_row, 0);
    b.set_hover(true);
    assert_eq!(b.image_row, 1);
    b.set_click(true);
    assert_eq!(b.image_row, 2);
    b.set_click(false);
    assert_eq!(b.image_row, 1);
    b.set_state(ButtonState::Selected);
    assert_eq!(b.image_row, 2);
    b.set_hover(false);
    assert_eq!(b.image_row, 2);
    b.set_state(ButtonState::Normal);
    assert_eq!(b.image_row, 0);
}

#[test]
fn dialog_button_press_and_release() {
    let mut b = DialogButton::new("Save", DialogButtonType::ButtonConfirm);
    assert_eq!(b.label, "Save");
    assert_eq!((b.image_uv_y, b.text_offset_y), (0, 8));
    b.set_hover(true);
    assert_eq!(b.image_uv_y, 36);
    b.set_click(true);
    assert_eq!((b.image_uv_y, b.text_offset_y), (72, 6));
    b.set_click(false);
    assert_eq!((b.image_uv_y, b.text_offset_y), (36, 8));
    b.set_hover(false);
    assert_eq!(b.image_uv_y, 0);
}

#[test]
fn checkbox_colors() {
    let mut c = mapeditor::interface::checkbox::Checkbox::new("Hide FPS?");
    assert_eq!(c.text, "Hide FPS?");
    let plain = c.button_color;
    c.set_hover(true);
    assert!(c.is_hover);
    assert_ne!(c.button_color, plain);
    c.set_hover(false);
    assert_eq!(c.button_color, plain);
    let _ = Color::rgba(0, 0, 0, 0);
}
