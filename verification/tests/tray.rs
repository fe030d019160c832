use clipsync::tray::{fallback_icon, menu_action, tray_texts, MenuAction, ICON_SIZE};

#[test]
fn the_tray_shows_the_status() {
    let texts = tray_texts(0, false);
    assert_eq!(texts.status, "Status: waiting for peer");
    assert_eq!(texts.tooltip, "ClipSync — waiting for peer");
    assert_eq!(texts.pause_label, "Pause Sync");
    let texts = tray_texts(12, false);
    assert_eq!(texts.status, "Status: connected (12)");
    assert_eq!(texts.tooltip, "ClipSync — connected");
    let texts = tray_texts(3, true);
    assert_eq!(texts.status, "Status: paused");
    assert_eq!(texts.tooltip, "ClipSync — paused");
    assert_eq!(texts.pause_label, "Resume Sync");
}

#[test]
fn the_menu_has_three_actions() {
    assert_eq!(menu_action("open_settings"), MenuAction::OpenSettings);
    assert_eq!(menu_action("pause_sync"), MenuAction::TogglePause);
    assert_eq!(menu_action("exit"), MenuAction::Exit);
    assert_eq!(menu_action("status"), MenuAction::Nothing);
}

#[test]
fn the_icon_is_a_disc() {
    let rgba = fallback_icon();
    assert_eq!(rgba.len(), ICON_SIZE * ICON_SIZE * 4);
    let radius = (32f32 / 2.5).powi(2);
    for y in 0..32usize {
        for x in 0..32usize {
            let (dx, dy) = (x as f32 - 16.0, y as f32 - 16.0);
            let expected = if dx * dx + dy * dy < radius {
                [99, 102, 241, 255]
            } else {
                [0, 0, 0, 0]
            };
            let at = (y * 32 + x) * 4;
            assert_eq!(rgba[at..at + 4], expected);
        }
    }
}
