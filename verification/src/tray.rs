//! What the tray shows: its texts, its menu, and the icon for lack of another.
use vstd::prelude::*;
use vstd::string::*;

use crate::text;

verus! {

/// The texts of the tray.
pub struct TrayTexts {
    /// The status line of the menu.
    pub status: String,
    /// The tooltip of the icon.
    pub tooltip: String,
    /// The label of the entry that pauses and resumes.
    pub pause_label: String,
}

/// The status line for a number of connected peers.
pub open spec fn status_line(connected: nat, paused: bool) -> Seq<char> {
    if paused {
        "Status: paused"@
    } else if connected == 0 {
        "Status: waiting for peer"@
    } else {
        "Status: connected ("@ + text::decimal(connected) + ")"@
    }
}

/// What the entry of the menu with an ID does.
pub open spec fn action_of(id: Seq<char>) -> MenuAction {
    if id == "open_settings"@ {
        MenuAction::OpenSettings
    } else if id == "pause_sync"@ {
        MenuAction::TogglePause
    } else if id == "exit"@ {
        MenuAction::Exit
    } else {
        MenuAction::Nothing
    }
}

/// The texts of the tray for a number of connected peers.
pub fn tray_texts(connected: usize, paused: bool) -> (texts: TrayTexts)
    ensures
        texts.status@ == status_line(connected as nat, paused),
        texts.status@ == (if paused {
            "Status: paused"@
        } else if connected == 0 {
            "Status: waiting for peer"@
        } else {
            "Status: connected ("@ + text::decimal(connected as nat) + ")"@
        }),
        texts.tooltip@ == (if paused {
            "ClipSync — paused"@
        } else if connected == 0 {
            "ClipSync — waiting for peer"@
        } else {
            "ClipSync — connected"@
        }),
        texts.pause_label@ == (if paused {
            "Resume Sync"@
        } else {
            "Pause Sync"@
        }),
{
    let (status, tooltip): (String, &'static str) = if paused {
        ("Status: paused".to_string(), "ClipSync — paused")
    } else if connected == 0 {
        ("Status: waiting for peer".to_string(), "ClipSync — waiting for peer")
    } else {
        let mut status = "Status: connected (".to_string();
        status.append(text::decimal_text(connected as u128).as_str());
        status.append(")");
        (status, "ClipSync — connected")
    };
    let pause_label = if paused {
        "Resume Sync"
    } else {
        "Pause Sync"
    };
    TrayTexts {
        status,
        tooltip: tooltip.to_string(),
        pause_label: pause_label.to_string(),
    }
}

/// What an entry of the menu does.
#[derive(Debug, Clone, Copy, PartialEq, Eq, Structural)]
pub enum MenuAction {
    OpenSettings,
    TogglePause,
    Exit,
    Nothing,
}

/// What the entry of the menu with an ID does.
pub fn menu_action(id: &str) -> (action: MenuAction)
    ensures
        action == action_of(id@),
        action == (if id@ == "open_settings"@ {
            MenuAction::OpenSettings
        } else if id@ == "pause_sync"@ {
            MenuAction::TogglePause
        } else if id@ == "exit"@ {
            MenuAction::Exit
        } else {
            MenuAction::Nothing
        }),
{
    if text::same_text(id, "open_settings") {
        MenuAction::OpenSettings
    } else if text::same_text(id, "pause_sync") {
        MenuAction::TogglePause
    } else if text::same_text(id, "exit") {
        MenuAction::Exit
    } else {
        MenuAction::Nothing
    }
}

/// The width and the height of the icon.
pub const ICON_SIZE: usize = 32;

/// Whether a pixel lies in the disc: nearer to the middle than 1/2.5 of the size,
/// which is 12.8 pixels. A square distance is whole, so it is below 163.84 just
/// if it is at most 163.
pub open spec fn in_disc(x: int, y: int) -> bool {
    (x - 16) * (x - 16) + (y - 16) * (y - 16) <= 163
}

/// A byte of the icon: the colour of the disc, or nothing.
pub open spec fn icon_byte(index: int) -> u8 {
    let pixel = index / 4;
    if in_disc(pixel % 32, pixel / 32) {
        if index % 4 == 0 {
            99
        } else if index % 4 == 1 {
            102
        } else if index % 4 == 2 {
            241
        } else {
            255
        }
    } else {
        0
    }
}

/// Whether a pixel lies in the disc.
fn is_in_disc(x: usize, y: usize) -> (inside: bool)
    requires
        x < ICON_SIZE,
        y < ICON_SIZE,
    ensures
        inside == in_disc(x as int, y as int),
{
    let dx: i32 = x as i32 - 16;
    let dy: i32 = y as i32 - 16;
    assert(dx * dx <= 256) by (nonlinear_arith)
        requires
            -16 <= dx <= 16,
    ;
    assert(dy * dy <= 256) by (nonlinear_arith)
        requires
            -16 <= dy <= 16,
    ;
    assert(dx * dx >= 0 && dy * dy >= 0) by (nonlinear_arith);
    dx * dx + dy * dy <= 163
}

/// A purple disc, as RGBA pixels row by row.
pub fn fallback_icon() -> (rgba: Vec<u8>)
    ensures
        rgba@ == Seq::new(4096, |i: int| icon_byte(i)),
{
    let mut rgba: Vec<u8> = Vec::new();
    let mut pixel: usize = 0;
    while pixel < 1024
        invariant
            pixel <= 1024,
            rgba@.len() == 4 * pixel,
            forall|i: int| 0 <= i < rgba@.len() ==> rgba@[i] == icon_byte(i),
        decreases 1024 - pixel,
    {
        if is_in_disc(pixel % 32, pixel / 32) {
            rgba.push(99);
            rgba.push(102);
            rgba.push(241);
            rgba.push(255);
        } else {
            rgba.push(0);
            rgba.push(0);
            rgba.push(0);
            rgba.push(0);
        }
        pixel += 1;
    }
    rgba
}

/// The icon is a disc in the middle: the pixel in a column and a row has the colour
/// of the disc just if five times its distance from the middle is below 64, which is
/// five times 12.8, and is clear otherwise.
pub proof fn law_icon_is_a_disc(x: int, y: int)
    requires
        0 <= x < 32,
        0 <= y < 32,
    ensures
        ({
            let at = 4 * (32 * y + x);
            let inside = 25 * ((x - 16) * (x - 16) + (y - 16) * (y - 16)) < 64 * 64;
            &&& inside ==> icon_byte(at) == 99 && icon_byte(at + 1) == 102 && icon_byte(at + 2)
                == 241 && icon_byte(at + 3) == 255
            &&& !inside ==> icon_byte(at) == 0 && icon_byte(at + 1) == 0 && icon_byte(at + 2) == 0
                && icon_byte(at + 3) == 0
        }),
{
    let pixel = 32 * y + x;
    assert(pixel % 32 == x && pixel / 32 == y);
    assert((4 * pixel) / 4 == pixel && (4 * pixel + 1) / 4 == pixel && (4 * pixel + 2) / 4 == pixel
        && (4 * pixel + 3) / 4 == pixel);
}

/// The status line says whether sync is paused, and else how many peers are connected,
/// in decimal, or that there is none.
pub proof fn law_status_line(connected: nat)
    ensures
        status_line(connected, true) == "Status: paused"@,
        status_line(0, false) == "Status: waiting for peer"@,
        connected > 0 ==> exists|shown: Seq<char>| #[trigger]
            text::number_of_digits(shown) == connected && status_line(connected, false)
                == "Status: connected ("@ + shown + ")"@,
{
    text::law_decimal(connected);
    assert(text::number_of_digits(text::decimal(connected)) == connected);
}

/// Three entries of the menu do something, each its own thing, and no other does.
pub proof fn law_menu_actions(id: Seq<char>)
    ensures
        action_of("open_settings"@) == MenuAction::OpenSettings,
        action_of("pause_sync"@) == MenuAction::TogglePause,
        action_of("exit"@) == MenuAction::Exit,
        action_of(id) != MenuAction::Nothing ==> id == "open_settings"@ || id == "pause_sync"@ || id
            == "exit"@,
{
    reveal_strlit("open_settings");
    reveal_strlit("pause_sync");
    reveal_strlit("exit");
    assert("open_settings"@.len() == 13 && "pause_sync"@.len() == 10 && "exit"@.len() == 4);
}

} // verus!
