//! The tray: the tooltip and checkmark that show "do not disturb", the menu
//! commands, and the icon image.
use vstd::prelude::*;
use crate::day_text::segment_equals;

verus! {

/// The tooltip while muted: "休息提醒小幫手 (請勿打擾中)".
pub open spec fn tooltip_muted() -> Seq<char> {
    "\u{4f11}\u{606f}\u{63d0}\u{9192}\u{5c0f}\u{5e6b}\u{624b} (\u{8acb}\u{52ff}\u{6253}\u{64fe}\u{4e2d})"@
}

/// The tooltip otherwise: "休息提醒小幫手 (雙擊開啟設定)".
pub open spec fn tooltip_active() -> Seq<char> {
    "\u{4f11}\u{606f}\u{63d0}\u{9192}\u{5c0f}\u{5e6b}\u{624b} (\u{96d9}\u{64ca}\u{958b}\u{555f}\u{8a2d}\u{5b9a})"@
}

pub open spec fn spec_mute_tooltip(muted: bool) -> Seq<char> {
    if muted {
        tooltip_muted()
    } else {
        tooltip_active()
    }
}

/// The tray tooltip for a mute state.
pub fn mute_tooltip(muted: bool) -> (t: &'static str)
    ensures
        t@ == spec_mute_tooltip(muted),
{
    if muted {
        "\u{4f11}\u{606f}\u{63d0}\u{9192}\u{5c0f}\u{5e6b}\u{624b} (\u{8acb}\u{52ff}\u{6253}\u{64fe}\u{4e2d})"
    } else {
        "\u{4f11}\u{606f}\u{63d0}\u{9192}\u{5c0f}\u{5e6b}\u{624b} (\u{96d9}\u{64ca}\u{958b}\u{555f}\u{8a2d}\u{5b9a})"
    }
}

/// How the tray shows the mute state: the checkmark of the "do not disturb"
/// item and the tooltip.
#[derive(Clone, Copy, Debug)]
pub struct MuteVisuals {
    pub checked: bool,
    pub tooltip: &'static str,
}

/// The tray's checkmark and tooltip for the given mute state; the caller sets
/// them on the menu item and the tray icon.
pub fn refresh_mute_visuals(muted: bool) -> (v: MuteVisuals)
    ensures
        v.checked == muted,
        v.tooltip@ == spec_mute_tooltip(muted),
{
    MuteVisuals { checked: muted, tooltip: mute_tooltip(muted) }
}

/// The items of the tray menu.
#[derive(Clone, Copy, PartialEq, Eq, Structural, Debug)]
pub enum TrayCommand {
    ToggleMute,
    OpenSettings,
    BreakNow,
    Exit,
}

/// The ids of the tray menu items, in menu order.
pub struct MenuIds {
    pub mute: String,
    pub settings: String,
    pub break_now: String,
    pub exit: String,
}

/// Two texts are the same.
pub fn text_equals(a: &str, b: &str) -> (r: bool)
    ensures
        r == (a@ == b@),
{
    let n = a.unicode_len();
    let r = segment_equals(a, 0, n, b);
    proof {
        assert(a@.subrange(0, n as int) =~= a@);
    }
    r
}

/// The menu command that a menu event stands for, by the id of its item; an id
/// of no item of the menu stands for nothing.
pub fn menu_command(event_id: &str, ids: &MenuIds) -> (r: Option<TrayCommand>)
    ensures
        r == if event_id@ == ids.mute@ {
            Some(TrayCommand::ToggleMute)
        } else if event_id@ == ids.settings@ {
            Some(TrayCommand::OpenSettings)
        } else if event_id@ == ids.break_now@ {
            Some(TrayCommand::BreakNow)
        } else if event_id@ == ids.exit@ {
            Some(TrayCommand::Exit)
        } else {
            None
        },
{
    if text_equals(event_id, ids.mute.as_str()) {
        Some(TrayCommand::ToggleMute)
    } else if text_equals(event_id, ids.settings.as_str()) {
        Some(TrayCommand::OpenSettings)
    } else if text_equals(event_id, ids.break_now.as_str()) {
        Some(TrayCommand::BreakNow)
    } else if text_equals(event_id, ids.exit.as_str()) {
        Some(TrayCommand::Exit)
    } else {
        None
    }
}

/// A tray icon event opens the settings window only when it is a double click
/// of the left button on this tray's icon.
pub fn opens_settings(is_double_click: bool, is_left_button: bool, is_this_tray: bool) -> (r: bool)
    ensures
        r == (is_double_click && is_left_button && is_this_tray),
{
    is_double_click && is_left_button && is_this_tray
}

/// An image as 8-bit RGBA pixels, row by row.
pub struct RgbaImage {
    pub pixels: Vec<u8>,
    pub width: u32,
    pub height: u32,
}

/// What the image crate's `load_from_memory(bytes)` followed by `into_rgba8()`
/// gives: the raw pixel bytes, the width and the height; none where it fails.
pub uninterp spec fn image_decode_rgba8(bytes: Seq<u8>) -> Option<(Seq<u8>, u32, u32)>;

/// Decodes an image file held in memory (the icon file) with the image crate:
/// `image::load_from_memory`, then `DynamicImage::into_rgba8`, `dimensions`,
/// `into_raw`. Claimed: the result is the one named by `image_decode_rgba8` for
/// these bytes; nothing more (a decoder's output is pages of format rules).
#[verifier::external_body]
fn decode_rgba8(bytes: &[u8]) -> (r: Option<RgbaImage>)
    ensures
        match (r, image_decode_rgba8(bytes@)) {
            (Some(img), Some((p, w, h))) => img.pixels@ == p && img.width == w && img.height == h,
            (None, None) => true,
            _ => false,
        },
{
    match image::load_from_memory(bytes) {
        Ok(img) => {
            let rgba = img.into_rgba8();
            let (width, height) = rgba.dimensions();
            Some(RgbaImage { pixels: rgba.into_raw(), width, height })
        },
        Err(_) => None,
    }
}

/// The tray icon's image, decoded from the bytes of the icon file; none when the
/// file does not decode (the caller stops then, as the tray is the app's only face).
pub fn load_icon(bytes: &[u8]) -> (r: Option<RgbaImage>)
    ensures
        match (r, image_decode_rgba8(bytes@)) {
            (Some(img), Some((p, w, h))) => img.pixels@ == p && img.width == w && img.height == h,
            (None, None) => true,
            _ => false,
        },
{
    decode_rgba8(bytes)
}

} // verus!
