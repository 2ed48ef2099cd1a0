//! The terminal UI's colour themes: per named theme, the background and the
//! warning and error colours the file-browser themes do not carry.
use vstd::prelude::*;
use crate::text::{chars_of, eq_chars};

verus! {

/// A 24-bit colour.
#[derive(Debug, Clone, Copy, PartialEq, Eq, Structural)]
pub struct Rgb(pub u8, pub u8, pub u8);

/// The colours a theme adds: background, warning and error.
#[derive(Debug, Clone, Copy, PartialEq, Eq, Structural)]
pub struct ThemeExtras {
    pub bg: Rgb,
    pub warn: Rgb,
    pub err: Rgb,
}

/// The added colours of the theme called `name`; unknown names get those of
/// the default palette.
pub open spec fn extras_of(name: Seq<char>) -> ThemeExtras {
    if name == "Default"@ {
        ThemeExtras { bg: Rgb(18, 18, 26), warn: Rgb(255, 200, 50), err: Rgb(255, 80, 80) }
    } else if name == "Grape"@ {
        ThemeExtras { bg: Rgb(18, 12, 30), warn: Rgb(210, 170, 255), err: Rgb(255, 80, 150) }
    } else if name == "Ocean"@ {
        ThemeExtras { bg: Rgb(0, 20, 35), warn: Rgb(255, 220, 80), err: Rgb(255, 100, 100) }
    } else if name == "Sunset"@ {
        ThemeExtras { bg: Rgb(22, 8, 6), warn: Rgb(255, 230, 80), err: Rgb(255, 50, 50) }
    } else if name == "Forest"@ {
        ThemeExtras { bg: Rgb(8, 18, 8), warn: Rgb(220, 200, 80), err: Rgb(210, 80, 80) }
    } else if name == "Rose"@ {
        ThemeExtras { bg: Rgb(28, 6, 16), warn: Rgb(255, 220, 180), err: Rgb(220, 60, 100) }
    } else if name == "Mono"@ {
        ThemeExtras { bg: Rgb(8, 8, 10), warn: Rgb(200, 200, 200), err: Rgb(160, 160, 160) }
    } else if name == "Neon"@ {
        ThemeExtras { bg: Rgb(6, 0, 14), warn: Rgb(255, 220, 0), err: Rgb(255, 30, 80) }
    } else if name == "Dracula"@ {
        ThemeExtras { bg: Rgb(40, 42, 54), warn: Rgb(241, 250, 140), err: Rgb(255, 85, 85) }
    } else if name == "Nord"@ {
        ThemeExtras { bg: Rgb(29, 35, 42), warn: Rgb(235, 203, 139), err: Rgb(191, 97, 106) }
    } else if name == "Solarized Dark"@ {
        ThemeExtras { bg: Rgb(0, 43, 54), warn: Rgb(181, 137, 0), err: Rgb(220, 50, 47) }
    } else if name == "Solarized Light"@ {
        ThemeExtras { bg: Rgb(253, 246, 227), warn: Rgb(181, 137, 0), err: Rgb(220, 50, 47) }
    } else if name == "Gruvbox Dark"@ {
        ThemeExtras { bg: Rgb(29, 28, 27), warn: Rgb(250, 189, 47), err: Rgb(251, 73, 52) }
    } else if name == "Gruvbox Light"@ {
        ThemeExtras { bg: Rgb(251, 241, 199), warn: Rgb(215, 153, 33), err: Rgb(214, 93, 14) }
    } else if name == "Catppuccin Latte"@ {
        ThemeExtras { bg: Rgb(239, 241, 245), warn: Rgb(223, 142, 29), err: Rgb(210, 15, 57) }
    } else if name == "Catppuccin Frappé"@ {
        ThemeExtras { bg: Rgb(48, 52, 70), warn: Rgb(229, 200, 144), err: Rgb(231, 130, 132) }
    } else if name == "Catppuccin Macchiato"@ {
        ThemeExtras { bg: Rgb(36, 39, 58), warn: Rgb(238, 212, 159), err: Rgb(237, 135, 150) }
    } else if name == "Catppuccin Mocha"@ {
        ThemeExtras { bg: Rgb(30, 30, 46), warn: Rgb(249, 226, 175), err: Rgb(243, 139, 168) }
    } else if name == "Tokyo Night"@ {
        ThemeExtras { bg: Rgb(26, 27, 38), warn: Rgb(224, 175, 104), err: Rgb(247, 118, 142) }
    } else if name == "Tokyo Night Storm"@ {
        ThemeExtras { bg: Rgb(36, 40, 59), warn: Rgb(224, 175, 104), err: Rgb(247, 118, 142) }
    } else if name == "Tokyo Night Light"@ {
        ThemeExtras { bg: Rgb(213, 214, 219), warn: Rgb(140, 108, 62), err: Rgb(210, 15, 57) }
    } else if name == "Kanagawa Wave"@ {
        ThemeExtras { bg: Rgb(22, 22, 30), warn: Rgb(220, 165, 97), err: Rgb(210, 126, 153) }
    } else if name == "Kanagawa Dragon"@ {
        ThemeExtras { bg: Rgb(20, 20, 20), warn: Rgb(200, 170, 109), err: Rgb(210, 126, 153) }
    } else if name == "Kanagawa Lotus"@ {
        ThemeExtras { bg: Rgb(246, 243, 228), warn: Rgb(119, 113, 63), err: Rgb(192, 71, 71) }
    } else if name == "Moonfly"@ {
        ThemeExtras { bg: Rgb(8, 8, 8), warn: Rgb(226, 164, 120), err: Rgb(255, 115, 131) }
    } else if name == "Nightfly"@ {
        ThemeExtras { bg: Rgb(1, 22, 38), warn: Rgb(243, 218, 11), err: Rgb(252, 87, 73) }
    } else if name == "Oxocarbon"@ {
        ThemeExtras { bg: Rgb(22, 22, 22), warn: Rgb(250, 204, 55), err: Rgb(255, 97, 101) }
    } else {
        ThemeExtras { bg: Rgb(18, 18, 26), warn: Rgb(255, 200, 50), err: Rgb(255, 80, 80) }
    }
}

/// `n` is the text `lit`.
fn is_text(n: &Vec<char>, lit: &str) -> (r: bool)
    ensures
        r == (n@ == lit@),
{
    eq_chars(n, &chars_of(lit))
}

/// The added colours of a theme (see `extras_of`).
pub fn extras(name: &str) -> (r: ThemeExtras)
    ensures
        r == extras_of(name@),
{
    let n = chars_of(name);
    if is_text(&n, "Default") {
        ThemeExtras { bg: Rgb(18, 18, 26), warn: Rgb(255, 200, 50), err: Rgb(255, 80, 80) }
    } else if is_text(&n, "Grape") {
        ThemeExtras { bg: Rgb(18, 12, 30), warn: Rgb(210, 170, 255), err: Rgb(255, 80, 150) }
    } else if is_text(&n, "Ocean") {
        ThemeExtras { bg: Rgb(0, 20, 35), warn: Rgb(255, 220, 80), err: Rgb(255, 100, 100) }
    } else if is_text(&n, "Sunset") {
        ThemeExtras { bg: Rgb(22, 8, 6), warn: Rgb(255, 230, 80), err: Rgb(255, 50, 50) }
    } else if is_text(&n, "Forest") {
        ThemeExtras { bg: Rgb(8, 18, 8), warn: Rgb(220, 200, 80), err: Rgb(210, 80, 80) }
    } else if is_text(&n, "Rose") {
        ThemeExtras { bg: Rgb(28, 6, 16), warn: Rgb(255, 220, 180), err: Rgb(220, 60, 100) }
    } else if is_text(&n, "Mono") {
        ThemeExtras { bg: Rgb(8, 8, 10), warn: Rgb(200, 200, 200), err: Rgb(160, 160, 160) }
    } else if is_text(&n, "Neon") {
        ThemeExtras { bg: Rgb(6, 0, 14), warn: Rgb(255, 220, 0), err: Rgb(255, 30, 80) }
    } else if is_text(&n, "Dracula") {
        ThemeExtras { bg: Rgb(40, 42, 54), warn: Rgb(241, 250, 140), err: Rgb(255, 85, 85) }
    } else if is_text(&n, "Nord") {
        ThemeExtras { bg: Rgb(29, 35, 42), warn: Rgb(235, 203, 139), err: Rgb(191, 97, 106) }
    } else if is_text(&n, "Solarized Dark") {
        ThemeExtras { bg: Rgb(0, 43, 54), warn: Rgb(181, 137, 0), err: Rgb(220, 50, 47) }
    } else if is_text(&n, "Solarized Light") {
        ThemeExtras { bg: Rgb(253, 246, 227), warn: Rgb(181, 137, 0), err: Rgb(220, 50, 47) }
    } else if is_text(&n, "Gruvbox Dark") {
        ThemeExtras { bg: Rgb(29, 28, 27), warn: Rgb(250, 189, 47), err: Rgb(251, 73, 52) }
    } else if is_text(&n, "Gruvbox Light") {
        ThemeExtras { bg: Rgb(251, 241, 199), warn: Rgb(215, 153, 33), err: Rgb(214, 93, 14) }
    } else if is_text(&n, "Catppuccin Latte") {
        ThemeExtras { bg: Rgb(239, 241, 245), warn: Rgb(223, 142, 29), err: Rgb(210, 15, 57) }
    } else if is_text(&n, "Catppuccin Frappé") {
        ThemeExtras { bg: Rgb(48, 52, 70), warn: Rgb(229, 200, 144), err: Rgb(231, 130, 132) }
    } else if is_text(&n, "Catppuccin Macchiato") {
        ThemeExtras { bg: Rgb(36, 39, 58), warn: Rgb(238, 212, 159), err: Rgb(237, 135, 150) }
    } else if is_text(&n, "Catppuccin Mocha") {
        ThemeExtras { bg: Rgb(30, 30, 46), warn: Rgb(249, 226, 175), err: Rgb(243, 139, 168) }
    } else if is_text(&n, "Tokyo Night") {
        ThemeExtras { bg: Rgb(26, 27, 38), warn: Rgb(224, 175, 104), err: Rgb(247, 118, 142) }
    } else if is_text(&n, "Tokyo Night Storm") {
        ThemeExtras { bg: Rgb(36, 40, 59), warn: Rgb(224, 175, 104), err: Rgb(247, 118, 142) }
    } else if is_text(&n, "Tokyo Night Light") {
        ThemeExtras { bg: Rgb(213, 214, 219), warn: Rgb(140, 108, 62), err: Rgb(210, 15, 57) }
    } else if is_text(&n, "Kanagawa Wave") {
        ThemeExtras { bg: Rgb(22, 22, 30), warn: Rgb(220, 165, 97), err: Rgb(210, 126, 153) }
    } else if is_text(&n, "Kanagawa Dragon") {
        ThemeExtras { bg: Rgb(20, 20, 20), warn: Rgb(200, 170, 109), err: Rgb(210, 126, 153) }
    } else if is_text(&n, "Kanagawa Lotus") {
        ThemeExtras { bg: Rgb(246, 243, 228), warn: Rgb(119, 113, 63), err: Rgb(192, 71, 71) }
    } else if is_text(&n, "Moonfly") {
        ThemeExtras { bg: Rgb(8, 8, 8), warn: Rgb(226, 164, 120), err: Rgb(255, 115, 131) }
    } else if is_text(&n, "Nightfly") {
        ThemeExtras { bg: Rgb(1, 22, 38), warn: Rgb(243, 218, 11), err: Rgb(252, 87, 73) }
    } else if is_text(&n, "Oxocarbon") {
        ThemeExtras { bg: Rgb(22, 22, 22), warn: Rgb(250, 204, 55), err: Rgb(255, 97, 101) }
    } else {
        ThemeExtras { bg: Rgb(18, 18, 26), warn: Rgb(255, 200, 50), err: Rgb(255, 80, 80) }
    }
}

} // verus!
