//! Dark Modern palette colors.

use vstd::prelude::*;

verus! {

use vstd::string::StringExecFns;
use super::Theme;
use super::ThemeColors;
use super::create_color_map;
use super::capture_count;
use super::theme_entries;

/// The hex color of the capture with index `i` in this palette.
pub open spec fn spec_dark_color(i: int) -> Seq<char> {
    if i == 0 {
        "#6A9955"@
    } else if i == 1 {
        "#6A9955"@
    } else if i == 2 {
        "#6A9955"@
    } else if i == 3 {
        "#6A9955"@
    } else if i == 4 {
        "#569CD6"@
    } else if i == 5 {
        "#C586C0"@
    } else if i == 6 {
        "#C586C0"@
    } else if i == 7 {
        "#C586C0"@
    } else if i == 8 {
        "#C586C0"@
    } else if i == 9 {
        "#C586C0"@
    } else if i == 10 {
        "#C586C0"@
    } else if i == 11 {
        "#569CD6"@
    } else if i == 12 {
        "#C586C0"@
    } else if i == 13 {
        "#569CD6"@
    } else if i == 14 {
        "#569CD6"@
    } else if i == 15 {
        "#CE9178"@
    } else if i == 16 {
        "#D16969"@
    } else if i == 17 {
        "#CE9178"@
    } else if i == 18 {
        "#CE9178"@
    } else if i == 19 {
        "#CE9178"@
    } else if i == 20 {
        "#CE9178"@
    } else if i == 21 {
        "#4FC1FF"@
    } else if i == 22 {
        "#569CD6"@
    } else if i == 23 {
        "#569CD6"@
    } else if i == 24 {
        "#CE9178"@
    } else if i == 25 {
        "#D7A635"@
    } else if i == 26 {
        "#B5CEA8"@
    } else if i == 27 {
        "#B5CEA8"@
    } else if i == 28 {
        "#B5CEA8"@
    } else if i == 29 {
        "#4EC9B0"@
    } else if i == 30 {
        "#4EC9B0"@
    } else if i == 31 {
        "#4EC9B0"@
    } else if i == 32 {
        "#DCDCAA"@
    } else if i == 33 {
        "#DCDCAA"@
    } else if i == 34 {
        "#DCDCAA"@
    } else if i == 35 {
        "#DCDCAA"@
    } else if i == 36 {
        "#DCDCAA"@
    } else if i == 37 {
        "#9CDCFE"@
    } else if i == 38 {
        "#569CD6"@
    } else if i == 39 {
        "#9CDCFE"@
    } else if i == 40 {
        "#9CDCFE"@
    } else if i == 41 {
        "#D4D4D4"@
    } else if i == 42 {
        "#D4D4D4"@
    } else if i == 43 {
        "#FFD700"@
    } else if i == 44 {
        "#D4D4D4"@
    } else if i == 45 {
        "#D4D4D4"@
    } else if i == 46 {
        "#9CDCFE"@
    } else if i == 47 {
        "#4EC9B0"@
    } else if i == 48 {
        "#C8C8C8"@
    } else if i == 49 {
        "#4EC9B0"@
    } else if i == 50 {
        "#C586C0"@
    } else if i == 51 {
        "#9CDCFE"@
    } else if i == 52 {
        "#569CD6"@
    } else if i == 53 {
        "#F44747"@
    } else if i == 54 {
        "#569CD6"@
    } else if i == 55 {
        "#569CD6"@
    } else if i == 56 {
        "#6A9955"@
    } else if i == 57 {
        "#CE9178"@
    } else if i == 58 {
        "#4EC9B0"@
    } else if i == 59 {
        "#DCDCAA"@
    } else if i == 60 {
        "#C586C0"@
    } else if i == 61 {
        "#6A9955"@
    } else if i == 62 {
        "#569CD6"@
    } else if i == 63 {
        "#C586C0"@
    } else if i == 64 {
        "#9CDCFE"@
    } else if i == 65 {
        "#CE9178"@
    } else if i == 66 {
        "#6A9955"@
    } else if i == 67 {
        "#CE9178"@
    } else if i == 68 {
        "#CE9178"@
    } else if i == 69 {
        "#89D185"@
    } else if i == 70 {
        "#F14C4C"@
    } else if i == 71 {
        "#E2C08D"@
    } else {
        Seq::empty()
    }
}

/// The hex color of the capture with index `i` in this palette.
pub fn dark_color_at(i: usize) -> (r: &'static str)
    requires
        i < capture_count(),
    ensures
        r@ == spec_dark_color(i as int),
{
    if i == 0 {
        "#6A9955"
    } else if i == 1 {
        "#6A9955"
    } else if i == 2 {
        "#6A9955"
    } else if i == 3 {
        "#6A9955"
    } else if i == 4 {
        "#569CD6"
    } else if i == 5 {
        "#C586C0"
    } else if i == 6 {
        "#C586C0"
    } else if i == 7 {
        "#C586C0"
    } else if i == 8 {
        "#C586C0"
    } else if i == 9 {
        "#C586C0"
    } else if i == 10 {
        "#C586C0"
    } else if i == 11 {
        "#569CD6"
    } else if i == 12 {
        "#C586C0"
    } else if i == 13 {
        "#569CD6"
    } else if i == 14 {
        "#569CD6"
    } else if i == 15 {
        "#CE9178"
    } else if i == 16 {
        "#D16969"
    } else if i == 17 {
        "#CE9178"
    } else if i == 18 {
        "#CE9178"
    } else if i == 19 {
        "#CE9178"
    } else if i == 20 {
        "#CE9178"
    } else if i == 21 {
        "#4FC1FF"
    } else if i == 22 {
        "#569CD6"
    } else if i == 23 {
        "#569CD6"
    } else if i == 24 {
        "#CE9178"
    } else if i == 25 {
        "#D7A635"
    } else if i == 26 {
        "#B5CEA8"
    } else if i == 27 {
        "#B5CEA8"
    } else if i == 28 {
        "#B5CEA8"
    } else if i == 29 {
        "#4EC9B0"
    } else if i == 30 {
        "#4EC9B0"
    } else if i == 31 {
        "#4EC9B0"
    } else if i == 32 {
        "#DCDCAA"
    } else if i == 33 {
        "#DCDCAA"
    } else if i == 34 {
        "#DCDCAA"
    } else if i == 35 {
        "#DCDCAA"
    } else if i == 36 {
        "#DCDCAA"
    } else if i == 37 {
        "#9CDCFE"
    } else if i == 38 {
        "#569CD6"
    } else if i == 39 {
        "#9CDCFE"
    } else if i == 40 {
        "#9CDCFE"
    } else if i == 41 {
        "#D4D4D4"
    } else if i == 42 {
        "#D4D4D4"
    } else if i == 43 {
        "#FFD700"
    } else if i == 44 {
        "#D4D4D4"
    } else if i == 45 {
        "#D4D4D4"
    } else if i == 46 {
        "#9CDCFE"
    } else if i == 47 {
        "#4EC9B0"
    } else if i == 48 {
        "#C8C8C8"
    } else if i == 49 {
        "#4EC9B0"
    } else if i == 50 {
        "#C586C0"
    } else if i == 51 {
        "#9CDCFE"
    } else if i == 52 {
        "#569CD6"
    } else if i == 53 {
        "#F44747"
    } else if i == 54 {
        "#569CD6"
    } else if i == 55 {
        "#569CD6"
    } else if i == 56 {
        "#6A9955"
    } else if i == 57 {
        "#CE9178"
    } else if i == 58 {
        "#4EC9B0"
    } else if i == 59 {
        "#DCDCAA"
    } else if i == 60 {
        "#C586C0"
    } else if i == 61 {
        "#6A9955"
    } else if i == 62 {
        "#569CD6"
    } else if i == 63 {
        "#C586C0"
    } else if i == 64 {
        "#9CDCFE"
    } else if i == 65 {
        "#CE9178"
    } else if i == 66 {
        "#6A9955"
    } else if i == 67 {
        "#CE9178"
    } else if i == 68 {
        "#CE9178"
    } else if i == 69 {
        "#89D185"
    } else if i == 70 {
        "#F14C4C"
    } else if i == 71 {
        "#E2C08D"
    } else {
        "#E2C08D"
    }
}

/// The complete Dark Modern palette.
pub fn dark_modern_colors() -> (r: ThemeColors)
    ensures
        r.color_map.deep_view() == theme_entries(Theme::DarkModern),
        r.background@ == "#1E1E1E"@,
        r.foreground@ == "#D4D4D4"@,
{
    ThemeColors {
        color_map: create_color_map(Theme::DarkModern),
        background: String::from_str("#1E1E1E"),
        foreground: String::from_str("#D4D4D4"),
    }
}

} // verus!
