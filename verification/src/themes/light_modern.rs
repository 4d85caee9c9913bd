//! Light Modern palette colors.

use vstd::prelude::*;

verus! {

use vstd::string::StringExecFns;
use super::Theme;
use super::ThemeColors;
use super::create_color_map;
use super::capture_count;
use super::theme_entries;

/// The hex color of the capture with index `i` in this palette.
pub open spec fn spec_light_color(i: int) -> Seq<char> {
    if i == 0 {
        "#008000"@
    } else if i == 1 {
        "#008000"@
    } else if i == 2 {
        "#008000"@
    } else if i == 3 {
        "#008000"@
    } else if i == 4 {
        "#0000FF"@
    } else if i == 5 {
        "#AF00DB"@
    } else if i == 6 {
        "#AF00DB"@
    } else if i == 7 {
        "#AF00DB"@
    } else if i == 8 {
        "#AF00DB"@
    } else if i == 9 {
        "#AF00DB"@
    } else if i == 10 {
        "#AF00DB"@
    } else if i == 11 {
        "#0000FF"@
    } else if i == 12 {
        "#AF00DB"@
    } else if i == 13 {
        "#0000FF"@
    } else if i == 14 {
        "#0000FF"@
    } else if i == 15 {
        "#A31515"@
    } else if i == 16 {
        "#811F3F"@
    } else if i == 17 {
        "#A31515"@
    } else if i == 18 {
        "#A31515"@
    } else if i == 19 {
        "#A31515"@
    } else if i == 20 {
        "#A31515"@
    } else if i == 21 {
        "#0070C1"@
    } else if i == 22 {
        "#0000FF"@
    } else if i == 23 {
        "#0000FF"@
    } else if i == 24 {
        "#A31515"@
    } else if i == 25 {
        "#EE0000"@
    } else if i == 26 {
        "#098658"@
    } else if i == 27 {
        "#098658"@
    } else if i == 28 {
        "#098658"@
    } else if i == 29 {
        "#267F99"@
    } else if i == 30 {
        "#267F99"@
    } else if i == 31 {
        "#267F99"@
    } else if i == 32 {
        "#795E26"@
    } else if i == 33 {
        "#795E26"@
    } else if i == 34 {
        "#795E26"@
    } else if i == 35 {
        "#795E26"@
    } else if i == 36 {
        "#795E26"@
    } else if i == 37 {
        "#001080"@
    } else if i == 38 {
        "#0000FF"@
    } else if i == 39 {
        "#001080"@
    } else if i == 40 {
        "#001080"@
    } else if i == 41 {
        "#000000"@
    } else if i == 42 {
        "#000000"@
    } else if i == 43 {
        "#000000"@
    } else if i == 44 {
        "#000000"@
    } else if i == 45 {
        "#000000"@
    } else if i == 46 {
        "#001080"@
    } else if i == 47 {
        "#267F99"@
    } else if i == 48 {
        "#000000"@
    } else if i == 49 {
        "#267F99"@
    } else if i == 50 {
        "#AF00DB"@
    } else if i == 51 {
        "#FF0000"@
    } else if i == 52 {
        "#800000"@
    } else if i == 53 {
        "#F44747"@
    } else if i == 54 {
        "#0000FF"@
    } else if i == 55 {
        "#0000FF"@
    } else if i == 56 {
        "#008000"@
    } else if i == 57 {
        "#A31515"@
    } else if i == 58 {
        "#267F99"@
    } else if i == 59 {
        "#795E26"@
    } else if i == 60 {
        "#AF00DB"@
    } else if i == 61 {
        "#008000"@
    } else if i == 62 {
        "#0000FF"@
    } else if i == 63 {
        "#AF00DB"@
    } else if i == 64 {
        "#001080"@
    } else if i == 65 {
        "#A31515"@
    } else if i == 66 {
        "#008000"@
    } else if i == 67 {
        "#A31515"@
    } else if i == 68 {
        "#A31515"@
    } else if i == 69 {
        "#098658"@
    } else if i == 70 {
        "#A31515"@
    } else if i == 71 {
        "#795E26"@
    } else {
        Seq::empty()
    }
}

/// The hex color of the capture with index `i` in this palette.
pub fn light_color_at(i: usize) -> (r: &'static str)
    requires
        i < capture_count(),
    ensures
        r@ == spec_light_color(i as int),
{
    if i == 0 {
        "#008000"
    } else if i == 1 {
        "#008000"
    } else if i == 2 {
        "#008000"
    } else if i == 3 {
        "#008000"
    } else if i == 4 {
        "#0000FF"
    } else if i == 5 {
        "#AF00DB"
    } else if i == 6 {
        "#AF00DB"
    } else if i == 7 {
        "#AF00DB"
    } else if i == 8 {
        "#AF00DB"
    } else if i == 9 {
        "#AF00DB"
    } else if i == 10 {
        "#AF00DB"
    } else if i == 11 {
        "#0000FF"
    } else if i == 12 {
        "#AF00DB"
    } else if i == 13 {
        "#0000FF"
    } else if i == 14 {
        "#0000FF"
    } else if i == 15 {
        "#A31515"
    } else if i == 16 {
        "#811F3F"
    } else if i == 17 {
        "#A31515"
    } else if i == 18 {
        "#A31515"
    } else if i == 19 {
        "#A31515"
    } else if i == 20 {
        "#A31515"
    } else if i == 21 {
        "#0070C1"
    } else if i == 22 {
        "#0000FF"
    } else if i == 23 {
        "#0000FF"
    } else if i == 24 {
        "#A31515"
    } else if i == 25 {
        "#EE0000"
    } else if i == 26 {
        "#098658"
    } else if i == 27 {
        "#098658"
    } else if i == 28 {
        "#098658"
    } else if i == 29 {
        "#267F99"
    } else if i == 30 {
        "#267F99"
    } else if i == 31 {
        "#267F99"
    } else if i == 32 {
        "#795E26"
    } else if i == 33 {
        "#795E26"
    } else if i == 34 {
        "#795E26"
    } else if i == 35 {
        "#795E26"
    } else if i == 36 {
        "#795E26"
    } else if i == 37 {
        "#001080"
    } else if i == 38 {
        "#0000FF"
    } else if i == 39 {
        "#001080"
    } else if i == 40 {
        "#001080"
    } else if i == 41 {
        "#000000"
    } else if i == 42 {
        "#000000"
    } else if i == 43 {
        "#000000"
    } else if i == 44 {
        "#000000"
    } else if i == 45 {
        "#000000"
    } else if i == 46 {
        "#001080"
    } else if i == 47 {
        "#267F99"
    } else if i == 48 {
        "#000000"
    } else if i == 49 {
        "#267F99"
    } else if i == 50 {
        "#AF00DB"
    } else if i == 51 {
        "#FF0000"
    } else if i == 52 {
        "#800000"
    } else if i == 53 {
        "#F44747"
    } else if i == 54 {
        "#0000FF"
    } else if i == 55 {
        "#0000FF"
    } else if i == 56 {
        "#008000"
    } else if i == 57 {
        "#A31515"
    } else if i == 58 {
        "#267F99"
    } else if i == 59 {
        "#795E26"
    } else if i == 60 {
        "#AF00DB"
    } else if i == 61 {
        "#008000"
    } else if i == 62 {
        "#0000FF"
    } else if i == 63 {
        "#AF00DB"
    } else if i == 64 {
        "#001080"
    } else if i == 65 {
        "#A31515"
    } else if i == 66 {
        "#008000"
    } else if i == 67 {
        "#A31515"
    } else if i == 68 {
        "#A31515"
    } else if i == 69 {
        "#098658"
    } else if i == 70 {
        "#A31515"
    } else if i == 71 {
        "#795E26"
    } else {
        "#795E26"
    }
}

/// The complete Light Modern palette.
pub fn light_modern_colors() -> (r: ThemeColors)
    ensures
        r.color_map.deep_view() == theme_entries(Theme::LightModern),
        r.background@ == "#FFFFFF"@,
        r.foreground@ == "#000000"@,
{
    ThemeColors {
        color_map: create_color_map(Theme::LightModern),
        background: String::from_str("#FFFFFF"),
        foreground: String::from_str("#000000"),
    }
}

} // verus!
