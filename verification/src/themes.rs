//! Syntax highlighting themes: palettes that map capture names to colors,
//! and the shared capture-name to CSS-class mapping.
//!
//! Both palettes recognize the same capture names in the same order, so the
//! numeric highlight indices and the CSS class vocabulary are identical
//! across themes; only the colors differ.

use vstd::prelude::*;

mod dark_modern;
mod light_modern;

pub use dark_modern::dark_modern_colors;
pub use light_modern::light_modern_colors;

verus! {

use vstd::string::StrSliceExecFns;
use vstd::string::StringExecFns;
use crate::text::lower_of;
use crate::text::to_lower;
use crate::text::starts_with;
use crate::text::assoc;
use crate::text::assoc_get;
use crate::text::chars_equal;
use crate::text::chars_start_with;
use crate::text::copy_range;
use crate::text::push_chars;
use crate::text::push_str_chars;
use crate::text::str_chars;
use crate::text::chars_to_string;

/// How many capture names the themes recognize.
pub open spec fn capture_count() -> int {
    72
}

/// The capture name with highlight index `i`.
pub open spec fn spec_capture(i: int) -> Seq<char> {
    if i == 0 {
        "comment"@
    } else if i == 1 {
        "comment.line"@
    } else if i == 2 {
        "comment.block"@
    } else if i == 3 {
        "comment.block.documentation"@
    } else if i == 4 {
        "keyword"@
    } else if i == 5 {
        "keyword.control"@
    } else if i == 6 {
        "keyword.control.conditional"@
    } else if i == 7 {
        "keyword.control.repeat"@
    } else if i == 8 {
        "keyword.control.import"@
    } else if i == 9 {
        "keyword.control.return"@
    } else if i == 10 {
        "keyword.control.exception"@
    } else if i == 11 {
        "keyword.operator"@
    } else if i == 12 {
        "keyword.directive"@
    } else if i == 13 {
        "keyword.function"@
    } else if i == 14 {
        "keyword.storage"@
    } else if i == 15 {
        "string"@
    } else if i == 16 {
        "string.regexp"@
    } else if i == 17 {
        "string.special"@
    } else if i == 18 {
        "string.special.path"@
    } else if i == 19 {
        "string.special.url"@
    } else if i == 20 {
        "string.special.symbol"@
    } else if i == 21 {
        "constant"@
    } else if i == 22 {
        "constant.builtin"@
    } else if i == 23 {
        "constant.builtin.boolean"@
    } else if i == 24 {
        "constant.character"@
    } else if i == 25 {
        "constant.character.escape"@
    } else if i == 26 {
        "constant.numeric"@
    } else if i == 27 {
        "constant.numeric.integer"@
    } else if i == 28 {
        "constant.numeric.float"@
    } else if i == 29 {
        "type"@
    } else if i == 30 {
        "type.builtin"@
    } else if i == 31 {
        "type.enum.variant"@
    } else if i == 32 {
        "function"@
    } else if i == 33 {
        "function.builtin"@
    } else if i == 34 {
        "function.method"@
    } else if i == 35 {
        "function.macro"@
    } else if i == 36 {
        "function.special"@
    } else if i == 37 {
        "variable"@
    } else if i == 38 {
        "variable.builtin"@
    } else if i == 39 {
        "variable.parameter"@
    } else if i == 40 {
        "variable.other.member"@
    } else if i == 41 {
        "punctuation"@
    } else if i == 42 {
        "punctuation.delimiter"@
    } else if i == 43 {
        "punctuation.bracket"@
    } else if i == 44 {
        "punctuation.special"@
    } else if i == 45 {
        "operator"@
    } else if i == 46 {
        "property"@
    } else if i == 47 {
        "constructor"@
    } else if i == 48 {
        "label"@
    } else if i == 49 {
        "namespace"@
    } else if i == 50 {
        "special"@
    } else if i == 51 {
        "attribute"@
    } else if i == 52 {
        "tag"@
    } else if i == 53 {
        "tag.error"@
    } else if i == 54 {
        "markup.heading"@
    } else if i == 55 {
        "markup.heading.1"@
    } else if i == 56 {
        "markup.heading.2"@
    } else if i == 57 {
        "markup.heading.3"@
    } else if i == 58 {
        "markup.heading.4"@
    } else if i == 59 {
        "markup.heading.5"@
    } else if i == 60 {
        "markup.heading.6"@
    } else if i == 61 {
        "markup.list"@
    } else if i == 62 {
        "markup.bold"@
    } else if i == 63 {
        "markup.italic"@
    } else if i == 64 {
        "markup.link"@
    } else if i == 65 {
        "markup.link.url"@
    } else if i == 66 {
        "markup.quote"@
    } else if i == 67 {
        "markup.raw"@
    } else if i == 68 {
        "markup.raw.block"@
    } else if i == 69 {
        "diff.plus"@
    } else if i == 70 {
        "diff.minus"@
    } else if i == 71 {
        "diff.delta"@
    } else {
        Seq::empty()
    }
}

/// The CSS class assigned to the capture name with index `i`.
/// The mapping is shared by every theme.
pub open spec fn spec_css_class(i: int) -> Seq<char> {
    if i == 0 {
        "ts-comment"@
    } else if i == 1 {
        "ts-comment-line"@
    } else if i == 2 {
        "ts-comment-block"@
    } else if i == 3 {
        "ts-comment-doc"@
    } else if i == 4 {
        "ts-keyword"@
    } else if i == 5 {
        "ts-keyword-control"@
    } else if i == 6 {
        "ts-keyword-conditional"@
    } else if i == 7 {
        "ts-keyword-repeat"@
    } else if i == 8 {
        "ts-keyword-import"@
    } else if i == 9 {
        "ts-keyword-return"@
    } else if i == 10 {
        "ts-keyword-exception"@
    } else if i == 11 {
        "ts-keyword-operator"@
    } else if i == 12 {
        "ts-keyword-directive"@
    } else if i == 13 {
        "ts-keyword-function"@
    } else if i == 14 {
        "ts-keyword-storage"@
    } else if i == 15 {
        "ts-string"@
    } else if i == 16 {
        "ts-string-regexp"@
    } else if i == 17 {
        "ts-string-special"@
    } else if i == 18 {
        "ts-string-path"@
    } else if i == 19 {
        "ts-string-url"@
    } else if i == 20 {
        "ts-string-symbol"@
    } else if i == 21 {
        "ts-constant"@
    } else if i == 22 {
        "ts-constant-builtin"@
    } else if i == 23 {
        "ts-boolean"@
    } else if i == 24 {
        "ts-char"@
    } else if i == 25 {
        "ts-escape"@
    } else if i == 26 {
        "ts-number"@
    } else if i == 27 {
        "ts-integer"@
    } else if i == 28 {
        "ts-float"@
    } else if i == 29 {
        "ts-type"@
    } else if i == 30 {
        "ts-type-builtin"@
    } else if i == 31 {
        "ts-enum-variant"@
    } else if i == 32 {
        "ts-function"@
    } else if i == 33 {
        "ts-function-builtin"@
    } else if i == 34 {
        "ts-method"@
    } else if i == 35 {
        "ts-macro"@
    } else if i == 36 {
        "ts-function-special"@
    } else if i == 37 {
        "ts-variable"@
    } else if i == 38 {
        "ts-variable-builtin"@
    } else if i == 39 {
        "ts-parameter"@
    } else if i == 40 {
        "ts-member"@
    } else if i == 41 {
        "ts-punctuation"@
    } else if i == 42 {
        "ts-delimiter"@
    } else if i == 43 {
        "ts-bracket"@
    } else if i == 44 {
        "ts-punctuation-special"@
    } else if i == 45 {
        "ts-operator"@
    } else if i == 46 {
        "ts-property"@
    } else if i == 47 {
        "ts-constructor"@
    } else if i == 48 {
        "ts-label"@
    } else if i == 49 {
        "ts-namespace"@
    } else if i == 50 {
        "ts-special"@
    } else if i == 51 {
        "ts-attribute"@
    } else if i == 52 {
        "ts-tag"@
    } else if i == 53 {
        "ts-tag-error"@
    } else if i == 54 {
        "ts-heading"@
    } else if i == 55 {
        "ts-heading-1"@
    } else if i == 56 {
        "ts-heading-2"@
    } else if i == 57 {
        "ts-heading-3"@
    } else if i == 58 {
        "ts-heading-4"@
    } else if i == 59 {
        "ts-heading-5"@
    } else if i == 60 {
        "ts-heading-6"@
    } else if i == 61 {
        "ts-list"@
    } else if i == 62 {
        "ts-bold"@
    } else if i == 63 {
        "ts-italic"@
    } else if i == 64 {
        "ts-link"@
    } else if i == 65 {
        "ts-link-url"@
    } else if i == 66 {
        "ts-quote"@
    } else if i == 67 {
        "ts-raw"@
    } else if i == 68 {
        "ts-raw-block"@
    } else if i == 69 {
        "ts-diff-plus"@
    } else if i == 70 {
        "ts-diff-minus"@
    } else if i == 71 {
        "ts-diff-delta"@
    } else {
        Seq::empty()
    }
}

/// The ordered list of recognized capture names.
pub open spec fn capture_names() -> Seq<Seq<char>> {
    Seq::new(capture_count() as nat, |i: int| spec_capture(i))
}

/// The capture name with highlight index `i`.
pub fn capture_at(i: usize) -> (r: &'static str)
    requires
        i < capture_count(),
    ensures
        r@ == spec_capture(i as int),
{
    if i == 0 {
        "comment"
    } else if i == 1 {
        "comment.line"
    } else if i == 2 {
        "comment.block"
    } else if i == 3 {
        "comment.block.documentation"
    } else if i == 4 {
        "keyword"
    } else if i == 5 {
        "keyword.control"
    } else if i == 6 {
        "keyword.control.conditional"
    } else if i == 7 {
        "keyword.control.repeat"
    } else if i == 8 {
        "keyword.control.import"
    } else if i == 9 {
        "keyword.control.return"
    } else if i == 10 {
        "keyword.control.exception"
    } else if i == 11 {
        "keyword.operator"
    } else if i == 12 {
        "keyword.directive"
    } else if i == 13 {
        "keyword.function"
    } else if i == 14 {
        "keyword.storage"
    } else if i == 15 {
        "string"
    } else if i == 16 {
        "string.regexp"
    } else if i == 17 {
        "string.special"
    } else if i == 18 {
        "string.special.path"
    } else if i == 19 {
        "string.special.url"
    } else if i == 20 {
        "string.special.symbol"
    } else if i == 21 {
        "constant"
    } else if i == 22 {
        "constant.builtin"
    } else if i == 23 {
        "constant.builtin.boolean"
    } else if i == 24 {
        "constant.character"
    } else if i == 25 {
        "constant.character.escape"
    } else if i == 26 {
        "constant.numeric"
    } else if i == 27 {
        "constant.numeric.integer"
    } else if i == 28 {
        "constant.numeric.float"
    } else if i == 29 {
        "type"
    } else if i == 30 {
        "type.builtin"
    } else if i == 31 {
        "type.enum.variant"
    } else if i == 32 {
        "function"
    } else if i == 33 {
        "function.builtin"
    } else if i == 34 {
        "function.method"
    } else if i == 35 {
        "function.macro"
    } else if i == 36 {
        "function.special"
    } else if i == 37 {
        "variable"
    } else if i == 38 {
        "variable.builtin"
    } else if i == 39 {
        "variable.parameter"
    } else if i == 40 {
        "variable.other.member"
    } else if i == 41 {
        "punctuation"
    } else if i == 42 {
        "punctuation.delimiter"
    } else if i == 43 {
        "punctuation.bracket"
    } else if i == 44 {
        "punctuation.special"
    } else if i == 45 {
        "operator"
    } else if i == 46 {
        "property"
    } else if i == 47 {
        "constructor"
    } else if i == 48 {
        "label"
    } else if i == 49 {
        "namespace"
    } else if i == 50 {
        "special"
    } else if i == 51 {
        "attribute"
    } else if i == 52 {
        "tag"
    } else if i == 53 {
        "tag.error"
    } else if i == 54 {
        "markup.heading"
    } else if i == 55 {
        "markup.heading.1"
    } else if i == 56 {
        "markup.heading.2"
    } else if i == 57 {
        "markup.heading.3"
    } else if i == 58 {
        "markup.heading.4"
    } else if i == 59 {
        "markup.heading.5"
    } else if i == 60 {
        "markup.heading.6"
    } else if i == 61 {
        "markup.list"
    } else if i == 62 {
        "markup.bold"
    } else if i == 63 {
        "markup.italic"
    } else if i == 64 {
        "markup.link"
    } else if i == 65 {
        "markup.link.url"
    } else if i == 66 {
        "markup.quote"
    } else if i == 67 {
        "markup.raw"
    } else if i == 68 {
        "markup.raw.block"
    } else if i == 69 {
        "diff.plus"
    } else if i == 70 {
        "diff.minus"
    } else if i == 71 {
        "diff.delta"
    } else {
        "diff.delta"
    }
}

/// The CSS class of the capture name with highlight index `i`.
pub fn css_class_at(i: usize) -> (r: &'static str)
    requires
        i < capture_count(),
    ensures
        r@ == spec_css_class(i as int),
{
    if i == 0 {
        "ts-comment"
    } else if i == 1 {
        "ts-comment-line"
    } else if i == 2 {
        "ts-comment-block"
    } else if i == 3 {
        "ts-comment-doc"
    } else if i == 4 {
        "ts-keyword"
    } else if i == 5 {
        "ts-keyword-control"
    } else if i == 6 {
        "ts-keyword-conditional"
    } else if i == 7 {
        "ts-keyword-repeat"
    } else if i == 8 {
        "ts-keyword-import"
    } else if i == 9 {
        "ts-keyword-return"
    } else if i == 10 {
        "ts-keyword-exception"
    } else if i == 11 {
        "ts-keyword-operator"
    } else if i == 12 {
        "ts-keyword-directive"
    } else if i == 13 {
        "ts-keyword-function"
    } else if i == 14 {
        "ts-keyword-storage"
    } else if i == 15 {
        "ts-string"
    } else if i == 16 {
        "ts-string-regexp"
    } else if i == 17 {
        "ts-string-special"
    } else if i == 18 {
        "ts-string-path"
    } else if i == 19 {
        "ts-string-url"
    } else if i == 20 {
        "ts-string-symbol"
    } else if i == 21 {
        "ts-constant"
    } else if i == 22 {
        "ts-constant-builtin"
    } else if i == 23 {
        "ts-boolean"
    } else if i == 24 {
        "ts-char"
    } else if i == 25 {
        "ts-escape"
    } else if i == 26 {
        "ts-number"
    } else if i == 27 {
        "ts-integer"
    } else if i == 28 {
        "ts-float"
    } else if i == 29 {
        "ts-type"
    } else if i == 30 {
        "ts-type-builtin"
    } else if i == 31 {
        "ts-enum-variant"
    } else if i == 32 {
        "ts-function"
    } else if i == 33 {
        "ts-function-builtin"
    } else if i == 34 {
        "ts-method"
    } else if i == 35 {
        "ts-macro"
    } else if i == 36 {
        "ts-function-special"
    } else if i == 37 {
        "ts-variable"
    } else if i == 38 {
        "ts-variable-builtin"
    } else if i == 39 {
        "ts-parameter"
    } else if i == 40 {
        "ts-member"
    } else if i == 41 {
        "ts-punctuation"
    } else if i == 42 {
        "ts-delimiter"
    } else if i == 43 {
        "ts-bracket"
    } else if i == 44 {
        "ts-punctuation-special"
    } else if i == 45 {
        "ts-operator"
    } else if i == 46 {
        "ts-property"
    } else if i == 47 {
        "ts-constructor"
    } else if i == 48 {
        "ts-label"
    } else if i == 49 {
        "ts-namespace"
    } else if i == 50 {
        "ts-special"
    } else if i == 51 {
        "ts-attribute"
    } else if i == 52 {
        "ts-tag"
    } else if i == 53 {
        "ts-tag-error"
    } else if i == 54 {
        "ts-heading"
    } else if i == 55 {
        "ts-heading-1"
    } else if i == 56 {
        "ts-heading-2"
    } else if i == 57 {
        "ts-heading-3"
    } else if i == 58 {
        "ts-heading-4"
    } else if i == 59 {
        "ts-heading-5"
    } else if i == 60 {
        "ts-heading-6"
    } else if i == 61 {
        "ts-list"
    } else if i == 62 {
        "ts-bold"
    } else if i == 63 {
        "ts-italic"
    } else if i == 64 {
        "ts-link"
    } else if i == 65 {
        "ts-link-url"
    } else if i == 66 {
        "ts-quote"
    } else if i == 67 {
        "ts-raw"
    } else if i == 68 {
        "ts-raw-block"
    } else if i == 69 {
        "ts-diff-plus"
    } else if i == 70 {
        "ts-diff-minus"
    } else if i == 71 {
        "ts-diff-delta"
    } else {
        "ts-diff-delta"
    }
}

/// Supported themes.
#[derive(Debug, Clone, Copy, PartialEq, Eq, Structural)]
pub enum Theme {
    DarkModern,
    LightModern,
}

/// Theme color definitions: capture names paired with hex colors, kept in
/// the shared capture order, plus the background and foreground colors.
#[derive(Debug, Clone)]
pub struct ThemeColors {
    /// Pairs of capture name and hex color, in capture-index order.
    pub color_map: Vec<(String, String)>,
    /// Background color.
    pub background: String,
    /// Foreground (default text) color.
    pub foreground: String,
}

impl ThemeColors {
    /// The hex color this palette assigns to `capture`, if it recognizes it.
    pub fn get(&self, capture: &str) -> (r: Option<String>)
        ensures
            match r {
                Some(s) => assoc(self.color_map.deep_view(), capture@) == Some(s@),
                None => assoc(self.color_map.deep_view(), capture@) is None,
            },
    {
        let key = String::from_str(capture);
        assoc_get(&self.color_map, &key)
    }
}

/// The hex color of the capture with index `i` under theme `t`.
pub open spec fn spec_color(t: Theme, i: int) -> Seq<char> {
    match t {
        Theme::DarkModern => dark_modern::spec_dark_color(i),
        Theme::LightModern => light_modern::spec_light_color(i),
    }
}

/// The (capture name, color) pairs of theme `t`, in capture-index order.
pub open spec fn theme_entries(t: Theme) -> Seq<(Seq<char>, Seq<char>)> {
    Seq::new(capture_count() as nat, |i: int| (spec_capture(i), spec_color(t, i)))
}

/// The hex color of the capture with index `i` under theme `t`.
pub fn theme_color_at(t: Theme, i: usize) -> (r: &'static str)
    requires
        i < capture_count(),
    ensures
        r@ == spec_color(t, i as int),
{
    match t {
        Theme::DarkModern => dark_modern::dark_color_at(i),
        Theme::LightModern => light_modern::light_color_at(i),
    }
}

/// The capture-name/color pairs of theme `t` as an owned list.
pub(crate) fn create_color_map(t: Theme) -> (r: Vec<(String, String)>)
    ensures
        r.deep_view() == theme_entries(t),
{
    let mut m: Vec<(String, String)> = Vec::new();
    let mut i: usize = 0;
    while i < 72
        invariant
            i <= 72,
            m.deep_view() == theme_entries(t).subrange(0, i as int),
        decreases 72 - i,
    {
        let name = String::from_str(capture_at(i));
        let col = String::from_str(theme_color_at(t, i));
        let ghost nv = name@;
        let ghost cv = col@;
        let ghost pre = m.deep_view();
        m.push((name, col));
        proof {
            assert(m.deep_view() =~~= pre.push((nv, cv)));
            assert(m.deep_view() =~~= theme_entries(t).subrange(0, i + 1 as int));
        }
        i = i + 1;
    }
    proof {
        assert(theme_entries(t).subrange(0, capture_count()) =~= theme_entries(t));
    }
    m
}

/// The class used when a highlight index maps to no specific class.
pub open spec fn default_class() -> Seq<char> {
    "ts-default"@
}

/// What `css_variables` emits for the capture with index `i` under theme `t`:
/// a CSS custom-property line naming the class (without its `ts-` prefix)
/// and its color.
pub open spec fn spec_var_line(t: Theme, i: int) -> Seq<char> {
    "  --ts-"@ + strip_ts_prefix(spec_css_class(i)) + ": "@ + spec_color(t, i) + ";\n"@
}

/// `s` without a leading `ts-`, if it has one.
pub open spec fn strip_ts_prefix(s: Seq<char>) -> Seq<char> {
    if starts_with(s, "ts-"@) {
        s.skip(3)
    } else {
        s
    }
}

/// The variable lines for the captures with index `i` and above.
pub open spec fn spec_css_vars_from(t: Theme, i: int) -> Seq<char>
    decreases capture_count() - i,
{
    if i < 0 || i >= capture_count() {
        Seq::empty()
    } else {
        spec_var_line(t, i) + spec_css_vars_from(t, i + 1)
    }
}

/// The CSS custom-property block of theme `t`: one line per capture.
pub open spec fn spec_css_variables(t: Theme) -> Seq<char> {
    spec_css_vars_from(t, 0)
}

impl Theme {
    /// This theme's palette.
    pub fn colors(&self) -> (r: ThemeColors)
        ensures
            r.color_map.deep_view() == theme_entries(*self),
            *self is DarkModern ==> r.background@ == "#1E1E1E"@ && r.foreground@ == "#D4D4D4"@,
            *self is LightModern ==> r.background@ == "#FFFFFF"@ && r.foreground@ == "#000000"@,
    {
        match self {
            Theme::DarkModern => dark_modern_colors(),
            Theme::LightModern => light_modern_colors(),
        }
    }

    /// The ordered list of capture names this theme recognizes; the position
    /// of a name is the numeric highlight index the query engine reports.
    pub fn captured_names(&self) -> (r: Vec<String>)
        ensures
            r.deep_view() == capture_names(),
    {
        let mut out: Vec<String> = Vec::new();
        let mut i: usize = 0;
        while i < 72
            invariant
                i <= 72,
                out.deep_view() == capture_names().subrange(0, i as int),
            decreases 72 - i,
        {
            let name = String::from_str(capture_at(i));
            let ghost nv = name@;
            let ghost pre = out.deep_view();
            out.push(name);
            proof {
                assert(out.deep_view() =~~= pre.push(nv));
                assert(out.deep_view() =~~= capture_names().subrange(0, i + 1 as int));
            }
            i = i + 1;
        }
        proof {
            assert(capture_names().subrange(0, capture_count()) =~= capture_names());
        }
        out
    }

    /// The CSS class name for a capture, shared across all themes.
    pub fn css_class(&self, capture: &str) -> (r: Option<String>)
        ensures
            match r {
                Some(s) => spec_css_lookup(capture@) == Some(s@),
                None => spec_css_lookup(capture@) is None,
            },
    {
        let key = str_chars(capture);
        let mut i: usize = 0;
        while i < 72
            invariant
                i <= 72,
                key@ == capture@,
                spec_css_lookup(capture@) == spec_css_lookup_from(capture@, i as int),
            decreases 72 - i,
        {
            if chars_equal(&key, capture_at(i)) {
                return Some(String::from_str(css_class_at(i)));
            }
            i = i + 1;
        }
        None
    }

    /// The CSS class for a highlight index: the class of the capture at that
    /// position, or `ts-default` when the index is out of range.
    pub fn css_class_for_index(&self, index: usize) -> (r: String)
        ensures
            r@ == spec_class_for_index(index as int),
    {
        if index < 72 {
            String::from_str(css_class_at(index))
        } else {
            String::from_str("ts-default")
        }
    }

    /// The CSS custom-property definitions for this theme.
    pub fn css_variables(&self) -> (r: String)
        ensures
            r@ == spec_css_variables(*self),
    {
        let mut out: Vec<char> = Vec::new();
        let mut i: usize = 0;
        while i < 72
            invariant
                i <= 72,
                spec_css_variables(*self) == out@ + spec_css_vars_from(*self, i as int),
            decreases 72 - i,
        {
            let ghost pre = out@;
            push_str_chars(&mut out, "  --ts-");
            let cls = str_chars(css_class_at(i));
            if chars_start_with(&cls, "ts-") {
                proof {
                    reveal_strlit("ts-");
                }
                let stripped = copy_range(&cls, 3, cls.len());
                proof {
                    assert(stripped@ =~= strip_ts_prefix(cls@));
                }
                push_chars(&mut out, &stripped);
            } else {
                push_chars(&mut out, &cls);
            }
            push_str_chars(&mut out, ": ");
            push_str_chars(&mut out, theme_color_at(*self, i));
            push_str_chars(&mut out, ";\n");
            proof {
                assert(out@ =~= pre + spec_var_line(*self, i as int));
                assert(pre + spec_css_vars_from(*self, i as int) =~= out@ + spec_css_vars_from(
                    *self,
                    i + 1 as int,
                ));
            }
            i = i + 1;
        }
        chars_to_string(&out)
    }

    /// The theme's display name.
    pub fn name(&self) -> (r: String)
        ensures
            *self is DarkModern ==> r@ == "dark-modern"@,
            *self is LightModern ==> r@ == "light-modern"@,
    {
        match self {
            Theme::DarkModern => String::from_str("dark-modern"),
            Theme::LightModern => String::from_str("light-modern"),
        }
    }

    /// Parse a theme name, case-insensitively; `dark` and `light` are
    /// accepted shorthands.
    pub fn from_name(s: &str) -> (r: Result<Theme, String>)
        ensures
            (lower_of(s@) == "dark-modern"@ || lower_of(s@) == "dark"@) ==> r == Ok::<
                Theme,
                String,
            >(Theme::DarkModern),
            (lower_of(s@) == "light-modern"@ || lower_of(s@) == "light"@) ==> r == Ok::<
                Theme,
                String,
            >(Theme::LightModern),
            !(lower_of(s@) == "dark-modern"@ || lower_of(s@) == "dark"@ || lower_of(s@)
                == "light-modern"@ || lower_of(s@) == "light"@) ==> r is Err,
            r matches Err(m) ==> m@ == "Unknown theme: "@ + s@,
    {
        proof {
            reveal_strlit("dark-modern");
            reveal_strlit("dark");
            reveal_strlit("light-modern");
            reveal_strlit("light");
        }
        proof {
            assert("dark-modern"@.len() == 11);
            assert("light-modern"@.len() == 12);
            assert("dark"@.len() == 4);
            assert("light"@.len() == 5);
        }
        let low = to_lower(s);
        if chars_equal(&low, "dark-modern") || chars_equal(&low, "dark") {
            Ok(Theme::DarkModern)
        } else if chars_equal(&low, "light-modern") || chars_equal(&low, "light") {
            Ok(Theme::LightModern)
        } else {
            let mut msg = String::from_str("Unknown theme: ");
            msg.append(s);
            Err(msg)
        }
    }
}

/// The CSS class paired with the first capture name equal to `name`,
/// scanning from index `i`.
pub open spec fn spec_css_lookup_from(name: Seq<char>, i: int) -> Option<Seq<char>>
    decreases capture_count() - i,
{
    if i < 0 || i >= capture_count() {
        None
    } else if spec_capture(i) == name {
        Some(spec_css_class(i))
    } else {
        spec_css_lookup_from(name, i + 1)
    }
}

/// The CSS class registered for the capture `name`, if any.
pub open spec fn spec_css_lookup(name: Seq<char>) -> Option<Seq<char>> {
    spec_css_lookup_from(name, 0)
}

/// The CSS class for highlight index `i`: the class of the capture at that
/// position of the shared table, or `ts-default` out of range.
pub open spec fn spec_class_for_index(i: int) -> Seq<char> {
    if 0 <= i < capture_count() {
        spec_css_class(i)
    } else {
        default_class()
    }
}

impl Default for Theme {
    /// The theme used when none is chosen.
    fn default() -> (r: Self)
        ensures
            r == Theme::DarkModern,
    {
        Theme::DarkModern
    }
}

impl core::str::FromStr for Theme {
    type Err = String;

    fn from_str(s: &str) -> Result<Self, String> {
        Theme::from_name(s)
    }
}

/// Both palettes recognize the same capture names in the same order: the
/// numeric highlight indices and the CSS class vocabulary never change
/// with the theme; only the colors differ.
pub proof fn lemma_palettes_share_captures(t1: Theme, t2: Theme)
    ensures
        theme_entries(t1).len() == theme_entries(t2).len(),
        forall|i: int|
            0 <= i < theme_entries(t1).len() ==> (#[trigger] theme_entries(t1)[i]).0
                == theme_entries(t2)[i].0,
{
}

} // verus!
