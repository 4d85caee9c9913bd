//! Syntax-highlighting engine: a language registry with alias resolution,
//! a query resolver with inheritance, a lazily populated configuration
//! cache, theme palettes, and an event-to-HTML renderer.

pub mod assets;
pub mod frontmatter;
pub mod highlight;
pub mod query;
pub mod registry;
pub mod render;
pub mod text;
pub mod themes;

pub use assets::AssetStore;
pub use assets::QueryRole;
pub use frontmatter::split_frontmatter;
pub use highlight::HighlightError;
pub use highlight::HighlightResult;
pub use highlight::TreeSitterHighlighter;
pub use query::parse_inherits;
pub use query::remove_inherits_line;
pub use query::resolve_query;
pub use registry::LanguageRegistry;
pub use render::HlEvent;
pub use render::RenderError;
pub use render::html_escape;
pub use text::to_lower;
pub use themes::Theme;
pub use themes::ThemeColors;
pub use themes::dark_modern_colors;
pub use themes::light_modern_colors;
