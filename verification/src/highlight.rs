//! The highlighter: resolves a language name, builds and caches one
//! highlight configuration per language on first use, runs the grammar's
//! query engine over the source, and renders the event stream to HTML.

use vstd::prelude::*;

verus! {

use vstd::string::StrSliceExecFns;
use vstd::string::StringExecFns;
use vstd::utf8::decode_utf8;
use vstd::utf8::encode_utf8;
use vstd::utf8::valid_utf8;
use crate::assets::AssetStore;
use crate::assets::QueryRole;
use crate::query::resolve_query;
use crate::query::resolve_spec;
use crate::registry::LanguageRegistry;
use crate::registry::canonical_names;
use crate::registry::default_aliases;
use crate::render::HlEvent;
use crate::render::RenderError;
use crate::render::render_events;
use crate::render::spec_render;
use crate::text::assoc;
use crate::text::lemma_assoc_none_no_key;
use crate::text::lemma_assoc_push;
use crate::text::lemma_assoc_some_has_index;
use crate::text::unique_keys;
use crate::themes::Theme;
use crate::themes::capture_names;

/// Compiled pairing of a grammar with its resolved queries; opaque here.
#[verifier::external_type_specification]
#[verifier::external_body]
pub struct ExHighlightConfiguration(tree_sitter_highlight::HighlightConfiguration);

/// Error type for highlighting operations.
#[derive(Debug)]
pub enum HighlightError {
    /// Language not supported.
    UnsupportedLanguage(String),
    /// Failed to parse the source code.
    ParseError(String),
    /// Failed to load highlight queries.
    QueryError(String),
}

impl HighlightError {
    /// The error rendered as a message.
    pub fn message(&self) -> (r: String)
        ensures
            match self {
                HighlightError::UnsupportedLanguage(lang) => r@ == "Language '"@ + lang@
                    + "' is not supported"@,
                HighlightError::ParseError(m) => r@ == "Parse error: "@ + m@,
                HighlightError::QueryError(m) => r@ == "Query error: "@ + m@,
            },
    {
        match self {
            HighlightError::UnsupportedLanguage(lang) => {
                let mut s = String::from_str("Language '");
                s.append(lang.as_str());
                s.append("' is not supported");
                s
            },
            HighlightError::ParseError(m) => {
                let mut s = String::from_str("Parse error: ");
                s.append(m.as_str());
                s
            },
            HighlightError::QueryError(m) => {
                let mut s = String::from_str("Query error: ");
                s.append(m.as_str());
                s
            },
        }
    }
}

/// Result type for highlighting operations.
pub type HighlightResult<T> = Result<T, HighlightError>;

/// What `HighlightConfiguration::new` makes of a grammar and its three
/// query documents: the compiled configuration, or the failure's text.
/// Compilation is a function of these arguments alone.
pub uninterp spec fn config_of(
    language: tree_sitter::Language,
    name: Seq<char>,
    highlights: Seq<char>,
    injections: Seq<char>,
    locals: Seq<char>,
) -> Result<tree_sitter_highlight::HighlightConfiguration, Seq<char>>;

/// Relies on `HighlightConfiguration::new`: compiles the three query
/// documents against the grammar, failing exactly when they do not
/// compile for it; the outcome is `config_of` of the arguments.
#[verifier::external_body]
fn new_highlight_config(
    language: tree_sitter::Language,
    name: &str,
    highlights: &str,
    injections: &str,
    locals: &str,
) -> (r: Result<tree_sitter_highlight::HighlightConfiguration, String>)
    ensures
        match r {
            Ok(c) => config_of(language, name@, highlights@, injections@, locals@)
                == Ok::<tree_sitter_highlight::HighlightConfiguration, Seq<char>>(c),
            Err(m) => config_of(language, name@, highlights@, injections@, locals@)
                == Err::<tree_sitter_highlight::HighlightConfiguration, Seq<char>>(m@),
        },
{
    tree_sitter_highlight::HighlightConfiguration::new(
        language,
        name,
        highlights,
        injections,
        locals,
    ).map_err(|e| format!("{e:?}"))
}

/// What `HighlightConfiguration::configure` turns a configuration into,
/// given the recognized capture names; a function of these alone.
pub uninterp spec fn configured_of(
    config: tree_sitter_highlight::HighlightConfiguration,
    names: Seq<Seq<char>>,
) -> tree_sitter_highlight::HighlightConfiguration;

/// Relies on `HighlightConfiguration::configure`: sets the recognized
/// capture names, whose positions become the indices later events carry;
/// the new configuration is `configured_of` the old one and the names.
#[verifier::external_body]
fn configure_config(config: &mut tree_sitter_highlight::HighlightConfiguration, names: &Vec<String>)
    ensures
        *final(config) == configured_of(*old(config), names.deep_view()),
{
    config.configure(names.as_slice());
}

/// What one highlight run produces over a configuration and a source: the
/// event stream in order, or the failure's text. The run is a function of
/// these arguments alone: the grammar's parse draws on no chance, time or
/// environment.
pub uninterp spec fn events_of(
    config: tree_sitter_highlight::HighlightConfiguration,
    source: Seq<u8>,
) -> Result<Seq<HlEvent>, Seq<char>>;

/// Relies on `Highlighter::highlight`: runs the grammar and query engine
/// over the source, yielding the highlight events in order; each event is
/// carried over one to one, and an iteration failure surfaces as the
/// error's debug text. The outcome is `events_of` the configuration and
/// the source bytes.
#[verifier::external_body]
fn run_highlight(
    config: &tree_sitter_highlight::HighlightConfiguration,
    source: &[u8],
) -> (r: Result<Vec<HlEvent>, String>)
    ensures
        match r {
            Ok(evs) => events_of(*config, source@) == Ok::<Seq<HlEvent>, Seq<char>>(evs@),
            Err(m) => events_of(*config, source@) == Err::<Seq<HlEvent>, Seq<char>>(m@),
        },
{
    let mut hl = tree_sitter_highlight::Highlighter::new();
    hl.highlight(config, source, None, None, |_| None)
        .and_then(|it| it.collect::<Result<Vec<_>, _>>())
        .map(|evs| evs.into_iter().map(|ev| match ev {
            tree_sitter_highlight::HighlightEvent::Source { start, end } =>
                HlEvent::Source { start, end },
            tree_sitter_highlight::HighlightEvent::HighlightStart(h) =>
                HlEvent::Start { index: h.0 },
            tree_sitter_highlight::HighlightEvent::HighlightEnd => HlEvent::End,
        }).collect())
        .map_err(|e| format!("{e:?}"))
}

/// What `String::from_utf8_lossy` makes of a byte sequence; a function of
/// the bytes alone.
pub uninterp spec fn lossy_utf8(bytes: Seq<u8>) -> Seq<char>;

/// Relies on `String::from_utf8_lossy`: valid UTF-8 comes back unchanged,
/// and the result depends on the bytes alone.
#[verifier::external_body]
fn bytes_to_string_lossy(v: &Vec<u8>) -> (r: String)
    ensures
        r@ == lossy_utf8(v@),
        valid_utf8(v@) ==> r@ == decode_utf8(v@),
{
    String::from_utf8_lossy(v.as_slice()).into_owned()
}

/// Main highlighter that manages languages and performs highlighting.
/// Configurations are built lazily, on a language's first use.
pub struct TreeSitterHighlighter {
    /// The language registry: canonical names, aliases, grammars.
    pub registry: LanguageRegistry,
    /// The query documents the resolver draws from.
    pub assets: AssetStore,
    /// Lazily built highlight configurations, keyed by canonical name.
    pub configs: Vec<(String, tree_sitter_highlight::HighlightConfiguration)>,
    /// The active theme.
    pub theme: Theme,
}

/// The configuration cache as pairs of canonical name and configuration.
pub open spec fn cache_entries(v: Seq<(String, tree_sitter_highlight::HighlightConfiguration)>) -> Seq<
    (Seq<char>, tree_sitter_highlight::HighlightConfiguration),
> {
    Seq::new(v.len(), |i: int| (v[i].0@, v[i].1))
}

impl TreeSitterHighlighter {
    /// The cache's entries as plain keys and opaque configurations.
    pub open spec fn cache(self) -> Seq<
        (Seq<char>, tree_sitter_highlight::HighlightConfiguration),
    > {
        cache_entries(self.configs@)
    }

    /// Whether a configuration is cached under `name`.
    pub open spec fn spec_cached(self, name: Seq<char>) -> bool {
        assoc(self.cache(), name) is Some
    }

    /// The registry resolves unambiguously, the cache has one entry per
    /// name, and every cached name resolves in the registry.
    pub open spec fn wf(self) -> bool {
        &&& self.registry.wf()
        &&& unique_keys(self.cache())
        &&& forall|i: int|
            0 <= i < self.cache().len() ==> self.registry.spec_get_language(
                #[trigger] self.cache()[i].0,
            ) is Some
    }

    /// The configuration a fresh build for `name` would produce: the
    /// grammar `name` resolves to, compiled with its three resolved query
    /// documents.
    pub open spec fn spec_build(self, name: Seq<char>) -> Result<
        tree_sitter_highlight::HighlightConfiguration,
        Seq<char>,
    >
        recommends
            self.registry.spec_get_language(name) is Some,
    {
        let store = self.assets.view_entries();
        config_of(
            self.registry.spec_get_language(name)->0,
            name,
            resolve_spec(store, name, QueryRole::Highlights, store.len() as nat),
            resolve_spec(store, name, QueryRole::Injections, store.len() as nat),
            resolve_spec(store, name, QueryRole::Locals, store.len() as nat),
        )
    }

    /// Whether a fresh build for `name` would succeed.
    pub open spec fn spec_buildable(self, name: Seq<char>) -> bool {
        self.registry.spec_get_language(name) is Some && self.spec_build(name) is Ok
    }

    /// Create a new highlighter with the default theme and no stored query
    /// documents.
    pub fn new() -> (r: Self)
        ensures
            r.wf(),
            r.theme == Theme::DarkModern,
            r.cache().len() == 0,
            r.assets.view_entries().len() == 0,
            r.registry.lang_map().len() == canonical_names().len(),
            forall|i: int|
                0 <= i < canonical_names().len() ==> r.registry.lang_map()[i].0
                    == canonical_names()[i],
            r.registry.alias_map() == default_aliases(),
    {
        Self::with_theme(Theme::DarkModern)
    }

    /// Create a new highlighter with a specific theme and no stored query
    /// documents.
    pub fn with_theme(theme: Theme) -> (r: Self)
        ensures
            r.wf(),
            r.theme == theme,
            r.cache().len() == 0,
            r.assets.view_entries().len() == 0,
            r.registry.lang_map().len() == canonical_names().len(),
            forall|i: int|
                0 <= i < canonical_names().len() ==> r.registry.lang_map()[i].0
                    == canonical_names()[i],
            r.registry.alias_map() == default_aliases(),
    {
        let r = TreeSitterHighlighter {
            registry: LanguageRegistry::new(),
            assets: AssetStore::new(),
            configs: Vec::new(),
            theme,
        };
        proof {
            assert(r.cache() =~= Seq::<(
                Seq<char>,
                tree_sitter_highlight::HighlightConfiguration,
            )>::empty());
        }
        r
    }

    /// Create a new highlighter over the given query documents.
    pub fn from_assets(assets: AssetStore, theme: Theme) -> (r: Self)
        ensures
            r.wf(),
            r.theme == theme,
            r.cache().len() == 0,
            r.assets == assets,
            r.registry.lang_map().len() == canonical_names().len(),
            r.registry.alias_map() == default_aliases(),
    {
        let r = TreeSitterHighlighter {
            registry: LanguageRegistry::new(),
            assets,
            configs: Vec::new(),
            theme,
        };
        proof {
            assert(r.cache() =~= Seq::<(
                Seq<char>,
                tree_sitter_highlight::HighlightConfiguration,
            )>::empty());
        }
        r
    }

    /// The resolved query document for a language and role.
    pub fn get_query_content(&self, lang: &str, role: QueryRole) -> (r: String)
        ensures
            r@ == resolve_spec(
                self.assets.view_entries(),
                lang@,
                role,
                self.assets.view_entries().len() as nat,
            ),
    {
        resolve_query(&self.assets, lang, role)
    }

    /// The cached configuration under `name`, if one is built.
    fn find_config(&self, name: &String) -> (r: Option<
        &tree_sitter_highlight::HighlightConfiguration,
    >)
        ensures
            match r {
                Some(c) => assoc(self.cache(), name@) == Some(*c),
                None => assoc(self.cache(), name@) is None,
            },
    {
        proof {
            assert(self.cache().subrange(0, self.configs@.len() as int) =~= self.cache());
        }
        let mut i: usize = 0;
        while i < self.configs.len()
            invariant
                i <= self.configs@.len(),
                assoc(self.cache(), name@) == assoc(
                    self.cache().subrange(i as int, self.configs@.len() as int),
                    name@,
                ),
            decreases self.configs@.len() - i,
        {
            proof {
                let tail = self.cache().subrange(i as int, self.configs@.len() as int);
                assert(tail[0] == self.cache()[i as int]);
                assert(tail.drop_first() =~= self.cache().subrange(
                    i + 1 as int,
                    self.configs@.len() as int,
                ));
            }
            if self.configs[i].0 == *name {
                proof {
                    let tail = self.cache().subrange(i as int, self.configs@.len() as int);
                    assert(tail[0].0 == name@);
                    assert(assoc(self.cache(), name@) == Some(self.cache()[i as int].1));
                }
                return Some(&self.configs[i].1);
            }
            i = i + 1;
        }
        proof {
            assert(self.cache().subrange(self.configs@.len() as int, self.configs@.len() as int)
                =~= Seq::<(Seq<char>, tree_sitter_highlight::HighlightConfiguration)>::empty());
        }
        None
    }

    /// Ensure a highlight configuration exists for a (canonical) language
    /// name, building it on a miss. Returns whether one is cached after the
    /// call: false exactly when the grammar is missing or the queries do
    /// not compile, and then nothing has changed. A cache hit changes
    /// nothing either: the stored configuration is kept, never rebuilt,
    /// and a buildable name is never refused.
    pub fn ensure_config(&mut self, name: &str) -> (r: bool)
        requires
            old(self).wf(),
        ensures
            final(self).wf(),
            final(self).registry == old(self).registry,
            final(self).assets == old(self).assets,
            final(self).theme == old(self).theme,
            r == final(self).spec_cached(name@),
            !r ==> *final(self) == *old(self),
            forall|k: Seq<char>|
                k != name@ ==> assoc(final(self).cache(), k) == assoc(old(self).cache(), k),
            !old(self).registry.spec_is_supported(name@) && !old(self).spec_cached(name@) ==> r
                == false,
            old(self).spec_cached(name@) ==> r == true && *final(self) == *old(self),
            old(self).spec_buildable(name@) ==> r == true,
            r == true && !old(self).spec_cached(name@) ==> old(self).spec_buildable(name@)
                && final(self).cache() == old(self).cache().push(
                (name@, configured_of(old(self).spec_build(name@)->Ok_0, capture_names())),
            ),
    {
        let key = String::from_str(name);
        if self.find_config(&key).is_some() {
            return true;
        }
        let lang = match self.registry.get_language(name) {
            Some(l) => l,
            None => {
                return false;
            },
        };
        let highlights = resolve_query(&self.assets, name, QueryRole::Highlights);
        let injections = resolve_query(&self.assets, name, QueryRole::Injections);
        let locals = resolve_query(&self.assets, name, QueryRole::Locals);
        let mut config = match new_highlight_config(
            lang,
            name,
            highlights.as_str(),
            injections.as_str(),
            locals.as_str(),
        ) {
            Ok(c) => c,
            Err(_) => {
                return false;
            },
        };
        let names = self.theme.captured_names();
        configure_config(&mut config, &names);
        let ghost pre = self.cache();
        let ghost kv = key@;
        proof {
            lemma_assoc_none_no_key(pre, kv);
        }
        self.configs.push((key, config));
        proof {
            assert(self.cache() =~~= pre.push((kv, self.configs@.last().1)));
            let cv = self.configs@.last().1;
            lemma_assoc_push(pre, (kv, cv), kv);
            assert forall|k: Seq<char>| k != kv implies assoc(self.cache(), k) == assoc(pre, k) by {
                lemma_assoc_push(pre, (kv, cv), k);
            }
            assert forall|a: int, b: int|
                0 <= a < b < self.cache().len() implies self.cache()[a].0 != self.cache()[b].0 by {
                if b < pre.len() {
                    assert(pre[a].0 != pre[b].0);
                    assert(self.cache()[a].0 == pre[a].0);
                    assert(self.cache()[b].0 == pre[b].0);
                } else {
                    assert(self.cache()[b].0 == kv);
                    assert(self.cache()[a].0 == pre[a].0);
                }
            }
        }
        true
    }

    /// Check if a language is supported.
    pub fn is_language_supported(&self, name: &str) -> (r: bool)
        ensures
            r == self.registry.spec_is_supported(name@),
    {
        self.registry.is_supported(name)
    }

    /// Get the list of supported languages.
    pub fn supported_languages(&self) -> (r: Vec<String>)
        ensures
            r.deep_view() == Seq::new(
                self.registry.lang_map().len(),
                |i: int| self.registry.lang_map()[i].0,
            ),
    {
        self.registry.supported_languages()
    }

    /// Set the theme for highlighting, re-deriving the capture ordering of
    /// every cached configuration in place: each stored configuration is
    /// reconfigured with the recognized capture names, none is dropped or
    /// rebuilt, and the cache keys are unchanged.
    pub fn set_theme(&mut self, theme: Theme)
        requires
            old(self).wf(),
        ensures
            final(self).wf(),
            final(self).theme == theme,
            final(self).registry == old(self).registry,
            final(self).assets == old(self).assets,
            final(self).cache().len() == old(self).cache().len(),
            forall|i: int|
                0 <= i < old(self).cache().len() ==> final(self).cache()[i].0 == old(
                    self,
                ).cache()[i].0,
            forall|i: int|
                0 <= i < old(self).cache().len() ==> final(self).cache()[i].1 == configured_of(
                    old(self).cache()[i].1,
                    capture_names(),
                ),
    {
        self.theme = theme;
        let names = self.theme.captured_names();
        let ghost pre = self.cache();
        let n = self.configs.len();
        let mut i: usize = 0;
        while i < n
            invariant
                i <= n,
                n == self.configs@.len(),
                self.registry == old(self).registry,
                self.assets == old(self).assets,
                self.theme == theme,
                names.deep_view() == capture_names(),
                self.cache().len() == pre.len(),
                forall|j: int| 0 <= j < pre.len() ==> self.cache()[j].0 == pre[j].0,
                forall|j: int| 0 <= j < i ==> self.cache()[j].1 == configured_of(
                    pre[j].1,
                    capture_names(),
                ),
                forall|j: int| i <= j < pre.len() ==> self.cache()[j].1 == pre[j].1,
            decreases n - i,
        {
            let ghost mid = self.cache();
            configure_config(&mut self.configs[i].1, &names);
            proof {
                assert(self.configs@[i as int].1 == configured_of(mid[i as int].1, capture_names()));
                assert forall|j: int| 0 <= j < pre.len() implies self.cache()[j].0 == pre[j].0 by {
                    assert(self.configs@[j].0@ == mid[j].0);
                }
                assert forall|j: int| 0 <= j <= i implies self.cache()[j].1 == configured_of(
                    pre[j].1,
                    capture_names(),
                ) by {
                    if j < i {
                        assert(self.cache()[j].1 == mid[j].1);
                    } else {
                        assert(self.cache()[i as int].1 == self.configs@[i as int].1);
                        assert(mid[i as int].1 == pre[i as int].1);
                    }
                }
                assert forall|j: int| i + 1 <= j < pre.len() implies self.cache()[j].1
                    == pre[j].1 by {
                    assert(self.cache()[j].1 == mid[j].1);
                }
            }
            i = i + 1;
        }
        proof {
            assert forall|a: int, b: int|
                0 <= a < b < self.cache().len() implies self.cache()[a].0 != self.cache()[b].0 by {
                assert(pre[a].0 != pre[b].0);
            }
            assert forall|j: int|
                0 <= j < self.cache().len() implies self.registry.spec_get_language(
                #[trigger] self.cache()[j].0,
            ) is Some by {
                assert(self.cache()[j].0 == pre[j].0);
                assert(old(self).registry.spec_get_language(old(self).cache()[j].0) is Some);
            }
        }
    }

    /// Get the current theme.
    pub fn theme(&self) -> (r: &Theme)
        ensures
            *r == self.theme,
    {
        &self.theme
    }

    /// Render an already produced event stream over `source` to HTML with
    /// this highlighter's theme.
    pub fn render_html(&self, source: &str, events: &Vec<HlEvent>) -> (r: HighlightResult<String>)
        ensures
            match spec_render(encode_utf8(source@), events@) {
                Ok(bytes) => r matches Ok(html) && html@ == lossy_utf8(bytes) && (valid_utf8(bytes)
                    ==> html@ == decode_utf8(bytes)),
                Err(_) => r is Err,
            },
    {
        let bytes = source.as_bytes_vec();
        match render_events(&bytes, events, self.theme) {
            Ok(v) => Ok(bytes_to_string_lossy(&v)),
            Err(RenderError::UnbalancedEnd) => Err(
                HighlightError::ParseError(
                    String::from_str("highlight event error: end with no highlight active"),
                ),
            ),
            Err(RenderError::SourceOutOfBounds) => Err(
                HighlightError::ParseError(
                    String::from_str("highlight event error: source run out of bounds"),
                ),
            ),
        }
    }

    /// Highlight source code and return HTML with CSS classes. A name
    /// whose canonical form resolves to no grammar, or whose configuration
    /// cannot be built, fails with `UnsupportedLanguage` carrying the name
    /// as given; a failure of event iteration or a malformed event stream
    /// fails with `ParseError`; no other error kind escapes. On success
    /// the HTML is exactly the rendering of the event stream the grammar
    /// produces over the UTF-8 bytes of `source`. The only state change is
    /// possibly caching the canonical name's configuration: no other
    /// entry, nor a previously cached one, is touched.
    pub fn highlight(&mut self, source: &str, language: &str) -> (r: HighlightResult<String>)
        requires
            old(self).wf(),
        ensures
            final(self).wf(),
            final(self).registry == old(self).registry,
            final(self).assets == old(self).assets,
            final(self).theme == old(self).theme,
            forall|k: Seq<char>|
                k != old(self).registry.spec_canonical_name(language@) ==> assoc(
                    final(self).cache(),
                    k,
                ) == assoc(old(self).cache(), k),
            old(self).spec_cached(old(self).registry.spec_canonical_name(language@))
                ==> final(self).cache() == old(self).cache(),
            r matches Err(e) ==> !(e is QueryError),
            !old(self).registry.spec_is_supported(
                old(self).registry.spec_canonical_name(language@),
            ) ==> (r matches Err(e) && e matches HighlightError::UnsupportedLanguage(m) && m@
                == language@),
            !old(self).spec_cached(old(self).registry.spec_canonical_name(language@))
                && !old(self).spec_buildable(old(self).registry.spec_canonical_name(language@))
                ==> (r matches Err(e) && e matches HighlightError::UnsupportedLanguage(m) && m@
                == language@),
            old(self).spec_cached(old(self).registry.spec_canonical_name(language@))
                || old(self).spec_buildable(old(self).registry.spec_canonical_name(language@))
                ==> ({
                let canon = old(self).registry.spec_canonical_name(language@);
                let cfg = assoc(final(self).cache(), canon)->0;
                &&& final(self).spec_cached(canon)
                &&& match events_of(cfg, encode_utf8(source@)) {
                    Ok(evs) => match spec_render(encode_utf8(source@), evs) {
                        Ok(bytes) => r matches Ok(html) && html@ == lossy_utf8(bytes) && (
                        valid_utf8(bytes) ==> html@ == decode_utf8(bytes)),
                        Err(_) => r matches Err(e) && e is ParseError,
                    },
                    Err(_) => r matches Err(e) && e is ParseError,
                }
            }),
    {
        let ghost canon = old(self).registry.spec_canonical_name(language@);
        let canonical = self.registry.get_canonical_name(language);
        if !self.ensure_config(canonical.as_str()) {
            return Err(HighlightError::UnsupportedLanguage(String::from_str(language)));
        }
        proof {
            if !old(self).registry.spec_is_supported(canon) {
                if old(self).spec_cached(canon) {
                    lemma_assoc_some_has_index(old(self).cache(), canon);
                    assert(false);
                } else {
                    assert(false);
                }
            }
            if !old(self).spec_cached(canon) && !old(self).spec_buildable(canon) {
                assert(false);
            }
        }
        let bytes = source.as_bytes_vec();
        let config = match self.find_config(&canonical) {
            Some(c) => c,
            None => {
                return Err(HighlightError::UnsupportedLanguage(String::from_str(language)));
            },
        };
        let events = match run_highlight(config, bytes.as_slice()) {
            Ok(e) => e,
            Err(m) => {
                let mut msg = String::from_str("Highlight error: ");
                msg.append(m.as_str());
                return Err(HighlightError::ParseError(msg));
            },
        };
        match render_events(&bytes, &events, self.theme) {
            Ok(v) => {
                let html = bytes_to_string_lossy(&v);
                Ok(html)
            },
            Err(RenderError::UnbalancedEnd) => Err(
                HighlightError::ParseError(
                    String::from_str("Highlight event error: end with no highlight active"),
                ),
            ),
            Err(RenderError::SourceOutOfBounds) => Err(
                HighlightError::ParseError(
                    String::from_str("Highlight event error: source run out of bounds"),
                ),
            ),
        }
    }
}

impl Default for TreeSitterHighlighter {
    /// A freshly built highlighter with the default theme.
    fn default() -> (r: Self)
        ensures
            r.wf(),
            r.theme == Theme::DarkModern,
            r.cache().len() == 0,
    {
        Self::new()
    }
}

} // verus!
