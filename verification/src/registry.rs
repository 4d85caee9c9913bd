//! Language registry for tree-sitter grammars: resolves a user-supplied
//! name, case-insensitively and through aliases, to a compiled grammar.

use vstd::prelude::*;

verus! {

use vstd::string::StringExecFns;

broadcast use vstd::string::group_string_axioms;
use crate::text::assoc;
use crate::text::assoc_get;
use crate::text::chars_to_string;
use crate::text::lemma_assoc_push;
use crate::text::lemma_assoc_update;
use crate::text::lower_of;
use crate::text::to_lower;
use crate::text::unique_keys;
use crate::text::lemma_lower_idempotent;
use crate::text::lemma_assoc_some_has_index;
use crate::text::lemma_assoc_some_of_key;
use crate::text::lemma_assoc_keys_absent;

/// Compiled grammar handle of the tree-sitter runtime; opaque here.
#[verifier::external_type_specification]
#[verifier::external_body]
pub struct ExLanguage(tree_sitter::Language);

/// Relies on `tree_sitter::Language::clone`: `ts_language_copy` returns the
/// language it was given, so the clone is the same handle.
pub assume_specification[ <tree_sitter::Language as Clone>::clone ](
    l: &tree_sitter::Language,
) -> (r: tree_sitter::Language)
    ensures
        r == *l,
;

/// Relies on `tree_sitter_rust::LANGUAGE`: the compiled Rust grammar.
#[verifier::external_body]
fn grammar_rust() -> tree_sitter::Language {
    tree_sitter_rust::LANGUAGE.into()
}

/// Relies on `tree_sitter_javascript::LANGUAGE`: the compiled JavaScript grammar.
#[verifier::external_body]
fn grammar_javascript() -> tree_sitter::Language {
    tree_sitter_javascript::LANGUAGE.into()
}

/// Relies on `tree_sitter_python::LANGUAGE`: the compiled Python grammar.
#[verifier::external_body]
fn grammar_python() -> tree_sitter::Language {
    tree_sitter_python::LANGUAGE.into()
}

/// Relies on `tree_sitter_typescript::LANGUAGE_TYPESCRIPT`: the compiled TypeScript grammar.
#[verifier::external_body]
fn grammar_typescript() -> tree_sitter::Language {
    tree_sitter_typescript::LANGUAGE_TYPESCRIPT.into()
}

/// Relies on `tree_sitter_typescript::LANGUAGE_TSX`: the compiled TSX grammar.
#[verifier::external_body]
fn grammar_tsx() -> tree_sitter::Language {
    tree_sitter_typescript::LANGUAGE_TSX.into()
}

/// Relies on `tree_sitter_go::LANGUAGE`: the compiled Go grammar.
#[verifier::external_body]
fn grammar_go() -> tree_sitter::Language {
    tree_sitter_go::LANGUAGE.into()
}

/// Relies on `tree_sitter_c::LANGUAGE`: the compiled C grammar.
#[verifier::external_body]
fn grammar_c() -> tree_sitter::Language {
    tree_sitter_c::LANGUAGE.into()
}

/// Relies on `tree_sitter_cpp::LANGUAGE`: the compiled C++ grammar.
#[verifier::external_body]
fn grammar_cpp() -> tree_sitter::Language {
    tree_sitter_cpp::LANGUAGE.into()
}

/// Relies on `tree_sitter_java::LANGUAGE`: the compiled Java grammar.
#[verifier::external_body]
fn grammar_java() -> tree_sitter::Language {
    tree_sitter_java::LANGUAGE.into()
}

/// Relies on `tree_sitter_json::LANGUAGE`: the compiled JSON grammar.
#[verifier::external_body]
fn grammar_json() -> tree_sitter::Language {
    tree_sitter_json::LANGUAGE.into()
}

/// Relies on `tree_sitter_html::LANGUAGE`: the compiled HTML grammar.
#[verifier::external_body]
fn grammar_html() -> tree_sitter::Language {
    tree_sitter_html::LANGUAGE.into()
}

/// Relies on `tree_sitter_css::LANGUAGE`: the compiled CSS grammar.
#[verifier::external_body]
fn grammar_css() -> tree_sitter::Language {
    tree_sitter_css::LANGUAGE.into()
}

/// Relies on `tree_sitter_bash::LANGUAGE`: the compiled Bash grammar.
#[verifier::external_body]
fn grammar_bash() -> tree_sitter::Language {
    tree_sitter_bash::LANGUAGE.into()
}

/// The canonical names the registry starts with, in registration order.
pub open spec fn canonical_names() -> Seq<Seq<char>> {
    seq![
        "rust"@,
        "javascript"@,
        "python"@,
        "typescript"@,
        "tsx"@,
        "go"@,
        "c"@,
        "cpp"@,
        "java"@,
        "json"@,
        "html"@,
        "css"@,
        "bash"@,
    ]
}

/// The alias table the registry starts with: alias to canonical name.
pub open spec fn default_aliases() -> Seq<(Seq<char>, Seq<char>)> {
    seq![
        ("js"@, "javascript"@),
        ("ecmascript"@, "javascript"@),
        ("py"@, "python"@),
        ("rs"@, "rust"@),
        ("ts"@, "typescript"@),
        ("c++"@, "cpp"@),
        ("cc"@, "cpp"@),
        ("cxx"@, "cpp"@),
        ("sh"@, "bash"@),
        ("shell"@, "bash"@),
        ("zsh"@, "bash"@),
    ]
}

/// Registry containing all supported languages.
pub struct LanguageRegistry {
    /// Pairs of lowercased canonical name and grammar.
    pub languages: Vec<(String, tree_sitter::Language)>,
    /// Pairs of lowercased alias and lowercased canonical name.
    pub aliases: Vec<(String, String)>,
}

/// The canonical table as pairs of name characters and grammar.
pub open spec fn lang_entries(v: Seq<(String, tree_sitter::Language)>) -> Seq<
    (Seq<char>, tree_sitter::Language),
> {
    Seq::new(v.len(), |i: int| (v[i].0@, v[i].1))
}

impl LanguageRegistry {
    /// The canonical entries: lowercased name to grammar.
    pub open spec fn lang_map(self) -> Seq<(Seq<char>, tree_sitter::Language)> {
        lang_entries(self.languages@)
    }

    /// The alias entries: lowercased alias to canonical name.
    pub open spec fn alias_map(self) -> Seq<(Seq<char>, Seq<char>)> {
        self.aliases.deep_view()
    }

    /// Keys of both tables are unique, so a lookup is unambiguous; every
    /// key and alias target is already lowercase, as lookups expect; and
    /// no alias shares a key with a canonical entry, so an alias always
    /// means what its table says rather than being shadowed.
    pub open spec fn wf(self) -> bool {
        &&& unique_keys(self.lang_map())
        &&& unique_keys(self.alias_map())
        &&& forall|i: int|
            0 <= i < self.lang_map().len() ==> lower_of(#[trigger] self.lang_map()[i].0)
                == self.lang_map()[i].0
        &&& forall|i: int|
            0 <= i < self.alias_map().len() ==> lower_of(#[trigger] self.alias_map()[i].0)
                == self.alias_map()[i].0 && lower_of(self.alias_map()[i].1)
                == self.alias_map()[i].1
        &&& forall|i: int|
            0 <= i < self.alias_map().len() ==> assoc(
                self.lang_map(),
                #[trigger] self.alias_map()[i].0,
            ) is None
    }

    /// The grammar `name` resolves to: the canonical table first, the alias
    /// table only on a miss.
    pub open spec fn spec_get_language(self, name: Seq<char>) -> Option<tree_sitter::Language> {
        let low = lower_of(name);
        match assoc(self.lang_map(), low) {
            Some(l) => Some(l),
            None => match assoc(self.alias_map(), low) {
                Some(c) => assoc(self.lang_map(), c),
                None => None,
            },
        }
    }

    /// Whether `name` resolves to a grammar.
    pub open spec fn spec_is_supported(self, name: Seq<char>) -> bool {
        self.spec_get_language(name) is Some
    }

    /// The canonical key a lookup of `name` would use, or the lowercased
    /// input unchanged when nothing is registered under it.
    pub open spec fn spec_canonical_name(self, name: Seq<char>) -> Seq<char> {
        let low = lower_of(name);
        if assoc(self.lang_map(), low) is Some {
            low
        } else {
            match assoc(self.alias_map(), low) {
                Some(c) => c,
                None => low,
            }
        }
    }
}

/// Look a key up in the canonical table, front to back, handing out a clone
/// of the stored grammar.
fn find_grammar(v: &Vec<(String, tree_sitter::Language)>, key: &String) -> (r: Option<
    tree_sitter::Language,
>)
    ensures
        match r {
            Some(l) => assoc(lang_entries(v@), key@) == Some(l),
            None => assoc(lang_entries(v@), key@) is None,
        },
{
    proof {
        assert(lang_entries(v@).subrange(0, v@.len() as int) =~= lang_entries(v@));
    }
    let mut i: usize = 0;
    while i < v.len()
        invariant
            i <= v@.len(),
            assoc(lang_entries(v@), key@) == assoc(
                lang_entries(v@).subrange(i as int, v@.len() as int),
                key@,
            ),
        decreases v@.len() - i,
    {
        proof {
            let tail = lang_entries(v@).subrange(i as int, v@.len() as int);
            assert(tail[0] == lang_entries(v@)[i as int]);
            assert(tail.drop_first() =~= lang_entries(v@).subrange(i + 1 as int, v@.len() as int));
        }
        if v[i].0 == *key {
            return Some(v[i].1.clone());
        }
        i = i + 1;
    }
    proof {
        assert(lang_entries(v@).subrange(v@.len() as int, v@.len() as int) =~= Seq::<(
            Seq<char>,
            tree_sitter::Language,
        )>::empty());
    }
    None
}

/// Insert a key/value pair into a unique-key table, replacing the value if
/// the key is present.
fn put_entry(v: &mut Vec<(String, String)>, key: String, val: String)
    requires
        unique_keys(old(v).deep_view()),
    ensures
        unique_keys(final(v).deep_view()),
        assoc(final(v).deep_view(), key@) == Some(val@),
        forall|k: Seq<char>|
            k != key@ ==> assoc(final(v).deep_view(), k) == assoc(old(v).deep_view(), k),
        assoc(old(v).deep_view(), key@) is None ==> final(v).deep_view() == old(
            v,
        ).deep_view().push((key@, val@)),
        assoc(old(v).deep_view(), key@) is Some ==> exists|i: int|
            0 <= i < old(v).deep_view().len() && #[trigger] old(v).deep_view()[i].0 == key@
                && final(v).deep_view() == old(v).deep_view().update(i, (key@, val@)),
{
    let ghost pre = v.deep_view();
    proof {
        assert(pre == old(v).deep_view());
        assert(unique_keys(pre));
    }
    let mut i: usize = 0;
    while i < v.len()
        invariant
            i <= v@.len(),
            v@ == old(v)@,
            v.deep_view() == pre,
            unique_keys(pre),
            forall|j: int| 0 <= j < i ==> pre[j].0 != key@,
        decreases v@.len() - i,
    {
        proof {
            assert(pre[i as int] == (v@[i as int].0@, v@[i as int].1@));
        }
        if v[i].0 == key {
            proof {
                assert(v@[i as int].0@ == key@);
            }
            let ghost kv = key@;
            let ghost vv = val@;
            v.remove(i);
            v.insert(i, (key, val));
            proof {
                assert(v.deep_view() =~~= pre.update(i as int, (pre[i as int].0, vv)));
                assert(pre[i as int].0 == kv);
                lemma_assoc_update(pre, i as int, vv);
                lemma_assoc_some_of_key(pre, i as int);
                assert forall|a: int, b: int|
                    0 <= a < b < v.deep_view().len() implies v.deep_view()[a].0
                    != v.deep_view()[b].0 by {
                    assert(pre[a].0 != pre[b].0);
                    assert(v.deep_view()[a].0 == pre[a].0);
                    assert(v.deep_view()[b].0 == pre[b].0);
                }
                assert(0 <= i as int && (i as int) < pre.len() && pre[i as int].0 == kv
                    && v.deep_view() == pre.update(i as int, (kv, vv)));
            }
            return ;
        }
        i = i + 1;
    }
    let ghost kv = key@;
    let ghost vv = val@;
    v.push((key, val));
    proof {
        assert(v.deep_view() =~~= pre.push((kv, vv)));
        lemma_assoc_keys_absent(pre, kv);
        assert forall|k: Seq<char>| true implies assoc(v.deep_view(), k) == (if assoc(pre, k)
            is Some {
            assoc(pre, k)
        } else if kv == k {
            Some(vv)
        } else {
            None::<Seq<char>>
        }) by {
            lemma_assoc_push(pre, (kv, vv), k);
        }
        assert forall|a: int, b: int|
            0 <= a < b < v.deep_view().len() implies v.deep_view()[a].0 != v.deep_view()[b].0 by {
            if b < pre.len() {
                assert(pre[a].0 != pre[b].0);
                assert(v.deep_view()[a].0 == pre[a].0);
                assert(v.deep_view()[b].0 == pre[b].0);
            } else {
                assert(v.deep_view()[b].0 == kv);
                assert(v.deep_view()[a].0 == pre[a].0);
            }
        }
    }
}

/// Insert a name/grammar pair into a unique-key table, replacing the
/// grammar if the name is present.
fn put_lang(v: &mut Vec<(String, tree_sitter::Language)>, key: String, lang: tree_sitter::Language)
    requires
        unique_keys(lang_entries(old(v)@)),
    ensures
        unique_keys(lang_entries(final(v)@)),
        assoc(lang_entries(final(v)@), key@) == Some(lang),
        forall|k: Seq<char>|
            k != key@ ==> assoc(lang_entries(final(v)@), k) == assoc(lang_entries(old(v)@), k),
        assoc(lang_entries(old(v)@), key@) is None ==> lang_entries(final(v)@) == lang_entries(
            old(v)@,
        ).push((key@, lang)),
        assoc(lang_entries(old(v)@), key@) is Some ==> exists|i: int|
            0 <= i < lang_entries(old(v)@).len() && #[trigger] lang_entries(old(v)@)[i].0 == key@
                && lang_entries(final(v)@) == lang_entries(old(v)@).update(i, (key@, lang)),
{
    let ghost pre = lang_entries(v@);
    proof {
        assert(pre == lang_entries(old(v)@));
        assert(unique_keys(pre));
    }
    let mut i: usize = 0;
    while i < v.len()
        invariant
            i <= v@.len(),
            v@ == old(v)@,
            lang_entries(v@) == pre,
            unique_keys(pre),
            forall|j: int| 0 <= j < i ==> pre[j].0 != key@,
        decreases v@.len() - i,
    {
        proof {
            assert(pre[i as int] == (v@[i as int].0@, v@[i as int].1));
        }
        if v[i].0 == key {
            proof {
                assert(v@[i as int].0@ == key@);
            }
            let ghost kv = key@;
            v.remove(i);
            v.insert(i, (key, lang));
            proof {
                assert(lang_entries(v@) =~~= pre.update(i as int, (pre[i as int].0, lang)));
                assert(pre[i as int].0 == kv);
                lemma_assoc_update(pre, i as int, lang);
                lemma_assoc_some_of_key(pre, i as int);
                assert forall|a: int, b: int|
                    0 <= a < b < lang_entries(v@).len() implies lang_entries(v@)[a].0
                    != lang_entries(v@)[b].0 by {
                    assert(pre[a].0 != pre[b].0);
                    assert(lang_entries(v@)[a].0 == pre[a].0);
                    assert(lang_entries(v@)[b].0 == pre[b].0);
                }
                assert(0 <= i as int && (i as int) < pre.len() && pre[i as int].0 == kv
                    && lang_entries(v@) == pre.update(i as int, (kv, lang)));
            }
            return ;
        }
        i = i + 1;
    }
    let ghost kv = key@;
    v.push((key, lang));
    proof {
        assert(lang_entries(v@) =~~= pre.push((kv, lang)));
        lemma_assoc_keys_absent(pre, kv);
        assert forall|k: Seq<char>| true implies assoc(lang_entries(v@), k) == (if assoc(pre, k)
            is Some {
            assoc(pre, k)
        } else if kv == k {
            Some(lang)
        } else {
            None::<tree_sitter::Language>
        }) by {
            lemma_assoc_push(pre, (kv, lang), k);
        }
        assert forall|a: int, b: int|
            0 <= a < b < lang_entries(v@).len() implies lang_entries(v@)[a].0
            != lang_entries(v@)[b].0 by {
            if b < pre.len() {
                assert(pre[a].0 != pre[b].0);
                assert(lang_entries(v@)[a].0 == pre[a].0);
                assert(lang_entries(v@)[b].0 == pre[b].0);
            } else {
                assert(lang_entries(v@)[b].0 == kv);
                assert(lang_entries(v@)[a].0 == pre[a].0);
            }
        }
    }
}

impl LanguageRegistry {
    /// Create a new language registry with all supported languages: the
    /// registration table is laid down once, then aliases are added.
    pub fn new() -> (r: Self)
        ensures
            r.wf(),
            r.lang_map().len() == canonical_names().len(),
            forall|i: int|
                0 <= i < canonical_names().len() ==> r.lang_map()[i].0 == canonical_names()[i],
            r.alias_map() == default_aliases(),
    {
        let mut languages: Vec<(String, tree_sitter::Language)> = Vec::new();
        languages.push((String::from_str("rust"), grammar_rust()));
        languages.push((String::from_str("javascript"), grammar_javascript()));
        languages.push((String::from_str("python"), grammar_python()));
        languages.push((String::from_str("typescript"), grammar_typescript()));
        languages.push((String::from_str("tsx"), grammar_tsx()));
        languages.push((String::from_str("go"), grammar_go()));
        languages.push((String::from_str("c"), grammar_c()));
        languages.push((String::from_str("cpp"), grammar_cpp()));
        languages.push((String::from_str("java"), grammar_java()));
        languages.push((String::from_str("json"), grammar_json()));
        languages.push((String::from_str("html"), grammar_html()));
        languages.push((String::from_str("css"), grammar_css()));
        languages.push((String::from_str("bash"), grammar_bash()));
        let mut aliases: Vec<(String, String)> = Vec::new();
        aliases.push((String::from_str("js"), String::from_str("javascript")));
        aliases.push((String::from_str("ecmascript"), String::from_str("javascript")));
        aliases.push((String::from_str("py"), String::from_str("python")));
        aliases.push((String::from_str("rs"), String::from_str("rust")));
        aliases.push((String::from_str("ts"), String::from_str("typescript")));
        aliases.push((String::from_str("c++"), String::from_str("cpp")));
        aliases.push((String::from_str("cc"), String::from_str("cpp")));
        aliases.push((String::from_str("cxx"), String::from_str("cpp")));
        aliases.push((String::from_str("sh"), String::from_str("bash")));
        aliases.push((String::from_str("shell"), String::from_str("bash")));
        aliases.push((String::from_str("zsh"), String::from_str("bash")));
        let r = LanguageRegistry { languages, aliases };
        proof {
            reveal_strlit("rust");
            reveal_strlit("javascript");
            reveal_strlit("python");
            reveal_strlit("typescript");
            reveal_strlit("tsx");
            reveal_strlit("go");
            reveal_strlit("c");
            reveal_strlit("cpp");
            reveal_strlit("java");
            reveal_strlit("json");
            reveal_strlit("html");
            reveal_strlit("css");
            reveal_strlit("bash");
            reveal_strlit("js");
            reveal_strlit("ecmascript");
            reveal_strlit("py");
            reveal_strlit("rs");
            reveal_strlit("ts");
            reveal_strlit("c++");
            reveal_strlit("cc");
            reveal_strlit("cxx");
            reveal_strlit("sh");
            reveal_strlit("shell");
            reveal_strlit("zsh");
            assert("rust"@.len() == 4);
            assert("javascript"@.len() == 10);
            assert("python"@.len() == 6);
            assert("typescript"@.len() == 10);
            assert("tsx"@.len() == 3);
            assert("go"@.len() == 2);
            assert("c"@.len() == 1);
            assert("cpp"@.len() == 3);
            assert("java"@.len() == 4);
            assert("json"@.len() == 4);
            assert("html"@.len() == 4);
            assert("css"@.len() == 3);
            assert("bash"@.len() == 4);
            assert("js"@.len() == 2);
            assert("ecmascript"@.len() == 10);
            assert("py"@.len() == 2);
            assert("rs"@.len() == 2);
            assert("ts"@.len() == 2);
            assert("c++"@.len() == 3);
            assert("cc"@.len() == 2);
            assert("cxx"@.len() == 3);
            assert("sh"@.len() == 2);
            assert("shell"@.len() == 5);
            assert("zsh"@.len() == 3);
            assert("rust"@[0] != "java"@[0]);
            assert("rust"@ != "java"@);
            assert("rust"@[0] != "json"@[0]);
            assert("rust"@ != "json"@);
            assert("rust"@[0] != "html"@[0]);
            assert("rust"@ != "html"@);
            assert("rust"@[0] != "bash"@[0]);
            assert("rust"@ != "bash"@);
            assert("javascript"@[0] != "typescript"@[0]);
            assert("javascript"@ != "typescript"@);
            assert("tsx"@[0] != "cpp"@[0]);
            assert("tsx"@ != "cpp"@);
            assert("tsx"@[0] != "css"@[0]);
            assert("tsx"@ != "css"@);
            assert("cpp"@[1] != "css"@[1]);
            assert("cpp"@ != "css"@);
            assert("java"@[1] != "json"@[1]);
            assert("java"@ != "json"@);
            assert("java"@[0] != "html"@[0]);
            assert("java"@ != "html"@);
            assert("java"@[0] != "bash"@[0]);
            assert("java"@ != "bash"@);
            assert("json"@[0] != "html"@[0]);
            assert("json"@ != "html"@);
            assert("json"@[0] != "bash"@[0]);
            assert("json"@ != "bash"@);
            assert("html"@[0] != "bash"@[0]);
            assert("html"@ != "bash"@);
            assert("js"@[0] != "py"@[0]);
            assert("js"@ != "py"@);
            assert("js"@[0] != "rs"@[0]);
            assert("js"@ != "rs"@);
            assert("js"@[0] != "ts"@[0]);
            assert("js"@ != "ts"@);
            assert("js"@[0] != "cc"@[0]);
            assert("js"@ != "cc"@);
            assert("js"@[0] != "sh"@[0]);
            assert("js"@ != "sh"@);
            assert("py"@[0] != "rs"@[0]);
            assert("py"@ != "rs"@);
            assert("py"@[0] != "ts"@[0]);
            assert("py"@ != "ts"@);
            assert("py"@[0] != "cc"@[0]);
            assert("py"@ != "cc"@);
            assert("py"@[0] != "sh"@[0]);
            assert("py"@ != "sh"@);
            assert("rs"@[0] != "ts"@[0]);
            assert("rs"@ != "ts"@);
            assert("rs"@[0] != "cc"@[0]);
            assert("rs"@ != "cc"@);
            assert("rs"@[0] != "sh"@[0]);
            assert("rs"@ != "sh"@);
            assert("ts"@[0] != "cc"@[0]);
            assert("ts"@ != "cc"@);
            assert("ts"@[0] != "sh"@[0]);
            assert("ts"@ != "sh"@);
            assert("c++"@[1] != "cxx"@[1]);
            assert("c++"@ != "cxx"@);
            assert("c++"@[0] != "zsh"@[0]);
            assert("c++"@ != "zsh"@);
            assert("cc"@[0] != "sh"@[0]);
            assert("cc"@ != "sh"@);
            assert("cxx"@[0] != "zsh"@[0]);
            assert("cxx"@ != "zsh"@);
            assert(lower_of("rust"@) =~= "rust"@);
            assert(lower_of("javascript"@) =~= "javascript"@);
            assert(lower_of("python"@) =~= "python"@);
            assert(lower_of("typescript"@) =~= "typescript"@);
            assert(lower_of("tsx"@) =~= "tsx"@);
            assert(lower_of("go"@) =~= "go"@);
            assert(lower_of("c"@) =~= "c"@);
            assert(lower_of("cpp"@) =~= "cpp"@);
            assert(lower_of("java"@) =~= "java"@);
            assert(lower_of("json"@) =~= "json"@);
            assert(lower_of("html"@) =~= "html"@);
            assert(lower_of("css"@) =~= "css"@);
            assert(lower_of("bash"@) =~= "bash"@);
            assert(lower_of("js"@) =~= "js"@);
            assert(lower_of("ecmascript"@) =~= "ecmascript"@);
            assert(lower_of("py"@) =~= "py"@);
            assert(lower_of("rs"@) =~= "rs"@);
            assert(lower_of("ts"@) =~= "ts"@);
            assert(lower_of("c++"@) =~= "c++"@);
            assert(lower_of("cc"@) =~= "cc"@);
            assert(lower_of("cxx"@) =~= "cxx"@);
            assert(lower_of("sh"@) =~= "sh"@);
            assert(lower_of("shell"@) =~= "shell"@);
            assert(lower_of("zsh"@) =~= "zsh"@);
            assert(r.lang_map().len() == 13);
            assert(forall|i: int|
                0 <= i < canonical_names().len() ==> r.lang_map()[i].0 == canonical_names()[i]);
            assert(r.alias_map() =~~= default_aliases());
            assert(forall|i: int, j: int|
                0 <= i < j < r.lang_map().len() ==> r.lang_map()[i].0 != r.lang_map()[j].0);
            assert(forall|i: int, j: int|
                0 <= i < j < r.alias_map().len() ==> r.alias_map()[i].0 != r.alias_map()[j].0);
            assert("js"@[0] != "go"@[0]);
            assert("js"@ != "go"@);
            assert("ecmascript"@[0] != "javascript"@[0]);
            assert("ecmascript"@ != "javascript"@);
            assert("ecmascript"@[0] != "typescript"@[0]);
            assert("ecmascript"@ != "typescript"@);
            assert("py"@[0] != "go"@[0]);
            assert("py"@ != "go"@);
            assert("rs"@[0] != "go"@[0]);
            assert("rs"@ != "go"@);
            assert("ts"@[0] != "go"@[0]);
            assert("ts"@ != "go"@);
            assert("c++"@[0] != "tsx"@[0]);
            assert("c++"@ != "tsx"@);
            assert("c++"@[1] != "cpp"@[1]);
            assert("c++"@ != "cpp"@);
            assert("c++"@[1] != "css"@[1]);
            assert("c++"@ != "css"@);
            assert("cc"@[0] != "go"@[0]);
            assert("cc"@ != "go"@);
            assert("cxx"@[0] != "tsx"@[0]);
            assert("cxx"@ != "tsx"@);
            assert("cxx"@[1] != "cpp"@[1]);
            assert("cxx"@ != "cpp"@);
            assert("cxx"@[1] != "css"@[1]);
            assert("cxx"@ != "css"@);
            assert("sh"@[0] != "go"@[0]);
            assert("sh"@ != "go"@);
            assert("zsh"@[0] != "tsx"@[0]);
            assert("zsh"@ != "tsx"@);
            assert("zsh"@[0] != "cpp"@[0]);
            assert("zsh"@ != "cpp"@);
            assert("zsh"@[0] != "css"@[0]);
            assert("zsh"@ != "css"@);
            assert forall|j: int|
                0 <= j < r.alias_map().len() implies assoc(
                r.lang_map(),
                #[trigger] r.alias_map()[j].0,
            ) is None by {
                assert(forall|i: int|
                    0 <= i < r.lang_map().len() ==> r.lang_map()[i].0 != r.alias_map()[j].0);
                lemma_assoc_keys_absent(r.lang_map(), r.alias_map()[j].0);
            }

        }
        r
    }

    /// Register a language under the lowercased `name`, replacing any
    /// earlier entry under the same key. The key must not be a registered
    /// alias: an alias never collides with a canonical name, so a lookup
    /// is never shadowed.
    pub fn register(&mut self, name: &str, language: tree_sitter::Language)
        requires
            old(self).wf(),
            forall|i: int|
                0 <= i < old(self).alias_map().len() ==> old(self).alias_map()[i].0 != lower_of(
                    name@,
                ),
        ensures
            final(self).wf(),
            final(self).aliases == old(self).aliases,
            assoc(final(self).lang_map(), lower_of(name@)) == Some(language),
            forall|k: Seq<char>|
                k != lower_of(name@) ==> assoc(final(self).lang_map(), k) == assoc(
                    old(self).lang_map(),
                    k,
                ),
            assoc(old(self).lang_map(), lower_of(name@)) is None ==> final(self).lang_map() == old(
                self,
            ).lang_map().push((lower_of(name@), language)),
    {
        let low = chars_to_string(&to_lower(name));
        proof {
            lemma_lower_idempotent(name@);
        }
        put_lang(&mut self.languages, low, language);
        proof {
            assert forall|i: int|
                0 <= i < self.lang_map().len() implies lower_of(
                #[trigger] self.lang_map()[i].0,
            ) == self.lang_map()[i].0 by {
                if assoc(old(self).lang_map(), lower_of(name@)) is None {
                    if i < old(self).lang_map().len() {
                        assert(self.lang_map()[i].0 == old(self).lang_map()[i].0);
                    } else {
                        assert(self.lang_map()[i].0 == lower_of(name@));
                    }
                }
            }
            assert forall|i: int|
                0 <= i < self.alias_map().len() implies assoc(
                self.lang_map(),
                #[trigger] self.alias_map()[i].0,
            ) is None by {
                assert(self.alias_map()[i].0 != lower_of(name@));
                assert(assoc(self.lang_map(), self.alias_map()[i].0) == assoc(
                    old(self).lang_map(),
                    self.alias_map()[i].0,
                ));
            }
        }
    }

    /// Register aliases for a canonical language name; every alias maps to
    /// the lowercased canonical name. No alias may be a registered
    /// canonical key: an alias never collides with a canonical name, so a
    /// lookup is never shadowed.
    pub fn register_aliases(&mut self, canonical: &str, aliases: &[&str])
        requires
            old(self).wf(),
            forall|i: int|
                0 <= i < aliases@.len() ==> #[trigger] assoc(
                    old(self).lang_map(),
                    lower_of(aliases@[i]@),
                ) is None,
        ensures
            final(self).wf(),
            final(self).languages == old(self).languages,
            forall|i: int|
                0 <= i < aliases@.len() ==> assoc(
                    final(self).alias_map(),
                    lower_of(aliases@[i]@),
                ) == Some(lower_of(canonical@)),
            forall|k: Seq<char>|
                (forall|i: int| 0 <= i < aliases@.len() ==> k != lower_of(aliases@[i]@)) ==> assoc(
                    final(self).alias_map(),
                    k,
                ) == assoc(old(self).alias_map(), k),
    {
        let ghost tv = lower_of(canonical@);
        proof {
            lemma_lower_idempotent(canonical@);
        }
        let mut i: usize = 0;
        while i < aliases.len()
            invariant
                i <= aliases@.len(),
                tv == lower_of(canonical@),
                lower_of(tv) == tv,
                self.languages == old(self).languages,
                old(self).wf(),
                forall|q: int|
                    0 <= q < aliases@.len() ==> #[trigger] assoc(
                        old(self).lang_map(),
                        lower_of(aliases@[q]@),
                    ) is None,
                self.lang_map() == old(self).lang_map(),
                unique_keys(self.alias_map()),
                forall|j: int|
                    0 <= j < self.alias_map().len() ==> assoc(
                        self.lang_map(),
                        #[trigger] self.alias_map()[j].0,
                    ) is None,
                forall|j: int|
                    0 <= j < self.alias_map().len() ==> lower_of(
                        #[trigger] self.alias_map()[j].0,
                    ) == self.alias_map()[j].0 && lower_of(self.alias_map()[j].1)
                        == self.alias_map()[j].1,
                forall|j: int|
                    0 <= j < i ==> assoc(self.alias_map(), lower_of(aliases@[j]@)) == Some(tv),
                forall|k: Seq<char>|
                    (forall|j: int| 0 <= j < aliases@.len() ==> k != lower_of(aliases@[j]@))
                        ==> assoc(self.alias_map(), k) == assoc(old(self).alias_map(), k),
            decreases aliases@.len() - i,
        {
            let alias = aliases[i];
            proof {
                assert(alias == aliases@[i as int]);
            }
            let low = chars_to_string(&to_lower(alias));
            let ghost lv = low@;
            proof {
                assert(lv == lower_of(aliases@[i as int]@));
            }
            let tgt = chars_to_string(&to_lower(canonical));
            let ghost pre_am = self.alias_map();
            proof {
                assert(tgt@ == tv);
                lemma_lower_idempotent(alias@);
            }
            let ghost pre_lang = self.lang_map();
            proof {
                assert(forall|j: int|
                    0 <= j < pre_am.len() ==> assoc(pre_lang, #[trigger] pre_am[j].0) is None);
            }
            put_entry(&mut self.aliases, low, tgt);
            proof {
                assert(assoc(self.alias_map(), lv) == Some(tv));
                assert(self.lang_map() == pre_lang);
                assert(assoc(pre_lang, lv) is None) by {
                    assert(assoc(old(self).lang_map(), lower_of(aliases@[i as int]@)) is None);
                }
                assert forall|j: int|
                    0 <= j < self.alias_map().len() implies assoc(
                    self.lang_map(),
                    #[trigger] self.alias_map()[j].0,
                ) is None by {
                    if assoc(pre_am, lv) is None {
                        if j < pre_am.len() {
                            assert(self.alias_map()[j] == pre_am[j]);
                            assert(assoc(pre_lang, pre_am[j].0) is None);
                        } else {
                            assert(self.alias_map()[j].0 == lv);
                        }
                    } else {
                        let w = choose|w: int|
                            0 <= w < pre_am.len() && #[trigger] pre_am[w].0 == lv
                                && self.alias_map() == pre_am.update(w, (lv, tv));
                        if j == w {
                            assert(self.alias_map()[j].0 == lv);
                        } else {
                            assert(self.alias_map()[j] == pre_am[j]);
                            assert(assoc(pre_lang, pre_am[j].0) is None);
                        }
                    }
                }
                assert forall|j: int|
                    0 <= j < self.alias_map().len() implies lower_of(
                    #[trigger] self.alias_map()[j].0,
                ) == self.alias_map()[j].0 && lower_of(self.alias_map()[j].1)
                    == self.alias_map()[j].1 by {
                    if assoc(pre_am, lv) is None {
                        if j < pre_am.len() {
                            assert(self.alias_map()[j] == pre_am[j]);
                        } else {
                            assert(self.alias_map()[j] == (lv, tv));
                        }
                    } else {
                        let w = choose|w: int|
                            0 <= w < pre_am.len() && #[trigger] pre_am[w].0 == lv
                                && self.alias_map() == pre_am.update(w, (lv, tv));
                        if j == w {
                            assert(self.alias_map()[j] == (lv, tv));
                        } else {
                            assert(self.alias_map()[j] == pre_am[j]);
                        }
                    }
                }
            }
            i = i + 1;
        }
    }

    /// Get a language by name or alias.
    pub fn get_language(&self, name: &str) -> (r: Option<tree_sitter::Language>)
        ensures
            match r {
                Some(l) => self.spec_get_language(name@) == Some(l),
                None => self.spec_get_language(name@) is None,
            },
    {
        let low = chars_to_string(&to_lower(name));
        match find_grammar(&self.languages, &low) {
            Some(l) => Some(l),
            None => {
                match assoc_get(&self.aliases, &low) {
                    Some(c) => find_grammar(&self.languages, &c),
                    None => None,
                }
            },
        }
    }

    /// Check if a language is supported.
    pub fn is_supported(&self, name: &str) -> (r: bool)
        ensures
            r == self.spec_is_supported(name@),
    {
        self.get_language(name).is_some()
    }

    /// The canonical key a lookup of `name` uses; callers must treat an
    /// unchanged (lowercased) echo as "not found".
    pub fn get_canonical_name(&self, name: &str) -> (r: String)
        ensures
            r@ == self.spec_canonical_name(name@),
    {
        let low = chars_to_string(&to_lower(name));
        match find_grammar(&self.languages, &low) {
            Some(_) => low,
            None => {
                match assoc_get(&self.aliases, &low) {
                    Some(c) => c,
                    None => low,
                }
            },
        }
    }

    /// Get the list of all supported (canonical) language names, in
    /// registration order.
    pub fn supported_languages(&self) -> (r: Vec<String>)
        ensures
            r.deep_view() == Seq::new(self.lang_map().len(), |i: int| self.lang_map()[i].0),
    {
        let mut out: Vec<String> = Vec::new();
        let mut i: usize = 0;
        while i < self.languages.len()
            invariant
                i <= self.languages@.len(),
                out.deep_view() == Seq::new(i as nat, |j: int| self.lang_map()[j].0),
            decreases self.languages@.len() - i,
        {
            let name = self.languages[i].0.clone();
            let ghost nv = name@;
            let ghost prev = out.deep_view();
            out.push(name);
            proof {
                assert(out.deep_view() =~~= prev.push(nv));
                assert(out.deep_view() =~~= Seq::new((i + 1) as nat, |j: int| self.lang_map()[j].0));
            }
            i = i + 1;
        }
        proof {
            assert(out.deep_view() =~~= Seq::new(self.lang_map().len(), |j: int| self.lang_map()[j].0));
        }
        out
    }

    /// Get the count of supported languages.
    pub fn language_count(&self) -> (r: usize)
        ensures
            r == self.lang_map().len(),
    {
        self.languages.len()
    }
}

impl Default for LanguageRegistry {
    /// A freshly built registry.
    fn default() -> (r: Self)
        ensures
            r.wf(),
            r.lang_map().len() == canonical_names().len(),
            r.alias_map() == default_aliases(),
    {
        Self::new()
    }
}

/// Every registered canonical name resolves: looking a canonical key up
/// finds a grammar, so the name counts as supported.
pub proof fn lemma_registered_name_found(reg: LanguageRegistry, i: int)
    requires
        reg.wf(),
        0 <= i < reg.lang_map().len(),
    ensures
        reg.spec_get_language(reg.lang_map()[i].0) == Some(reg.lang_map()[i].1),
        reg.spec_is_supported(reg.lang_map()[i].0),
{
    let key = reg.lang_map()[i].0;
    assert(lower_of(key) == key);
    lemma_assoc_some_of_key(reg.lang_map(), i);
}

/// An alias resolves to the same grammar as the canonical name it names,
/// whenever that canonical name is itself registered; a well-formed
/// registry never lets an alias shadow a canonical entry.
pub proof fn lemma_alias_matches_canonical(reg: LanguageRegistry, a: Seq<char>, c: Seq<char>)
    requires
        reg.wf(),
        assoc(reg.alias_map(), a) == Some(c),
        assoc(reg.lang_map(), c) is Some,
    ensures
        reg.spec_get_language(a) == reg.spec_get_language(c),
        reg.spec_get_language(a) is Some,
{
    lemma_assoc_some_has_index(reg.alias_map(), a);
    let i = choose|i: int|
        0 <= i < reg.alias_map().len() && #[trigger] reg.alias_map()[i].0 == a && assoc(
            reg.alias_map(),
            a,
        ) == Some(reg.alias_map()[i].1);
    assert(lower_of(a) == a);
    assert(lower_of(c) == c);
    assert(reg.spec_get_language(a) == assoc(reg.lang_map(), c));
    assert(reg.spec_get_language(c) == assoc(reg.lang_map(), c));
}

/// Lookups are case-insensitive: names with the same case folding resolve
/// to the same grammar, the same support verdict and the same canonical
/// name.
pub proof fn lemma_lookup_case_insensitive(reg: LanguageRegistry, n1: Seq<char>, n2: Seq<char>)
    requires
        lower_of(n1) == lower_of(n2),
    ensures
        reg.spec_get_language(n1) == reg.spec_get_language(n2),
        reg.spec_is_supported(n1) == reg.spec_is_supported(n2),
        reg.spec_canonical_name(n1) == reg.spec_canonical_name(n2),
{
}

/// An unregistered name resolves to nothing, is unsupported, and its
/// canonical name is the lowercased input unchanged.
pub proof fn lemma_unregistered_name(reg: LanguageRegistry, n: Seq<char>)
    requires
        assoc(reg.lang_map(), lower_of(n)) is None,
        assoc(reg.alias_map(), lower_of(n)) is None,
    ensures
        reg.spec_get_language(n) is None,
        !reg.spec_is_supported(n),
        reg.spec_canonical_name(n) == lower_of(n),
{
}

} // verus!
