//! Query resolver: loads a query document for a language and role from the
//! asset store, following the leading-comment inheritance directive
//! `; inherits: lang1,lang2`. A parent's resolved document is prepended, in
//! declared order, before the child's own content with the directive line
//! removed. Missing documents resolve to the empty string. Resolution depth
//! is bounded by the number of stored documents, so a cyclic directive is
//! cut off instead of recursing forever: any chain longer than the store
//! must repeat a document.

use vstd::prelude::*;

verus! {

use vstd::string::StrSliceExecFns;
use vstd::string::StringExecFns;
use crate::assets::AssetStore;
use crate::assets::QueryRole;
use crate::assets::asset_lookup;
use crate::text::chars_start_with;
use crate::text::chars_to_string;
use crate::text::copy_range;
use crate::text::push_chars;
use crate::text::spec_lines;
use crate::text::spec_split_commas;
use crate::text::split_commas;
use crate::text::split_lines;
use crate::text::starts_with;
use crate::text::str_chars;
use crate::text::trim_chars;
use crate::text::trim_spec;

/// The names listed after the directive marker: comma-separated segments,
/// trimmed, empty ones dropped.
pub open spec fn clean_names(segs: Seq<Seq<char>>) -> Seq<Seq<char>>
    decreases segs.len(),
{
    if segs.len() == 0 {
        Seq::empty()
    } else {
        let t = trim_spec(segs[0]);
        (if t.len() > 0 {
            seq![t]
        } else {
            Seq::<Seq<char>>::empty()
        }) + clean_names(segs.drop_first())
    }
}

/// Scan leading lines for the inheritance directive: blank lines and other
/// comments are skipped; the first directive ends the scan with its names;
/// any other line ends it with none.
pub open spec fn parse_inherits_lines(lines: Seq<Seq<char>>) -> Seq<Seq<char>>
    decreases lines.len(),
{
    if lines.len() == 0 {
        Seq::empty()
    } else {
        let t = trim_spec(lines[0]);
        if starts_with(t, "; inherits:"@) {
            clean_names(spec_split_commas(t.skip(11)))
        } else if t.len() == 0 || t[0] == ';' {
            parse_inherits_lines(lines.drop_first())
        } else {
            Seq::empty()
        }
    }
}

/// The parent languages the document `content` declares.
pub open spec fn parse_inherits_spec(content: Seq<char>) -> Seq<Seq<char>> {
    parse_inherits_lines(spec_lines(content))
}

/// `lines` with the first directive line removed, and nothing else changed.
pub open spec fn strip_first_directive(lines: Seq<Seq<char>>) -> Seq<Seq<char>>
    decreases lines.len(),
{
    if lines.len() == 0 {
        Seq::empty()
    } else if starts_with(trim_spec(lines[0]), "; inherits:"@) {
        lines.drop_first()
    } else {
        seq![lines[0]] + strip_first_directive(lines.drop_first())
    }
}

/// The lines joined back together, each followed by a newline.
pub open spec fn render_lines(lines: Seq<Seq<char>>) -> Seq<char>
    decreases lines.len(),
{
    if lines.len() == 0 {
        Seq::empty()
    } else {
        lines[0] + seq!['\n'] + render_lines(lines.drop_first())
    }
}

/// `content` rebuilt line by line with the first directive line removed.
pub open spec fn remove_inherits_spec(content: Seq<char>) -> Seq<char> {
    render_lines(strip_first_directive(spec_lines(content)))
}

/// The fully resolved document for `lang` and `role`: parents first, in
/// declared order, then the document itself without the directive line.
/// `fuel` bounds the inheritance depth; an exhausted branch resolves empty.
pub open spec fn resolve_spec(
    store: Seq<(Seq<char>, QueryRole, Seq<char>)>,
    lang: Seq<char>,
    role: QueryRole,
    fuel: nat,
) -> Seq<char>
    decreases fuel, 0nat,
{
    if fuel == 0 {
        Seq::empty()
    } else {
        match asset_lookup(store, lang, role) {
            None => Seq::empty(),
            Some(doc) => {
                let inh = parse_inherits_spec(doc);
                if inh.len() == 0 {
                    doc
                } else {
                    resolve_list(store, inh, role, (fuel - 1) as nat) + remove_inherits_spec(doc)
                }
            },
        }
    }
}

/// The concatenated resolved parents: each parent that resolves non-empty
/// contributes its resolution followed by a newline.
pub open spec fn resolve_list(
    store: Seq<(Seq<char>, QueryRole, Seq<char>)>,
    parents: Seq<Seq<char>>,
    role: QueryRole,
    fuel: nat,
) -> Seq<char>
    decreases fuel, parents.len(),
{
    if parents.len() == 0 {
        Seq::empty()
    } else {
        let pc = resolve_spec(store, parents.last(), role, fuel);
        resolve_list(store, parents.drop_last(), role, fuel) + (if pc.len() > 0 {
            pc + seq!['\n']
        } else {
            Seq::<char>::empty()
        })
    }
}

/// Parse the inheritance directive of a query document.
pub fn parse_inherits(content: &str) -> (r: Vec<String>)
    ensures
        r.deep_view() == parse_inherits_spec(content@),
{
    let chars = str_chars(content);
    let lines = split_lines(&chars);
    let ghost lview = lines.deep_view();
    proof {
        assert(lview.subrange(0, lview.len() as int) =~= lview);
    }
    let mut i: usize = 0;
    while i < lines.len()
        invariant
            i <= lines@.len(),
            lview == lines.deep_view(),
            lview.len() == lines@.len(),
            parse_inherits_spec(content@) == parse_inherits_lines(
                lview.subrange(i as int, lview.len() as int),
            ),
        decreases lines@.len() - i,
    {
        proof {
            let tail = lview.subrange(i as int, lview.len() as int);
            assert(tail[0] == lview[i as int]);
            assert(lview[i as int] == lines@[i as int].deep_view());
            assert(lines@[i as int].deep_view() =~= lines@[i as int]@);
            assert(tail.drop_first() =~= lview.subrange(i + 1 as int, lview.len() as int));
        }
        let t = trim_chars(&lines[i]);
        if chars_start_with(&t, "; inherits:") {
            proof {
                reveal_strlit("; inherits:");
                assert("; inherits:"@.len() == 11);
            }
            let rest = copy_range(&t, 11, t.len());
            proof {
                assert(rest@ =~= trim_spec(lview[i as int]).skip(11));
            }
            let segs = split_commas(&rest);
            let ghost sview = segs.deep_view();
            proof {
                assert(sview.subrange(0, sview.len() as int) =~= sview);
            }
            let mut out: Vec<String> = Vec::new();
            let mut j: usize = 0;
            while j < segs.len()
                invariant
                    j <= segs@.len(),
                    sview == segs.deep_view(),
                    sview.len() == segs@.len(),
                    clean_names(sview) == out.deep_view() + clean_names(
                        sview.subrange(j as int, sview.len() as int),
                    ),
                decreases segs@.len() - j,
            {
                proof {
                    let stail = sview.subrange(j as int, sview.len() as int);
                    assert(stail[0] == sview[j as int]);
                    assert(sview[j as int] == segs@[j as int].deep_view());
                    assert(segs@[j as int].deep_view() =~= segs@[j as int]@);
                    assert(stail.drop_first() =~= sview.subrange(j + 1 as int, sview.len() as int));
                }
                let tt = trim_chars(&segs[j]);
                if tt.len() > 0 {
                    let name = chars_to_string(&tt);
                    let ghost nv = name@;
                    let ghost preo = out.deep_view();
                    out.push(name);
                    proof {
                        assert(out.deep_view() =~~= preo.push(nv));
                        assert(preo + clean_names(sview.subrange(j as int, sview.len() as int))
                            =~~= out.deep_view() + clean_names(
                            sview.subrange(j + 1 as int, sview.len() as int),
                        ));
                    }
                } else {
                    proof {
                        assert(clean_names(sview.subrange(j as int, sview.len() as int))
                            =~~= clean_names(sview.subrange(j + 1 as int, sview.len() as int)));
                    }
                }
                j = j + 1;
            }
            proof {
                assert(sview.subrange(sview.len() as int, sview.len() as int) =~= Seq::<
                    Seq<char>,
                >::empty());
                assert(clean_names(Seq::<Seq<char>>::empty()) =~= Seq::<Seq<char>>::empty());
                assert(out.deep_view() + Seq::<Seq<char>>::empty() =~~= out.deep_view());
            }
            return out;
        }
        let stop = if t.len() == 0 {
            false
        } else {
            t[0] != ';'
        };
        if stop {
            let out: Vec<String> = Vec::new();
            proof {
                assert(out.deep_view() =~~= Seq::<Seq<char>>::empty());
            }
            return out;
        }
        i = i + 1;
    }
    proof {
        assert(lview.subrange(lview.len() as int, lview.len() as int) =~= Seq::<
            Seq<char>,
        >::empty());
    }
    let out: Vec<String> = Vec::new();
    proof {
        assert(out.deep_view() =~~= Seq::<Seq<char>>::empty());
    }
    out
}

/// Remove the first inheritance directive line from a document, rebuilding
/// it line by line.
pub fn remove_inherits_line(content: &str) -> (r: String)
    ensures
        r@ == remove_inherits_spec(content@),
{
    let chars = str_chars(content);
    let lines = split_lines(&chars);
    let ghost lview = lines.deep_view();
    proof {
        assert(lview.subrange(0, lview.len() as int) =~= lview);
    }
    let mut out: Vec<char> = Vec::new();
    let mut found: bool = false;
    let mut i: usize = 0;
    while i < lines.len()
        invariant
            i <= lines@.len(),
            lview == lines.deep_view(),
            lview.len() == lines@.len(),
            !found ==> remove_inherits_spec(content@) == out@ + render_lines(
                strip_first_directive(lview.subrange(i as int, lview.len() as int)),
            ),
            found ==> remove_inherits_spec(content@) == out@ + render_lines(
                lview.subrange(i as int, lview.len() as int),
            ),
        decreases lines@.len() - i,
    {
        proof {
            let tail = lview.subrange(i as int, lview.len() as int);
            assert(tail[0] == lview[i as int]);
            assert(lview[i as int] == lines@[i as int].deep_view());
            assert(lines@[i as int].deep_view() =~= lines@[i as int]@);
            assert(tail.drop_first() =~= lview.subrange(i + 1 as int, lview.len() as int));
        }
        let t = trim_chars(&lines[i]);
        let is_directive = chars_start_with(&t, "; inherits:");
        if !found && is_directive {
            found = true;
        } else {
            let ghost preo = out@;
            push_chars(&mut out, &lines[i]);
            out.push('\n');
            proof {
                let tail = lview.subrange(i as int, lview.len() as int);
                let rest = lview.subrange(i + 1 as int, lview.len() as int);
                assert(out@ =~= preo + (lview[i as int] + seq!['\n']));
                if found {
                    assert(render_lines(tail) == lview[i as int] + seq!['\n'] + render_lines(rest));
                    assert(preo + render_lines(tail) =~= out@ + render_lines(rest));
                } else {
                    assert(strip_first_directive(tail) == seq![lview[i as int]]
                        + strip_first_directive(rest));
                    assert(render_lines(seq![lview[i as int]] + strip_first_directive(rest))
                        =~= lview[i as int] + seq!['\n'] + render_lines(strip_first_directive(rest)))
                        by {
                        let joined = seq![lview[i as int]] + strip_first_directive(rest);
                        assert(joined[0] == lview[i as int]);
                        assert(joined.drop_first() =~= strip_first_directive(rest));
                    }
                    assert(preo + render_lines(strip_first_directive(tail)) =~= out@ + render_lines(
                        strip_first_directive(rest),
                    ));
                }
            }
        }
        i = i + 1;
    }
    proof {
        assert(lview.subrange(lview.len() as int, lview.len() as int) =~= Seq::<
            Seq<char>,
        >::empty());
        assert(out@ + Seq::<char>::empty() =~= out@);
    }
    chars_to_string(&out)
}

/// Resolve the document for `lang` and `role` with bounded inheritance
/// depth.
fn resolve_inner(store: &AssetStore, lang: &str, role: QueryRole, fuel: usize) -> (r: String)
    ensures
        r@ == resolve_spec(store.view_entries(), lang@, role, fuel as nat),
    decreases fuel,
{
    if fuel == 0 {
        return String::new();
    }
    let content = match store.get(lang, role) {
        Some(c) => c,
        None => {
            return String::new();
        },
    };
    let inherits = parse_inherits(content.as_str());
    let ghost iview = inherits.deep_view();
    if inherits.len() == 0 {
        proof {
            assert(iview.len() == 0);
        }
        return content;
    }
    proof {
        assert(iview.subrange(0, 0) =~= Seq::<Seq<char>>::empty());
    }
    let mut merged: Vec<char> = Vec::new();
    let mut i: usize = 0;
    while i < inherits.len()
        invariant
            i <= inherits@.len(),
            iview == inherits.deep_view(),
            iview.len() == inherits@.len(),
            fuel >= 1,
            merged@ == resolve_list(
                store.view_entries(),
                iview.subrange(0, i as int),
                role,
                (fuel - 1) as nat,
            ),
        decreases inherits@.len() - i,
    {
        proof {
            assert(iview[i as int] == inherits@[i as int].deep_view());
        }
        let pc = resolve_inner(store, inherits[i].as_str(), role, fuel - 1);
        proof {
            let prefix = iview.subrange(0, i + 1 as int);
            assert(prefix.drop_last() =~= iview.subrange(0, i as int));
            assert(prefix.last() == iview[i as int]);
        }
        if !pc.as_str().is_empty() {
            let pcc = str_chars(pc.as_str());
            push_chars(&mut merged, &pcc);
            merged.push('\n');
            proof {
                assert(merged@ =~= resolve_list(
                    store.view_entries(),
                    iview.subrange(0, i + 1 as int),
                    role,
                    (fuel - 1) as nat,
                ));
            }
        } else {
            proof {
                assert(merged@ =~= resolve_list(
                    store.view_entries(),
                    iview.subrange(0, i + 1 as int),
                    role,
                    (fuel - 1) as nat,
                ));
            }
        }
        i = i + 1;
    }
    let stripped = remove_inherits_line(content.as_str());
    let scc = str_chars(stripped.as_str());
    push_chars(&mut merged, &scc);
    proof {
        assert(iview.subrange(0, iview.len() as int) =~= iview);
    }
    chars_to_string(&merged)
}

/// Resolve the query document for `lang` and `role` from the store. The
/// inheritance depth is bounded by the store's size: no acyclic chain can
/// be longer, and a cyclic one is cut off there.
pub fn resolve_query(store: &AssetStore, lang: &str, role: QueryRole) -> (r: String)
    ensures
        r@ == resolve_spec(store.view_entries(), lang@, role, store.view_entries().len() as nat),
{
    let fuel = store.len();
    resolve_inner(store, lang, role, fuel)
}

/// Resolution is idempotent: the resolved text is a function of the stored
/// documents alone, so any two results of resolving the same language and
/// role over the same store, as `resolve_query` promises them, are
/// identical.
pub proof fn lemma_resolution_idempotent(
    store: Seq<(Seq<char>, QueryRole, Seq<char>)>,
    lang: Seq<char>,
    role: QueryRole,
    r1: Seq<char>,
    r2: Seq<char>,
)
    requires
        r1 == resolve_spec(store, lang, role, store.len() as nat),
        r2 == resolve_spec(store, lang, role, store.len() as nat),
    ensures
        r1 == r2,
{
}

/// Whether resolution of `lang` runs to the bottom of its inheritance
/// tree within `fuel` levels, rather than being cut off.
pub open spec fn completes(
    store: Seq<(Seq<char>, QueryRole, Seq<char>)>,
    lang: Seq<char>,
    role: QueryRole,
    fuel: nat,
) -> bool
    decreases fuel, 0nat,
{
    if fuel == 0 {
        false
    } else {
        match asset_lookup(store, lang, role) {
            None => true,
            Some(doc) => {
                let inh = parse_inherits_spec(doc);
                inh.len() == 0 || completes_list(store, inh, role, (fuel - 1) as nat)
            },
        }
    }
}

/// Whether every parent in the list resolves to the bottom within `fuel`.
pub open spec fn completes_list(
    store: Seq<(Seq<char>, QueryRole, Seq<char>)>,
    parents: Seq<Seq<char>>,
    role: QueryRole,
    fuel: nat,
) -> bool
    decreases fuel, parents.len(),
{
    if parents.len() == 0 {
        true
    } else {
        completes_list(store, parents.drop_last(), role, fuel) && completes(
            store,
            parents.last(),
            role,
            fuel,
        )
    }
}

/// A resolution that runs to the bottom within some depth is unchanged by
/// any larger depth bound: the bound only matters for cyclic directives.
pub proof fn lemma_resolve_fuel_monotone(
    store: Seq<(Seq<char>, QueryRole, Seq<char>)>,
    lang: Seq<char>,
    role: QueryRole,
    f: nat,
    g: nat,
)
    requires
        completes(store, lang, role, f),
        f <= g,
    ensures
        completes(store, lang, role, g),
        resolve_spec(store, lang, role, f) == resolve_spec(store, lang, role, g),
    decreases f, 0nat,
{
    match asset_lookup(store, lang, role) {
        None => {},
        Some(doc) => {
            let inh = parse_inherits_spec(doc);
            if inh.len() > 0 {
                lemma_resolve_list_fuel_monotone(store, inh, role, (f - 1) as nat, (g - 1) as nat);
            }
        },
    }
}

/// The list form of `lemma_resolve_fuel_monotone`.
pub proof fn lemma_resolve_list_fuel_monotone(
    store: Seq<(Seq<char>, QueryRole, Seq<char>)>,
    parents: Seq<Seq<char>>,
    role: QueryRole,
    f: nat,
    g: nat,
)
    requires
        completes_list(store, parents, role, f),
        f <= g,
    ensures
        completes_list(store, parents, role, g),
        resolve_list(store, parents, role, f) == resolve_list(store, parents, role, g),
    decreases f, parents.len(),
{
    if parents.len() > 0 {
        lemma_resolve_list_fuel_monotone(store, parents.drop_last(), role, f, g);
        lemma_resolve_fuel_monotone(store, parents.last(), role, f, g);
    }
}

/// Inheritance composition preserves order: when a document declares the
/// parents `p1, p2`, and each parent's own inheritance tree bottoms out
/// one level down, the resolved document is the resolution of `p1`, then
/// of `p2`, each followed by a newline when non-empty, then the document
/// itself with the directive line removed.
pub proof fn lemma_inheritance_order(
    store: Seq<(Seq<char>, QueryRole, Seq<char>)>,
    lang: Seq<char>,
    role: QueryRole,
    doc: Seq<char>,
    p1: Seq<char>,
    p2: Seq<char>,
)
    requires
        asset_lookup(store, lang, role) == Some(doc),
        parse_inherits_spec(doc) == seq![p1, p2],
        completes(store, p1, role, (store.len() - 1) as nat),
        completes(store, p2, role, (store.len() - 1) as nat),
    ensures
        ({
            let n = store.len() as nat;
            let r1 = resolve_spec(store, p1, role, n);
            let r2 = resolve_spec(store, p2, role, n);
            resolve_spec(store, lang, role, n) == (if r1.len() > 0 {
                r1 + seq!['\n']
            } else {
                Seq::<char>::empty()
            }) + (if r2.len() > 0 {
                r2 + seq!['\n']
            } else {
                Seq::<char>::empty()
            }) + remove_inherits_spec(doc)
        }),
{
    let n = store.len() as nat;
    assert(n >= 1) by {
        if store.len() == 0 {
            assert(asset_lookup(store, lang, role) is None);
        }
    }
    let f = (n - 1) as nat;
    let inh = seq![p1, p2];
    assert(resolve_spec(store, lang, role, n) == resolve_list(store, inh, role, f)
        + remove_inherits_spec(doc));
    assert(inh.last() == p2);
    assert(inh.drop_last() =~= seq![p1]);
    assert(seq![p1].last() == p1);
    assert(seq![p1].drop_last() =~= Seq::<Seq<char>>::empty());
    let c1 = resolve_spec(store, p1, role, f);
    let c2 = resolve_spec(store, p2, role, f);
    assert(resolve_list(store, Seq::<Seq<char>>::empty(), role, f) == Seq::<char>::empty());
    assert(resolve_list(store, seq![p1], role, f) == Seq::<char>::empty() + (if c1.len() > 0 {
        c1 + seq!['\n']
    } else {
        Seq::<char>::empty()
    }));
    lemma_resolve_fuel_monotone(store, p1, role, f, n);
    lemma_resolve_fuel_monotone(store, p2, role, f, n);
    let r1 = resolve_spec(store, p1, role, n);
    let r2 = resolve_spec(store, p2, role, n);
    assert(c1 == r1 && c2 == r2);
    assert((Seq::<char>::empty() + (if r1.len() > 0 {
        r1 + seq!['\n']
    } else {
        Seq::<char>::empty()
    })) + (if r2.len() > 0 {
        r2 + seq!['\n']
    } else {
        Seq::<char>::empty()
    }) + remove_inherits_spec(doc) =~= (if r1.len() > 0 {
        r1 + seq!['\n']
    } else {
        Seq::<char>::empty()
    }) + (if r2.len() > 0 {
        r2 + seq!['\n']
    } else {
        Seq::<char>::empty()
    }) + remove_inherits_spec(doc));
}

} // verus!
