//! Store of query documents, keyed by language and role. The engine core is
//! agnostic to where the documents come from: embedding them at build time
//! and reading them from disk both end in a store like this.

use vstd::prelude::*;

verus! {

use vstd::string::StringExecFns;

/// The three kinds of query document a language can have.
#[derive(Debug, Clone, Copy, PartialEq, Eq, Structural)]
pub enum QueryRole {
    Highlights,
    Injections,
    Locals,
}

/// A store of raw query documents: (language, role, content) triples.
pub struct AssetStore {
    /// The stored documents, earliest added first; the first match wins.
    pub entries: Vec<(String, QueryRole, String)>,
}

/// The store's triples as plain values.
pub open spec fn store_view(v: Seq<(String, QueryRole, String)>) -> Seq<
    (Seq<char>, QueryRole, Seq<char>),
> {
    Seq::new(v.len(), |i: int| (v[i].0@, v[i].1, v[i].2@))
}

/// The first stored document for `lang` and `role`, if any.
pub open spec fn asset_lookup(
    entries: Seq<(Seq<char>, QueryRole, Seq<char>)>,
    lang: Seq<char>,
    role: QueryRole,
) -> Option<Seq<char>>
    decreases entries.len(),
{
    if entries.len() == 0 {
        None
    } else if entries[0].0 == lang && entries[0].1 == role {
        Some(entries[0].2)
    } else {
        asset_lookup(entries.drop_first(), lang, role)
    }
}

impl AssetStore {
    /// The stored documents as plain values.
    pub open spec fn view_entries(self) -> Seq<(Seq<char>, QueryRole, Seq<char>)> {
        store_view(self.entries@)
    }

    /// The document stored for `lang` and `role`, if any.
    pub open spec fn spec_get(self, lang: Seq<char>, role: QueryRole) -> Option<Seq<char>> {
        asset_lookup(self.view_entries(), lang, role)
    }

    /// An empty store.
    pub fn new() -> (r: Self)
        ensures
            r.view_entries() == Seq::<(Seq<char>, QueryRole, Seq<char>)>::empty(),
    {
        let r = AssetStore { entries: Vec::new() };
        proof {
            assert(r.view_entries() =~= Seq::<(Seq<char>, QueryRole, Seq<char>)>::empty());
        }
        r
    }

    /// Store a document for `lang` and `role`.
    pub fn add(&mut self, lang: &str, role: QueryRole, content: &str)
        ensures
            final(self).view_entries() == old(self).view_entries().push(
                (lang@, role, content@),
            ),
    {
        let ghost pre = self.view_entries();
        self.entries.push((String::from_str(lang), role, String::from_str(content)));
        proof {
            assert(self.view_entries() =~= pre.push((lang@, role, content@)));
        }
    }

    /// Fetch the document stored for `lang` and `role`, if any.
    pub fn get(&self, lang: &str, role: QueryRole) -> (r: Option<String>)
        ensures
            match r {
                Some(s) => self.spec_get(lang@, role) == Some(s@),
                None => self.spec_get(lang@, role) is None,
            },
    {
        let key = String::from_str(lang);
        proof {
            assert(self.view_entries().subrange(0, self.entries@.len() as int) =~= self.view_entries());
        }
        let mut i: usize = 0;
        while i < self.entries.len()
            invariant
                i <= self.entries@.len(),
                key@ == lang@,
                self.spec_get(lang@, role) == asset_lookup(
                    self.view_entries().subrange(i as int, self.entries@.len() as int),
                    lang@,
                    role,
                ),
            decreases self.entries@.len() - i,
        {
            proof {
                let tail = self.view_entries().subrange(i as int, self.entries@.len() as int);
                assert(tail[0] == self.view_entries()[i as int]);
                assert(tail.drop_first() =~= self.view_entries().subrange(
                    i + 1 as int,
                    self.entries@.len() as int,
                ));
            }
            if self.entries[i].0 == key && self.entries[i].1 == role {
                return Some(self.entries[i].2.clone());
            }
            i = i + 1;
        }
        proof {
            assert(self.view_entries().subrange(
                self.entries@.len() as int,
                self.entries@.len() as int,
            ) =~= Seq::<(Seq<char>, QueryRole, Seq<char>)>::empty());
        }
        None
    }

    /// How many documents the store holds.
    pub fn len(&self) -> (r: usize)
        ensures
            r == self.view_entries().len(),
    {
        self.entries.len()
    }
}

} // verus!
