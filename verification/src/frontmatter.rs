//! Frontmatter splitting: a note that opens with a `---` line may carry a
//! metadata block closed by another `---` line; the split hands back the
//! body and the trimmed metadata text.

use vstd::prelude::*;

verus! {

use vstd::string::StrSliceExecFns;
use vstd::string::StringExecFns;
use crate::text::chars_match_at;
use crate::text::chars_start_with;
use crate::text::chars_to_string;
use crate::text::copy_range;
use crate::text::find_sub;
use crate::text::lemma_find_sub_unique;
use crate::text::starts_with;
use crate::text::str_chars;
use crate::text::trim_chars;
use crate::text::trim_spec;

/// How a text splits into body and metadata: a text opening with `---`
/// and holding a closing `\n---` yields the trimmed span between the two
/// markers as metadata; the body resumes after the closing marker and its
/// line ending. Any other text is all body with empty metadata.
pub open spec fn spec_split_frontmatter(t: Seq<char>) -> (Seq<char>, Seq<char>) {
    if starts_with(t, "---"@) {
        let e = find_sub(t.skip(3), "\n---"@);
        if e < t.skip(3).len() {
            let me = e + 3;
            let meta = trim_spec(t.subrange(3, me));
            let after = t.skip(me);
            let cs = if starts_with(after, "\n---\r\n"@) {
                me + 5
            } else if starts_with(after, "\n---\n"@) {
                me + 5
            } else {
                me + 4
            };
            if cs < t.len() {
                (t.skip(cs), meta)
            } else {
                (Seq::<char>::empty(), meta)
            }
        } else {
            (t, Seq::<char>::empty())
        }
    } else {
        (t, Seq::<char>::empty())
    }
}

/// Split a note into its body and its frontmatter metadata, as
/// `spec_split_frontmatter` describes.
pub fn split_frontmatter(text: &str) -> (r: (String, String))
    ensures
        r.0@ == spec_split_frontmatter(text@).0,
        r.1@ == spec_split_frontmatter(text@).1,
{
    let v = str_chars(text);
    if !chars_start_with(&v, "---") {
        return (String::from_str(text), String::new());
    }
    proof {
        reveal_strlit("---");
        reveal_strlit("\n---");
        assert("---"@.len() == 3);
        assert("\n---"@.len() == 4);
    }
    let n = v.len();
    let ghost rest = v@.skip(3);
    let mut i: usize = 3;
    let mut hit: bool = false;
    while i < n && !hit
        invariant
            3 <= i <= n,
            n == v@.len(),
            rest == v@.skip(3),
            v@ == text@,
            "\n---"@.len() == 4,
            hit ==> i < n && starts_with(v@.skip(i as int), "\n---"@),
            forall|j: int| 3 <= j < i ==> !starts_with(v@.skip(j), "\n---"@),
        decreases n - i + (if hit {
            0int
        } else {
            1int
        }),
    {
        if chars_match_at(&v, "\n---", i) {
            hit = true;
        } else {
            i = i + 1;
        }
    }
    if !hit {
        proof {
            assert forall|j: int| 0 <= j < rest.len() implies !starts_with(
                #[trigger] rest.skip(j),
                "\n---"@,
            ) by {
                assert(rest.skip(j) =~= v@.skip(j + 3));
            }
            lemma_find_sub_unique(rest, "\n---"@, rest.len() as int);
        }
        return (String::from_str(text), String::new());
    }
    proof {
        assert forall|j: int| 0 <= j < i - 3 implies !starts_with(
            #[trigger] rest.skip(j),
            "\n---"@,
        ) by {
            assert(rest.skip(j) =~= v@.skip(j + 3));
        }
        assert(rest.skip(i - 3 as int) =~= v@.skip(i as int));
        lemma_find_sub_unique(rest, "\n---"@, i - 3 as int);
        assert(find_sub(rest, "\n---"@) == i - 3);
        assert((i - 3) < rest.len());
    }
    let meta_chars = trim_chars(&copy_range(&v, 3, i));
    let meta = chars_to_string(&meta_chars);
    let crlf = chars_match_at(&v, "\n---\r\n", i);
    let lf = chars_match_at(&v, "\n---\n", i);
    proof {
        assert(starts_with(v@.skip(i as int), "\n---"@));
        assert(i + 4 <= n);
        assert(crlf ==> i + 5 <= n) by {
            if crlf {
                reveal_strlit("\n---\r\n");
                assert("\n---\r\n"@.len() == 6);
                assert(v@.skip(i as int).len() >= 6);
            }
        }
        assert(lf ==> i + 5 <= n) by {
            if lf {
                reveal_strlit("\n---\n");
                assert("\n---\n"@.len() == 5);
                assert(v@.skip(i as int).len() >= 5);
            }
        }
    }
    let cs: usize = if crlf {
        i + 5
    } else if lf {
        i + 5
    } else {
        i + 4
    };
    if cs < n {
        let body_chars = copy_range(&v, cs, n);
        proof {
            assert(body_chars@ =~= v@.skip(cs as int));
        }
        (chars_to_string(&body_chars), meta)
    } else {
        (String::new(), meta)
    }
}

} // verus!
