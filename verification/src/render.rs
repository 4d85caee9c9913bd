//! Event-to-HTML renderer. A highlight run is a sequence of events: plain
//! source runs by byte range, highlight starts carrying a capture index,
//! and highlight ends. The renderer escapes every text run and wraps runs
//! that fall under active captures in one `<span>` whose class list names
//! every active capture, outermost first, leaving out the default class.
//! Spans open and close within a single run, so no span ever stays open.
//! An end event with no highlight active, or a run that leaves the source,
//! is a protocol violation and fails the render.

use vstd::prelude::*;

verus! {

use vstd::string::StrSliceExecFns;
use vstd::string::StringExecFns;
use vstd::utf8::encode_utf8;
use crate::text::chars_to_string;
use crate::text::starts_with;
use crate::themes::Theme;
use crate::themes::default_class;
use crate::themes::spec_class_for_index;

/// One step of a highlight run.
#[derive(Debug, Clone, Copy, PartialEq, Eq, Structural)]
pub enum HlEvent {
    /// A run of source text, as a byte range.
    Source { start: usize, end: usize },
    /// A capture becomes active; `index` is its position in the theme's
    /// capture list.
    Start { index: usize },
    /// The innermost active capture ends.
    End,
}

/// Why a render fails.
#[derive(Debug, Clone, Copy, PartialEq, Eq, Structural)]
pub enum RenderError {
    /// An end event arrived with no highlight active.
    UnbalancedEnd,
    /// A source run lies outside the source text.
    SourceOutOfBounds,
}

/// The bytes that stand for one source byte in HTML text.
pub open spec fn escape_byte(b: u8) -> Seq<u8> {
    if b == 38 {  // &
        seq![38u8, 97u8, 109u8, 112u8, 59u8]  // &amp;
    } else if b == 60 {  // <
        seq![38u8, 108u8, 116u8, 59u8]  // &lt;
    } else if b == 62 {  // >
        seq![38u8, 103u8, 116u8, 59u8]  // &gt;
    } else if b == 34 {  // "
        seq![38u8, 113u8, 117u8, 111u8, 116u8, 59u8]  // &quot;
    } else if b == 39 {  // '
        seq![38u8, 35u8, 51u8, 57u8, 59u8]  // &#39;
    } else {
        seq![b]
    }
}

/// A byte sequence escaped for HTML text.
pub open spec fn escape_bytes(s: Seq<u8>) -> Seq<u8>
    decreases s.len(),
{
    if s.len() == 0 {
        Seq::empty()
    } else {
        escape_bytes(s.drop_last()) + escape_byte(s.last())
    }
}

/// The characters that stand for one character in HTML text.
pub open spec fn escape_char(c: char) -> Seq<char> {
    if c == '&' {
        seq!['&', 'a', 'm', 'p', ';']
    } else if c == '<' {
        seq!['&', 'l', 't', ';']
    } else if c == '>' {
        seq!['&', 'g', 't', ';']
    } else if c == '"' {
        seq!['&', 'q', 'u', 'o', 't', ';']
    } else if c == '\'' {
        seq!['&', '#', '3', '9', ';']
    } else {
        seq![c]
    }
}

/// A character sequence escaped for HTML text.
pub open spec fn escape_chars(s: Seq<char>) -> Seq<char>
    decreases s.len(),
{
    if s.len() == 0 {
        Seq::empty()
    } else {
        escape_chars(s.drop_last()) + escape_char(s.last())
    }
}

/// Escape HTML special characters: `&`, `<`, `>`, `"` and `'` become
/// entities; every other character is unchanged.
pub fn html_escape(s: &str) -> (r: String)
    ensures
        r@ == escape_chars(s@),
{
    let mut out: Vec<char> = Vec::new();
    let n: usize = s.unicode_len();
    let mut i: usize = 0;
    while i < n
        invariant
            n == s@.len(),
            i <= n,
            out@ == escape_chars(s@.subrange(0, i as int)),
        decreases n - i,
    {
        let c = s.get_char(i);
        let ghost pre = out@;
        if c == '&' {
            out.push('&');
            out.push('a');
            out.push('m');
            out.push('p');
            out.push(';');
        } else if c == '<' {
            out.push('&');
            out.push('l');
            out.push('t');
            out.push(';');
        } else if c == '>' {
            out.push('&');
            out.push('g');
            out.push('t');
            out.push(';');
        } else if c == '"' {
            out.push('&');
            out.push('q');
            out.push('u');
            out.push('o');
            out.push('t');
            out.push(';');
        } else if c == '\'' {
            out.push('&');
            out.push('#');
            out.push('3');
            out.push('9');
            out.push(';');
        } else {
            out.push(c);
        }
        proof {
            let prefix = s@.subrange(0, i + 1 as int);
            assert(prefix.drop_last() =~= s@.subrange(0, i as int));
            assert(prefix.last() == s@[i as int]);
            assert(out@ =~= pre + escape_char(s@[i as int]));
        }
        i = i + 1;
    }
    proof {
        assert(s@.subrange(0, n as int) =~= s@);
    }
    chars_to_string(&out)
}

/// Append the escape of one byte.
fn push_escaped_byte(out: &mut Vec<u8>, b: u8)
    ensures
        final(out)@ == old(out)@ + escape_byte(b),
{
    let ghost pre = out@;
    if b == 38 {
        out.push(38);
        out.push(97);
        out.push(109);
        out.push(112);
        out.push(59);
    } else if b == 60 {
        out.push(38);
        out.push(108);
        out.push(116);
        out.push(59);
    } else if b == 62 {
        out.push(38);
        out.push(103);
        out.push(116);
        out.push(59);
    } else if b == 34 {
        out.push(38);
        out.push(113);
        out.push(117);
        out.push(111);
        out.push(116);
        out.push(59);
    } else if b == 39 {
        out.push(38);
        out.push(35);
        out.push(51);
        out.push(57);
        out.push(59);
    } else {
        out.push(b);
    }
    proof {
        assert(out@ =~= pre + escape_byte(b));
    }
}

/// Append the escape of a byte range of `src`.
fn push_escaped_range(out: &mut Vec<u8>, src: &Vec<u8>, a: usize, b: usize)
    requires
        a <= b <= src@.len(),
    ensures
        final(out)@ == old(out)@ + escape_bytes(src@.subrange(a as int, b as int)),
{
    let mut i: usize = a;
    proof {
        assert(src@.subrange(a as int, a as int) =~= Seq::<u8>::empty());
        assert(out@ =~= old(out)@ + escape_bytes(src@.subrange(a as int, a as int)));
    }
    while i < b
        invariant
            a <= i <= b <= src@.len(),
            out@ == old(out)@ + escape_bytes(src@.subrange(a as int, i as int)),
        decreases b - i,
    {
        push_escaped_byte(out, src[i]);
        proof {
            let prefix = src@.subrange(a as int, i + 1 as int);
            assert(prefix.drop_last() =~= src@.subrange(a as int, i as int));
            assert(prefix.last() == src@[i as int]);
        }
        i = i + 1;
    }
}

/// The class names of the active captures, outermost first, without the
/// default class.
pub open spec fn classes_of(stack: Seq<usize>) -> Seq<Seq<char>>
    decreases stack.len(),
{
    if stack.len() == 0 {
        Seq::empty()
    } else {
        classes_of(stack.drop_last()) + (if spec_class_for_index(stack.last() as int)
            != default_class() {
            seq![spec_class_for_index(stack.last() as int)]
        } else {
            Seq::<Seq<char>>::empty()
        })
    }
}

/// The class names joined with single spaces.
pub open spec fn join_classes(cs: Seq<Seq<char>>) -> Seq<char>
    decreases cs.len(),
{
    if cs.len() == 0 {
        Seq::empty()
    } else if cs.len() == 1 {
        cs[0]
    } else {
        join_classes(cs.drop_last()) + seq![' '] + cs.last()
    }
}

/// The opening tag of a span with the given class list.
pub open spec fn span_open_of(cs: Seq<Seq<char>>) -> Seq<u8> {
    encode_utf8("<span class=\""@) + encode_utf8(join_classes(cs)) + encode_utf8("\">"@)
}

/// The closing span tag.
pub open spec fn span_close() -> Seq<u8> {
    encode_utf8("</span>"@)
}

/// One piece of emitted output: a plain escaped text run, or one complete
/// span-wrapped escaped run.
pub ghost enum RChunk {
    Text(Seq<u8>),
    Wrapped(Seq<Seq<char>>, Seq<u8>),
}

/// The bytes a chunk stands for.
pub open spec fn chunk_bytes(c: RChunk) -> Seq<u8> {
    match c {
        RChunk::Text(b) => b,
        RChunk::Wrapped(cs, body) => span_open_of(cs) + body + span_close(),
    }
}

/// The bytes of a chunk list.
pub open spec fn flat_chunks(cs: Seq<RChunk>) -> Seq<u8>
    decreases cs.len(),
{
    if cs.len() == 0 {
        Seq::empty()
    } else {
        flat_chunks(cs.drop_last()) + chunk_bytes(cs.last())
    }
}

/// The renderer's abstract state: the chunks emitted so far, the stack of
/// active capture indices (innermost last), and the cursor past the last
/// emitted source byte.
pub ghost struct RState {
    pub chunks: Seq<RChunk>,
    pub stack: Seq<usize>,
    pub cur: int,
}

/// The state before any event.
pub open spec fn init_state() -> RState {
    RState { chunks: Seq::empty(), stack: Seq::empty(), cur: 0 }
}

/// The chunks a source run emits: first the escaped gap between the cursor
/// and the run, if the run starts past the cursor, then the escaped run,
/// wrapped when captures with classes are active.
pub open spec fn source_chunks(src: Seq<u8>, st: RState, start: int, end: int) -> Seq<RChunk> {
    let gap: Seq<RChunk> = if start > st.cur {
        seq![RChunk::Text(escape_bytes(src.subrange(st.cur, start)))]
    } else {
        Seq::empty()
    };
    let run: Seq<RChunk> = if start < end {
        let body = escape_bytes(src.subrange(start, end));
        let cs = classes_of(st.stack);
        if st.stack.len() > 0 && cs.len() > 0 {
            seq![RChunk::Wrapped(cs, body)]
        } else {
            seq![RChunk::Text(body)]
        }
    } else {
        Seq::empty()
    };
    gap + run
}

/// One event applied to a renderer state.
pub open spec fn spec_step(src: Seq<u8>, st: RState, ev: HlEvent) -> Result<RState, RenderError> {
    match ev {
        HlEvent::Source { start, end } => {
            if start > end || end > src.len() {
                Err(RenderError::SourceOutOfBounds)
            } else {
                Ok(
                    RState {
                        chunks: st.chunks + source_chunks(src, st, start as int, end as int),
                        stack: st.stack,
                        cur: end as int,
                    },
                )
            }
        },
        HlEvent::Start { index } => {
            Ok(RState { chunks: st.chunks, stack: st.stack.push(index), cur: st.cur })
        },
        HlEvent::End => {
            if st.stack.len() == 0 {
                Err(RenderError::UnbalancedEnd)
            } else {
                Ok(RState { chunks: st.chunks, stack: st.stack.drop_last(), cur: st.cur })
            }
        },
    }
}

/// A whole event sequence applied to a renderer state.
pub open spec fn spec_run(src: Seq<u8>, st: RState, evs: Seq<HlEvent>) -> Result<
    RState,
    RenderError,
>
    decreases evs.len(),
{
    if evs.len() == 0 {
        Ok(st)
    } else {
        match spec_step(src, st, evs[0]) {
            Err(e) => Err(e),
            Ok(st2) => spec_run(src, st2, evs.drop_first()),
        }
    }
}

/// Running one more event runs the prefix, then steps.
pub proof fn lemma_run_snoc(src: Seq<u8>, st: RState, evs: Seq<HlEvent>, ev: HlEvent)
    ensures
        spec_run(src, st, evs.push(ev)) == (match spec_run(src, st, evs) {
            Err(e) => Err::<RState, RenderError>(e),
            Ok(m) => spec_step(src, m, ev),
        }),
    decreases evs.len(),
{
    if evs.len() == 0 {
        assert(evs.push(ev)[0] == ev);
        assert(evs.push(ev).drop_first() =~= Seq::<HlEvent>::empty());
        match spec_step(src, st, ev) {
            Err(e) => {},
            Ok(st2) => {
                assert(spec_run(src, st2, Seq::<HlEvent>::empty()) == Ok::<
                    RState,
                    RenderError,
                >(st2));
            },
        }
    } else {
        assert(evs.push(ev)[0] == evs[0]);
        assert(evs.push(ev).drop_first() =~= evs.drop_first().push(ev));
        match spec_step(src, st, evs[0]) {
            Err(e) => {},
            Ok(st2) => {
                lemma_run_snoc(src, st2, evs.drop_first(), ev);
            },
        }
    }
}

/// What a full render of `evs` over `src` produces: the emitted chunks
/// flattened, then the escaped tail after the final cursor; or the first
/// protocol violation.
pub open spec fn spec_render(src: Seq<u8>, evs: Seq<HlEvent>) -> Result<Seq<u8>, RenderError> {
    match spec_run(src, init_state(), evs) {
        Err(e) => Err(e),
        Ok(st) => Ok(
            flat_chunks(st.chunks) + (if st.cur < src.len() {
                escape_bytes(src.subrange(st.cur, src.len() as int))
            } else {
                Seq::<u8>::empty()
            }),
        ),
    }
}

/// Concatenation maps through UTF-8 encoding.
pub proof fn lemma_encode_concat(a: Seq<char>, b: Seq<char>)
    ensures
        encode_utf8(a + b) == encode_utf8(a) + encode_utf8(b),
    decreases a.len(),
{
    if a.len() == 0 {
        assert(a + b =~= b);
        assert(encode_utf8(a) + encode_utf8(b) =~= encode_utf8(b));
    } else {
        assert((a + b)[0] == a[0]);
        assert((a + b).drop_first() =~= a.drop_first() + b);
        lemma_encode_concat(a.drop_first(), b);
        assert(encode_utf8(a + b) =~= encode_utf8(a) + encode_utf8(b));
    }
}

/// A failed prefix decides the whole run.
pub proof fn lemma_run_prefix_err(src: Seq<u8>, st: RState, evs: Seq<HlEvent>, k: int)
    requires
        0 <= k <= evs.len(),
        spec_run(src, st, evs.subrange(0, k)) is Err,
    ensures
        spec_run(src, st, evs) == spec_run(src, st, evs.subrange(0, k)),
    decreases evs.len(),
{
    assert(k != 0) by {
        if k == 0 {
            assert(evs.subrange(0, 0) =~= Seq::<HlEvent>::empty());
        }
    }
    assert(evs.subrange(0, k)[0] == evs[0]);
    match spec_step(src, st, evs[0]) {
        Err(e) => {},
        Ok(st2) => {
            assert(evs.subrange(0, k).drop_first() =~= evs.drop_first().subrange(0, k - 1));
            lemma_run_prefix_err(src, st2, evs.drop_first(), k - 1);
        },
    }
}

/// Whether a class name is the default fallback class.
fn is_default_class(cls: &String) -> (r: bool)
    ensures
        r == (cls@ == default_class()),
{
    let d = String::from_str("ts-default");
    *cls == d
}

/// HTML renderer for highlighted code: a single-use accumulator fed one
/// event at a time.
pub struct HtmlRenderer {
    /// The source text being rendered, as UTF-8 bytes.
    pub source: Vec<u8>,
    /// The theme the render was requested under.
    pub theme: Theme,
    /// The HTML accumulated so far.
    pub html: Vec<u8>,
    /// The active capture indices, innermost last.
    pub highlight_stack: Vec<usize>,
    /// One past the last source byte already emitted.
    pub current_source_start: usize,
    /// The emitted output as chunks, for reasoning only.
    pub chunks: Ghost<Seq<RChunk>>,
}

impl HtmlRenderer {
    /// The renderer's abstract state.
    pub open spec fn state(self) -> RState {
        RState {
            chunks: self.chunks@,
            stack: self.highlight_stack@,
            cur: self.current_source_start as int,
        }
    }

    /// The cursor stays inside the source and the accumulated HTML is
    /// exactly the emitted chunks.
    pub open spec fn wf(self) -> bool {
        &&& self.current_source_start <= self.source@.len()
        &&& self.html@ == flat_chunks(self.chunks@)
    }

    /// A fresh renderer over `source`.
    pub fn new(source: Vec<u8>, theme: Theme) -> (r: Self)
        ensures
            r.wf(),
            r.state() == init_state(),
            r.source@ == source@,
            r.theme == theme,
    {
        let r = HtmlRenderer {
            source,
            theme,
            html: Vec::new(),
            highlight_stack: Vec::new(),
            current_source_start: 0,
            chunks: Ghost(Seq::empty()),
        };
        proof {
            assert(r.state() =~~= init_state());
            assert(flat_chunks(Seq::<RChunk>::empty()) =~= Seq::<u8>::empty());
        }
        r
    }

    /// Emit a source run: flush the gap before it as plain escaped text,
    /// then the run itself, wrapped if captures with classes are active.
    /// A run outside the source is refused and changes nothing.
    #[verifier::rlimit(60)]
    pub fn push_source(&mut self, start: usize, end: usize) -> (r: bool)
        requires
            old(self).wf(),
        ensures
            final(self).wf(),
            final(self).source@ == old(self).source@,
            final(self).theme == old(self).theme,
            match spec_step(
                old(self).source@,
                old(self).state(),
                HlEvent::Source { start, end },
            ) {
                Ok(st) => r == true && final(self).state() == st,
                Err(_) => r == false && *final(self) == *old(self),
            },
    {
        let ghost srcv = self.source@;
        let ghost st0 = self.state();
        if start > end || end > self.source.len() {
            return false;
        }
        let ghost emitted = source_chunks(srcv, st0, start as int, end as int);
        let ghost gap_chunks: Seq<RChunk> = if start > st0.cur {
            seq![RChunk::Text(escape_bytes(srcv.subrange(st0.cur, start as int)))]
        } else {
            Seq::empty()
        };
        if start > self.current_source_start {
            let a = self.current_source_start;
            push_escaped_range(&mut self.html, &self.source, a, start);
            proof {
                let c = RChunk::Text(escape_bytes(srcv.subrange(a as int, start as int)));
                let cs2 = self.chunks@.push(c);
                assert(cs2.drop_last() =~= self.chunks@);
                assert(flat_chunks(cs2) == flat_chunks(self.chunks@) + chunk_bytes(c));
            }
            self.chunks = Ghost(
                self.chunks@.push(
                    RChunk::Text(escape_bytes(srcv.subrange(a as int, start as int))),
                ),
            );
        }
        proof {
            assert(self.chunks@ =~= st0.chunks + gap_chunks);
            assert(self.html@ == flat_chunks(self.chunks@));
        }
        if start < end {
            let ghost body = escape_bytes(srcv.subrange(start as int, end as int));
            let mut classes: Vec<String> = Vec::new();
            proof {
                assert(self.highlight_stack@.subrange(0, 0) =~= Seq::<usize>::empty());
                assert(classes.deep_view() =~~= classes_of(self.highlight_stack@.subrange(0, 0)));
            }
            let mut k: usize = 0;
            while k < self.highlight_stack.len()
                invariant
                    k <= self.highlight_stack@.len(),
                    classes.deep_view() == classes_of(
                        self.highlight_stack@.subrange(0, k as int),
                    ),
                decreases self.highlight_stack@.len() - k,
            {
                let idx = self.highlight_stack[k];
                let cls = self.theme.css_class_for_index(idx);
                let ghost cv = cls@;
                let ghost prefix = self.highlight_stack@.subrange(0, k as int);
                let ghost prefix2 = self.highlight_stack@.subrange(0, k + 1 as int);
                proof {
                    assert(prefix2.drop_last() =~= prefix);
                    assert(prefix2.last() == self.highlight_stack@[k as int]);
                }
                if !is_default_class(&cls) {
                    let ghost preo = classes.deep_view();
                    classes.push(cls);
                    proof {
                        assert(classes.deep_view() =~~= preo.push(cv));
                        assert(classes.deep_view() =~~= classes_of(prefix2));
                    }
                } else {
                    proof {
                        assert(classes.deep_view() =~~= classes_of(prefix2));
                    }
                }
                k = k + 1;
            }
            proof {
                assert(self.highlight_stack@.subrange(0, self.highlight_stack@.len() as int)
                    =~= self.highlight_stack@);
            }
            let ghost cs = classes_of(self.highlight_stack@);
            if self.highlight_stack.len() > 0 && classes.len() > 0 {
                let ghost base = self.html@;
                self.html.extend_from_slice("<span class=\"".as_bytes());
                let mut k2: usize = 0;
                proof {
                    assert(cs.subrange(0, 0) =~= Seq::<Seq<char>>::empty());
                    assert(encode_utf8(join_classes(cs.subrange(0, 0))) =~= Seq::<u8>::empty());
                    assert(self.html@ =~= base + encode_utf8("<span class=\""@) + encode_utf8(
                        join_classes(cs.subrange(0, 0)),
                    ));
                }
                while k2 < classes.len()
                    invariant
                        k2 <= classes@.len(),
                        classes.deep_view() == cs,
                        cs.len() == classes@.len(),
                        self.source@ == srcv,
                        self.theme == old(self).theme,
                        self.chunks@ == st0.chunks + gap_chunks,
                        self.highlight_stack@ == st0.stack,
                        self.current_source_start as int == st0.cur,
                        start <= end <= srcv.len(),
                        base == flat_chunks(self.chunks@),
                        self.html@ == base + encode_utf8("<span class=\""@) + encode_utf8(
                            join_classes(cs.subrange(0, k2 as int)),
                        ),
                    decreases classes@.len() - k2,
                {
                    let ghost prefix = cs.subrange(0, k2 as int);
                    let ghost prefix2 = cs.subrange(0, k2 + 1 as int);
                    proof {
                        assert(prefix2.drop_last() =~= prefix);
                        assert(prefix2.last() == cs[k2 as int]);
                        assert(cs[k2 as int] == classes@[k2 as int].deep_view());
                        assert(classes@[k2 as int].deep_view() =~= classes@[k2 as int]@);
                    }
                    if k2 > 0 {
                        self.html.extend_from_slice(" ".as_bytes());
                        self.html.extend_from_slice(classes[k2].as_str().as_bytes());
                        proof {
                            assert(join_classes(prefix2) =~= join_classes(prefix) + seq![' ']
                                + cs[k2 as int]);
                            lemma_encode_concat(join_classes(prefix), seq![' ']);
                            lemma_encode_concat(join_classes(prefix) + seq![' '], cs[k2 as int]);
                            assert(encode_utf8(seq![' ']) =~= encode_utf8(" "@)) by {
                                reveal_strlit(" ");
                                assert(" "@ =~= seq![' ']);
                            }
                            assert(self.html@ =~= base + encode_utf8("<span class=\""@)
                                + encode_utf8(join_classes(prefix2)));
                        }
                    } else {
                        self.html.extend_from_slice(classes[k2].as_str().as_bytes());
                        proof {
                            assert(join_classes(prefix2) =~= cs[k2 as int]);
                            assert(self.html@ =~= base + encode_utf8("<span class=\""@)
                                + encode_utf8(join_classes(prefix2)));
                        }
                    }
                    k2 = k2 + 1;
                }
                proof {
                    assert(cs.subrange(0, cs.len() as int) =~= cs);
                }
                self.html.extend_from_slice("\">".as_bytes());
                let a2 = start;
                push_escaped_range(&mut self.html, &self.source, a2, end);
                self.html.extend_from_slice("</span>".as_bytes());
                proof {
                    let c = RChunk::Wrapped(cs, body);
                    let cs2 = self.chunks@.push(c);
                    assert(cs2.drop_last() =~= self.chunks@);
                    assert(flat_chunks(cs2) == flat_chunks(self.chunks@) + chunk_bytes(c));
                    assert(self.html@ =~= flat_chunks(self.chunks@) + chunk_bytes(c));
                }
                self.chunks = Ghost(self.chunks@.push(RChunk::Wrapped(cs, body)));
            } else {
                push_escaped_range(&mut self.html, &self.source, start, end);
                proof {
                    let c = RChunk::Text(body);
                    let cs2 = self.chunks@.push(c);
                    assert(cs2.drop_last() =~= self.chunks@);
                    assert(flat_chunks(cs2) == flat_chunks(self.chunks@) + chunk_bytes(c));
                }
                self.chunks = Ghost(self.chunks@.push(RChunk::Text(body)));
            }
            proof {
                assert(self.chunks@ =~= st0.chunks + emitted);
            }
        } else {
            proof {
                assert(self.chunks@ =~= st0.chunks + emitted);
            }
        }
        self.current_source_start = end;
        proof {
            assert(self.html@ == flat_chunks(self.chunks@));
            assert(final(self).state() =~~= (match spec_step(
                srcv,
                st0,
                HlEvent::Source { start, end },
            ) {
                Ok(st) => st,
                Err(_) => final(self).state(),
            }));
        }
        true
    }

    /// A capture becomes active.
    pub fn push_highlight_start(&mut self, highlight_idx: usize)
        requires
            old(self).wf(),
        ensures
            final(self).wf(),
            final(self).source@ == old(self).source@,
            final(self).theme == old(self).theme,
            Ok::<RState, RenderError>(final(self).state()) == spec_step(
                old(self).source@,
                old(self).state(),
                HlEvent::Start { index: highlight_idx },
            ),
    {
        self.highlight_stack.push(highlight_idx);
        proof {
            assert(final(self).state() =~~= (RState {
                chunks: old(self).state().chunks,
                stack: old(self).state().stack.push(highlight_idx),
                cur: old(self).state().cur,
            }));
        }
    }

    /// The innermost capture ends. An end with no capture active is a
    /// protocol violation: it is refused and changes nothing.
    pub fn push_highlight_end(&mut self) -> (r: bool)
        requires
            old(self).wf(),
        ensures
            final(self).wf(),
            final(self).source@ == old(self).source@,
            final(self).theme == old(self).theme,
            match spec_step(old(self).source@, old(self).state(), HlEvent::End) {
                Ok(st) => r == true && final(self).state() == st,
                Err(_) => r == false && *final(self) == *old(self),
            },
    {
        if self.highlight_stack.len() == 0 {
            return false;
        }
        self.highlight_stack.pop();
        proof {
            assert(old(self).highlight_stack@.drop_last() =~= final(self).highlight_stack@);
            assert(final(self).state() =~~= (RState {
                chunks: old(self).state().chunks,
                stack: old(self).state().stack.drop_last(),
                cur: old(self).state().cur,
            }));
        }
        true
    }

    /// Flush the source tail after the last emitted run and hand the HTML
    /// out. The renderer is consumed: it cannot be fed again.
    pub fn finish(self) -> (r: Vec<u8>)
        requires
            self.wf(),
        ensures
            r@ == flat_chunks(self.state().chunks) + (if self.state().cur < self.source@.len() {
                escape_bytes(self.source@.subrange(self.state().cur, self.source@.len() as int))
            } else {
                Seq::<u8>::empty()
            }),
    {
        let mut html = self.html;
        if self.current_source_start < self.source.len() {
            push_escaped_range(&mut html, &self.source, self.current_source_start, self.source.len());
        } else {
            proof {
                assert(html@ + Seq::<u8>::empty() =~= html@);
            }
        }
        html
    }
}

/// Render a whole event sequence over `source` under `theme`: the HTML of
/// `spec_render`, or the first protocol violation.
pub fn render_events(source: &Vec<u8>, events: &Vec<HlEvent>, theme: Theme) -> (r: Result<
    Vec<u8>,
    RenderError,
>)
    ensures
        match spec_render(source@, events@) {
            Ok(b) => r matches Ok(v) && v@ == b,
            Err(e) => r == Err::<Vec<u8>, RenderError>(e),
        },
{
    let src2 = source.clone();
    proof {
        assert(src2@ =~= source@);
    }
    let mut rend = HtmlRenderer::new(src2, theme);
    proof {
        assert(events@.subrange(0, 0) =~= Seq::<HlEvent>::empty());
    }
    let mut i: usize = 0;
    while i < events.len()
        invariant
            i <= events@.len(),
            rend.wf(),
            rend.source@ == source@,
            rend.theme == theme,
            spec_run(source@, init_state(), events@.subrange(0, i as int)) == Ok::<
                RState,
                RenderError,
            >(rend.state()),
        decreases events@.len() - i,
    {
        let ghost prefix = events@.subrange(0, i as int);
        let ghost prefix2 = events@.subrange(0, i + 1 as int);
        proof {
            assert(prefix.push(events@[i as int]) =~= prefix2);
            lemma_run_snoc(source@, init_state(), prefix, events@[i as int]);
        }
        let ev = events[i];
        let ok: bool = match ev {
            HlEvent::Source { start, end } => rend.push_source(start, end),
            HlEvent::Start { index } => {
                rend.push_highlight_start(index);
                true
            },
            HlEvent::End => rend.push_highlight_end(),
        };
        if !ok {
            proof {
                lemma_run_prefix_err(source@, init_state(), events@, i + 1);
            }
            match ev {
                HlEvent::Source { start, end } => {
                    return Err(RenderError::SourceOutOfBounds);
                },
                HlEvent::Start { index } => {
                    return Err(RenderError::UnbalancedEnd);
                },
                HlEvent::End => {
                    return Err(RenderError::UnbalancedEnd);
                },
            }
        }
        i = i + 1;
    }
    proof {
        assert(events@.subrange(0, events@.len() as int) =~= events@);
    }
    Ok(rend.finish())
}

/// Greedy inverse of the HTML escape: an entity at the front decodes to
/// its character; any other character stands for itself.
pub open spec fn unescape_chars(s: Seq<char>) -> Seq<char>
    decreases s.len(),
{
    if s.len() == 0 {
        Seq::empty()
    } else if starts_with(s, seq!['&', 'a', 'm', 'p', ';']) {
        seq!['&'] + unescape_chars(s.skip(5))
    } else if starts_with(s, seq!['&', 'l', 't', ';']) {
        seq!['<'] + unescape_chars(s.skip(4))
    } else if starts_with(s, seq!['&', 'g', 't', ';']) {
        seq!['>'] + unescape_chars(s.skip(4))
    } else if starts_with(s, seq!['&', 'q', 'u', 'o', 't', ';']) {
        seq!['"'] + unescape_chars(s.skip(6))
    } else if starts_with(s, seq!['&', '#', '3', '9', ';']) {
        seq!['\''] + unescape_chars(s.skip(5))
    } else {
        seq![s[0]] + unescape_chars(s.drop_first())
    }
}

/// The escape peels from the front as well as from the back.
pub proof fn lemma_escape_cons(s: Seq<char>)
    requires
        s.len() > 0,
    ensures
        escape_chars(s) == escape_char(s[0]) + escape_chars(s.drop_first()),
    decreases s.len(),
{
    if s.len() == 1 {
        assert(s.drop_last() =~= Seq::<char>::empty());
        assert(s.drop_first() =~= Seq::<char>::empty());
        assert(escape_char(s[0]) + escape_chars(s.drop_first()) =~= escape_char(s.last()));
        assert(escape_chars(s) =~= escape_char(s.last()));
    } else {
        lemma_escape_cons(s.drop_last());
        assert(s.drop_last()[0] == s[0]);
        assert(s.drop_last().drop_first() =~= s.drop_first().drop_last());
        assert(s.drop_first().last() == s.last());
        assert(escape_chars(s) == escape_chars(s.drop_last()) + escape_char(s.last()));
        assert(escape_chars(s.drop_first()) == escape_chars(s.drop_first().drop_last())
            + escape_char(s.drop_first().last()));
        assert(escape_chars(s) =~= escape_char(s[0]) + escape_chars(s.drop_first()));
    }
}

/// Escaping then unescaping gives back the original text, for every text:
/// the escape loses nothing.
pub proof fn lemma_escape_round_trip(s: Seq<char>)
    ensures
        unescape_chars(escape_chars(s)) == s,
    decreases s.len(),
{
    if s.len() == 0 {
        assert(escape_chars(s) =~= Seq::<char>::empty());
    } else {
        lemma_escape_cons(s);
        lemma_escape_round_trip(s.drop_first());
        let c = s[0];
        let rest = escape_chars(s.drop_first());
        let e = escape_chars(s);
        if c == '&' {
            assert(e =~= seq!['&', 'a', 'm', 'p', ';'] + rest);
            assert(e.subrange(0, 5) =~= seq!['&', 'a', 'm', 'p', ';']);
            assert(e.skip(5) =~= rest);
            assert(seq!['&'] + s.drop_first() =~= s);
        } else if c == '<' {
            assert(e =~= seq!['&', 'l', 't', ';'] + rest);
            assert(!starts_with(e, seq!['&', 'a', 'm', 'p', ';'])) by {
                if starts_with(e, seq!['&', 'a', 'm', 'p', ';']) {
                    assert(e.subrange(0, 5)[1] == e[1]);
                }
            }
            assert(e.subrange(0, 4) =~= seq!['&', 'l', 't', ';']);
            assert(e.skip(4) =~= rest);
            assert(seq!['<'] + s.drop_first() =~= s);
        } else if c == '>' {
            assert(e =~= seq!['&', 'g', 't', ';'] + rest);
            assert(!starts_with(e, seq!['&', 'a', 'm', 'p', ';'])) by {
                if starts_with(e, seq!['&', 'a', 'm', 'p', ';']) {
                    assert(e.subrange(0, 5)[1] == e[1]);
                }
            }
            assert(!starts_with(e, seq!['&', 'l', 't', ';'])) by {
                if starts_with(e, seq!['&', 'l', 't', ';']) {
                    assert(e.subrange(0, 4)[1] == e[1]);
                }
            }
            assert(e.subrange(0, 4) =~= seq!['&', 'g', 't', ';']);
            assert(e.skip(4) =~= rest);
            assert(seq!['>'] + s.drop_first() =~= s);
        } else if c == '"' {
            assert(e =~= seq!['&', 'q', 'u', 'o', 't', ';'] + rest);
            assert(!starts_with(e, seq!['&', 'a', 'm', 'p', ';'])) by {
                if starts_with(e, seq!['&', 'a', 'm', 'p', ';']) {
                    assert(e.subrange(0, 5)[1] == e[1]);
                }
            }
            assert(!starts_with(e, seq!['&', 'l', 't', ';'])) by {
                if starts_with(e, seq!['&', 'l', 't', ';']) {
                    assert(e.subrange(0, 4)[1] == e[1]);
                }
            }
            assert(!starts_with(e, seq!['&', 'g', 't', ';'])) by {
                if starts_with(e, seq!['&', 'g', 't', ';']) {
                    assert(e.subrange(0, 4)[1] == e[1]);
                }
            }
            assert(e.subrange(0, 6) =~= seq!['&', 'q', 'u', 'o', 't', ';']);
            assert(e.skip(6) =~= rest);
            assert(seq!['"'] + s.drop_first() =~= s);
        } else if c == '\'' {
            assert(e =~= seq!['&', '#', '3', '9', ';'] + rest);
            assert(!starts_with(e, seq!['&', 'a', 'm', 'p', ';'])) by {
                if starts_with(e, seq!['&', 'a', 'm', 'p', ';']) {
                    assert(e.subrange(0, 5)[1] == e[1]);
                }
            }
            assert(!starts_with(e, seq!['&', 'l', 't', ';'])) by {
                if starts_with(e, seq!['&', 'l', 't', ';']) {
                    assert(e.subrange(0, 4)[1] == e[1]);
                }
            }
            assert(!starts_with(e, seq!['&', 'g', 't', ';'])) by {
                if starts_with(e, seq!['&', 'g', 't', ';']) {
                    assert(e.subrange(0, 4)[1] == e[1]);
                }
            }
            assert(!starts_with(e, seq!['&', 'q', 'u', 'o', 't', ';'])) by {
                if starts_with(e, seq!['&', 'q', 'u', 'o', 't', ';']) {
                    assert(e.subrange(0, 6)[1] == e[1]);
                }
            }
            assert(e.subrange(0, 5) =~= seq!['&', '#', '3', '9', ';']);
            assert(e.skip(5) =~= rest);
            assert(seq!['\''] + s.drop_first() =~= s);
        } else {
            assert(e =~= seq![c] + rest);
            assert(e[0] == c);
            assert(!starts_with(e, seq!['&', 'a', 'm', 'p', ';'])) by {
                if starts_with(e, seq!['&', 'a', 'm', 'p', ';']) {
                    assert(e.subrange(0, 5)[0] == e[0]);
                }
            }
            assert(!starts_with(e, seq!['&', 'l', 't', ';'])) by {
                if starts_with(e, seq!['&', 'l', 't', ';']) {
                    assert(e.subrange(0, 4)[0] == e[0]);
                }
            }
            assert(!starts_with(e, seq!['&', 'g', 't', ';'])) by {
                if starts_with(e, seq!['&', 'g', 't', ';']) {
                    assert(e.subrange(0, 4)[0] == e[0]);
                }
            }
            assert(!starts_with(e, seq!['&', 'q', 'u', 'o', 't', ';'])) by {
                if starts_with(e, seq!['&', 'q', 'u', 'o', 't', ';']) {
                    assert(e.subrange(0, 6)[0] == e[0]);
                }
            }
            assert(!starts_with(e, seq!['&', '#', '3', '9', ';'])) by {
                if starts_with(e, seq!['&', '#', '3', '9', ';']) {
                    assert(e.subrange(0, 5)[0] == e[0]);
                }
            }
            assert(e.drop_first() =~= rest);
            assert(seq![c] + s.drop_first() =~= s);
        }
    }
}

/// The escape is injective: distinct texts never escape to the same HTML.
pub proof fn lemma_escape_injective(a: Seq<char>, b: Seq<char>)
    requires
        escape_chars(a) == escape_chars(b),
    ensures
        a == b,
{
    lemma_escape_round_trip(a);
    lemma_escape_round_trip(b);
}

/// A character outside the five escaped ones passes through unchanged.
pub proof fn lemma_escape_plain_char(c: char)
    requires
        c != '&' && c != '<' && c != '>' && c != '"' && c != '\'',
    ensures
        escape_char(c) == seq![c],
{
}

/// No `<` byte occurs in a sequence.
pub open spec fn no_lt(b: Seq<u8>) -> bool {
    forall|i: int| 0 <= i < b.len() ==> b[i] != 60
}

/// Escaped text never holds a `<` byte: the escape replaces it.
pub proof fn lemma_escape_no_lt(s: Seq<u8>)
    ensures
        no_lt(escape_bytes(s)),
    decreases s.len(),
{
    if s.len() > 0 {
        lemma_escape_no_lt(s.drop_last());
        assert(no_lt(escape_byte(s.last())));
    }
}

/// A chunk is balanced: plain text with no tag at all, or one complete
/// span whose body holds no tag either.
pub open spec fn chunk_wf(c: RChunk) -> bool {
    match c {
        RChunk::Text(b) => no_lt(b),
        RChunk::Wrapped(cs, body) => no_lt(body) && cs.len() > 0,
    }
}

/// Every chunk of the list is balanced.
pub open spec fn chunks_wf(cs: Seq<RChunk>) -> bool {
    forall|i: int| 0 <= i < cs.len() ==> chunk_wf(#[trigger] cs[i])
}

/// One step only appends balanced chunks.
pub proof fn lemma_step_preserves_wf(src: Seq<u8>, st: RState, ev: HlEvent)
    requires
        chunks_wf(st.chunks),
        spec_step(src, st, ev) is Ok,
    ensures
        chunks_wf(spec_step(src, st, ev)->Ok_0.chunks),
{
    match ev {
        HlEvent::Source { start, end } => {
            let emitted = source_chunks(src, st, start as int, end as int);
            assert forall|i: int| 0 <= i < emitted.len() implies chunk_wf(#[trigger] emitted[i]) by {
                if start > st.cur {
                    lemma_escape_no_lt(src.subrange(st.cur, start as int));
                }
                if start < end {
                    lemma_escape_no_lt(src.subrange(start as int, end as int));
                }
            }
            let after = spec_step(src, st, ev)->Ok_0.chunks;
            assert forall|i: int| 0 <= i < after.len() implies chunk_wf(#[trigger] after[i]) by {
                if i < st.chunks.len() {
                    assert(after[i] == st.chunks[i]);
                } else {
                    assert(after[i] == emitted[i - st.chunks.len()]);
                }
            }
        },
        HlEvent::Start { index } => {},
        HlEvent::End => {},
    }
}

/// A well-formed event stream never leaves a span open: after any run that
/// succeeds, every emitted chunk is balanced, so the output is plain
/// escaped text and complete spans, opened and closed within one chunk.
pub proof fn lemma_render_balanced(src: Seq<u8>, st: RState, evs: Seq<HlEvent>)
    requires
        chunks_wf(st.chunks),
        spec_run(src, st, evs) is Ok,
    ensures
        chunks_wf(spec_run(src, st, evs)->Ok_0.chunks),
    decreases evs.len(),
{
    if evs.len() > 0 {
        match spec_step(src, st, evs[0]) {
            Err(e) => {},
            Ok(st2) => {
                lemma_step_preserves_wf(src, st, evs[0]);
                lemma_render_balanced(src, st2, evs.drop_first());
            },
        }
    }
}

/// An end event with no highlight active is fatal: the whole render fails
/// with the unbalanced-end error, never a silent skip.
pub proof fn lemma_end_without_start_fails(src: Seq<u8>, evs: Seq<HlEvent>, i: int)
    requires
        0 <= i < evs.len(),
        spec_run(src, init_state(), evs.subrange(0, i)) matches Ok(st) && st.stack.len() == 0,
        evs[i] == HlEvent::End,
    ensures
        spec_render(src, evs) == Err::<Seq<u8>, RenderError>(RenderError::UnbalancedEnd),
{
    let prefix = evs.subrange(0, i);
    lemma_run_snoc(src, init_state(), prefix, evs[i]);
    assert(prefix.push(evs[i]) =~= evs.subrange(0, i + 1));
    lemma_run_prefix_err(src, init_state(), evs, i + 1);
}

} // verus!
