//! Markdown structure extraction: split a document into YAML frontmatter,
//! code blocks, inline code, links and plain text, so that only the text is
//! handed to translation and everything else is carried through verbatim.

use vstd::prelude::*;

use crate::text::chars_of;
use crate::text::chars_to_string;
use crate::text::find_from;
use crate::text::match_at;

verus! {

/// One structural piece of a document, as a half-open span of character
/// positions.
#[derive(Debug, Clone, Copy, PartialEq, Eq, Structural)]
pub enum MarkdownElement {
    /// Translatable prose.
    Text(usize, usize),
    /// A fenced code block, kept verbatim.
    CodeBlock(usize, usize),
    /// An inline code span, kept verbatim.
    InlineCode(usize, usize),
    /// A link; its text is translated, its target kept.
    Link(usize, usize),
    /// A YAML frontmatter block at the top of the document.
    YamlFrontmatter(usize, usize),
}

/// Start of an element's span.
pub open spec fn span_start(e: MarkdownElement) -> int {
    match e {
        MarkdownElement::Text(s, _) => s as int,
        MarkdownElement::CodeBlock(s, _) => s as int,
        MarkdownElement::InlineCode(s, _) => s as int,
        MarkdownElement::Link(s, _) => s as int,
        MarkdownElement::YamlFrontmatter(s, _) => s as int,
    }
}

/// End of an element's span.
pub open spec fn span_end(e: MarkdownElement) -> int {
    match e {
        MarkdownElement::Text(_, t) => t as int,
        MarkdownElement::CodeBlock(_, t) => t as int,
        MarkdownElement::InlineCode(_, t) => t as int,
        MarkdownElement::Link(_, t) => t as int,
        MarkdownElement::YamlFrontmatter(_, t) => t as int,
    }
}

/// The elements describe disjoint, ordered spans of a document of `n`
/// characters, each ending no later than `bound`.
pub open spec fn wf_elements(es: Seq<MarkdownElement>, bound: int, n: int) -> bool {
    &&& forall|i: int|
        0 <= i < es.len() ==> 0 <= span_start(#[trigger] es[i]) <= span_end(es[i]) <= n
    &&& forall|i: int|
        0 <= i < es.len() - 1 ==> span_end(#[trigger] es[i]) <= span_start(es[i + 1])
    &&& es.len() > 0 ==> span_end(es[es.len() - 1]) <= bound
}

/// Every span is non-empty: it covers at least one character.
pub open spec fn strict_spans(es: Seq<MarkdownElement>) -> bool {
    forall|i: int| 0 <= i < es.len() ==> span_start(#[trigger] es[i]) < span_end(es[i])
}

/// Each text segment is exactly the trimmed sub-span of the document it was
/// taken from: `spans` records, per segment, the half-open span the segment
/// equals; every such span is non-empty, in bounds, starts and ends with
/// non-whitespace, and the spans come in document order.
pub open spec fn segments_wf(segs: Seq<String>, spans: Seq<(int, int)>, content: Seq<char>) -> bool {
    &&& spans.len() == segs.len()
    &&& forall|i: int|
        0 <= i < spans.len() ==> {
            let span = #[trigger] spans[i];
            &&& 0 <= span.0 < span.1 <= content.len()
            &&& segs[i]@ == content.subrange(span.0, span.1)
            &&& !is_md_space(content[span.0])
            &&& !is_md_space(content[span.1 - 1])
        }
    &&& forall|i: int| 0 <= i < spans.len() - 1 ==> (#[trigger] spans[i]).1 <= spans[i + 1].0
}

proof fn lemma_segments_push(
    segs: Seq<String>,
    spans: Seq<(int, int)>,
    content: Seq<char>,
    s: String,
    lo: int,
    hi: int,
)
    requires
        segments_wf(segs, spans, content),
        0 <= lo < hi <= content.len(),
        s@ == content.subrange(lo, hi),
        !is_md_space(content[lo]),
        !is_md_space(content[hi - 1]),
        spans.len() > 0 ==> spans.last().1 <= lo,
    ensures
        segments_wf(segs.push(s), spans.push((lo, hi)), content),
{
    let spans2 = spans.push((lo, hi));
    assert forall|i: int| 0 <= i < spans2.len() - 1 implies (#[trigger] spans2[i]).1 <= spans2[i
        + 1].0 by {
        if i + 1 < spans.len() {
            assert(spans[i].1 <= spans[i + 1].0);
        } else {
            assert(spans2[i] == spans.last());
        }
    }
}

/// ASCII whitespace, as the extractor trims it.
pub open spec fn is_md_space(c: char) -> bool {
    c == ' ' || c == '\t' || c == '\n' || c == '\r'
}

/// Whether `c` is ASCII whitespace.
pub fn md_space(c: char) -> (r: bool)
    ensures
        r == is_md_space(c),
{
    c == ' ' || c == '\t' || c == '\n' || c == '\r'
}

/// The sub-span of `[start, end)` left when whitespace is trimmed from both
/// ends: everything outside it up to the original bounds is whitespace, and
/// a non-empty result starts and ends with non-whitespace.
fn trim_range(c: &Vec<char>, start: usize, end: usize) -> (r: (usize, usize))
    requires
        start <= end <= c@.len(),
    ensures
        start <= r.0 <= r.1 <= end,
        forall|k: int| start <= k < r.0 ==> is_md_space(c@[k]),
        forall|k: int| r.1 <= k < end ==> is_md_space(c@[k]),
        r.0 < r.1 ==> !is_md_space(c@[r.0 as int]) && !is_md_space(c@[r.1 - 1]),
{
    let mut lo: usize = start;
    while lo < end && md_space(c[lo])
        invariant
            start <= lo <= end <= c@.len(),
            forall|k: int| start <= k < lo ==> is_md_space(c@[k]),
        decreases end - lo,
    {
        lo = lo + 1;
    }
    if lo == end {
        return (lo, lo);
    }
    let mut hi: usize = end;
    while hi > lo && md_space(c[hi - 1])
        invariant
            lo <= hi <= end <= c@.len(),
            lo < end,
            !is_md_space(c@[lo as int]),
            forall|k: int| hi <= k < end ==> is_md_space(c@[k]),
        decreases hi,
    {
        hi = hi - 1;
    }
    (lo, hi)
}

/// Copy of the characters in `[start, end)`.
fn copy_range(c: &Vec<char>, start: usize, end: usize) -> (r: Vec<char>)
    requires
        start <= end <= c@.len(),
    ensures
        r@ == c@.subrange(start as int, end as int),
{
    let mut r: Vec<char> = Vec::new();
    let mut i: usize = start;
    while i < end
        invariant
            start <= i <= end <= c@.len(),
            r@ == c@.subrange(start as int, i as int),
        decreases end - i,
    {
        r.push(c[i]);
        assert(r@ =~= c@.subrange(start as int, i + 1 as int));
        i = i + 1;
    }
    r
}

/// Markdown extractor: walks a document once and records its structural
/// elements and the text segments worth translating.
pub struct MarkdownExtractor {
    /// The document, as characters.
    pub content: Vec<char>,
    /// The structural elements found, in document order.
    pub elements: Vec<MarkdownElement>,
    /// The trimmed text segments to translate, in document order.
    pub text_segments: Vec<String>,
    /// Ghost record of the sub-span of the document each text segment was
    /// trimmed from, in order.
    pub segment_spans: Ghost<Seq<(int, int)>>,
}

impl MarkdownExtractor {
    /// Wrap a document; nothing is extracted yet.
    pub fn new(content: &str) -> (r: Self)
        ensures
            r.content@ == content@,
            r.elements@.len() == 0,
            r.text_segments@.len() == 0,
            r.segment_spans@.len() == 0,
    {
        MarkdownExtractor {
            content: chars_of(content),
            elements: Vec::new(),
            text_segments: Vec::new(),
            segment_spans: Ghost(Seq::empty()),
        }
    }

    /// Walk the document and record its elements: an optional YAML
    /// frontmatter block first, then fenced code, inline code, links and
    /// text. The document itself is not changed; the recorded spans are
    /// non-empty, disjoint and in document order, and every recorded text
    /// segment is exactly a trimmed, non-empty sub-span of the document, in
    /// document order (`segment_spans` records which).
    #[verifier::rlimit(50)]
    pub fn extract(&mut self)
        ensures
            final(self).content == old(self).content,
            wf_elements(
                final(self).elements@,
                final(self).content@.len() as int,
                final(self).content@.len() as int,
            ),
            strict_spans(final(self).elements@),
            segments_wf(
                final(self).text_segments@,
                final(self).segment_spans@,
                final(self).content@,
            ),
            forall|i: int|
                0 <= i < final(self).text_segments@.len()
                    ==> (#[trigger] final(self).text_segments@[i])@.len() > 0,
    {
        let n: usize = self.content.len();
        self.elements = Vec::new();
        self.text_segments = Vec::new();
        proof {
            self.segment_spans@ = Seq::empty();
        }
        let mut pos: usize = 0;
        proof {
            reveal_strlit("\n---\n");
            reveal_strlit("```");
            reveal_strlit("`");
        }

        // YAML frontmatter: a leading "---" line closed by a "---" line.
        let close_fence = chars_of("\n---\n");
        if n >= 4 && self.content[0] == '-' && self.content[1] == '-' && self.content[2] == '-'
            && self.content[3] == '\n' {
            match find_from(&self.content, &close_fence, 0) {
                Some(end) => {
                    let ghost es0 = self.elements@;
                    let yaml_end = end + 5;
                    self.elements.push(MarkdownElement::YamlFrontmatter(0, yaml_end));
                    proof {
                        lemma_wf_push(
                            es0,
                            MarkdownElement::YamlFrontmatter(0, yaml_end),
                            0,
                            yaml_end as int,
                            n as int,
                        );
                    }
                    pos = yaml_end;
                },
                None => (),
            }
        }

        let code_fence = chars_of("```");
        let backtick = chars_of("`");
        while pos < n
            invariant
                n == self.content@.len(),
                pos <= n,
                self.content == old(self).content,
                wf_elements(self.elements@, pos as int, n as int),
                strict_spans(self.elements@),
                segments_wf(self.text_segments@, self.segment_spans@, self.content@),
                self.segment_spans@.len() > 0 ==> self.segment_spans@.last().1 <= pos,
                forall|i: int|
                    0 <= i < self.text_segments@.len()
                        ==> (#[trigger] self.text_segments@[i])@.len() > 0,
                code_fence@.len() == 3,
                backtick@.len() == 1,
            decreases n - pos,
        {
            let ghost es0 = self.elements@;
            let c = self.content[pos];
            // fenced code block
            if n >= 3 && pos < n - 2 && c == '`' && self.content[pos + 1] == '`'
                && self.content[pos + 2] == '`' {
                match find_from(&self.content, &code_fence, pos + 3) {
                    Some(close) => {
                        let end_pos = close + 3;
                        self.elements.push(MarkdownElement::CodeBlock(pos, end_pos));
                        proof {
                            lemma_wf_push(es0, MarkdownElement::CodeBlock(pos, end_pos), pos as int, end_pos as int, n as int);
                        }
                        pos = end_pos;
                        continue ;
                    },
                    None => (),
                }
            }
            // inline code
            if c == '`' {
                match find_from(&self.content, &backtick, pos + 1) {
                    Some(close) => {
                        let end_pos = close + 1;
                        self.elements.push(MarkdownElement::InlineCode(pos, end_pos));
                        proof {
                            lemma_wf_push(es0, MarkdownElement::InlineCode(pos, end_pos), pos as int, end_pos as int, n as int);
                        }
                        pos = end_pos;
                        continue ;
                    },
                    None => (),
                }
            }
            // link: [text](target)
            if c == '[' {
                let mut linked = false;
                let mut link_end: usize = 0;
                let mut bracket: usize = 0;
                match find_char(&self.content, ']', pos) {
                    Some(b) => {
                        let bracket_end = b + 1;
                        if bracket_end < n && self.content[bracket_end] == '(' {
                            match find_char(&self.content, ')', bracket_end) {
                                Some(u) => {
                                    linked = true;
                                    link_end = u + 1;
                                    bracket = b;
                                },
                                None => (),
                            }
                        }
                    },
                    None => (),
                }
                if linked {
                    self.elements.push(MarkdownElement::Link(pos, link_end));
                    proof {
                        lemma_wf_push(es0, MarkdownElement::Link(pos, link_end), pos as int, link_end as int, n as int);
                    }
                    // the link text, trimmed, is a translatable segment
                    if bracket > pos + 1 {
                        let (lo, hi) = trim_range(&self.content, pos + 1, bracket);
                        if lo < hi {
                            let seg = copy_range(&self.content, lo, hi);
                            let s = chars_to_string(&seg);
                            let ghost segs0 = self.text_segments@;
                            let ghost spans0 = self.segment_spans@;
                            let ghost sv = s;
                            self.text_segments.push(s);
                            proof {
                                self.segment_spans@ = self.segment_spans@.push(
                                    (lo as int, hi as int),
                                );
                                lemma_segments_push(
                                    segs0,
                                    spans0,
                                    self.content@,
                                    sv,
                                    lo as int,
                                    hi as int,
                                );
                            }
                        }
                    }
                    pos = link_end;
                    continue ;
                }
            }
            // plain text up to the next special character
            let mut text_end: usize = pos;
            let mut found = false;
            while text_end < n && !found
                invariant
                    n == self.content@.len(),
                    pos <= text_end <= n,
                decreases n - text_end + (if found { 0int } else { 1int }),
            {
                if self.content[text_end] == '`' || self.content[text_end] == '[' {
                    found = true;
                } else {
                    text_end = text_end + 1;
                }
            }
            if text_end > pos {
                let (lo, hi) = trim_range(&self.content, pos, text_end);
                if lo < hi {
                    self.elements.push(MarkdownElement::Text(pos, text_end));
                    proof {
                        lemma_wf_push(es0, MarkdownElement::Text(pos, text_end), pos as int, text_end as int, n as int);
                    }
                    let seg = copy_range(&self.content, lo, hi);
                    let s = chars_to_string(&seg);
                    let ghost segs0 = self.text_segments@;
                    let ghost spans0 = self.segment_spans@;
                    let ghost sv = s;
                    self.text_segments.push(s);
                    proof {
                        self.segment_spans@ = self.segment_spans@.push((lo as int, hi as int));
                        lemma_segments_push(
                            segs0,
                            spans0,
                            self.content@,
                            sv,
                            lo as int,
                            hi as int,
                        );
                    }
                }
                pos = text_end;
            } else {
                pos = pos + 1;
            }
        }
    }

    /// The text between the brackets of a link span: the characters after
    /// the opening bracket up to the first closing bracket, when there are
    /// any.
    pub fn get_link_text(&self, start: usize, end: usize) -> (r: String)
        requires
            start <= end <= self.content@.len(),
        ensures
            ({
                let sub = self.content@.subrange(start as int, end as int);
                forall|j: int|
                    (0 <= j < sub.len() && sub[j] == ']' && (forall|k: int|
                        0 <= k < j ==> sub[k] != ']')) ==> r@ == if j > 1 {
                        sub.subrange(1, j)
                    } else {
                        Seq::<char>::empty()
                    }
            }),
            (forall|j: int|
                0 <= j < end - start ==> self.content@.subrange(start as int, end as int)[j]
                    != ']') ==> r@ == Seq::<char>::empty(),
    {
        let ghost sub = self.content@.subrange(start as int, end as int);
        match find_char_before(&self.content, ']', start, end) {
            Some(b) => {
                proof {
                    assert(sub[b - start] == ']');
                    assert forall|k: int| 0 <= k < b - start implies sub[k] != ']' by {
                        assert(self.content@[start + k] != ']');
                    }
                }
                if b > start + 1 {
                    let seg = copy_range(&self.content, start + 1, b);
                    proof {
                        assert(self.content@.subrange(start + 1 as int, b as int) =~= sub.subrange(
                            1,
                            b - start,
                        ));
                    }
                    chars_to_string(&seg)
                } else {
                    String::new()
                }
            },
            None => {
                proof {
                    assert forall|j: int| 0 <= j < sub.len() implies sub[j] != ']' by {
                        assert(self.content@[start + j] != ']');
                    }
                }
                String::new()
            },
        }
    }
}

/// Position of the first `]` of `s`, or `-1` when there is none.
pub open spec fn first_close(s: Seq<char>) -> int
    decreases s.len(),
{
    if s.len() == 0 {
        -1
    } else if s[0] == ']' {
        0
    } else {
        let r = first_close(s.drop_first());
        if r < 0 {
            -1
        } else {
            1 + r
        }
    }
}

proof fn lemma_first_close_at(s: Seq<char>, j: int)
    requires
        0 <= j < s.len(),
        s[j] == ']',
        forall|k: int| 0 <= k < j ==> s[k] != ']',
    ensures
        first_close(s) == j,
    decreases s.len(),
{
    if s[0] != ']' {
        assert forall|k: int| 0 <= k < j - 1 implies s.drop_first()[k] != ']' by {
            assert(s[k + 1] != ']');
        }
        lemma_first_close_at(s.drop_first(), j - 1);
    }
}

proof fn lemma_first_close_none(s: Seq<char>)
    requires
        forall|k: int| 0 <= k < s.len() ==> s[k] != ']',
    ensures
        first_close(s) == -1,
    decreases s.len(),
{
    if s.len() > 0 {
        assert forall|k: int| 0 <= k < s.drop_first().len() implies s.drop_first()[k] != ']' by {
            assert(s[k + 1] != ']');
        }
        lemma_first_close_none(s.drop_first());
    }
}

/// The document rebuilt from its elements: text spans are replaced by the
/// translated segments in order, code spans are copied verbatim, a link
/// keeps its target but carries the next translated segment as its text,
/// frontmatter spans are replaced by the supplied rewrites in order, and
/// whatever follows the last element is copied verbatim. A missing
/// replacement leaves the span as it was.
pub open spec fn reassemble_view(
    content: Seq<char>,
    es: Seq<MarkdownElement>,
    segs: Seq<Seq<char>>,
    yamls: Seq<Seq<char>>,
    ti: int,
    yi: int,
    ci: int,
) -> Seq<char>
    decreases es.len(),
{
    if es.len() == 0 {
        if 0 <= ci <= content.len() {
            content.skip(ci)
        } else {
            Seq::empty()
        }
    } else {
        let rest = es.drop_first();
        match es[0] {
            MarkdownElement::Text(s, t) => {
                if ti < segs.len() {
                    segs[ti] + reassemble_view(content, rest, segs, yamls, ti + 1, yi, t as int)
                } else {
                    reassemble_view(content, rest, segs, yamls, ti, yi, t as int)
                }
            },
            MarkdownElement::CodeBlock(s, t) => content.subrange(s as int, t as int)
                + reassemble_view(content, rest, segs, yamls, ti, yi, t as int),
            MarkdownElement::InlineCode(s, t) => content.subrange(s as int, t as int)
                + reassemble_view(content, rest, segs, yamls, ti, yi, t as int),
            MarkdownElement::Link(s, t) => {
                let sub = content.subrange(s as int, t as int);
                let j = first_close(sub);
                if j > 1 && ti < segs.len() {
                    seq!['['] + segs[ti] + sub.skip(j) + reassemble_view(
                        content,
                        rest,
                        segs,
                        yamls,
                        ti + 1,
                        yi,
                        t as int,
                    )
                } else {
                    sub + reassemble_view(content, rest, segs, yamls, ti, yi, t as int)
                }
            },
            MarkdownElement::YamlFrontmatter(s, t) => {
                if yi < yamls.len() {
                    yamls[yi] + reassemble_view(content, rest, segs, yamls, ti, yi + 1, t as int)
                } else {
                    content.subrange(s as int, t as int) + reassemble_view(
                        content,
                        rest,
                        segs,
                        yamls,
                        ti,
                        yi + 1,
                        t as int,
                    )
                }
            },
        }
    }
}

/// Rebuild a document around its translated pieces, as
/// [`reassemble_view`] describes.
pub fn reassemble(
    content: &Vec<char>,
    elements: &Vec<MarkdownElement>,
    translated_segments: &Vec<String>,
    yaml_replacements: &Vec<String>,
) -> (r: String)
    requires
        wf_elements(elements@, content@.len() as int, content@.len() as int),
    ensures
        r@ == reassemble_view(
            content@,
            elements@,
            translated_segments@.map_values(|s: String| s@),
            yaml_replacements@.map_values(|s: String| s@),
            0,
            0,
            0,
        ),
{
    let ghost segs = translated_segments@.map_values(|s: String| s@);
    let ghost yamls = yaml_replacements@.map_values(|s: String| s@);
    let ghost goal = reassemble_view(content@, elements@, segs, yamls, 0, 0, 0);
    let n: usize = content.len();
    let mut out: Vec<char> = Vec::new();
    let mut ti: usize = 0;
    let mut yi: usize = 0;
    let mut ci: usize = 0;
    let mut k: usize = 0;
    proof {
        assert(elements@.skip(0) =~= elements@);
    }
    while k < elements.len()
        invariant
            n == content@.len(),
            segs == translated_segments@.map_values(|s: String| s@),
            yamls == yaml_replacements@.map_values(|s: String| s@),
            goal == reassemble_view(content@, elements@, segs, yamls, 0, 0, 0),
            wf_elements(elements@, n as int, n as int),
            k <= elements@.len(),
            ti <= k,
            yi <= k,
            ci <= n,
            goal == out@ + reassemble_view(
                content@,
                elements@.skip(k as int),
                segs,
                yamls,
                ti as int,
                yi as int,
                ci as int,
            ),
        decreases elements@.len() - k,
    {
        let ghost rem = elements@.skip(k as int);
        proof {
            assert(rem[0] == elements@[k as int]);
            assert(rem.drop_first() =~= elements@.skip(k + 1 as int));
        }
        let ghost out0 = out@;
        let e = elements[k];
        match e {
            MarkdownElement::Text(_s, t) => {
                if ti < translated_segments.len() {
                    let ghost tail = reassemble_view(
                        content@,
                        rem.drop_first(),
                        segs,
                        yamls,
                        ti + 1,
                        yi as int,
                        t as int,
                    );
                    crate::text::append_str(&mut out, translated_segments[ti].as_str());
                    proof {
                        assert(out0 + (segs[ti as int] + tail) =~= out@ + tail);
                    }
                    ti = ti + 1;
                }
                ci = t;
            },
            MarkdownElement::CodeBlock(s, t) => {
                let ghost tail = reassemble_view(
                    content@,
                    rem.drop_first(),
                    segs,
                    yamls,
                    ti as int,
                    yi as int,
                    t as int,
                );
                let piece = copy_range(content, s, t);
                crate::text::append_chars(&mut out, &piece);
                proof {
                    assert(out0 + (content@.subrange(s as int, t as int) + tail) =~= out@ + tail);
                }
                ci = t;
            },
            MarkdownElement::InlineCode(s, t) => {
                let ghost tail = reassemble_view(
                    content@,
                    rem.drop_first(),
                    segs,
                    yamls,
                    ti as int,
                    yi as int,
                    t as int,
                );
                let piece = copy_range(content, s, t);
                crate::text::append_chars(&mut out, &piece);
                proof {
                    assert(out0 + (content@.subrange(s as int, t as int) + tail) =~= out@ + tail);
                }
                ci = t;
            },
            MarkdownElement::Link(s, t) => {
                let ghost sub = content@.subrange(s as int, t as int);
                let close = find_char_before(content, ']', s, t);
                proof {
                    match close {
                        Some(b) => {
                            assert(sub[b - s] == ']');
                            assert forall|x: int| 0 <= x < b - s implies sub[x] != ']' by {
                                assert(content@[s + x] != ']');
                            }
                            lemma_first_close_at(sub, b - s);
                        },
                        None => {
                            assert forall|x: int| 0 <= x < sub.len() implies sub[x] != ']' by {
                                assert(content@[s + x] != ']');
                            }
                            lemma_first_close_none(sub);
                        },
                    }
                }
                let replaceable = match close {
                    Some(b) => b > s + 1,
                    None => false,
                };
                if replaceable && ti < translated_segments.len() {
                    let b = match close {
                        Some(b) => b,
                        None => 0,
                    };
                    let ghost tail = reassemble_view(
                        content@,
                        rem.drop_first(),
                        segs,
                        yamls,
                        ti + 1,
                        yi as int,
                        t as int,
                    );
                    out.push('[');
                    crate::text::append_str(&mut out, translated_segments[ti].as_str());
                    let piece = copy_range(content, b, t);
                    crate::text::append_chars(&mut out, &piece);
                    proof {
                        assert(content@.subrange(b as int, t as int) =~= sub.skip(b - s));
                        assert(out0 + (seq!['['] + segs[ti as int] + sub.skip(b - s) + tail) =~= out@
                            + tail);
                    }
                    ti = ti + 1;
                } else {
                    let ghost tail = reassemble_view(
                        content@,
                        rem.drop_first(),
                        segs,
                        yamls,
                        ti as int,
                        yi as int,
                        t as int,
                    );
                    let piece = copy_range(content, s, t);
                    crate::text::append_chars(&mut out, &piece);
                    proof {
                        assert(out0 + (sub + tail) =~= out@ + tail);
                    }
                }
                ci = t;
            },
            MarkdownElement::YamlFrontmatter(s, t) => {
                if yi < yaml_replacements.len() {
                    let ghost tail = reassemble_view(
                        content@,
                        rem.drop_first(),
                        segs,
                        yamls,
                        ti as int,
                        yi + 1,
                        t as int,
                    );
                    crate::text::append_str(&mut out, yaml_replacements[yi].as_str());
                    proof {
                        assert(out0 + (yamls[yi as int] + tail) =~= out@ + tail);
                    }
                } else {
                    let ghost tail = reassemble_view(
                        content@,
                        rem.drop_first(),
                        segs,
                        yamls,
                        ti as int,
                        yi + 1,
                        t as int,
                    );
                    let piece = copy_range(content, s, t);
                    crate::text::append_chars(&mut out, &piece);
                    proof {
                        assert(out0 + (content@.subrange(s as int, t as int) + tail) =~= out@
                            + tail);
                    }
                }
                yi = yi + 1;
                ci = t;
            },
        }
        k = k + 1;
    }
    proof {
        assert(elements@.skip(elements@.len() as int) =~= Seq::<MarkdownElement>::empty());
        assert(out@ + content@.skip(ci as int) =~= goal) by {
            assert(reassemble_view(
                content@,
                Seq::<MarkdownElement>::empty(),
                segs,
                yamls,
                ti as int,
                yi as int,
                ci as int,
            ) == content@.skip(ci as int));
        }
    }
    let tail = copy_range(content, ci, n);
    crate::text::append_chars(&mut out, &tail);
    proof {
        assert(content@.subrange(ci as int, n as int) =~= content@.skip(ci as int));
        assert(out@ =~= goal);
    }
    chars_to_string(&out)
}

/// `c` spells the ASCII letter `l` in either case; `l` names the lower-case
/// letter.
pub open spec fn eq_ignore_case(c: char, l: char) -> bool {
    c == l || c as u32 + 32 == l as u32
}

/// `s` spells `t` ignoring ASCII case; `t` names the lower-case spelling.
pub open spec fn seq_eq_ignore_case(s: Seq<char>, t: Seq<char>) -> bool {
    s.len() == t.len() && forall|i: int| 0 <= i < s.len() ==> eq_ignore_case(s[i], t[i])
}

/// The file name `s` carries a Markdown extension: after its last dot stands
/// `md` or `markdown`, in any case.
pub open spec fn spec_is_markdown_name(s: Seq<char>) -> bool {
    exists|i: int|
        {
            &&& 0 <= i < s.len()
            &&& #[trigger] s[i] == '.'
            &&& (forall|k: int| i < k < s.len() ==> s[k] != '.')
            &&& (seq_eq_ignore_case(s.subrange(i + 1, s.len() as int), "md"@)
                || seq_eq_ignore_case(s.subrange(i + 1, s.len() as int), "markdown"@))
        }
}

/// Compare `[from, to)` of `c` against the lower-case word `t`, ignoring
/// ASCII case.
fn range_eq_ignore_case(c: &Vec<char>, from: usize, to: usize, t: &Vec<char>) -> (r: bool)
    requires
        from <= to <= c@.len(),
    ensures
        r == seq_eq_ignore_case(c@.subrange(from as int, to as int), t@),
{
    if to - from != t.len() {
        return false;
    }
    let mut i: usize = 0;
    while i < t.len()
        invariant
            from <= to <= c@.len(),
            to - from == t@.len(),
            i <= t@.len(),
            forall|k: int| 0 <= k < i ==> eq_ignore_case(c@[from + k], t@[k]),
        decreases t@.len() - i,
    {
        let cc = c[from + i];
        let tc = t[i];
        let cu = cc as u32;
        let tu = tc as u32;
        if !(cc == tc || (tu >= 32 && cu == tu - 32)) {
            return false;
        }
        i = i + 1;
    }
    true
}

/// Whether a file name points at a Markdown document: its extension is `md`
/// or `markdown`, compared without regard to ASCII case.
pub fn is_markdown_file(name: &str) -> (r: bool)
    ensures
        r == spec_is_markdown_name(name@),
{
    proof {
        reveal_strlit("md");
        reveal_strlit("markdown");
    }
    let c = chars_of(name);
    let md = chars_of("md");
    let markdown = chars_of("markdown");
    // find the last dot
    let mut i: usize = c.len();
    while i > 0
        invariant
            c@ == name@,
            md@ == "md"@,
            markdown@ == "markdown"@,
            i <= c@.len(),
            forall|k: int| i <= k < c@.len() ==> c@[k] != '.',
        decreases i,
    {
        if c[i - 1] == '.' {
            let r = range_eq_ignore_case(&c, i, c.len(), &md) || range_eq_ignore_case(
                &c,
                i,
                c.len(),
                &markdown,
            );
            proof {
                if r {
                    assert(spec_is_markdown_name(name@)) by {
                        assert(name@[i - 1] == '.');
                    }
                } else {
                    assert forall|j: int|
                        0 <= j < name@.len() && #[trigger] name@[j] == '.' && (forall|k: int|
                            j < k < name@.len() ==> name@[k] != '.') implies !(seq_eq_ignore_case(
                        name@.subrange(j + 1, name@.len() as int),
                        "md"@,
                    ) || seq_eq_ignore_case(
                        name@.subrange(j + 1, name@.len() as int),
                        "markdown"@,
                    )) by {
                        assert(j == i - 1);
                    }
                }
            }
            return r;
        }
        i = i - 1;
    }
    proof {
        assert forall|j: int| 0 <= j < name@.len() implies #[trigger] name@[j] != '.' by {}
    }
    false
}

/// Pushing a non-empty element that starts no earlier than `bound` and ends
/// at `new_bound` keeps the element list well formed and its spans strict.
proof fn lemma_wf_push(
    es: Seq<MarkdownElement>,
    e: MarkdownElement,
    bound: int,
    new_bound: int,
    n: int,
)
    requires
        wf_elements(es, bound, n),
        strict_spans(es),
        bound <= span_start(e),
        span_start(e) < span_end(e),
        span_end(e) == new_bound,
        new_bound <= n,
    ensures
        wf_elements(es.push(e), new_bound, n),
        strict_spans(es.push(e)),
{
    let es2 = es.push(e);
    assert forall|i: int| 0 <= i < es2.len() - 1 implies span_end(#[trigger] es2[i])
        <= span_start(es2[i + 1]) by {
        if i + 1 < es.len() {
            assert(span_end(es[i]) <= span_start(es[i + 1]));
        } else {
            assert(es2[i] == es[es.len() - 1]);
        }
    }
    assert forall|i: int| 0 <= i < es2.len() implies span_start(#[trigger] es2[i]) < span_end(
        es2[i],
    ) by {
        if i < es.len() {
            assert(span_start(es[i]) < span_end(es[i]));
        }
    }
}

/// First position of `ch` at or after `from`.
fn find_char(c: &Vec<char>, ch: char, from: usize) -> (r: Option<usize>)
    ensures
        match r {
            Some(i) => from <= i < c@.len() && c@[i as int] == ch && forall|k: int|
                from <= k < i ==> c@[k] != ch,
            None => forall|k: int| from <= k < c@.len() ==> c@[k] != ch,
        },
{
    let mut i: usize = from;
    while i < c.len()
        invariant
            from <= i,
            forall|k: int| from <= k < i ==> c@[k] != ch,
        decreases c@.len() - i,
    {
        if c[i] == ch {
            return Some(i);
        }
        i = i + 1;
    }
    None
}

/// First position of `ch` in `[from, to)`.
fn find_char_before(c: &Vec<char>, ch: char, from: usize, to: usize) -> (r: Option<usize>)
    requires
        from <= to <= c@.len(),
    ensures
        match r {
            Some(i) => from <= i < to && c@[i as int] == ch && forall|k: int|
                from <= k < i ==> c@[k] != ch,
            None => forall|k: int| from <= k < to ==> c@[k] != ch,
        },
{
    let mut i: usize = from;
    while i < to
        invariant
            from <= i <= to <= c@.len(),
            forall|k: int| from <= k < i ==> c@[k] != ch,
        decreases to - i,
    {
        if c[i] == ch {
            return Some(i);
        }
        i = i + 1;
    }
    None
}

} // verus!
