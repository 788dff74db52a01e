//! Leak detection over translated documents: strip markup, count words, and
//! judge whether a chapter still looks untranslated. The reading and
//! repacking of the documents themselves happens outside the library.

use vstd::prelude::*;

use crate::markdown::is_md_space;
use crate::markdown::md_space;
use crate::text::chars_of;
use crate::text::chars_to_string;

verus! {

/// A suspected untranslated passage, for manual translation.
#[derive(Debug)]
pub struct LeakInfo {
    /// Title of the book the passage was found in.
    pub book_name: String,
    /// Path of the file the passage was found in.
    pub file_path: String,
    /// The passage as found.
    pub original: String,
    /// The manual translation, once supplied.
    pub translation: Option<String>,
}

impl Clone for LeakInfo {
    fn clone(&self) -> (r: Self)
        ensures
            r == *self,
    {
        LeakInfo {
            book_name: self.book_name.clone(),
            file_path: self.file_path.clone(),
            original: self.original.clone(),
            translation: self.translation.clone(),
        }
    }
}

/// `s` with markup tags and whitespace removed: characters between `<` and
/// `>` are dropped along with the angle brackets themselves, and so is
/// whitespace outside tags.
pub open spec fn strip_markup(s: Seq<char>, in_tag: bool) -> Seq<char>
    decreases s.len(),
{
    if s.len() == 0 {
        Seq::empty()
    } else {
        let c = s[0];
        let rest = s.drop_first();
        if c == '<' {
            strip_markup(rest, true)
        } else if c == '>' {
            strip_markup(rest, false)
        } else if in_tag || is_md_space(c) {
            strip_markup(rest, in_tag)
        } else {
            seq![c] + strip_markup(rest, in_tag)
        }
    }
}

/// The non-markup, non-whitespace characters of `html`, in order.
fn strip_to_chars(html: &str) -> (r: Vec<char>)
    ensures
        r@ == strip_markup(html@, false),
{
    let chars = chars_of(html);
    let n: usize = chars.len();
    let mut out: Vec<char> = Vec::new();
    let mut in_tag = false;
    let mut i: usize = 0;
    proof {
        assert(chars@.skip(0) =~= chars@);
    }
    while i < n
        invariant
            n == chars@.len(),
            chars@ == html@,
            i <= n,
            strip_markup(html@, false) == out@ + strip_markup(chars@.skip(i as int), in_tag),
        decreases n - i,
    {
        proof {
            assert(chars@.skip(i as int).drop_first() =~= chars@.skip(i + 1 as int));
            assert(chars@.skip(i as int)[0] == chars@[i as int]);
        }
        let ghost out0 = out@;
        let ghost tail = strip_markup(chars@.skip(i + 1 as int), in_tag);
        let c = chars[i];
        if c == '<' {
            in_tag = true;
        } else if c == '>' {
            in_tag = false;
        } else if in_tag || md_space(c) {
        } else {
            out.push(c);
            proof {
                assert(out0 + (seq![c] + tail) =~= out@ + tail);
            }
        }
        i = i + 1;
    }
    proof {
        assert(chars@.skip(n as int) =~= Seq::<char>::empty());
        assert(out@ + strip_markup(Seq::<char>::empty(), in_tag) =~= out@);
    }
    out
}

/// Extract the plain text of a markup document: tags and whitespace removed.
pub fn extract_text_content(html: &str) -> (r: String)
    ensures
        r@ == strip_markup(html@, false),
{
    let out = strip_to_chars(html);
    chars_to_string(&out)
}

/// `s` with markup tags removed: characters between `<` and `>` are dropped
/// along with the angle brackets themselves; everything else, whitespace
/// included, is kept.
pub open spec fn strip_tags(s: Seq<char>, in_tag: bool) -> Seq<char>
    decreases s.len(),
{
    if s.len() == 0 {
        Seq::empty()
    } else {
        let c = s[0];
        let rest = s.drop_first();
        if c == '<' {
            strip_tags(rest, true)
        } else if c == '>' {
            strip_tags(rest, false)
        } else if in_tag {
            strip_tags(rest, in_tag)
        } else {
            seq![c] + strip_tags(rest, in_tag)
        }
    }
}

/// The non-markup characters of `html`, whitespace kept, in order.
fn strip_tags_to_chars(html: &str) -> (r: Vec<char>)
    ensures
        r@ == strip_tags(html@, false),
{
    let chars = chars_of(html);
    let n: usize = chars.len();
    let mut out: Vec<char> = Vec::new();
    let mut in_tag = false;
    let mut i: usize = 0;
    proof {
        assert(chars@.skip(0) =~= chars@);
    }
    while i < n
        invariant
            n == chars@.len(),
            chars@ == html@,
            i <= n,
            strip_tags(html@, false) == out@ + strip_tags(chars@.skip(i as int), in_tag),
        decreases n - i,
    {
        proof {
            assert(chars@.skip(i as int).drop_first() =~= chars@.skip(i + 1 as int));
            assert(chars@.skip(i as int)[0] == chars@[i as int]);
        }
        let ghost out0 = out@;
        let ghost tail = strip_tags(chars@.skip(i + 1 as int), in_tag);
        let c = chars[i];
        if c == '<' {
            in_tag = true;
        } else if c == '>' {
            in_tag = false;
        } else if in_tag {
        } else {
            out.push(c);
            proof {
                assert(out0 + (seq![c] + tail) =~= out@ + tail);
            }
        }
        i = i + 1;
    }
    proof {
        assert(chars@.skip(n as int) =~= Seq::<char>::empty());
        assert(out@ + strip_tags(Seq::<char>::empty(), in_tag) =~= out@);
    }
    out
}

/// One piece of a markup document: a tag (including its angle brackets), or
/// a stretch of text between tags.
#[derive(Debug)]
pub enum HtmlPiece {
    /// A markup tag, angle brackets included.
    Tag(String),
    /// Text between tags.
    Text(String),
}

/// View of a piece's characters.
pub open spec fn piece_view(p: HtmlPiece) -> Seq<char> {
    match p {
        HtmlPiece::Tag(s) => s@,
        HtmlPiece::Text(s) => s@,
    }
}

/// The concatenation of all pieces' characters.
pub open spec fn pieces_view(ps: Seq<HtmlPiece>) -> Seq<char>
    decreases ps.len(),
{
    if ps.len() == 0 {
        Seq::empty()
    } else {
        pieces_view(ps.drop_last()) + piece_view(ps.last())
    }
}

/// Split a markup document into tags and text stretches. The pieces
/// concatenate back to the document, every tag piece starts with `<`, and no
/// text piece is empty or holds a `<`.
pub fn split_html_segments(html: &str) -> (r: Vec<HtmlPiece>)
    ensures
        pieces_view(r@) == html@,
        forall|i: int|
            0 <= i < r@.len() ==> match #[trigger] r@[i] {
                HtmlPiece::Tag(s) => s@.len() > 0 && s@[0] == '<',
                HtmlPiece::Text(s) => s@.len() > 0 && forall|k: int|
                    0 <= k < s@.len() ==> s@[k] != '<',
            },
{
    let chars = chars_of(html);
    let n: usize = chars.len();
    let mut pieces: Vec<HtmlPiece> = Vec::new();
    let mut buf: Vec<char> = Vec::new();
    let mut in_tag = false;
    let mut i: usize = 0;
    proof {
        assert(pieces_view(Seq::<HtmlPiece>::empty()) + buf@ =~= chars@.subrange(0, 0));
    }
    while i < n
        invariant
            n == chars@.len(),
            chars@ == html@,
            i <= n,
            pieces_view(pieces@) + buf@ == chars@.subrange(0, i as int),
            in_tag ==> buf@.len() > 0 && buf@[0] == '<',
            !in_tag ==> forall|k: int| 0 <= k < buf@.len() ==> buf@[k] != '<',
            forall|j: int|
                0 <= j < pieces@.len() ==> match #[trigger] pieces@[j] {
                    HtmlPiece::Tag(s) => s@.len() > 0 && s@[0] == '<',
                    HtmlPiece::Text(s) => s@.len() > 0 && forall|k: int|
                        0 <= k < s@.len() ==> s@[k] != '<',
                },
        decreases n - i,
    {
        let ghost pieces0 = pieces@;
        let ghost buf0 = buf@;
        let c = chars[i];
        if c == '<' {
            if !in_tag && buf.len() > 0 {
                let text = HtmlPiece::Text(chars_to_string(&buf));
                pieces.push(text);
                buf = Vec::new();
                proof {
                    lemma_pieces_view_push(pieces0, pieces@.last(), buf0);
                }
            }
            in_tag = true;
            buf.push(c);
        } else if c == '>' && in_tag {
            buf.push(c);
            let tag = HtmlPiece::Tag(chars_to_string(&buf));
            pieces.push(tag);
            proof {
                lemma_pieces_view_push(pieces0, pieces@.last(), buf0.push(c));
            }
            buf = Vec::new();
            in_tag = false;
        } else {
            buf.push(c);
        }
        proof {
            assert(chars@.subrange(0, i + 1 as int) =~= chars@.subrange(0, i as int).push(
                chars@[i as int],
            ));
            assert(pieces_view(pieces@) + buf@ =~= chars@.subrange(0, i + 1 as int));
        }
        i = i + 1;
    }
    if buf.len() > 0 {
        let ghost pieces0 = pieces@;
        let ghost buf0 = buf@;
        if in_tag {
            // an unterminated tag is carried through as a tag piece
            let tag = HtmlPiece::Tag(chars_to_string(&buf));
            pieces.push(tag);
            proof {
                lemma_pieces_view_push(pieces0, pieces@.last(), buf0);
            }
        } else {
            let text = HtmlPiece::Text(chars_to_string(&buf));
            pieces.push(text);
            proof {
                lemma_pieces_view_push(pieces0, pieces@.last(), buf0);
            }
        }
    }
    proof {
        assert(chars@.subrange(0, n as int) =~= html@);
    }
    pieces
}

proof fn lemma_pieces_view_push(ps: Seq<HtmlPiece>, p: HtmlPiece, v: Seq<char>)
    requires
        piece_view(p) == v,
    ensures
        pieces_view(ps.push(p)) == pieces_view(ps) + v,
{
    assert(ps.push(p).drop_last() =~= ps);
    assert(ps.push(p).last() == p);
}

/// An ASCII letter.
pub open spec fn is_ascii_letter(c: char) -> bool {
    (97 <= c as u32 && c as u32 <= 122) || (65 <= c as u32 && c as u32 <= 90)
}

/// Whether `c` is an ASCII letter.
fn ascii_letter(c: char) -> (r: bool)
    ensures
        r == is_ascii_letter(c),
{
    let u = c as u32;
    (97 <= u && u <= 122) || (65 <= u && u <= 90)
}

/// Number of whitespace-separated words in `s`, given that a word of
/// `cur_len` characters is already open.
pub open spec fn spec_word_count(s: Seq<char>, cur_len: int) -> int
    decreases s.len(),
{
    if s.len() == 0 {
        if cur_len > 0 {
            1int
        } else {
            0int
        }
    } else if is_md_space(s[0]) {
        (if cur_len > 0 {
            1int
        } else {
            0int
        }) + spec_word_count(s.drop_first(), 0)
    } else {
        spec_word_count(s.drop_first(), cur_len + 1)
    }
}

/// Number of words of `s` that look English: all ASCII letters and longer
/// than one character. A word of `cur_len` characters, so far all letters if
/// `cur_alpha`, is already open.
pub open spec fn spec_english_count(s: Seq<char>, cur_len: int, cur_alpha: bool) -> int
    decreases s.len(),
{
    if s.len() == 0 {
        if cur_len > 1 && cur_alpha {
            1int
        } else {
            0int
        }
    } else if is_md_space(s[0]) {
        (if cur_len > 1 && cur_alpha {
            1int
        } else {
            0int
        }) + spec_english_count(s.drop_first(), 0, true)
    } else {
        spec_english_count(s.drop_first(), cur_len + 1, cur_alpha && is_ascii_letter(s[0]))
    }
}

/// Count the whitespace-separated words of `text`, and how many of them look
/// English.
fn word_stats(text: &Vec<char>) -> (r: (usize, usize))
    ensures
        r.0 == spec_word_count(text@, 0),
        r.1 == spec_english_count(text@, 0, true),
{
    let n: usize = text.len();
    let mut total: usize = 0;
    let mut english: usize = 0;
    let mut cur_len: usize = 0;
    let mut cur_alpha = true;
    let mut i: usize = 0;
    proof {
        assert(text@.skip(0) =~= text@);
    }
    while i < n
        invariant
            n == text@.len(),
            i <= n,
            total + cur_len <= i,
            english + cur_len <= i,
            spec_word_count(text@, 0) == total + spec_word_count(
                text@.skip(i as int),
                cur_len as int,
            ),
            spec_english_count(text@, 0, true) == english + spec_english_count(
                text@.skip(i as int),
                cur_len as int,
                cur_alpha,
            ),
        decreases n - i,
    {
        proof {
            assert(text@.skip(i as int).drop_first() =~= text@.skip(i + 1 as int));
            assert(text@.skip(i as int)[0] == text@[i as int]);
        }
        let c = text[i];
        if md_space(c) {
            if cur_len > 1 && cur_alpha {
                english = english + 1;
            }
            if cur_len > 0 {
                total = total + 1;
            }
            cur_len = 0;
            cur_alpha = true;
        } else {
            cur_len = cur_len + 1;
            cur_alpha = cur_alpha && ascii_letter(c);
        }
        i = i + 1;
    }
    proof {
        assert(text@.skip(n as int) =~= Seq::<char>::empty());
    }
    if cur_len > 1 && cur_alpha {
        english = english + 1;
    }
    if cur_len > 0 {
        total = total + 1;
    }
    (total, english)
}

/// Whether a chapter still looks untranslated: with the markup tags removed
/// but the whitespace kept, more than seven in ten of its words look English
/// and there are more than five words in all.
pub fn has_untranslated_content(content: &str) -> (r: bool)
    ensures
        ({
            let t = strip_tags(content@, false);
            r == (10 * spec_english_count(t, 0, true) > 7 * spec_word_count(t, 0)
                && spec_word_count(t, 0) > 5)
        }),
{
    let text = strip_tags_to_chars(content);
    let (total, english) = word_stats(&text);
    (english as u128) * 10 > (total as u128) * 7 && total > 5
}

/// How many recorded leaks carry a manual translation ready to apply.
pub fn count_fixable(leaks: &Vec<LeakInfo>) -> (r: usize)
    ensures
        r == leaks@.filter(|l: LeakInfo| l.translation is Some).len(),
{
    let ghost pred = |l: LeakInfo| l.translation is Some;
    let mut r: usize = 0;
    let mut i: usize = 0;
    proof {
        reveal(Seq::filter);
        assert(leaks@.subrange(0, 0) =~= Seq::<LeakInfo>::empty());
    }
    while i < leaks.len()
        invariant
            i <= leaks@.len(),
            r == leaks@.subrange(0, i as int).filter(|l: LeakInfo| l.translation is Some).len(),
            r <= i,
        decreases leaks@.len() - i,
    {
        proof {
            broadcast use Seq::lemma_filter_push;

            assert(leaks@.subrange(0, i + 1 as int) =~= leaks@.subrange(0, i as int).push(
                leaks@[i as int],
            ));
        }
        if leaks[i].translation.is_some() {
            r = r + 1;
        }
        i = i + 1;
    }
    proof {
        assert(leaks@.subrange(0, leaks@.len() as int) =~= leaks@);
    }
    r
}

} // verus!
