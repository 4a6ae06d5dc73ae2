//! Search patterns: how a searched text is written for the database's `LIKE`
//! operator, and what the operator finds by it.

use crate::history;
use crate::text;
use crate::text::chars_of;
use vstd::prelude::*;
use vstd::string::*;
use vstd::utf8::*;

verus! {

/// The character that takes its meaning from the next one in a pattern.
pub const ESCAPE: char = '\\';

/// The longest pattern that `LIKE` takes, in bytes.
pub const MAX_PATTERN_BYTES: usize = 50_000;

/// The character has a meaning of its own in a pattern.
pub open spec fn is_special(c: char) -> bool {
    c == ESCAPE || c == '%' || c == '_'
}

/// A text as a part of a pattern that stands for just this text.
pub open spec fn escaped(s: Seq<char>) -> Seq<char>
    decreases s.len(),
{
    if s.len() == 0 {
        s
    } else if is_special(s[0]) {
        seq![ESCAPE, s[0]] + escaped(s.drop_first())
    } else {
        seq![s[0]] + escaped(s.drop_first())
    }
}

/// The pattern for all texts that hold the searched one.
pub open spec fn pattern(query: Seq<char>) -> Seq<char> {
    seq!['%'] + escaped(query) + seq!['%']
}

/// What `LIKE` says of a pattern and a text: `%` stands for any characters, `_`
/// for any one, a letter for itself in either case, and what follows the escape
/// character for itself.
pub open spec fn like(pattern: Seq<char>, text: Seq<char>) -> bool
    decreases pattern.len(), text.len(),
{
    if pattern.len() == 0 {
        text.len() == 0
    } else if pattern[0] == '%' {
        like(pattern.drop_first(), text) || text.len() > 0 && like(pattern, text.drop_first())
    } else if pattern[0] == ESCAPE {
        &&& pattern.len() > 1
        &&& text.len() > 0
        &&& text::lower_char(pattern[1]) == text::lower_char(text[0])
        &&& like(pattern.skip(2), text.drop_first())
    } else {
        &&& text.len() > 0
        &&& pattern[0] == '_' || text::lower_char(pattern[0]) == text::lower_char(text[0])
        &&& like(pattern.drop_first(), text.drop_first())
    }
}

proof fn lemma_escaped_push(s: Seq<char>, c: char)
    ensures
        escaped(s.push(c)) == escaped(s) + escaped(seq![c]),
    decreases s.len(),
{
    if s.len() == 0 {
        assert(s.push(c) =~= seq![c]);
        assert(escaped(s) + escaped(seq![c]) =~= escaped(seq![c]));
    } else {
        lemma_escaped_push(s.drop_first(), c);
        assert(s.push(c).drop_first() =~= s.drop_first().push(c));
        assert(escaped(s.push(c)) =~= escaped(s) + escaped(seq![c]));
    }
}

/// Writes a text as a part of a pattern that stands for just this text.
pub fn escape_like(value: &str) -> (r: String)
    ensures
        r@ == escaped(value@),
{
    let chars = chars_of(value);
    let mut out = String::new();
    let mut i: usize = 0;
    assert(out@ =~= escaped(chars@.take(0)));
    while i < chars.len()
        invariant
            i <= chars@.len(),
            out@ == escaped(chars@.take(i as int)),
        decreases chars@.len() - i,
    {
        let c: char = chars[i];
        let ghost before = out@;
        if c == ESCAPE || c == '%' || c == '_' {
            out.push(ESCAPE);
        }
        out.push(c);
        proof {
            lemma_escaped_push(chars@.take(i as int), c);
            assert(chars@.take(i + 1) =~= chars@.take(i as int).push(c));
            assert(seq![c].drop_first() =~= Seq::<char>::empty());
            assert(escaped(Seq::<char>::empty()) =~= Seq::<char>::empty());
            assert(out@ =~= before + escaped(seq![c]));
        }
        i = i + 1;
    }
    assert(chars@.take(chars@.len() as int) =~= chars@);
    out
}

/// Writes the pattern for all texts that hold the searched one.
pub fn search_pattern(query: &str) -> (r: String)
    ensures
        r@ == pattern(query@),
{
    let mut out = String::new();
    out.push('%');
    out.append(escape_like(query).as_str());
    out.push('%');
    assert(out@ =~= pattern(query@));
    out
}

/// The pattern for a query is longer than `LIKE` takes.
pub open spec fn is_too_long(query: Seq<char>) -> bool {
    encode_utf8(pattern(query)).len() > MAX_PATTERN_BYTES
}

/// Whether the pattern for a query is longer than `LIKE` takes.
pub fn exceeds_pattern_limit(query: &str) -> (r: bool)
    ensures
        r == is_too_long(query@),
{
    let text = search_pattern(query);
    text.as_str().as_bytes().len() > MAX_PATTERN_BYTES
}

proof fn lemma_like_any(text: Seq<char>)
    ensures
        like(seq!['%'], text),
    decreases text.len(),
{
    let rest = seq!['%'].drop_first();
    assert(rest =~= Seq::empty());
    if text.len() > 0 {
        lemma_like_any(text.drop_first());
    }
    assert(like(rest, text) == (text.len() == 0));
}

proof fn lemma_like_front(query: Seq<char>, text: Seq<char>)
    ensures
        like(escaped(query) + seq!['%'], text) == text::stands_at(
            text::lowered(text),
            text::lowered(query),
            0,
        ),
    decreases query.len(),
{
    let p = escaped(query) + seq!['%'];
    let t = text::lowered(text);
    let q = text::lowered(query);
    if query.len() == 0 {
        assert(p =~= seq!['%']);
        lemma_like_any(text);
        assert(t.subrange(0, 0) =~= q);
    } else if text.len() == 0 {
        assert(!like(p, text));
    } else {
        let rest = query.drop_first();
        lemma_like_front(rest, text.drop_first());
        if is_special(query[0]) {
            assert(p.skip(2) =~= escaped(rest) + seq!['%']);
        } else {
            assert(p.drop_first() =~= escaped(rest) + seq!['%']);
        }
        let t1 = text::lowered(text.drop_first());
        let q1 = text::lowered(rest);
        assert(like(p, text) == (text::lower_char(query[0]) == text::lower_char(text[0])
            && text::stands_at(t1, q1, 0)));
        if text::stands_at(t, q, 0) {
            assert(t.subrange(0, q.len() as int)[0] == q[0]);
            assert(t1.subrange(0, q1.len() as int) =~= q1) by {
                assert forall|i: int| 0 <= i < q1.len() implies t1[i] == q1[i] by {
                    assert(t.subrange(0, q.len() as int)[i + 1] == q[i + 1]);
                }
            }
        }
        if text::lower_char(query[0]) == text::lower_char(text[0]) && text::stands_at(t1, q1, 0) {
            assert(t.subrange(0, q.len() as int) =~= q) by {
                assert forall|i: int| 0 <= i < q.len() implies t[i] == q[i] by {
                    if i > 0 {
                        assert(t1.subrange(0, q1.len() as int)[i - 1] == q1[i - 1]);
                    }
                }
            }
        }
    }
}

/// `LIKE` finds by the pattern for a text just the texts that hold it, where
/// zero characters are none but characters.
proof fn lemma_pattern_finds(query: Seq<char>, text: Seq<char>)
    ensures
        like(pattern(query), text) == text::has_part(text::lowered(text), text::lowered(query)),
    decreases text.len(),
{
    let p = pattern(query);
    let t = text::lowered(text);
    let q = text::lowered(query);
    assert(p.drop_first() =~= escaped(query) + seq!['%']);
    lemma_like_front(query, text);
    if text.len() > 0 {
        lemma_pattern_finds(query, text.drop_first());
        let t1 = text::lowered(text.drop_first());
        if text::has_part(t1, q) {
            let at = choose|at: int| text::stands_at(t1, q, at);
            assert(t.subrange(at + 1, at + 1 + q.len()) =~= t1.subrange(at, at + q.len()));
            assert(text::stands_at(t, q, at + 1));
        }
        if text::has_part(t, q) && !text::stands_at(t, q, 0) {
            let at = choose|at: int| text::stands_at(t, q, at);
            assert(t.subrange(at, at + q.len()) =~= t1.subrange(at - 1, at - 1 + q.len()));
            assert(text::stands_at(t1, q, at - 1));
        }
    } else {
        if text::has_part(t, q) {
            let at = choose|at: int| text::stands_at(t, q, at);
            assert(at == 0);
        }
    }
}

/// An escaped text stands for just this text.
proof fn lemma_like_exact(query: Seq<char>, text: Seq<char>)
    ensures
        like(escaped(query), text) == (text::lowered(text) == text::lowered(query)),
    decreases query.len(),
{
    let p = escaped(query);
    let t = text::lowered(text);
    let q = text::lowered(query);
    if query.len() == 0 {
        if text.len() == 0 {
            assert(t =~= q);
        } else {
            assert(t.len() != q.len());
        }
    } else if text.len() == 0 {
        assert(t.len() != q.len());
        assert(!like(p, text));
    } else {
        let rest = query.drop_first();
        lemma_like_exact(rest, text.drop_first());
        if is_special(query[0]) {
            assert(p.skip(2) =~= escaped(rest));
        } else {
            assert(p.drop_first() =~= escaped(rest));
        }
        let t1 = text::lowered(text.drop_first());
        let q1 = text::lowered(rest);
        assert(t =~= seq![t[0]] + t1);
        assert(q =~= seq![q[0]] + q1);
        if t == q {
            assert(t1 =~= t.drop_first());
            assert(q1 =~= q.drop_first());
        }
    }
}

/// Behind `%` an escaped text stands for the texts that end with it.
proof fn lemma_like_end(query: Seq<char>, text: Seq<char>)
    ensures
        like(seq!['%'] + escaped(query), text) == text::lowered(query).is_suffix_of(
            text::lowered(text),
        ),
    decreases text.len(),
{
    let p = seq!['%'] + escaped(query);
    let t = text::lowered(text);
    let q = text::lowered(query);
    assert(p.drop_first() =~= escaped(query));
    lemma_like_exact(query, text);
    if t == q {
        assert(t.subrange(0, t.len() as int) =~= q);
    }
    if text.len() > 0 {
        lemma_like_end(query, text.drop_first());
        let t1 = text::lowered(text.drop_first());
        if q.len() < t.len() {
            assert(t.subrange(t.len() - q.len(), t.len() as int) =~= t1.subrange(
                t1.len() - q.len(),
                t1.len() as int,
            ));
        } else if q.len() == t.len() {
            assert(t.subrange(0, t.len() as int) =~= t);
        }
    } else if q.is_suffix_of(t) {
        assert(q =~= t);
    }
}

/// A text that begins without zero characters is cut behind that beginning.
proof fn lemma_cut_behind(front: Seq<char>, back: Seq<char>)
    requires
        !front.contains('\0'),
    ensures
        text::until_zero(front + back) == front + text::until_zero(back),
    decreases front.len(),
{
    if front.len() == 0 {
        assert(front + back =~= back);
        assert(front + text::until_zero(back) =~= text::until_zero(back));
    } else {
        let rest = front.drop_first();
        assert(front[0] != '\0');
        assert(!rest.contains('\0')) by {
            if rest.contains('\0') {
                let i = choose|i: int| 0 <= i < rest.len() && rest[i] == '\0';
                assert(front[i + 1] == '\0');
            }
        }
        lemma_cut_behind(rest, back);
        assert((front + back).drop_first() =~= rest + back);
        assert(seq![front[0]] + (rest + text::until_zero(back)) =~= front + text::until_zero(
            back,
        ));
    }
}

/// A pattern is cut where the text that it is for is cut.
proof fn lemma_cut_pattern(query: Seq<char>, back: Seq<char>)
    ensures
        text::until_zero(escaped(query) + back) == if query.contains('\0') {
            escaped(text::until_zero(query))
        } else {
            escaped(query) + text::until_zero(back)
        },
        !query.contains('\0') ==> text::until_zero(query) == query,
    decreases query.len(),
{
    if query.len() == 0 {
        assert(escaped(query) + back =~= back);
        assert(escaped(query) + text::until_zero(back) =~= text::until_zero(back));
        assert(text::until_zero(query) =~= query);
    } else if query[0] == '\0' {
        assert(query.contains('\0'));
        assert((escaped(query) + back)[0] == '\0');
        assert(escaped(Seq::<char>::empty()) =~= Seq::<char>::empty());
    } else {
        let rest = query.drop_first();
        lemma_cut_pattern(rest, back);
        let first = if is_special(query[0]) {
            seq![ESCAPE, query[0]]
        } else {
            seq![query[0]]
        };
        assert(escaped(query) + back =~= first + (escaped(rest) + back));
        lemma_cut_behind(first, escaped(rest) + back);
        assert(query.contains('\0') == rest.contains('\0')) by {
            if rest.contains('\0') {
                let i = choose|i: int| 0 <= i < rest.len() && rest[i] == '\0';
                assert(query[i + 1] == '\0');
            }
            if query.contains('\0') {
                let i = choose|i: int| 0 <= i < query.len() && query[i] == '\0';
                assert(rest[i - 1] == '\0');
            }
        }
        let cut = text::until_zero(query);
        assert(cut[0] == query[0]);
        assert(cut.drop_first() =~= text::until_zero(rest));
        if query.contains('\0') {
            assert(escaped(cut) =~= first + escaped(text::until_zero(rest)));
        } else {
            assert(first + (escaped(rest) + text::until_zero(back)) =~= escaped(query)
                + text::until_zero(back));
            assert(seq![query[0]] + rest =~= query);
        }
    }
}

/// A text without zero characters is not cut.
pub proof fn lemma_nothing_to_cut(s: Seq<char>)
    requires
        !s.contains('\0'),
    ensures
        text::until_zero(s) == s,
{
    lemma_cut_pattern(s, Seq::empty());
}

/// `LIKE`, which reads a pattern and a text up to their first zero character,
/// finds by the pattern for a query just the texts that match the query,
/// whatever characters the query has.
pub proof fn pattern_finds_query(query: Seq<char>, text: Seq<char>)
    ensures
        like(text::until_zero(pattern(query)), text::until_zero(text)) == history::matches_query(
            text,
            query,
        ),
{
    let cut = text::until_zero(text);
    let back = seq!['%'];
    lemma_cut_behind(seq!['%'], escaped(query) + back);
    lemma_cut_pattern(query, back);
    assert(pattern(query) =~= seq!['%'] + (escaped(query) + back));
    assert(text::until_zero(back) =~= back) by {
        assert(back.drop_first() =~= Seq::<char>::empty());
        assert(text::until_zero(Seq::<char>::empty()) =~= Seq::<char>::empty());
    }
    if query.contains('\0') {
        lemma_like_end(text::until_zero(query), cut);
    } else {
        assert(text::until_zero(pattern(query)) =~= pattern(query));
        lemma_pattern_finds(query, cut);
    }
}

} // verus!
