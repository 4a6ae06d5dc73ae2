//! Text as a sequence of characters: trimming, case folding, splitting,
//! joining, searching, and the printing and reading of numbers.

use vstd::prelude::*;

verus! {

// ---------------------------------------------------------------------------
// Characters
// ---------------------------------------------------------------------------

/// `c` has the Unicode `White_Space` property.
pub open spec fn is_white(c: char) -> bool {
    ||| '\u{9}' <= c <= '\u{d}'
    ||| c == ' '
    ||| c == '\u{85}'
    ||| c == '\u{a0}'
    ||| c == '\u{1680}'
    ||| '\u{2000}' <= c <= '\u{200a}'
    ||| c == '\u{2028}'
    ||| c == '\u{2029}'
    ||| c == '\u{202f}'
    ||| c == '\u{205f}'
    ||| c == '\u{3000}'
}

/// Whether a character is Unicode white space.
pub fn is_white_space(c: char) -> (r: bool)
    ensures
        r == is_white(c),
{
    ('\u{9}' <= c && c <= '\u{d}') || c == ' ' || c == '\u{85}' || c == '\u{a0}' || c == '\u{1680}'
        || ('\u{2000}' <= c && c <= '\u{200a}') || c == '\u{2028}' || c == '\u{2029}'
        || c == '\u{202f}' || c == '\u{205f}' || c == '\u{3000}'
}

/// The ASCII lower-case form of a character; other characters are themselves.
pub open spec fn lower_char(c: char) -> char {
    if 'A' <= c <= 'Z' {
        ((c as u8) + 32) as char
    } else {
        c
    }
}

/// The ASCII upper-case form of a character; other characters are themselves.
pub open spec fn upper_char(c: char) -> char {
    if 'a' <= c <= 'z' {
        ((c as u8) - 32) as char
    } else {
        c
    }
}

/// An ASCII letter or digit.
pub open spec fn is_alphanumeric(c: char) -> bool {
    'A' <= c <= 'Z' || 'a' <= c <= 'z' || '0' <= c <= '9'
}

pub fn is_ascii_alphanumeric(c: char) -> (r: bool)
    ensures
        r == is_alphanumeric(c),
{
    ('A' <= c && c <= 'Z') || ('a' <= c && c <= 'z') || ('0' <= c && c <= '9')
}

pub fn to_lower_char(c: char) -> (r: char)
    ensures
        r == lower_char(c),
{
    if 'A' <= c && c <= 'Z' {
        ((c as u8) + 32) as char
    } else {
        c
    }
}

pub fn to_upper_char(c: char) -> (r: char)
    ensures
        r == upper_char(c),
{
    if 'a' <= c && c <= 'z' {
        ((c as u8) - 32) as char
    } else {
        c
    }
}

// ---------------------------------------------------------------------------
// Strings and vectors of characters
// ---------------------------------------------------------------------------

/// `String::push` appends one character to the string.
pub assume_specification[ String::push ](s: &mut String, ch: char)
    ensures
        final(s)@ == old(s)@.push(ch),
;

/// The characters of a text, in order.
pub fn chars_of(text: &str) -> (r: Vec<char>)
    ensures
        r@ == text@,
{
    let mut out: Vec<char> = Vec::new();
    for c in it: text.chars()
        invariant
            out@ == it.seq().take(it.index() as int),
            it.seq() == text@,
    {
        out.push(c);
        assert(it.seq().take(it.index() as int + 1) =~= it.seq().take(it.index() as int).push(c));
    }
    assert(text@.take(text@.len() as int) =~= text@);
    out
}

/// The text made of the characters `from..to`.
pub fn text_of(chars: &Vec<char>, from: usize, to: usize) -> (r: String)
    requires
        from <= to <= chars@.len(),
    ensures
        r@ == chars@.subrange(from as int, to as int),
{
    let mut out = String::new();
    let mut i: usize = from;
    while i < to
        invariant
            from <= i <= to <= chars@.len(),
            out@ == chars@.subrange(from as int, i as int),
        decreases to - i,
    {
        out.push(chars[i]);
        i = i + 1;
        assert(chars@.subrange(from as int, i as int) =~= chars@.subrange(
            from as int,
            i - 1,
        ).push(chars@[i - 1]));
    }
    out
}

/// A copy of the characters `from..to`.
pub fn sub_chars(chars: &Vec<char>, from: usize, to: usize) -> (r: Vec<char>)
    requires
        from <= to <= chars@.len(),
    ensures
        r@ == chars@.subrange(from as int, to as int),
{
    let mut out: Vec<char> = Vec::new();
    let mut i: usize = from;
    while i < to
        invariant
            from <= i <= to <= chars@.len(),
            out@ == chars@.subrange(from as int, i as int),
        decreases to - i,
    {
        out.push(chars[i]);
        i = i + 1;
        assert(chars@.subrange(from as int, i as int) =~= chars@.subrange(
            from as int,
            i - 1,
        ).push(chars@[i - 1]));
    }
    out
}

/// Whether the characters spell `literal`.
pub fn is_text(chars: &Vec<char>, literal: &str) -> (r: bool)
    ensures
        r == (chars@ == literal@),
{
    let mut i: usize = 0;
    for c in it: literal.chars()
        invariant
            it.seq() == literal@,
            i == it.index(),
            i <= chars@.len(),
            forall|k: int| 0 <= k < i ==> chars@[k] == literal@[k],
    {
        if i >= chars.len() || chars[i] != c {
            assert(chars@.len() > i ==> chars@[i as int] != literal@[i as int]);
            return false;
        }
        i = i + 1;
    }
    assert(i == literal@.len());
    if i == chars.len() {
        assert(chars@ =~= literal@);
        true
    } else {
        false
    }
}

/// Whether two texts hold the same characters.
pub fn same_text(a: &str, b: &str) -> (r: bool)
    ensures
        r == (a@ == b@),
{
    is_text(&chars_of(a), b)
}

// ---------------------------------------------------------------------------
// Trimming
// ---------------------------------------------------------------------------

/// Which characters a trim removes.
#[derive(Clone, Copy)]
pub enum Strip {
    /// White space.
    White,
    /// One character.
    Only(char),
}

impl Strip {
    pub open spec fn hits(self, c: char) -> bool {
        match self {
            Strip::White => is_white(c),
            Strip::Only(x) => c == x,
        }
    }

    pub fn test(self, c: char) -> (r: bool)
        ensures
            r == self.hits(c),
    {
        match self {
            Strip::White => is_white_space(c),
            Strip::Only(x) => c == x,
        }
    }
}

/// `s` without the leading characters that `p` hits.
pub open spec fn strip_front(s: Seq<char>, p: Strip) -> Seq<char>
    decreases s.len(),
{
    if s.len() > 0 && p.hits(s[0]) {
        strip_front(s.drop_first(), p)
    } else {
        s
    }
}

/// `s` without the trailing characters that `p` hits.
pub open spec fn strip_back(s: Seq<char>, p: Strip) -> Seq<char>
    decreases s.len(),
{
    if s.len() > 0 && p.hits(s.last()) {
        strip_back(s.drop_last(), p)
    } else {
        s
    }
}

/// `s` without the leading and trailing characters that `p` hits.
pub open spec fn stripped(s: Seq<char>, p: Strip) -> Seq<char> {
    strip_back(strip_front(s, p), p)
}

/// `s` without leading and trailing white space.
pub open spec fn trimmed(s: Seq<char>) -> Seq<char> {
    stripped(s, Strip::White)
}

proof fn lemma_strip_front_stays(s: Seq<char>, p: Strip)
    ensures
        strip_front(s, p).len() > 0 ==> !p.hits(strip_front(s, p)[0]),
        strip_front(s, p).len() <= s.len(),
    decreases s.len(),
{
    if s.len() > 0 && p.hits(s[0]) {
        lemma_strip_front_stays(s.drop_first(), p);
    }
}

proof fn lemma_strip_back_stays(s: Seq<char>, p: Strip)
    ensures
        strip_back(s, p).len() > 0 ==> !p.hits(strip_back(s, p).last()) && strip_back(s, p)[0]
            == s[0],
        strip_back(s, p).len() <= s.len(),
    decreases s.len(),
{
    if s.len() > 0 && p.hits(s.last()) {
        lemma_strip_back_stays(s.drop_last(), p);
    }
}

/// To trim a text again changes nothing.
pub proof fn trimmed_text_stays(s: Seq<char>)
    ensures
        trimmed(trimmed(s)) == trimmed(s),
{
    let p = Strip::White;
    let front = strip_front(s, p);
    lemma_strip_front_stays(s, p);
    lemma_strip_back_stays(front, p);
    let once = strip_back(front, p);
    if once.len() > 0 {
        assert(once[0] == front[0]);
        assert(strip_front(once, p) == once);
        assert(strip_back(once, p) == once);
    } else {
        assert(strip_front(once, p) =~= once);
        assert(strip_back(once, p) =~= once);
    }
}

/// To strip the front of a text is to take off all that is hit there, up to the
/// first character that is not.
pub proof fn lemma_strip_front_at(s: Seq<char>, p: Strip) -> (a: int)
    ensures
        0 <= a <= s.len(),
        strip_front(s, p) == s.skip(a),
        forall|k: int| 0 <= k < a ==> p.hits(#[trigger] s[k]),
        a < s.len() ==> !p.hits(s[a]),
    decreases s.len(),
{
    if s.len() > 0 && p.hits(s[0]) {
        let rest = s.drop_first();
        let a = lemma_strip_front_at(rest, p);
        assert(rest.skip(a) =~= s.skip(a + 1));
        assert forall|k: int| 0 <= k < a + 1 implies p.hits(#[trigger] s[k]) by {
            if k > 0 {
                assert(s[k] == rest[k - 1]);
            }
        }
        a + 1
    } else {
        assert(s.skip(0) =~= s);
        0
    }
}

proof fn lemma_strip_back_at(s: Seq<char>, p: Strip) -> (b: int)
    ensures
        0 <= b <= s.len(),
        strip_back(s, p) == s.take(b),
        forall|k: int| b <= k < s.len() ==> p.hits(#[trigger] s[k]),
        b > 0 ==> !p.hits(s[b - 1]),
    decreases s.len(),
{
    if s.len() > 0 && p.hits(s.last()) {
        let rest = s.drop_last();
        let b = lemma_strip_back_at(rest, p);
        assert(rest.take(b) =~= s.take(b));
        assert forall|k: int| b <= k < s.len() implies p.hits(#[trigger] s[k]) by {
            if k < rest.len() {
                assert(s[k] == rest[k]);
            }
        }
        b
    } else {
        assert(s.take(s.len() as int) =~= s);
        s.len() as int
    }
}

/// To strip a text is to take off all that is hit at its two ends, and nothing
/// else: what is left stands in the text, everything around it is hit, and its
/// own ends are not.
pub proof fn stripping_takes_only_the_ends(s: Seq<char>, p: Strip) -> (ends: (int, int))
    ensures
        ({
            let (a, b) = ends;
            &&& 0 <= a <= b <= s.len()
            &&& stripped(s, p) == s.subrange(a, b)
            &&& forall|k: int| 0 <= k < a ==> p.hits(#[trigger] s[k])
            &&& forall|k: int| b <= k < s.len() ==> p.hits(#[trigger] s[k])
            &&& a < b ==> !p.hits(s[a]) && !p.hits(s[b - 1])
        }),
{
    let a = lemma_strip_front_at(s, p);
    let front = s.skip(a);
    let b = lemma_strip_back_at(front, p);
    assert(front.take(b) =~= s.subrange(a, a + b));
    assert forall|k: int| a + b <= k < s.len() implies p.hits(#[trigger] s[k]) by {
        assert(s[k] == front[k - a]);
    }
    if b > 0 {
        assert(front[b - 1] == s[a + b - 1]);
    }
    (a, a + b)
}

/// A text is blank just where it has nothing but white space.
pub proof fn blank_is_white_space(s: Seq<char>)
    ensures
        trimmed(s).len() == 0 <==> forall|k: int| 0 <= k < s.len() ==> is_white(#[trigger] s[k]),
{
    let (a, b) = stripping_takes_only_the_ends(s, Strip::White);
    if trimmed(s).len() == 0 {
        assert forall|k: int| 0 <= k < s.len() implies is_white(#[trigger] s[k]) by {
            assert(Strip::White.hits(s[k]));
        }
    } else {
        assert(!is_white(s[a]));
    }
}

/// The index of the first character that `p` does not hit.
fn front_edge(chars: &Vec<char>, p: Strip) -> (r: usize)
    ensures
        r <= chars@.len(),
        chars@.skip(r as int) == strip_front(chars@, p),
{
    let mut i: usize = 0;
    assert(chars@.skip(0) =~= chars@);
    while i < chars.len() && p.test(chars[i])
        invariant
            i <= chars@.len(),
            strip_front(chars@, p) == strip_front(chars@.skip(i as int), p),
        decreases chars@.len() - i,
    {
        assert(chars@.skip(i as int).drop_first() =~= chars@.skip(i + 1));
        i = i + 1;
    }
    i
}

/// The text without the leading characters that `p` hits.
pub fn strip_front_text(text: &str, p: Strip) -> (r: String)
    ensures
        r@ == strip_front(text@, p),
{
    let chars = chars_of(text);
    let from = front_edge(&chars, p);
    let out = text_of(&chars, from, chars.len());
    assert(chars@.subrange(from as int, chars@.len() as int) =~= chars@.skip(from as int));
    out
}

/// The characters without the leading ones that `p` hits.
pub fn strip_front_chars(chars: &Vec<char>, p: Strip) -> (r: Vec<char>)
    ensures
        r@ == strip_front(chars@, p),
{
    let from = front_edge(chars, p);
    let out = sub_chars(chars, from, chars.len());
    assert(chars@.subrange(from as int, chars@.len() as int) =~= chars@.skip(from as int));
    out
}

/// The characters without the leading and trailing ones that `p` hits.
pub fn strip_chars(chars: &Vec<char>, p: Strip) -> (r: Vec<char>)
    ensures
        r@ == stripped(chars@, p),
{
    let from = front_edge(chars, p);
    let mut to: usize = chars.len();
    assert(chars@.subrange(from as int, to as int) =~= chars@.skip(from as int));
    while to > from && p.test(chars[to - 1])
        invariant
            from <= to <= chars@.len(),
            stripped(chars@, p) == strip_back(chars@.subrange(from as int, to as int), p),
        decreases to,
    {
        assert(chars@.subrange(from as int, to as int).drop_last() =~= chars@.subrange(
            from as int,
            to - 1,
        ));
        assert(chars@.subrange(from as int, to as int).last() == chars@[to - 1]);
        to = to - 1;
    }
    assert(to > from ==> chars@.subrange(from as int, to as int).last() == chars@[to - 1]);
    sub_chars(chars, from, to)
}

/// The text without the leading and trailing characters that `p` hits.
pub fn strip_text(text: &str, p: Strip) -> (r: String)
    ensures
        r@ == stripped(text@, p),
{
    let chars = strip_chars(&chars_of(text), p);
    assert(chars@.subrange(0, chars@.len() as int) =~= chars@);
    text_of(&chars, 0, chars.len())
}

/// The text without leading and trailing white space.
pub fn trim(text: &str) -> (r: String)
    ensures
        r@ == trimmed(text@),
{
    strip_text(text, Strip::White)
}

// ---------------------------------------------------------------------------
// Case
// ---------------------------------------------------------------------------

/// `s` with every ASCII letter in lower case.
pub open spec fn lowered(s: Seq<char>) -> Seq<char> {
    s.map_values(|c: char| lower_char(c))
}

/// The characters with every ASCII letter in lower case.
pub fn lower_chars(chars: &Vec<char>) -> (r: Vec<char>)
    ensures
        r@ == lowered(chars@),
{
    let mut out: Vec<char> = Vec::new();
    let mut i: usize = 0;
    while i < chars.len()
        invariant
            i <= chars@.len(),
            out@.len() == i,
            forall|k: int| 0 <= k < i ==> out@[k] == lower_char(chars@[k]),
        decreases chars@.len() - i,
    {
        out.push(to_lower_char(chars[i]));
        i = i + 1;
    }
    assert(out@ =~= lowered(chars@));
    out
}

// ---------------------------------------------------------------------------
// Splitting and joining
// ---------------------------------------------------------------------------

/// The pieces of `s` between the occurrences of `sep`; one piece when there is
/// none.
pub open spec fn split_on(s: Seq<char>, sep: char) -> Seq<Seq<char>>
    decreases s.len(),
{
    if s.len() == 0 {
        seq![Seq::<char>::empty()]
    } else {
        let before = split_on(s.drop_last(), sep);
        if s.last() == sep {
            before.push(Seq::empty())
        } else {
            before.drop_last().push(before.last().push(s.last()))
        }
    }
}

/// The views of a vector of character vectors.
pub open spec fn pieces(v: Seq<Vec<char>>) -> Seq<Seq<char>> {
    v.map_values(|p: Vec<char>| p@)
}

pub proof fn lemma_split_nonempty(s: Seq<char>, sep: char)
    ensures
        split_on(s, sep).len() > 0,
    decreases s.len(),
{
    if s.len() > 0 {
        lemma_split_nonempty(s.drop_last(), sep);
    }
}

/// The pieces of the text between the occurrences of `sep`.
pub fn split_text(text: &str, sep: char) -> (r: Vec<Vec<char>>)
    ensures
        pieces(r@) == split_on(text@, sep),
{
    let chars = chars_of(text);
    let mut out: Vec<Vec<char>> = Vec::new();
    let mut current: Vec<char> = Vec::new();
    let mut i: usize = 0;
    assert(pieces(out@).push(current@) =~= split_on(chars@.take(0), sep));
    while i < chars.len()
        invariant
            i <= chars@.len(),
            pieces(out@).push(current@) == split_on(chars@.take(i as int), sep),
        decreases chars@.len() - i,
    {
        let c = chars[i];
        let ghost now = chars@.take(i + 1);
        let ghost before = split_on(chars@.take(i as int), sep);
        assert(now.drop_last() =~= chars@.take(i as int));
        assert(now.last() == c);
        let ghost done = pieces(out@);
        assert(before.drop_last() =~= done);
        assert(before.last() == current@);
        if c == sep {
            let ghost piece = current@;
            out.push(current);
            current = Vec::new();
            assert(pieces(out@) =~= done.push(piece));
            assert(pieces(out@).push(current@) =~= before.push(Seq::empty()));
        } else {
            current.push(c);
        }
        i = i + 1;
    }
    assert(chars@.take(i as int) =~= text@);
    let ghost done = pieces(out@);
    let ghost piece = current@;
    out.push(current);
    assert(pieces(out@) =~= done.push(piece));
    out
}

/// The maximal runs of characters that are not white space.
pub open spec fn words(s: Seq<char>) -> Seq<Seq<char>>
    decreases s.len(),
{
    if s.len() == 0 {
        Seq::empty()
    } else {
        let before = words(s.drop_last());
        if is_white(s.last()) {
            before
        } else if s.len() >= 2 && !is_white(s[s.len() - 2]) {
            before.drop_last().push(before.last().push(s.last()))
        } else {
            before.push(seq![s.last()])
        }
    }
}

/// The parts one after the other, `sep` between each two.
pub open spec fn joined(parts: Seq<Seq<char>>, sep: Seq<char>) -> Seq<char>
    decreases parts.len(),
{
    if parts.len() == 0 {
        Seq::empty()
    } else if parts.len() == 1 {
        parts[0]
    } else {
        joined(parts.drop_last(), sep) + sep + parts.last()
    }
}

proof fn lemma_words_end(s: Seq<char>)
    requires
        s.len() > 0,
        !is_white(s.last()),
    ensures
        words(s).len() > 0,
{
}

/// Growing the last part of a join grows the join by the same character.
proof fn lemma_joined_grow(parts: Seq<Seq<char>>, sep: Seq<char>, c: char)
    requires
        parts.len() > 0,
    ensures
        joined(parts.drop_last().push(parts.last().push(c)), sep) == joined(parts, sep).push(c),
{
    let grown = parts.drop_last().push(parts.last().push(c));
    assert(grown.drop_last() =~= parts.drop_last());
    assert(grown.last() == parts.last().push(c));
    if parts.len() == 1 {
        assert(grown[0] == parts[0].push(c));
    } else {
        assert(joined(grown, sep) =~= joined(parts, sep).push(c));
    }
}

/// Two lists of parts are joined by joining each and then the two.
pub proof fn lemma_joined_apart(a: Seq<Seq<char>>, b: Seq<Seq<char>>, sep: Seq<char>)
    requires
        a.len() > 0,
        b.len() > 0,
    ensures
        joined(a + b, sep) == joined(a, sep) + sep + joined(b, sep),
    decreases b.len(),
{
    assert((a + b).drop_last() =~= a + b.drop_last());
    if b.len() == 1 {
        assert(a + b.drop_last() =~= a);
    } else {
        lemma_joined_apart(a, b.drop_last(), sep);
        assert(joined(a + b, sep) =~= joined(a, sep) + sep + joined(b, sep));
    }
}

/// One more part is put behind a separator, unless it is the first.
proof fn lemma_joined_push(parts: Seq<Seq<char>>, sep: Seq<char>, part: Seq<char>)
    ensures
        joined(parts.push(part), sep) == if parts.len() == 0 {
            part
        } else {
            joined(parts, sep) + sep + part
        },
{
    let more = parts.push(part);
    assert(more.drop_last() =~= parts);
    assert(more.last() == part);
}

/// The words of the text, one space between each two.
pub fn flatten_white_space(text: &str) -> (r: String)
    ensures
        r@ == joined(words(text@), seq![' ']),
{
    let chars = chars_of(text);
    let mut out = String::new();
    let mut first = true;
    let mut i: usize = 0;
    assert(chars@.take(0) =~= Seq::<char>::empty());
    while i < chars.len()
        invariant
            i <= chars@.len(),
            out@ == joined(words(chars@.take(i as int)), seq![' ']),
            first == (words(chars@.take(i as int)).len() == 0),
        decreases chars@.len() - i,
    {
        let c = chars[i];
        let ghost now = chars@.take(i + 1);
        assert(now.drop_last() =~= chars@.take(i as int));
        assert(now.last() == c);
        let ghost before = words(chars@.take(i as int));
        if !is_white_space(c) {
            if i > 0 && !is_white_space(chars[i - 1]) {
                assert(now[now.len() - 2] == chars@[i - 1]);
                proof {
                    assert(chars@.take(i as int).last() == chars@[i - 1]);
                    lemma_words_end(chars@.take(i as int));
                    lemma_joined_grow(before, seq![' '], c);
                }
                out.push(c);
            } else {
                assert(i > 0 ==> now[now.len() - 2] == chars@[i - 1]);
                proof {
                    lemma_joined_push(before, seq![' '], seq![c]);
                }
                if !first {
                    out.push(' ');
                }
                let ghost prefix = out@;
                out.push(c);
                assert(prefix.push(c) =~= prefix + seq![c]);
                assert(!first ==> prefix =~= joined(before, seq![' ']) + seq![' ']);
                assert(first ==> prefix =~= Seq::<char>::empty());
                assert(first ==> out@ =~= seq![c]);
                first = false;
            }
        }
        i = i + 1;
    }
    assert(chars@.take(i as int) =~= text@);
    out
}

/// A text that may be missing, as characters.
pub open spec fn text_view(text: Option<String>) -> Option<Seq<char>> {
    match text {
        Some(text) => Some(text@),
        None => None,
    }
}

/// The views of a vector of strings.
pub open spec fn views(v: Seq<String>) -> Seq<Seq<char>> {
    v.map_values(|p: String| p@)
}

/// The parts one after the other, `sep` between each two.
pub fn join(parts: &Vec<String>, sep: &str) -> (r: String)
    ensures
        r@ == joined(views(parts@), sep@),
{
    let mut out = String::new();
    let mut i: usize = 0;
    assert(views(parts@).take(0) =~= Seq::<Seq<char>>::empty());
    while i < parts.len()
        invariant
            i <= parts@.len(),
            out@ == joined(views(parts@).take(i as int), sep@),
        decreases parts@.len() - i,
    {
        proof {
            lemma_joined_push(views(parts@).take(i as int), sep@, parts@[i as int]@);
            assert(views(parts@).take(i + 1) =~= views(parts@).take(i as int).push(
                parts@[i as int]@,
            ));
        }
        if i > 0 {
            out.append(sep);
        }
        out.append(parts[i].as_str());
        assert(i == 0 ==> out@ =~= parts@[i as int]@);
        i = i + 1;
    }
    assert(views(parts@).take(i as int) =~= views(parts@));
    out
}

// ---------------------------------------------------------------------------
// Prefixes, suffixes and substrings
// ---------------------------------------------------------------------------

/// What follows `prefix` in `s`, if `s` begins with it.
pub open spec fn after_prefix(s: Seq<char>, prefix: Seq<char>) -> Option<Seq<char>> {
    if prefix.is_prefix_of(s) {
        Some(s.skip(prefix.len() as int))
    } else {
        None
    }
}

/// `needle` stands in `s` at index `at`.
pub open spec fn stands_at(s: Seq<char>, needle: Seq<char>, at: int) -> bool {
    0 <= at && at + needle.len() <= s.len() && s.subrange(at, at + needle.len()) == needle
}

/// `needle` stands somewhere in `s`.
pub open spec fn has_part(s: Seq<char>, needle: Seq<char>) -> bool {
    exists|at: int| stands_at(s, needle, at)
}

/// A text begins with another just where it is that one and what follows it.
pub proof fn prefix_and_rest_make_the_text(s: Seq<char>, prefix: Seq<char>, rest: Seq<char>)
    ensures
        after_prefix(s, prefix) == Some(rest) <==> s == prefix + rest,
        after_prefix(s, prefix) is None <==> prefix.len() > s.len() || s.take(prefix.len() as int)
            != prefix,
{
    if prefix.is_prefix_of(s) {
        assert(s =~= prefix + s.skip(prefix.len() as int));
        assert(s.take(prefix.len() as int) =~= prefix);
    }
    if prefix.len() <= s.len() && s.take(prefix.len() as int) == prefix {
        assert(prefix.is_prefix_of(s));
    }
    if s == prefix + rest {
        assert(s.take(prefix.len() as int) =~= prefix);
        assert(s.skip(prefix.len() as int) =~= rest);
    }
}

/// A text stands in another just where that is something, the text, and something
/// behind it.
pub proof fn part_stands_between(front: Seq<char>, part: Seq<char>, back: Seq<char>, s: Seq<char>)
    ensures
        has_part(front + part + back, part),
        has_part(s, part) ==> exists|a: Seq<char>, b: Seq<char>| s == #[trigger] (a + part + b),
{
    let whole = front + part + back;
    let start = front.len() as int;
    assert(whole.subrange(start, start + part.len()) =~= part);
    assert(stands_at(whole, part, start));
    if has_part(s, part) {
        let at = choose|at: int| stands_at(s, part, at);
        let a = s.take(at);
        let b = s.skip(at + part.len());
        assert(s =~= (a + part) + b);
    }
}

/// Whether `needle` stands in `chars` at index `at`.
pub fn part_at(chars: &Vec<char>, needle: &Vec<char>, at: usize) -> (r: bool)
    ensures
        r == stands_at(chars@, needle@, at as int),
{
    let len: usize = chars.len();
    if at > len || needle.len() > len - at {
        return false;
    }
    let mut k: usize = 0;
    while k < needle.len()
        invariant
            k <= needle@.len(),
            at + needle@.len() <= len == chars@.len(),
            forall|j: int| 0 <= j < k ==> chars@[at + j] == needle@[j],
        decreases needle@.len() - k,
    {
        if chars[at + k] != needle[k] {
            assert(chars@.subrange(at as int, at + needle@.len())[k as int] != needle@[k as int]);
            return false;
        }
        k = k + 1;
    }
    assert(chars@.subrange(at as int, at + needle@.len()) =~= needle@);
    true
}

/// Whether `needle` stands somewhere in `chars`.
pub fn find_part(chars: &Vec<char>, needle: &Vec<char>) -> (r: bool)
    ensures
        r == has_part(chars@, needle@),
{
    if needle.len() > chars.len() {
        return false;
    }
    let last: usize = chars.len() - needle.len();
    let mut at: usize = 0;
    while at <= last
        invariant
            last == chars@.len() - needle@.len(),
            at <= last + 1,
            forall|i: int| 0 <= i < at ==> !stands_at(chars@, needle@, i),
        decreases last + 1 - at,
    {
        if part_at(chars, needle, at) {
            return true;
        }
        if at == last {
            assert forall|i: int| !stands_at(chars@, needle@, i) by {}
            return false;
        }
        at = at + 1;
    }
    false
}

/// What follows the prefix, if the characters begin with it.
pub fn rest_after(chars: &Vec<char>, prefix: &str) -> (r: Option<Vec<char>>)
    ensures
        match r {
            Some(rest) => after_prefix(chars@, prefix@) == Some(rest@),
            None => after_prefix(chars@, prefix@) is None,
        },
{
    let head = chars_of(prefix);
    if part_at(chars, &head, 0) {
        assert(chars@.subrange(0, prefix@.len() as int) == prefix@);
        assert(prefix@.is_prefix_of(chars@));
        let rest = sub_chars(chars, head.len(), chars.len());
        assert(rest@ =~= chars@.skip(prefix@.len() as int));
        Some(rest)
    } else {
        None
    }
}

/// Whether the characters end with the suffix.
pub fn has_suffix(chars: &Vec<char>, suffix: &str) -> (r: bool)
    ensures
        r == suffix@.is_suffix_of(chars@),
{
    ends_with(chars, &chars_of(suffix))
}

/// Whether the characters end with the given ones.
pub fn ends_with(chars: &Vec<char>, tail: &Vec<char>) -> (r: bool)
    ensures
        r == tail@.is_suffix_of(chars@),
{
    tail.len() <= chars.len() && part_at(chars, tail, chars.len() - tail.len())
}

/// A text up to its first zero character.
pub open spec fn until_zero(s: Seq<char>) -> Seq<char>
    decreases s.len(),
{
    if s.len() == 0 || s[0] == '\0' {
        Seq::empty()
    } else {
        seq![s[0]] + until_zero(s.drop_first())
    }
}

proof fn lemma_until_zero_at(s: Seq<char>, n: int)
    requires
        0 <= n <= s.len(),
        forall|i: int| 0 <= i < n ==> s[i] != '\0',
        n < s.len() ==> s[n] == '\0',
    ensures
        until_zero(s) == s.take(n),
    decreases n,
{
    if n > 0 {
        let rest = s.drop_first();
        lemma_until_zero_at(rest, n - 1);
        assert(seq![s[0]] + rest.take(n - 1) =~= s.take(n));
    } else {
        assert(until_zero(s) =~= s.take(0));
    }
}

/// The characters up to the first zero.
pub fn cut_at_zero(chars: &Vec<char>) -> (r: Vec<char>)
    ensures
        r@ == until_zero(chars@),
        r@.len() < chars@.len() <==> chars@.contains('\0'),
{
    let mut n: usize = 0;
    while n < chars.len() && chars[n] != '\0'
        invariant
            n <= chars@.len(),
            forall|i: int| 0 <= i < n ==> chars@[i] != '\0',
        decreases chars@.len() - n,
    {
        n = n + 1;
    }
    proof {
        lemma_until_zero_at(chars@, n as int);
        assert(chars@.subrange(0, n as int) =~= chars@.take(n as int));
        if n < chars@.len() {
            assert(chars@[n as int] == '\0');
        }
    }
    sub_chars(chars, 0, n)
}

/// To split a text at a separator after a part without it was appended is to
/// have the last piece grow by the part.
proof fn lemma_split_grow(s: Seq<char>, part: Seq<char>, sep: char)
    requires
        !part.contains(sep),
    ensures
        split_on(s + part, sep) == split_on(s, sep).drop_last().push(
            split_on(s, sep).last() + part,
        ),
    decreases part.len(),
{
    lemma_split_nonempty(s, sep);
    let pieces = split_on(s, sep);
    if part.len() == 0 {
        assert(s + part =~= s);
        assert(pieces.last() + part =~= pieces.last());
        assert(pieces.drop_last().push(pieces.last()) =~= pieces);
    } else {
        let front = part.drop_last();
        assert(part[part.len() - 1] == part.last());
        assert(!front.contains(sep)) by {
            if front.contains(sep) {
                let i = choose|i: int| 0 <= i < front.len() && front[i] == sep;
                assert(part[i] == sep);
            }
        }
        lemma_split_grow(s, front, sep);
        assert((s + part).drop_last() =~= s + front);
        assert((s + part).last() == part.last());
        let before = split_on(s + front, sep);
        assert(before.drop_last() =~= pieces.drop_last());
        assert(before.last().push(part.last()) =~= pieces.last() + part);
    }
}

/// What was joined by a separator that stands in no part is split into the
/// parts again.
pub proof fn lemma_split_joined(parts: Seq<Seq<char>>, sep: char)
    requires
        parts.len() > 0,
        forall|i: int| 0 <= i < parts.len() ==> !(#[trigger] parts[i]).contains(sep),
    ensures
        split_on(joined(parts, seq![sep]), sep) == parts,
    decreases parts.len(),
{
    let none = Seq::<char>::empty();
    if parts.len() == 1 {
        lemma_split_grow(none, parts[0], sep);
        assert(none + parts[0] =~= parts[0]);
        assert(split_on(none, sep) =~= seq![none]);
        assert(seq![none].drop_last().push(none + parts[0]) =~= parts);
    } else {
        let front = parts.drop_last();
        let before = joined(front, seq![sep]);
        assert forall|i: int| 0 <= i < front.len() implies !(#[trigger] front[i]).contains(sep) by {
            assert(front[i] == parts[i]);
        }
        lemma_split_joined(front, sep);
        assert((before + seq![sep]).drop_last() =~= before);
        assert(split_on(before + seq![sep], sep) == front.push(none));
        lemma_split_grow(before + seq![sep], parts.last(), sep);
        assert(front.push(none).drop_last() =~= front);
        assert(none + parts.last() =~= parts.last());
        assert(front.push(parts.last()) =~= parts);
    }
}

/// The pieces of a text hold no separator, and joined by it they are the text.
pub proof fn pieces_make_the_text(s: Seq<char>, sep: char)
    ensures
        joined(split_on(s, sep), seq![sep]) == s,
        forall|i: int|
            0 <= i < split_on(s, sep).len() ==> !(#[trigger] split_on(s, sep)[i]).contains(sep),
    decreases s.len(),
{
    let all = split_on(s, sep);
    let none = Seq::<char>::empty();
    if s.len() == 0 {
        assert(all[0] =~= s);
    } else {
        let before = split_on(s.drop_last(), sep);
        pieces_make_the_text(s.drop_last(), sep);
        lemma_split_nonempty(s.drop_last(), sep);
        assert(s.drop_last().push(s.last()) =~= s);
        if s.last() == sep {
            lemma_joined_push(before, seq![sep], none);
            assert(joined(before, seq![sep]) + seq![sep] + none =~= s);
        } else {
            lemma_joined_grow(before, seq![sep], s.last());
            let grown = before.last().push(s.last());
            assert(!grown.contains(sep)) by {
                if grown.contains(sep) {
                    let k = choose|k: int| 0 <= k < grown.len() && grown[k] == sep;
                    assert(before[before.len() - 1][k] == sep);
                }
            }
        }
    }
}

// ---------------------------------------------------------------------------
// Letters
// ---------------------------------------------------------------------------

/// The two forms of a letter are thirty-two codes apart, the capital one first;
/// no other character has two forms.
pub proof fn letters_have_two_forms(c: char)
    ensures
        0x41 <= c as int <= 0x5a ==> lower_char(c) as int == c as int + 32 && upper_char(c) == c,
        0x61 <= c as int <= 0x7a ==> upper_char(c) as int == c as int - 32 && lower_char(c) == c,
        !(0x41 <= c as int <= 0x5a || 0x61 <= c as int <= 0x7a) ==> lower_char(c) == c
            && upper_char(c) == c,
        is_alphanumeric(c) <==> 0x30 <= c as int <= 0x39 || 0x41 <= upper_char(c) as int <= 0x5a,
{
}

/// White space is what moves on in a line or to another one: the tab, the line and
/// page ends and the space, their two forms from 128 on, and the spaces and ends of
/// lines and paragraphs of other scripts. No letter or digit is white space.
pub proof fn white_space_by_its_code(c: char)
    ensures
        is_white(c) <==> {
            let code = c as int;
            ||| code < 128 && (9 <= code < 14 || code == 32)
            ||| code == 128 + 5 || code == 128 + 32
            ||| code == 5760
            ||| 8192 <= code < 8203
            ||| 8232 <= code < 8234
            ||| code == 8239 || code == 8287
            ||| code == 12288
        },
        is_alphanumeric(c) ==> !is_white(c),
{
}

/// A text up to its first zero character has none, and where it is not the whole
/// text a zero character follows.
pub proof fn text_ends_at_its_first_zero(s: Seq<char>)
    ensures
        ({
            let cut = until_zero(s);
            &&& cut.is_prefix_of(s)
            &&& !cut.contains('\0')
            &&& cut == s || s[cut.len() as int] == '\0'
        }),
    decreases s.len(),
{
    let cut = until_zero(s);
    if s.len() > 0 && s[0] != '\0' {
        let rest = until_zero(s.drop_first());
        text_ends_at_its_first_zero(s.drop_first());
        assert(s =~= seq![s[0]] + s.drop_first());
        assert(cut.len() <= s.len());
        assert(s.take(cut.len() as int) =~= cut);
        if cut.contains('\0') {
            let i = choose|i: int| 0 <= i < cut.len() && cut[i] == '\0';
            assert(rest[i - 1] == '\0');
        }
    } else {
        assert(s.take(0) =~= cut);
        if s.len() == 0 {
            assert(cut =~= s);
        }
    }
}

} // verus!
