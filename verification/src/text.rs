//! Character-level text handling: whitespace, splitting into pieces,
//! trimming, lines and words, all stated over `Seq<char>` and carried out
//! over a `Vec<char>` with index spans.
use vstd::prelude::*;

verus! {

/// `String::push`: appends the character `ch`. Claimed: the text after
/// the call is the text before it with `ch` at its end. Running out of
/// memory (a string past `isize::MAX` bytes) is not ruled out here.
pub assume_specification[ String::push ](s: &mut String, ch: char)
    ensures
        final(s)@ == old(s)@.push(ch),
;

/// `String::pop`: takes the last character off. Claimed: on a non-empty
/// text it returns the last character and leaves the text without it; on
/// an empty text it returns `None` and changes nothing.
pub assume_specification[ String::pop ](s: &mut String) -> (r: Option<char>)
    ensures
        old(s)@.len() > 0 ==> r == Some(old(s)@.last()) && final(s)@ == old(s)@.drop_last(),
        old(s)@.len() == 0 ==> r is None && final(s)@ == old(s)@,
;

/// Unicode `White_Space` characters (the set that `char::is_whitespace` accepts).
pub open spec fn is_space(c: char) -> bool {
    let u = c as u32;
    ||| 0x09 <= u <= 0x0D
    ||| u == 0x20
    ||| u == 0x85
    ||| u == 0xA0
    ||| u == 0x1680
    ||| 0x2000 <= u <= 0x200A
    ||| u == 0x2028
    ||| u == 0x2029
    ||| u == 0x202F
    ||| u == 0x205F
    ||| u == 0x3000
}

/// Whether `c` is whitespace.
pub fn char_is_space(c: char) -> (r: bool)
    ensures
        r == is_space(c),
{
    let u = c as u32;
    (0x09 <= u && u <= 0x0D) || u == 0x20 || u == 0x85 || u == 0xA0 || u == 0x1680 || (0x2000 <= u
        && u <= 0x200A) || u == 0x2028 || u == 0x2029 || u == 0x202F || u == 0x205F || u == 0x3000
}

/// What separates the pieces of a text.
#[derive(Clone, Copy)]
pub enum Sep {
    /// One given character.
    Char(char),
    /// Any whitespace character.
    Space,
}

impl Sep {
    pub open spec fn hits(self, c: char) -> bool {
        match self {
            Sep::Char(x) => c == x,
            Sep::Space => is_space(c),
        }
    }

    pub fn matches(&self, c: char) -> (r: bool)
        ensures
            r == self.hits(c),
    {
        match self {
            Sep::Char(x) => c == *x,
            Sep::Space => char_is_space(c),
        }
    }
}

/// The pieces of `s` between separators, empty pieces included: `n`
/// separators give `n + 1` pieces (the behaviour of `str::split`).
pub open spec fn pieces(s: Seq<char>, sep: Sep) -> Seq<Seq<char>>
    decreases s.len(),
{
    if s.len() == 0 {
        seq![Seq::<char>::empty()]
    } else {
        let p = pieces(s.drop_last(), sep);
        if sep.hits(s.last()) {
            p.push(Seq::<char>::empty())
        } else {
            p.update(p.len() - 1, p.last().push(s.last()))
        }
    }
}

pub(crate) proof fn lemma_pieces_nonempty(s: Seq<char>, sep: Sep)
    ensures
        pieces(s, sep).len() >= 1,
    decreases s.len(),
{
    if s.len() > 0 {
        lemma_pieces_nonempty(s.drop_last(), sep);
    }
}

/// The non-empty members of `ps`, in order.
pub open spec fn keep_nonempty(ps: Seq<Seq<char>>) -> Seq<Seq<char>>
    decreases ps.len(),
{
    if ps.len() == 0 {
        Seq::empty()
    } else {
        let r = keep_nonempty(ps.drop_last());
        if ps.last().len() > 0 {
            r.push(ps.last())
        } else {
            r
        }
    }
}

/// `s` without leading whitespace.
pub open spec fn trim_start(s: Seq<char>) -> Seq<char>
    decreases s.len(),
{
    if s.len() > 0 && is_space(s[0]) {
        trim_start(s.drop_first())
    } else {
        s
    }
}

/// `s` without trailing whitespace.
pub open spec fn trim_end(s: Seq<char>) -> Seq<char>
    decreases s.len(),
{
    if s.len() > 0 && is_space(s.last()) {
        trim_end(s.drop_last())
    } else {
        s
    }
}

/// `s` without leading and trailing whitespace (`str::trim`).
pub open spec fn trim(s: Seq<char>) -> Seq<char> {
    trim_end(trim_start(s))
}

/// The whitespace-separated words of `s` (`str::split_whitespace`).
pub open spec fn words(s: Seq<char>) -> Seq<Seq<char>> {
    keep_nonempty(pieces(s, Sep::Space))
}

/// Each member of `ps`, trimmed.
pub open spec fn trim_each(ps: Seq<Seq<char>>) -> Seq<Seq<char>> {
    Seq::new(ps.len(), |i: int| trim(ps[i]))
}

/// The trimmed, non-blank lines of `s`: the text is cut at each `'\n'`,
/// each piece is trimmed (which also drops a `'\r'` before the `'\n'`) and
/// blank pieces are left out.
pub open spec fn nonblank_lines(s: Seq<char>) -> Seq<Seq<char>> {
    keep_nonempty(trim_each(pieces(s, Sep::Char('\n'))))
}

/// Index of the first `c` in `s`, or `s.len()` where there is none.
pub open spec fn first_index(s: Seq<char>, c: char) -> int
    decreases s.len(),
{
    if s.len() == 0 {
        0
    } else if s[0] == c {
        0
    } else {
        1 + first_index(s.drop_first(), c)
    }
}

/// The part of `s` before the first `c` (all of `s` where there is none).
pub open spec fn before_first(s: Seq<char>, c: char) -> Seq<char> {
    s.take(first_index(s, c))
}

/// The part of `s` after the first `c`, where there is one.
pub open spec fn after_first(s: Seq<char>, c: char) -> Option<Seq<char>> {
    if first_index(s, c) < s.len() {
        Some(s.skip(first_index(s, c) + 1))
    } else {
        None
    }
}

/// Whether `s` begins with `p`.
pub open spec fn has_prefix(s: Seq<char>, p: Seq<char>) -> bool {
    p.len() <= s.len() && s.take(p.len() as int) == p
}

/// Whether `p` occurs in `s` as a contiguous part.
pub open spec fn has_infix(s: Seq<char>, p: Seq<char>) -> bool {
    exists|i: int| 0 <= i && i + p.len() <= s.len() && #[trigger] s.subrange(i, i + p.len()) == p
}

/// `spans` picks, from `cs`, exactly the members of `ps`.
pub open spec fn spans_are(cs: Seq<char>, spans: Seq<(usize, usize)>, ps: Seq<Seq<char>>) -> bool {
    &&& spans.len() == ps.len()
    &&& forall|i: int|
        0 <= i < spans.len() ==> {
            &&& (#[trigger] spans[i]).0 <= spans[i].1 <= cs.len()
            &&& cs.subrange(spans[i].0 as int, spans[i].1 as int) == ps[i]
        }
}

proof fn lemma_first_index(s: Seq<char>, c: char, k: int)
    requires
        0 <= k <= s.len(),
        forall|j: int| 0 <= j < k ==> s[j] != c,
        k == s.len() || s[k] == c,
    ensures
        first_index(s, c) == k,
    decreases s.len(),
{
    if s.len() > 0 && k > 0 {
        assert forall|j: int| 0 <= j < k - 1 implies s.drop_first()[j] != c by {
            assert(s.drop_first()[j] == s[j + 1]);
        }
        lemma_first_index(s.drop_first(), c, k - 1);
    }
}

proof fn lemma_trim_start(s: Seq<char>, k: int)
    requires
        0 <= k <= s.len(),
        forall|j: int| 0 <= j < k ==> is_space(s[j]),
        k == s.len() || !is_space(s[k]),
    ensures
        trim_start(s) == s.skip(k),
    decreases s.len(),
{
    if k == 0 {
        assert(s.skip(0) =~= s);
    } else {
        assert forall|j: int| 0 <= j < k - 1 implies is_space(s.drop_first()[j]) by {
            assert(s.drop_first()[j] == s[j + 1]);
        }
        if k - 1 < s.len() - 1 {
            assert(s.drop_first()[k - 1] == s[k]);
        }
        lemma_trim_start(s.drop_first(), k - 1);
        assert(s.drop_first().skip(k - 1) =~= s.skip(k));
    }
}

proof fn lemma_trim_end(s: Seq<char>, k: int)
    requires
        0 <= k <= s.len(),
        forall|j: int| k <= j < s.len() ==> is_space(s[j]),
        k == 0 || !is_space(s[k - 1]),
    ensures
        trim_end(s) == s.take(k),
    decreases s.len(),
{
    if k == s.len() {
        assert(s.take(k) =~= s);
    } else {
        assert forall|j: int| k <= j < s.len() - 1 implies is_space(s.drop_last()[j]) by {
            assert(s.drop_last()[j] == s[j]);
        }
        if k > 0 {
            assert(s.drop_last()[k - 1] == s[k - 1]);
        }
        lemma_trim_end(s.drop_last(), k);
        assert(s.drop_last().take(k) =~= s.take(k));
    }
}

/// The characters of `s`, in order.
pub fn chars_of(s: &str) -> (v: Vec<char>)
    ensures
        v@ == s@,
{
    let mut v: Vec<char> = Vec::new();
    for c in it: s.chars()
        invariant
            v@ == it.seq().take(it.index() as int),
    {
        v.push(c);
    }
    v
}

/// A string made of the characters `cs[from..to]`.
pub fn string_of(cs: &Vec<char>, from: usize, to: usize) -> (r: String)
    requires
        from <= to <= cs.len(),
    ensures
        r@ == cs@.subrange(from as int, to as int),
{
    let mut r = String::new();
    let mut i = from;
    while i < to
        invariant
            from <= i <= to <= cs.len(),
            r@ == cs@.subrange(from as int, i as int),
        decreases to - i,
    {
        r.push(cs[i]);
        i += 1;
        assert(r@ =~= cs@.subrange(from as int, i as int));
    }
    r
}

/// Whether `cs[a..b]` equals `lit`.
pub fn span_eq(cs: &Vec<char>, a: usize, b: usize, lit: &Vec<char>) -> (r: bool)
    requires
        a <= b <= cs.len(),
    ensures
        r == (cs@.subrange(a as int, b as int) == lit@),
{
    if b - a != lit.len() {
        assert(cs@.subrange(a as int, b as int).len() != lit@.len());
        return false;
    }
    let mut i: usize = 0;
    while i < lit.len()
        invariant
            b - a == lit.len(),
            a <= b <= cs.len(),
            0 <= i <= lit.len(),
            forall|j: int| 0 <= j < i ==> cs@[a + j] == lit@[j],
        decreases lit.len() - i,
    {
        if cs[a + i] != lit[i] {
            assert(cs@.subrange(a as int, b as int)[i as int] != lit@[i as int]);
            return false;
        }
        i += 1;
    }
    assert(cs@.subrange(a as int, b as int) =~= lit@);
    true
}

/// Whether `cs[a..b]` equals the text `lit`.
pub fn span_eq_str(cs: &Vec<char>, a: usize, b: usize, lit: &str) -> (r: bool)
    requires
        a <= b <= cs.len(),
    ensures
        r == (cs@.subrange(a as int, b as int) == lit@),
{
    let l = chars_of(lit);
    span_eq(cs, a, b, &l)
}

/// Whether two texts are equal.
pub fn str_eq(x: &str, y: &str) -> (r: bool)
    ensures
        r == (x@ == y@),
{
    let cx = chars_of(x);
    let cy = chars_of(y);
    proof {
        assert(cx@.subrange(0, cx@.len() as int) =~= cx@);
    }
    span_eq(&cx, 0, cx.len(), &cy)
}

/// Whether `cs[a..b]` begins with `lit`.
pub fn span_has_prefix(cs: &Vec<char>, a: usize, b: usize, lit: &str) -> (r: bool)
    requires
        a <= b <= cs.len(),
    ensures
        r == has_prefix(cs@.subrange(a as int, b as int), lit@),
{
    let l = chars_of(lit);
    if l.len() > b - a {
        return false;
    }
    let r = span_eq(cs, a, a + l.len(), &l);
    assert(cs@.subrange(a as int, b as int).take(l@.len() as int) =~= cs@.subrange(
        a as int,
        a + l@.len(),
    ));
    r
}

/// Whether `pat` occurs in `cs[a..b]`.
pub fn span_has_infix(cs: &Vec<char>, a: usize, b: usize, pat: &Vec<char>) -> (r: bool)
    requires
        a <= b <= cs.len(),
    ensures
        r == has_infix(cs@.subrange(a as int, b as int), pat@),
{
    let ghost s = cs@.subrange(a as int, b as int);
    if pat.len() > b - a {
        assert(!has_infix(s, pat@));
        return false;
    }
    let last = b - a - pat.len();
    let mut i: usize = 0;
    while i < last
        invariant
            a <= b <= cs.len(),
            pat.len() <= b - a,
            last == b - a - pat.len(),
            s == cs@.subrange(a as int, b as int),
            0 <= i <= last,
            forall|j: int| 0 <= j < i ==> #[trigger] s.subrange(j, j + pat@.len()) != pat@,
        decreases last - i,
    {
        assert(s.subrange(i as int, i + pat@.len()) =~= cs@.subrange(a + i, a + i + pat@.len()));
        if span_eq(cs, a + i, a + i + pat.len(), pat) {
            return true;
        }
        i += 1;
    }
    assert(s.subrange(last as int, last + pat@.len()) =~= cs@.subrange(
        a + last,
        a + last + pat@.len(),
    ));
    if span_eq(cs, a + last, a + last + pat.len(), pat) {
        return true;
    }
    assert(!has_infix(s, pat@)) by {
        if has_infix(s, pat@) {
            let j = choose|j: int|
                0 <= j && j + pat@.len() <= s.len() && #[trigger] s.subrange(j, j + pat@.len())
                    == pat@;
            assert(j <= last);
        }
    }
    false
}

/// Index of the first `c` in `cs[a..b]`, or `b` where there is none.
pub fn find_char(cs: &Vec<char>, a: usize, b: usize, c: char) -> (k: usize)
    requires
        a <= b <= cs.len(),
    ensures
        a <= k <= b,
        k - a == first_index(cs@.subrange(a as int, b as int), c),
{
    let mut k = a;
    while k < b && cs[k] != c
        invariant
            a <= k <= b <= cs.len(),
            forall|j: int| a <= j < k ==> cs@[j] != c,
        decreases b - k,
    {
        k += 1;
    }
    proof {
        let s = cs@.subrange(a as int, b as int);
        assert forall|j: int| 0 <= j < k - a implies s[j] != c by {
            assert(s[j] == cs@[a + j]);
        }
        lemma_first_index(s, c, k - a);
    }
    k
}

/// The span of `cs[a..b]` with leading and trailing whitespace left out.
pub fn trim_span(cs: &Vec<char>, a: usize, b: usize) -> (r: (usize, usize))
    requires
        a <= b <= cs.len(),
    ensures
        a <= r.0 <= r.1 <= b,
        cs@.subrange(r.0 as int, r.1 as int) == trim(cs@.subrange(a as int, b as int)),
{
    let mut x = a;
    while x < b && char_is_space(cs[x])
        invariant
            a <= x <= b <= cs.len(),
            forall|j: int| a <= j < x ==> is_space(cs@[j]),
        decreases b - x,
    {
        x += 1;
    }
    let mut y = b;
    while y > x && char_is_space(cs[y - 1])
        invariant
            a <= x <= y <= b <= cs.len(),
            forall|j: int| y <= j < b ==> is_space(cs@[j]),
        decreases y - x,
    {
        y -= 1;
    }
    proof {
        let s = cs@.subrange(a as int, b as int);
        assert forall|j: int| 0 <= j < x - a implies is_space(s[j]) by {
            assert(s[j] == cs@[a + j]);
        }
        if x < b {
            assert(s[x - a] == cs@[x as int]);
        }
        lemma_trim_start(s, x - a);
        let t = s.skip(x - a);
        assert(t =~= cs@.subrange(x as int, b as int));
        assert forall|j: int| y - x <= j < t.len() implies is_space(t[j]) by {
            assert(t[j] == cs@[x + j]);
        }
        if y > x {
            assert(t[y - x - 1] == cs@[y - 1]);
        }
        lemma_trim_end(t, y - x);
        assert(t.take(y - x) =~= cs@.subrange(x as int, y as int));
    }
    (x, y)
}

/// The spans of the pieces of `cs[a..b]` between separators `sep`.
pub fn split_spans(cs: &Vec<char>, a: usize, b: usize, sep: Sep) -> (r: Vec<(usize, usize)>)
    requires
        a <= b <= cs.len(),
    ensures
        spans_are(cs@, r@, pieces(cs@.subrange(a as int, b as int), sep)),
        forall|i: int| 0 <= i < r@.len() ==> a <= (#[trigger] r@[i]).0,
        forall|i: int| 0 <= i < r@.len() ==> (#[trigger] r@[i]).1 <= b,
{
    let mut out: Vec<(usize, usize)> = Vec::new();
    let mut st = a;
    let mut i = a;
    proof {
        assert(cs@.subrange(a as int, a as int) =~= Seq::<char>::empty());
        assert(pieces(Seq::<char>::empty(), sep).drop_last() =~= Seq::<Seq<char>>::empty());
    }
    while i < b
        invariant
            a <= st <= i <= b <= cs.len(),
            ({
                let p = pieces(cs@.subrange(a as int, i as int), sep);
                &&& p.len() >= 1
                &&& spans_are(cs@, out@, p.drop_last())
                &&& p.last() == cs@.subrange(st as int, i as int)
            }),
            forall|k: int| 0 <= k < out@.len() ==> a <= (#[trigger] out@[k]).0,
            forall|k: int| 0 <= k < out@.len() ==> (#[trigger] out@[k]).1 <= st,
        decreases b - i,
    {
        let ghost old_out = out@;
        let ghost p = pieces(cs@.subrange(a as int, i as int), sep);
        let ghost s2 = cs@.subrange(a as int, i + 1);
        proof {
            assert(s2.drop_last() =~= cs@.subrange(a as int, i as int));
            assert(s2.last() == cs@[i as int]);
        }
        if sep.matches(cs[i]) {
            out.push((st, i));
            st = i + 1;
            proof {
                let p2 = pieces(s2, sep);
                assert(p2 == p.push(Seq::<char>::empty()));
                assert(p2.drop_last() =~= p);
                assert(p =~= p.drop_last().push(p.last()));
                assert(cs@.subrange(st as int, i + 1) =~= Seq::<char>::empty());
                assert forall|k: int| 0 <= k < out@.len() implies {
                    &&& (#[trigger] out@[k]).0 <= out@[k].1 <= cs@.len()
                    &&& cs@.subrange(out@[k].0 as int, out@[k].1 as int) == p2.drop_last()[k]
                } by {
                    if k < old_out.len() {
                        assert(out@[k] == old_out[k]);
                    }
                }
            }
        } else {
            proof {
                let p2 = pieces(s2, sep);
                assert(p2 == p.update(p.len() - 1, p.last().push(cs@[i as int])));
                assert(p2.drop_last() =~= p.drop_last());
                assert(cs@.subrange(st as int, i + 1) =~= p.last().push(cs@[i as int]));
            }
        }
        i += 1;
    }
    let ghost old_out = out@;
    let ghost p = pieces(cs@.subrange(a as int, b as int), sep);
    out.push((st, b));
    proof {
        assert(p =~= p.drop_last().push(p.last()));
        assert forall|k: int| 0 <= k < out@.len() implies {
            &&& (#[trigger] out@[k]).0 <= out@[k].1 <= cs@.len()
            &&& cs@.subrange(out@[k].0 as int, out@[k].1 as int) == p[k]
        } by {
            if k < old_out.len() {
                assert(out@[k] == old_out[k]);
            }
        }
    }
    out
}

/// The spans of the whitespace-separated words of `cs[a..b]`.
pub fn word_spans(cs: &Vec<char>, a: usize, b: usize) -> (r: Vec<(usize, usize)>)
    requires
        a <= b <= cs.len(),
    ensures
        spans_are(cs@, r@, words(cs@.subrange(a as int, b as int))),
{
    let all = split_spans(cs, a, b, Sep::Space);
    let ghost ps = pieces(cs@.subrange(a as int, b as int), Sep::Space);
    let mut out: Vec<(usize, usize)> = Vec::new();
    let mut i: usize = 0;
    while i < all.len()
        invariant
            a <= b <= cs.len(),
            spans_are(cs@, all@, ps),
            0 <= i <= all.len(),
            spans_are(cs@, out@, keep_nonempty(ps.take(i as int))),
        decreases all.len() - i,
    {
        let ghost old_out = out@;
        proof {
            assert(ps.take(i + 1).drop_last() =~= ps.take(i as int));
            assert(ps.take(i + 1).last() == ps[i as int]);
        }
        let (x, y) = all[i];
        if x < y {
            out.push((x, y));
            proof {
                assert forall|k: int| 0 <= k < out@.len() implies {
                    &&& (#[trigger] out@[k]).0 <= out@[k].1 <= cs@.len()
                    &&& cs@.subrange(out@[k].0 as int, out@[k].1 as int) == keep_nonempty(
                        ps.take(i + 1),
                    )[k]
                } by {
                    if k < old_out.len() {
                        assert(out@[k] == old_out[k]);
                    }
                }
            }
        }
        i += 1;
    }
    assert(ps.take(all@.len() as int) =~= ps);
    out
}

/// The spans of the trimmed, non-blank lines of `cs`.
pub fn line_spans(cs: &Vec<char>) -> (r: Vec<(usize, usize)>)
    ensures
        spans_are(cs@, r@, nonblank_lines(cs@)),
{
    let all = split_spans(cs, 0, cs.len(), Sep::Char('\n'));
    let ghost ps = trim_each(pieces(cs@.subrange(0, cs@.len() as int), Sep::Char('\n')));
    assert(cs@.subrange(0, cs@.len() as int) =~= cs@);
    let mut out: Vec<(usize, usize)> = Vec::new();
    let mut i: usize = 0;
    while i < all.len()
        invariant
            ps.len() == all@.len(),
            forall|k: int|
                0 <= k < all@.len() ==> {
                    &&& (#[trigger] all@[k]).0 <= all@[k].1 <= cs@.len()
                    &&& trim(cs@.subrange(all@[k].0 as int, all@[k].1 as int)) == ps[k]
                },
            0 <= i <= all.len(),
            spans_are(cs@, out@, keep_nonempty(ps.take(i as int))),
        decreases all.len() - i,
    {
        let ghost old_out = out@;
        proof {
            assert(ps.take(i + 1).drop_last() =~= ps.take(i as int));
            assert(ps.take(i + 1).last() == ps[i as int]);
        }
        let (x0, y0) = all[i];
        let (x, y) = trim_span(cs, x0, y0);
        if x < y {
            out.push((x, y));
            proof {
                assert forall|k: int| 0 <= k < out@.len() implies {
                    &&& (#[trigger] out@[k]).0 <= out@[k].1 <= cs@.len()
                    &&& cs@.subrange(out@[k].0 as int, out@[k].1 as int) == keep_nonempty(
                        ps.take(i + 1),
                    )[k]
                } by {
                    if k < old_out.len() {
                        assert(out@[k] == old_out[k]);
                    }
                }
            }
        }
        i += 1;
    }
    assert(ps.take(all@.len() as int) =~= ps);
    out
}

/// Whether `c` is one of `'0'..='9'`.
pub open spec fn is_digit(c: char) -> bool {
    '0' <= c && c <= '9'
}

/// The number written in decimal by the digits `s`.
pub open spec fn digits_value(s: Seq<char>) -> int
    decreases s.len(),
{
    if s.len() == 0 {
        0
    } else {
        digits_value(s.drop_last()) * 10 + (s.last() as int - '0' as int)
    }
}

/// The unsigned number that `s` writes, if it writes one no larger than
/// `max`: an optional `'+'`, then one or more decimal digits (the text that
/// `str::parse` accepts for an unsigned integer type).
pub open spec fn parse_unsigned(s: Seq<char>, max: int) -> Option<int> {
    let d = unsigned_digits(s);
    if d.len() > 0 && all_digits(d) && digits_value(d) <= max {
        Some(digits_value(d))
    } else {
        None
    }
}

/// `s` without one leading `'+'`.
pub open spec fn unsigned_digits(s: Seq<char>) -> Seq<char> {
    if s.len() > 0 && s[0] == '+' {
        s.drop_first()
    } else {
        s
    }
}

/// Whether every character of `d` is a decimal digit.
pub open spec fn all_digits(d: Seq<char>) -> bool {
    forall|i: int| 0 <= i < d.len() ==> is_digit(#[trigger] d[i])
}

proof fn lemma_parse_narrow(s: Seq<char>, m1: int, m2: int)
    requires
        m1 <= m2,
    ensures
        parse_unsigned(s, m1) == match parse_unsigned(s, m2) {
            Some(v) => if v <= m1 {
                Some(v)
            } else {
                None
            },
            None => None,
        },
{
}

/// `s` read as a `u64` (`str::parse::<u64>`).
pub open spec fn parsed_u64(s: Seq<char>) -> Option<u64> {
    match parse_unsigned(s, u64::MAX as int) {
        Some(v) => Some(v as u64),
        None => None,
    }
}

/// `s` read as a `u32` (`str::parse::<u32>`).
pub open spec fn parsed_u32(s: Seq<char>) -> Option<u32> {
    match parse_unsigned(s, u32::MAX as int) {
        Some(v) => Some(v as u32),
        None => None,
    }
}

proof fn lemma_digits_value_grows(s: Seq<char>, k: int)
    requires
        0 <= k <= s.len(),
        forall|i: int| 0 <= i < s.len() ==> is_digit(#[trigger] s[i]),
    ensures
        0 <= digits_value(s.take(k)) <= digits_value(s),
    decreases s.len(),
{
    if s.len() > 0 {
        assert forall|i: int| 0 <= i < s.drop_last().len() implies is_digit(
            #[trigger] s.drop_last()[i],
        ) by {
            assert(s.drop_last()[i] == s[i]);
        }
        if k == s.len() {
            assert(s.take(k) =~= s);
            lemma_digits_value_grows(s.drop_last(), 0);
        } else {
            lemma_digits_value_grows(s.drop_last(), k);
            assert(s.drop_last().take(k) =~= s.take(k));
        }
        assert(is_digit(s.last()));
    } else {
        assert(s.take(k) =~= s);
    }
}

/// The unsigned number written in `cs[a..b]`, if it is one no larger than
/// `u64::MAX` (`str::parse::<u64>`).
pub fn parse_u64_span(cs: &Vec<char>, a: usize, b: usize) -> (r: Option<u64>)
    requires
        a <= b <= cs.len(),
    ensures
        r == parsed_u64(cs@.subrange(a as int, b as int)),
{
    let ghost s = cs@.subrange(a as int, b as int);
    let mut x = a;
    if a < b && cs[a] == '+' {
        x = a + 1;
    }
    let ghost d = cs@.subrange(x as int, b as int);
    assert(d =~= unsigned_digits(s));
    if x == b {
        return None;
    }
    let mut acc: u64 = 0;
    let mut i = x;
    while i < b
        invariant
            a <= x <= i <= b <= cs.len(),
            x < b,
            s == cs@.subrange(a as int, b as int),
            d == cs@.subrange(x as int, b as int),
            d == unsigned_digits(s),
            forall|j: int| x <= j < i ==> is_digit(#[trigger] cs@[j]),
            acc == digits_value(cs@.subrange(x as int, i as int)),
        decreases b - i,
    {
        let c = cs[i];
        if !('0' <= c && c <= '9') {
            assert(!is_digit(d[i - x]));
            assert(!all_digits(d));
            assert(parse_unsigned(s, u64::MAX as int) is None);
            return None;
        }
        let dv: u64 = (c as u32 - '0' as u32) as u64;
        proof {
            let t = cs@.subrange(x as int, i + 1);
            assert(t.drop_last() =~= cs@.subrange(x as int, i as int));
            assert(t.last() == c);
        }
        if acc > (u64::MAX - dv) / 10 {
            proof {
                assert(acc * 10 + dv > u64::MAX) by (nonlinear_arith)
                    requires
                        acc > (u64::MAX - dv) / 10,
                        dv <= 9,
                ;
                let t = cs@.subrange(x as int, i + 1);
                assert(digits_value(t) == acc * 10 + dv);
                if all_digits(d) {
                    lemma_digits_value_grows(d, i + 1 - x);
                    assert(d.take(i + 1 - x) =~= t);
                }
                assert(parse_unsigned(s, u64::MAX as int) is None);
            }
            return None;
        }
        proof {
            assert(acc * 10 + dv <= u64::MAX) by (nonlinear_arith)
                requires
                    acc <= (u64::MAX - dv) / 10,
                    dv <= 9,
            ;
        }
        acc = acc * 10 + dv;
        i += 1;
    }
    assert(cs@.subrange(x as int, b as int) =~= d);
    assert forall|j: int| 0 <= j < d.len() implies is_digit(#[trigger] d[j]) by {
        assert(d[j] == cs@[x + j]);
    }
    Some(acc)
}

/// The unsigned number written in `cs[a..b]`, if it is one no larger than
/// `u32::MAX` (`str::parse::<u32>`).
pub fn parse_u32_span(cs: &Vec<char>, a: usize, b: usize) -> (r: Option<u32>)
    requires
        a <= b <= cs.len(),
    ensures
        r == parsed_u32(cs@.subrange(a as int, b as int)),
{
    proof {
        let s = cs@.subrange(a as int, b as int);
        lemma_parse_narrow(s, u32::MAX as int, u64::MAX as int);
        if all_digits(unsigned_digits(s)) {
            lemma_digits_value_grows(unsigned_digits(s), 0);
        }
    }
    match parse_u64_span(cs, a, b) {
        Some(v) => {
            if v <= u32::MAX as u64 {
                Some(v as u32)
            } else {
                None
            }
        },
        None => None,
    }
}

/// The decimal digits of `n`, most significant first.
pub open spec fn decimal(n: nat) -> Seq<char>
    decreases n,
{
    if n < 10 {
        seq![digit_char(n)]
    } else {
        decimal(n / 10).push(digit_char(n % 10))
    }
}

/// The character of the digit `d` in hexadecimal, lower case.
pub open spec fn digit_char(d: nat) -> char {
    seq!['0', '1', '2', '3', '4', '5', '6', '7', '8', '9', 'a', 'b', 'c', 'd', 'e', 'f'][d as int]
}

fn digit(d: u32) -> (c: char)
    requires
        d < 16,
    ensures
        c == digit_char(d as nat),
{
    let table: [char; 16] = ['0', '1', '2', '3', '4', '5', '6', '7', '8', '9', 'a', 'b', 'c', 'd', 'e', 'f'];
    assert(table@ =~= seq!['0', '1', '2', '3', '4', '5', '6', '7', '8', '9', 'a', 'b', 'c', 'd', 'e', 'f']);
    table[d as usize]
}

/// Appends the decimal digits of `n` to `s`.
pub fn push_decimal(s: &mut String, n: u64)
    ensures
        final(s)@ == old(s)@ + decimal(n as nat),
    decreases n,
{
    if n >= 10 {
        push_decimal(s, n / 10);
    }
    s.push(digit((n % 10) as u32));
    proof {
        if n < 10 {
            assert(n % 10 == n);
        }
    }
}

/// The two lower-case hexadecimal digits of `b`.
pub open spec fn hex2(b: u8) -> Seq<char> {
    seq![digit_char((b / 16) as nat), digit_char((b % 16) as nat)]
}

/// Appends the two lower-case hexadecimal digits of `b` to `s`.
pub fn push_hex2(s: &mut String, b: u8)
    ensures
        final(s)@ == old(s)@ + hex2(b),
{
    s.push(digit((b / 16) as u32));
    s.push(digit((b % 16) as u32));
}

/// Appends `t` to `s`.
pub fn push_str(s: &mut String, t: &str)
    ensures
        final(s)@ == old(s)@ + t@,
{
    let cs = chars_of(t);
    let ghost s0 = s@;
    let mut i: usize = 0;
    while i < cs.len()
        invariant
            0 <= i <= cs.len(),
            cs@ == t@,
            s@ == s0 + cs@.take(i as int),
        decreases cs.len() - i,
    {
        s.push(cs[i]);
        i += 1;
        assert(s@ =~= s0 + cs@.take(i as int));
    }
    assert(cs@.take(cs@.len() as int) =~= cs@);
}

/// Index of the first whitespace character in `s`, or `s.len()`.
pub open spec fn first_space(s: Seq<char>) -> int
    decreases s.len(),
{
    if s.len() == 0 {
        0
    } else if is_space(s[0]) {
        0
    } else {
        1 + first_space(s.drop_first())
    }
}

proof fn lemma_first_space(s: Seq<char>, k: int)
    requires
        0 <= k <= s.len(),
        forall|j: int| 0 <= j < k ==> !is_space(s[j]),
        k == s.len() || is_space(s[k]),
    ensures
        first_space(s) == k,
    decreases s.len(),
{
    if s.len() > 0 && k > 0 {
        assert forall|j: int| 0 <= j < k - 1 implies !is_space(s.drop_first()[j]) by {
            assert(s.drop_first()[j] == s[j + 1]);
        }
        lemma_first_space(s.drop_first(), k - 1);
    }
}

/// Index of the first whitespace character in `cs[a..b]`, or `b`.
pub fn find_space(cs: &Vec<char>, a: usize, b: usize) -> (k: usize)
    requires
        a <= b <= cs.len(),
    ensures
        a <= k <= b,
        k - a == first_space(cs@.subrange(a as int, b as int)),
{
    let mut k = a;
    while k < b && !char_is_space(cs[k])
        invariant
            a <= k <= b <= cs.len(),
            forall|j: int| a <= j < k ==> !is_space(cs@[j]),
        decreases b - k,
    {
        k += 1;
    }
    proof {
        let s = cs@.subrange(a as int, b as int);
        assert forall|j: int| 0 <= j < k - a implies !is_space(s[j]) by {
            assert(s[j] == cs@[a + j]);
        }
        lemma_first_space(s, k - a);
    }
    k
}

/// `a` comes no later than `b` in lexicographic order of code points (the
/// order of `String`'s `Ord`, which compares the UTF-8 bytes).
pub open spec fn text_le(a: Seq<char>, b: Seq<char>) -> bool
    decreases a.len(),
{
    if a.len() == 0 {
        true
    } else if b.len() == 0 {
        false
    } else if a[0] != b[0] {
        a[0] < b[0]
    } else {
        text_le(a.drop_first(), b.drop_first())
    }
}

pub(crate) proof fn lemma_text_le_total(a: Seq<char>, b: Seq<char>)
    ensures
        text_le(a, b) || text_le(b, a),
    decreases a.len(),
{
    if a.len() > 0 && b.len() > 0 && a[0] == b[0] {
        lemma_text_le_total(a.drop_first(), b.drop_first());
    }
}

pub(crate) proof fn lemma_text_le_trans(a: Seq<char>, b: Seq<char>, c: Seq<char>)
    requires
        text_le(a, b),
        text_le(b, c),
    ensures
        text_le(a, c),
    decreases a.len(),
{
    if a.len() > 0 && b.len() > 0 && c.len() > 0 && a[0] == b[0] && b[0] == c[0] {
        lemma_text_le_trans(a.drop_first(), b.drop_first(), c.drop_first());
    }
}

pub(crate) proof fn lemma_text_le_refl(a: Seq<char>)
    ensures
        text_le(a, a),
    decreases a.len(),
{
    if a.len() > 0 {
        lemma_text_le_refl(a.drop_first());
    }
}

/// Whether `a` comes no later than `b` in lexicographic order.
pub fn str_le(a: &str, b: &str) -> (r: bool)
    ensures
        r == text_le(a@, b@),
{
    let ca = chars_of(a);
    let cb = chars_of(b);
    let mut i: usize = 0;
    assert(ca@.skip(0) =~= ca@);
    assert(cb@.skip(0) =~= cb@);
    while i < ca.len() && i < cb.len() && ca[i] == cb[i]
        invariant
            0 <= i <= ca@.len(),
            i <= cb@.len(),
            text_le(ca@, cb@) == text_le(ca@.skip(i as int), cb@.skip(i as int)),
        decreases ca@.len() - i,
    {
        assert(ca@.skip(i as int).drop_first() =~= ca@.skip(i + 1));
        assert(cb@.skip(i as int).drop_first() =~= cb@.skip(i + 1));
        i += 1;
    }
    if i == ca.len() {
        true
    } else if i == cb.len() {
        false
    } else {
        ca[i] < cb[i]
    }
}

/// The texts of `v` are in lexicographic order.
pub open spec fn texts_sorted(v: Seq<String>) -> bool {
    forall|i: int, j: int| 0 <= i < j < v.len() ==> text_le((#[trigger] v[i])@, (#[trigger] v[j])@)
}

/// `v`, sorted by text (`slice::sort` on `String`s).
pub fn sort_texts(v: Vec<String>) -> (r: Vec<String>)
    ensures
        texts_sorted(r@),
        r@.to_multiset() == v@.to_multiset(),
{
    let mut r: Vec<String> = Vec::new();
    let mut i: usize = 0;
    proof {
        assert(v@.take(0) =~= Seq::<String>::empty());
        assert(r@ =~= Seq::<String>::empty());
    }
    while i < v.len()
        invariant
            0 <= i <= v@.len(),
            texts_sorted(r@),
            r@.to_multiset() == v@.take(i as int).to_multiset(),
        decreases v@.len() - i,
    {
        let x = v[i].clone();
        let mut p: usize = 0;
        while p < r.len() && str_le(r[p].as_str(), x.as_str())
            invariant
                0 <= p <= r@.len(),
                forall|j: int| 0 <= j < p ==> text_le((#[trigger] r@[j])@, x@),
            decreases r@.len() - p,
        {
            p += 1;
        }
        let ghost r0 = r@;
        proof {
            if p < r0.len() {
                lemma_text_le_total(r0[p as int]@, x@);
            }
            vstd::seq_lib::to_multiset_insert(r0, p as int, x);
            assert(v@.take(i + 1) =~= v@.take(i as int).push(v@[i as int]));
            vstd::seq_lib::to_multiset_build(v@.take(i as int), v@[i as int]);
        }
        r.insert(p, x);
        proof {
            assert(r@ == r0.insert(p as int, x));
            assert forall|a: int, b: int| 0 <= a < b < r@.len() implies text_le(
                (#[trigger] r@[a])@,
                (#[trigger] r@[b])@,
            ) by {
                if b < p {
                    assert(r@[a] == r0[a] && r@[b] == r0[b]);
                } else if b == p {
                    assert(r@[a] == r0[a]);
                } else if a == p {
                    assert(r@[b] == r0[b - 1]);
                    if b - 1 > p {
                        assert(text_le(r0[p as int]@, r0[b - 1]@));
                        lemma_text_le_trans(x@, r0[p as int]@, r0[b - 1]@);
                    }
                } else if a < p {
                    assert(r@[a] == r0[a] && r@[b] == r0[b - 1]);
                } else {
                    assert(r@[a] == r0[a - 1] && r@[b] == r0[b - 1]);
                }
            }
        }
        i += 1;
    }
    assert(v@.take(v@.len() as int) =~= v@);
    r
}

} // verus!
