use vstd::prelude::*;

verus! {

/// What `str::to_lowercase` makes of a text.
pub uninterp spec fn lower_of(s: Seq<char>) -> Seq<char>;

/// Whether a character has the Unicode White_Space property (what
/// `char::is_whitespace` tests): tab to carriage return, space, next line,
/// no-break space, ogham space mark, the spaces from en quad to hair space,
/// line and paragraph separators, narrow no-break space, medium mathematical
/// space and ideographic space.
pub open spec fn is_space(c: char) -> bool {
    ('\u{9}' <= c && c <= '\u{D}') || c == ' ' || c == '\u{85}' || c == '\u{A0}' || c == '\u{1680}'
        || ('\u{2000}' <= c && c <= '\u{200A}') || c == '\u{2028}' || c == '\u{2029}' || c == '\u{202F}'
        || c == '\u{205F}' || c == '\u{3000}'
}

/// Relies on str::to_lowercase: the lower-case form of a text depends on
/// its characters alone.
#[verifier::external_body]
pub(crate) fn lowercase(s: &str) -> (r: String)
    ensures
        r@ == lower_of(s@),
{
    s.to_lowercase()
}

/// Whether `c` is white space (Unicode White_Space).
pub fn is_whitespace(c: char) -> (r: bool)
    ensures
        r == is_space(c),
{
    ('\u{9}' <= c && c <= '\u{D}') || c == ' ' || c == '\u{85}' || c == '\u{A0}' || c == '\u{1680}'
        || ('\u{2000}' <= c && c <= '\u{200A}') || c == '\u{2028}' || c == '\u{2029}' || c == '\u{202F}'
        || c == '\u{205F}' || c == '\u{3000}'
}

/// Relies on std's `FromIterator<char>` for `String`: the string holds the
/// characters in order.
#[verifier::external_body]
pub(crate) fn string_of(cs: &[char]) -> (r: String)
    ensures
        r@ == cs@,
{
    cs.iter().collect()
}

/// The characters of `s`, one by one.
pub fn chars_of(s: &str) -> (r: Vec<char>)
    ensures
        r@ == s@,
{
    let mut r: Vec<char> = Vec::new();
    for c in it: s.chars()
        invariant
            r@ == it.history(),
            it.seq() == s@,
    {
        r.push(c);
    }
    r
}

/// A text split at each line feed; the line feeds themselves are dropped.
/// A text of n line feeds has n + 1 lines (the last may be empty).
pub open spec fn lines(s: Seq<char>) -> Seq<Seq<char>>
    decreases s.len(),
{
    if s.len() == 0 {
        seq![Seq::<char>::empty()]
    } else {
        let before = lines(s.drop_last());
        if s.last() == '\n' {
            before.push(Seq::<char>::empty())
        } else {
            before.update(before.len() - 1, before.last().push(s.last()))
        }
    }
}

/// Whether `k` stands in `t` at position `j`.
pub open spec fn occurs_at(k: Seq<char>, t: Seq<char>, j: int) -> bool {
    0 <= j && j + k.len() <= t.len() && t.subrange(j, j + k.len()) == k
}

/// The number of positions below `n` at which `k` stands in `t`.
pub open spec fn occurrences_below(k: Seq<char>, t: Seq<char>, n: int) -> nat
    decreases n,
{
    if n <= 0 {
        0
    } else {
        occurrences_below(k, t, n - 1) + if occurs_at(k, t, n - 1) {
            1nat
        } else {
            0nat
        }
    }
}

/// The number of (possibly overlapping) occurrences of `k` in `t`.
pub open spec fn occurrences(k: Seq<char>, t: Seq<char>) -> nat {
    occurrences_below(k, t, t.len() as int)
}

proof fn lemma_occurrences_below_bound(k: Seq<char>, t: Seq<char>, n: int)
    ensures
        occurrences_below(k, t, n) <= if n < 0 { 0 } else { n },
    decreases n,
{
    if n > 0 {
        lemma_occurrences_below_bound(k, t, n - 1);
    }
}

/// Whether `k` stands in `t` at position `j`.
pub fn stands_at(k: &Vec<char>, t: &Vec<char>, j: usize) -> (r: bool)
    requires
        j <= t@.len(),
    ensures
        r == occurs_at(k@, t@, j as int),
{
    if k.len() > t.len() - j {
        return false;
    }
    let mut i: usize = 0;
    while i < k.len()
        invariant
            j + k.len() <= t.len(),
            i <= k@.len(),
            forall|m: int| 0 <= m < i ==> t@[j + m] == k@[m],
        decreases k@.len() - i,
    {
        if t[j + i] != k[i] {
            assert(t@.subrange(j as int, j + k@.len())[i as int] != k@[i as int]);
            return false;
        }
        i = i + 1;
    }
    assert(t@.subrange(j as int, j + k@.len()) =~= k@);
    true
}

/// The number of occurrences of `k` in `t`.
pub fn count_occurrences(k: &Vec<char>, t: &Vec<char>) -> (r: usize)
    ensures
        r == occurrences(k@, t@),
{
    let mut n: usize = 0;
    let mut j: usize = 0;
    while j < t.len()
        invariant
            j <= t@.len(),
            n == occurrences_below(k@, t@, j as int),
        decreases t@.len() - j,
    {
        proof {
            lemma_occurrences_below_bound(k@, t@, j as int);
        }
        if stands_at(k, t, j) {
            n = n + 1;
        }
        j = j + 1;
    }
    n
}

/// Whether every character of `s` is white space.
pub open spec fn blank(s: Seq<char>) -> bool {
    forall|i: int| 0 <= i < s.len() ==> is_space(#[trigger] s[i])
}

/// Whether `s` holds nothing but white space (true of the empty text).
pub fn is_blank(s: &str) -> (r: bool)
    ensures
        r == blank(s@),
{
    let cs = chars_of(s);
    let mut i: usize = 0;
    while i < cs.len()
        invariant
            cs@ == s@,
            i <= cs@.len(),
            forall|m: int| 0 <= m < i ==> is_space(#[trigger] cs@[m]),
        decreases cs@.len() - i,
    {
        if !is_whitespace(cs[i]) {
            return false;
        }
        i = i + 1;
    }
    true
}

/// Whether `s` begins with `p`.
pub open spec fn has_prefix(s: Seq<char>, p: Seq<char>) -> bool {
    p.len() <= s.len() && s.subrange(0, p.len() as int) == p
}

/// Whether `s` begins with `p`.
pub fn starts_with(s: &Vec<char>, p: &Vec<char>) -> (r: bool)
    ensures
        r == has_prefix(s@, p@),
{
    let r = stands_at(p, s, 0);
    r
}

/// Whether `c` separates tokens: white space always, and with `punct` also
/// `,`, `;` and `"`.
pub open spec fn is_sep(c: char, punct: bool) -> bool {
    is_space(c) || (punct && (c == ',' || c == ';' || c == '"'))
}

/// The tokens of a text: its longest runs of non-separator characters, in
/// order.
pub open spec fn tokens(s: Seq<char>, punct: bool) -> Seq<Seq<char>>
    decreases s.len(),
{
    if s.len() == 0 {
        Seq::<Seq<char>>::empty()
    } else {
        let before = tokens(s.drop_last(), punct);
        if is_sep(s.last(), punct) {
            before
        } else if s.len() >= 2 && !is_sep(s[s.len() - 2], punct) {
            before.update(before.len() - 1, before.last().push(s.last()))
        } else {
            before.push(seq![s.last()])
        }
    }
}

/// The words of a text: its longest runs of non-space characters.
pub open spec fn words(s: Seq<char>) -> Seq<Seq<char>> {
    tokens(s, false)
}

proof fn lemma_tokens_last(s: Seq<char>, punct: bool)
    requires
        s.len() >= 1,
        !is_sep(s.last(), punct),
    ensures
        tokens(s, punct).len() >= 1,
    decreases s.len(),
{
    if s.len() >= 2 && !is_sep(s[s.len() - 2], punct) {
        lemma_tokens_last(s.drop_last(), punct);
    }
}

/// Whether `c` separates tokens.
fn separates(c: char, punct: bool) -> (r: bool)
    ensures
        r == is_sep(c, punct),
{
    is_whitespace(c) || (punct && (c == ',' || c == ';' || c == '"'))
}

/// The tokens of `s`, split at separators.
pub fn split_tokens(s: &str, punct: bool) -> (r: Vec<String>)
    ensures
        r@.len() == tokens(s@, punct).len(),
        forall|i: int| 0 <= i < r@.len() ==> #[trigger] r@[i]@ == tokens(s@, punct)[i],
{
    let cs = chars_of(s);
    let mut out: Vec<String> = Vec::new();
    let mut cur: Vec<char> = Vec::new();
    let mut i: usize = 0;
    while i < cs.len()
        invariant
            cs@ == s@,
            i <= cs@.len(),
            cur@.len() > 0 ==> i > 0 && !is_sep(cs@[i - 1], punct),
            i > 0 && !is_sep(cs@[i - 1], punct) ==> cur@.len() > 0,
            cur@.len() == 0 ==> out@.len() == tokens(cs@.take(i as int), punct).len(),
            cur@.len() > 0 ==> out@.len() + 1 == tokens(cs@.take(i as int), punct).len()
                && tokens(cs@.take(i as int), punct).last() == cur@,
            forall|m: int| 0 <= m < out@.len() ==> #[trigger] out@[m]@ == tokens(cs@.take(i as int), punct)[m],
        decreases cs@.len() - i,
    {
        let c = cs[i];
        let ghost pre = cs@.take(i as int);
        let ghost next = cs@.take(i + 1);
        assert(next.drop_last() =~= pre);
        assert(next.last() == c);
        if separates(c, punct) {
            if cur.len() > 0 {
                let w = string_of(cur.as_slice());
                out.push(w);
                cur = Vec::new();
            }
        } else {
            proof {
                if i >= 1 {
                    assert(next[next.len() - 2] == cs@[i - 1]);
                }
                lemma_tokens_last(next, punct);
            }
            cur.push(c);
        }
        i = i + 1;
    }
    assert(cs@.take(cs@.len() as int) =~= cs@);
    if cur.len() > 0 {
        let w = string_of(cur.as_slice());
        out.push(w);
    }
    out
}

} // verus!

verus! {

/// `a` followed by `b`.
pub fn concat(a: &str, b: &str) -> (r: String)
    ensures
        r@ == a@ + b@,
{
    let s = String::from_str(a);
    s.concat(b)
}

} // verus!
