//! Searching in character sequences and splitting text into lines, stated as
//! `str::contains`, `str::starts_with`, `str::find`, `str::split` and `str::lines` behave.
use vstd::prelude::*;
use crate::text::{slice_chars, is_ws, is_whitespace};

verus! {

/// `p` occurs in `h` at position `i`.
pub open spec fn occurs_at(h: Seq<char>, p: Seq<char>, i: int) -> bool {
    0 <= i && i + p.len() <= h.len() && h.subrange(i, i + p.len()) == p
}

/// The first position at or after `i` where `p` occurs in `h`, or `-1`.
pub open spec fn find_from(h: Seq<char>, p: Seq<char>, i: int) -> int
    decreases h.len() + 1 - i,
{
    if i < 0 || i + p.len() > h.len() {
        -1
    } else if occurs_at(h, p, i) {
        i
    } else {
        find_from(h, p, i + 1)
    }
}

/// `h` contains `p` (`str::contains`).
pub open spec fn contains(h: Seq<char>, p: Seq<char>) -> bool {
    find_from(h, p, 0) >= 0
}

/// `h` starts with `p` (`str::starts_with`).
pub open spec fn starts_with(h: Seq<char>, p: Seq<char>) -> bool {
    occurs_at(h, p, 0)
}

pub proof fn lemma_find_from(h: Seq<char>, p: Seq<char>, i: int)
    requires
        0 <= i,
    ensures
        find_from(h, p, i) == -1 || (i <= find_from(h, p, i) && occurs_at(h, p, find_from(h, p, i))),
        forall|k: int| i <= k && (find_from(h, p, i) == -1 || k < find_from(h, p, i)) ==> !occurs_at(h, p, k),
    decreases h.len() + 1 - i,
{
    if i + p.len() > h.len() {
    } else if occurs_at(h, p, i) {
    } else {
        lemma_find_from(h, p, i + 1);
    }
}

/// Whether `p` occurs in `h` at `i`.
pub fn occurs_at_exec(h: &Vec<char>, p: &Vec<char>, i: usize) -> (b: bool)
    ensures
        b == occurs_at(h@, p@, i as int),
{
    if i > h.len() || p.len() > h.len() - i {
        return false;
    }
    let mut k: usize = 0;
    while k < p.len()
        invariant
            i + p.len() <= h.len(),
            k <= p.len(),
            forall|j: int| 0 <= j < k ==> h@[i + j] == p@[j],
        decreases p.len() - k,
    {
        if h[i + k] != p[k] {
            assert(h@.subrange(i as int, i + p.len())[k as int] != p@[k as int]);
            return false;
        }
        k = k + 1;
    }
    assert(h@.subrange(i as int, i + p.len()) =~= p@);
    true
}

/// The first position at or after `i` where `p` occurs in `h`.
pub fn find_from_exec(h: &Vec<char>, p: &Vec<char>, i: usize) -> (r: Option<usize>)
    ensures
        match r {
            Some(k) => k == find_from(h@, p@, i as int),
            None => find_from(h@, p@, i as int) == -1,
        },
{
    let mut k = i;
    while k <= h.len() && p.len() <= h.len() - k
        invariant
            i <= k,
            find_from(h@, p@, i as int) == find_from(h@, p@, k as int),
        decreases h.len() + 1 - k,
    {
        if occurs_at_exec(h, p, k) {
            return Some(k);
        }
        if k == h.len() {
            proof {
                assert(h@.subrange(k as int, k as int) =~= p@);
            }
            return None;
        }
        k = k + 1;
    }
    None
}

/// `str::contains`.
pub fn contains_exec(h: &Vec<char>, p: &Vec<char>) -> (b: bool)
    ensures
        b == contains(h@, p@),
{
    match find_from_exec(h, p, 0) {
        Some(_) => true,
        None => false,
    }
}

/// `str::starts_with`.
pub fn starts_with_exec(h: &Vec<char>, p: &Vec<char>) -> (b: bool)
    ensures
        b == starts_with(h@, p@),
{
    occurs_at_exec(h, p, 0)
}

// ---------------------------------------------------------------------------
// Lines
// ---------------------------------------------------------------------------

/// `l` without one trailing carriage return.
pub open spec fn strip_cr(l: Seq<char>) -> Seq<char> {
    if l.len() > 0 && l.last() == '\r' {
        l.drop_last()
    } else {
        l
    }
}

/// The lines of `s` as `str::lines` yields them: split after each `'\n'`, the
/// terminator and one `'\r'` before it removed, no empty line after a final `'\n'`.
pub open spec fn lines(s: Seq<char>) -> Seq<Seq<char>>
    decreases s.len(),
{
    if s.len() == 0 {
        Seq::empty()
    } else {
        let n = find_from(s, seq!['\n'], 0);
        if n < 0 {
            seq![s]
        } else {
            proof {
                lemma_find_from(s, seq!['\n'], 0);
            }
            seq![strip_cr(s.take(n))] + lines(s.skip(n + 1))
        }
    }
}

proof fn lemma_find_newline_skip(s: Seq<char>, start: int, i: int)
    requires
        0 <= start <= i <= s.len(),
        forall|k: int| start <= k < i ==> s[k] != '\n',
    ensures
        i < s.len() && s[i] == '\n' ==> find_from(s.skip(start), seq!['\n'], 0) == i - start,
        i == s.len() ==> find_from(s.skip(start), seq!['\n'], 0) == -1,
{
    let t = s.skip(start);
    let nl = seq!['\n'];
    lemma_find_from(t, nl, 0);
    let f = find_from(t, nl, 0);
    if f >= 0 {
        assert(t.subrange(f, f + 1)[0] == '\n');
        assert(t[f] == '\n');
        assert(f >= i - start);
    }
    if i < s.len() && s[i] == '\n' {
        assert(t.subrange(i - start, i - start + 1) =~= nl);
        assert(occurs_at(t, nl, i - start));
    }
}

/// The views of a sequence of character vectors.
pub open spec fn views(v: Seq<Vec<char>>) -> Seq<Seq<char>> {
    v.map_values(|l: Vec<char>| l@)
}

/// The lines of `s` (`str::lines`).
pub fn split_lines(s: &Vec<char>) -> (res: Vec<Vec<char>>)
    ensures
        views(res@) == lines(s@),
{
    let mut res: Vec<Vec<char>> = Vec::new();
    proof {
        assert(s@.skip(0) =~= s@);
        assert(views(res@) + lines(s@) =~= lines(s@));
    }
    let mut start: usize = 0;
    let mut i: usize = 0;
    while i < s.len()
        invariant
            start <= i <= s.len(),
            forall|k: int| start <= k < i ==> s@[k] != '\n',
            lines(s@) == views(res@) + lines(s@.skip(start as int)),
        decreases s.len() - i,
    {
        if s[i] == '\n' {
            proof {
                lemma_find_newline_skip(s@, start as int, i as int);
                let t = s@.skip(start as int);
                assert(t.take(i - start) =~= s@.subrange(start as int, i as int));
                assert(t.skip(i - start + 1) =~= s@.skip(i + 1));
            }
            let mut line = slice_chars(s, start, i);
            if line.len() > 0 && line[line.len() - 1] == '\r' {
                line.pop();
            }
            let ghost before = views(res@);
            res.push(line);
            proof {
                assert(views(res@) =~= before.push(strip_cr(s@.subrange(start as int, i as int))));
                assert(before.push(strip_cr(s@.subrange(start as int, i as int))) + lines(s@.skip(i + 1))
                    =~= before + (seq![strip_cr(s@.subrange(start as int, i as int))] + lines(s@.skip(i + 1))));
            }
            start = i + 1;
        }
        i = i + 1;
    }
    proof {
        lemma_find_newline_skip(s@, start as int, i as int);
    }
    if start < s.len() {
        let line = slice_chars(s, start, s.len());
        let ghost before = views(res@);
        res.push(line);
        proof {
            assert(s@.subrange(start as int, s.len() as int) =~= s@.skip(start as int));
            assert(views(res@) =~= before + seq![s@.skip(start as int)]);
        }
    } else {
        proof {
            assert(s@.skip(start as int).len() == 0);
            assert(views(res@) + Seq::<Seq<char>>::empty() =~= views(res@));
        }
    }
    res
}

} // verus!

verus! {

// ---------------------------------------------------------------------------
// Prefixes, words and numbers
// ---------------------------------------------------------------------------

/// `s` with every leading repetition of the non-empty `p` removed (`str::trim_start_matches`).
pub open spec fn strip_prefix_all(s: Seq<char>, p: Seq<char>) -> Seq<char>
    decreases s.len(),
{
    if p.len() > 0 && starts_with(s, p) {
        strip_prefix_all(s.skip(p.len() as int), p)
    } else {
        s
    }
}

/// `str::trim_start_matches` with a non-empty pattern.
pub fn strip_prefix_all_exec(s: &Vec<char>, p: &Vec<char>) -> (res: Vec<char>)
    requires
        p.len() > 0,
    ensures
        res@ == strip_prefix_all(s@, p@),
{
    let mut i: usize = 0;
    proof {
        assert(s@.skip(0) =~= s@);
    }
    while i <= s.len() && occurs_at_exec(s, p, i)
        invariant
            i <= s.len(),
            p.len() > 0,
            strip_prefix_all(s@, p@) == strip_prefix_all(s@.skip(i as int), p@),
        decreases s.len() - i,
    {
        proof {
            let t = s@.skip(i as int);
            assert(t.subrange(0, p.len() as int) =~= s@.subrange(i as int, i + p.len()));
            assert(t.skip(p.len() as int) =~= s@.skip(i + p.len()));
        }
        i = i + p.len();
    }
    proof {
        let t = s@.skip(i as int);
        if p.len() <= t.len() {
            assert(t.subrange(0, p.len() as int) =~= s@.subrange(i as int, i + p.len()));
        }
    }
    slice_chars(s, i, s.len())
}

/// Whether `c` is an ASCII digit.
pub open spec fn is_digit(c: char) -> bool {
    '0' <= c && c <= '9'
}

/// The value of the decimal digits `d`.
pub open spec fn digits_value(d: Seq<char>) -> nat
    decreases d.len(),
{
    if d.len() == 0 {
        0
    } else {
        digits_value(d.drop_last()) * 10 + ((d.last() as u32) - ('0' as u32)) as nat
    }
}

/// `s` without one leading `'+'`.
pub open spec fn unsigned_digits(s: Seq<char>) -> Seq<char> {
    if s.len() > 0 && s[0] == '+' { s.drop_first() } else { s }
}

/// The value of `d` when it is one or more ASCII digits whose value fits in a `u16`.
pub open spec fn digits_u16(d: Seq<char>) -> Option<u16> {
    if d.len() > 0 && (forall|i: int| 0 <= i < d.len() ==> is_digit(#[trigger] d[i]))
        && digits_value(d) <= 65535 {
        Some(digits_value(d) as u16)
    } else {
        None
    }
}

/// What `s.parse::<u16>()` gives: an optional `'+'`, then one or more ASCII digits
/// whose value fits in a `u16`.
pub open spec fn parse_u16(s: Seq<char>) -> Option<u16> {
    digits_u16(unsigned_digits(s))
}

proof fn lemma_digits_value_monotone(d: Seq<char>, k: int)
    requires
        0 <= k <= d.len(),
        forall|i: int| 0 <= i < d.len() ==> is_digit(#[trigger] d[i]),
    ensures
        digits_value(d.take(k)) <= digits_value(d),
    decreases d.len() - k,
{
    if k < d.len() {
        assert(d.drop_last().take(k) =~= d.take(k));
        assert forall|i: int| 0 <= i < d.drop_last().len() implies is_digit(#[trigger] d.drop_last()[i]) by {
            assert(d.drop_last()[i] == d[i]);
        }
        lemma_digits_value_monotone(d.drop_last(), k);
    } else {
        assert(d.take(k) =~= d);
    }
}

/// `s.parse::<u16>().ok()`.
pub fn parse_u16_exec(s: &Vec<char>) -> (r: Option<u16>)
    ensures
        r == parse_u16(s@),
{
    let start: usize = if s.len() > 0 && s[0] == '+' { 1 } else { 0 };
    let ghost d = unsigned_digits(s@);
    proof {
        assert(d =~= s@.skip(start as int));
    }
    if start >= s.len() {
        return None;
    }
    let mut value: u32 = 0;
    let mut i = start;
    while i < s.len()
        invariant
            start <= i <= s.len(),
            d == s@.skip(start as int),
            d == unsigned_digits(s@),
            d.len() > 0,
            forall|k: int| 0 <= k < i - start ==> is_digit(#[trigger] d[k]),
            value == digits_value(d.take(i - start)),
            value <= 65535,
        decreases s.len() - i,
    {
        let c = s[i];
        if !('0' <= c && c <= '9') {
            assert(d[i - start] == c);
            assert(!is_digit(d[i - start]));
            return None;
        }
        let dv = (c as u32) - ('0' as u32);
        proof {
            let dd = d.take(i - start + 1);
            assert(dd.drop_last() =~= d.take(i - start));
            assert(dd.last() == c);
        }
        let next = value * 10 + dv;
        if next > 65535 {
            proof {
                let dd = d.take(i - start + 1);
                assert(digits_value(dd) == value * 10 + dv);
                if forall|j: int| 0 <= j < d.len() ==> is_digit(#[trigger] d[j]) {
                    lemma_digits_value_monotone(d, i - start + 1);
                    assert(digits_value(d) > 65535);
                }
            }
            return None;
        }
        value = next;
        i = i + 1;
    }
    proof {
        assert(d.take(i - start) =~= d);
    }
    Some(value as u16)
}

} // verus!

verus! {

/// The first occurrence at or after `i` is at `j` when `p` occurs at `j` and nowhere
/// between `i` and `j`.
pub proof fn lemma_find_from_is(h: Seq<char>, p: Seq<char>, i: int, j: int)
    requires
        0 <= i <= j,
        occurs_at(h, p, j),
        forall|k: int| i <= k < j ==> !occurs_at(h, p, k),
    ensures
        find_from(h, p, i) == j,
    decreases j - i,
{
    if i < j {
        assert(!occurs_at(h, p, i));
        lemma_find_from_is(h, p, i + 1, j);
    }
}

/// `p` occurs nowhere at or after `i`.
pub proof fn lemma_find_from_none(h: Seq<char>, p: Seq<char>, i: int)
    requires
        0 <= i,
        forall|k: int| i <= k ==> !occurs_at(h, p, k),
    ensures
        find_from(h, p, i) == -1,
    decreases h.len() + 1 - i,
{
    if i + p.len() <= h.len() {
        lemma_find_from_none(h, p, i + 1);
    }
}

/// A line without a newline, its newline, then the rest: the line comes first.
pub proof fn lemma_lines_cons(a: Seq<char>, rest: Seq<char>)
    requires
        !a.contains('\n'),
    ensures
        lines(a + seq!['\n'] + rest) == seq![strip_cr(a)] + lines(rest),
{
    let s = a + seq!['\n'] + rest;
    let nl = seq!['\n'];
    assert forall|k: int| 0 <= k < a.len() implies !occurs_at(s, nl, k) by {
        if occurs_at(s, nl, k) {
            assert(s.subrange(k, k + 1)[0] == s[k]);
            assert(s[k] == a[k]);
        }
    }
    assert(s.subrange(a.len() as int, a.len() as int + 1) =~= nl);
    lemma_find_from_is(s, nl, 0, a.len() as int);
    assert(s.take(a.len() as int) =~= a);
    assert(s.skip(a.len() as int + 1) =~= rest);
}

/// `s` starts with `p` exactly when it is `p` followed by more.
pub proof fn lemma_starts_with_concat(p: Seq<char>, rest: Seq<char>)
    ensures
        starts_with(p + rest, p),
{
    assert((p + rest).subrange(0, p.len() as int) =~= p);
}

/// A prefix that differs in its first character is no prefix.
pub proof fn lemma_not_starts_with(s: Seq<char>, p: Seq<char>)
    requires
        s.len() > 0,
        p.len() > 0,
        s[0] != p[0],
    ensures
        !starts_with(s, p),
{
    if starts_with(s, p) {
        assert(s.subrange(0, p.len() as int)[0] == s[0]);
    }
}

/// `h` contains `p` where it is `a + p + b`.
pub proof fn lemma_contains_concat(a: Seq<char>, p: Seq<char>, b: Seq<char>)
    ensures
        contains(a + p + b, p),
{
    let h = a + p + b;
    assert(h.subrange(a.len() as int, a.len() as int + p.len()) =~= p);
    lemma_find_from(h, p, 0);
    if find_from(h, p, 0) == -1 {
        assert(!occurs_at(h, p, a.len() as int));
    }
}

} // verus!

verus! {

/// The text of `ls`, each line followed by a newline.
pub open spec fn text_of_lines(ls: Seq<Seq<char>>) -> Seq<char>
    decreases ls.len(),
{
    if ls.len() == 0 {
        Seq::empty()
    } else {
        ls[0] + seq!['\n'] + text_of_lines(ls.drop_first())
    }
}

/// Lines without a newline and without a trailing carriage return, each written with
/// its newline, read back as the same lines.
pub proof fn lemma_lines_of_text(ls: Seq<Seq<char>>)
    requires
        forall|i: int| 0 <= i < ls.len() ==> !(#[trigger] ls[i]).contains('\n') && strip_cr(ls[i]) == ls[i],
    ensures
        lines(text_of_lines(ls)) == ls,
    decreases ls.len(),
{
    if ls.len() > 0 {
        assert forall|i: int| 0 <= i < ls.drop_first().len() implies
            !(#[trigger] ls.drop_first()[i]).contains('\n') && strip_cr(ls.drop_first()[i]) == ls.drop_first()[i] by {
            assert(ls.drop_first()[i] == ls[i + 1]);
        }
        lemma_lines_of_text(ls.drop_first());
        lemma_lines_cons(ls[0], text_of_lines(ls.drop_first()));
        assert(seq![ls[0]] + ls.drop_first() =~= ls);
    }
}

/// `a` followed by `b` lacks `c` when both do.
pub proof fn lemma_lacks_concat(a: Seq<char>, b: Seq<char>, c: char)
    requires
        !a.contains(c),
        !b.contains(c),
    ensures
        !(a + b).contains(c),
{
    if (a + b).contains(c) {
        let i = choose|i: int| 0 <= i < (a + b).len() && (a + b)[i] == c;
        if i < a.len() {
            assert(a[i] == c);
        } else {
            assert(b[i - a.len()] == c);
        }
    }
}

/// A text without the first character of `p` does not contain `p`.
pub proof fn lemma_not_contains(h: Seq<char>, p: Seq<char>)
    requires
        p.len() > 0,
        !h.contains(p[0]),
    ensures
        !contains(h, p),
{
    lemma_find_from(h, p, 0);
    if contains(h, p) {
        let k = find_from(h, p, 0);
        assert(h.subrange(k, k + p.len())[0] == h[k]);
    }
}

/// A prefix followed by text that does not start again with the prefix's first
/// character: `trim_start_matches` removes the prefix once.
pub proof fn lemma_strip_prefix_once(p: Seq<char>, rest: Seq<char>)
    requires
        p.len() > 0,
        rest.len() > 0,
        rest[0] != p[0],
    ensures
        strip_prefix_all(p + rest, p) == rest,
{
    lemma_starts_with_concat(p, rest);
    assert((p + rest).skip(p.len() as int) =~= rest);
    lemma_not_starts_with(rest, p);
    assert(strip_prefix_all(rest, p) == rest);
    assert(strip_prefix_all(p + rest, p) == strip_prefix_all(rest, p));
}

} // verus!

verus! {

/// The text of `ls`, each line followed by a carriage return and a newline.
pub open spec fn crlf_text_of_lines(ls: Seq<Seq<char>>) -> Seq<char>
    decreases ls.len(),
{
    if ls.len() == 0 {
        Seq::empty()
    } else {
        ls[0] + seq!['\r', '\n'] + crlf_text_of_lines(ls.drop_first())
    }
}

/// Lines without a newline, each written with a carriage return and a newline, read
/// back as the same lines.
pub proof fn lemma_lines_of_crlf_text(ls: Seq<Seq<char>>)
    requires
        forall|i: int| 0 <= i < ls.len() ==> !(#[trigger] ls[i]).contains('\n'),
    ensures
        lines(crlf_text_of_lines(ls)) == ls,
    decreases ls.len(),
{
    if ls.len() > 0 {
        assert forall|i: int| 0 <= i < ls.drop_first().len() implies !(#[trigger] ls.drop_first()[i]).contains('\n') by {
            assert(ls.drop_first()[i] == ls[i + 1]);
        }
        lemma_lines_of_crlf_text(ls.drop_first());
        let a = ls[0].push('\r');
        if a.contains('\n') {
            let i = choose|i: int| 0 <= i < a.len() && a[i] == '\n';
            assert(i < ls[0].len());
            assert(ls[0][i] == '\n');
        }
        assert(ls[0] + seq!['\r', '\n'] + crlf_text_of_lines(ls.drop_first())
            =~= a + seq!['\n'] + crlf_text_of_lines(ls.drop_first()));
        lemma_lines_cons(a, crlf_text_of_lines(ls.drop_first()));
        assert(strip_cr(a) =~= ls[0]);
        assert(seq![ls[0]] + ls.drop_first() =~= ls);
    }
}

} // verus!

verus! {

/// The number of characters before the first whitespace character of `s`.
pub open spec fn word_len(s: Seq<char>) -> nat
    decreases s.len(),
{
    if s.len() == 0 || is_ws(s[0]) {
        0
    } else {
        1 + word_len(s.drop_first())
    }
}

/// A word without whitespace, then more: the word's length, then that of the more.
pub proof fn lemma_word_len_concat(t: Seq<char>, rest: Seq<char>)
    requires
        forall|i: int| 0 <= i < t.len() ==> !is_ws(#[trigger] t[i]),
    ensures
        word_len(t + rest) == t.len() + word_len(rest),
    decreases t.len(),
{
    if t.len() > 0 {
        assert((t + rest).drop_first() =~= t.drop_first() + rest);
        assert forall|i: int| 0 <= i < t.drop_first().len() implies !is_ws(#[trigger] t.drop_first()[i]) by {
            assert(t.drop_first()[i] == t[i + 1]);
        }
        assert((t + rest)[0] == t[0]);
        lemma_word_len_concat(t.drop_first(), rest);
    } else {
        assert(t + rest =~= rest);
    }
}

/// The index just past the word that starts at `i`.
pub fn skip_word(s: &Vec<char>, i: usize) -> (j: usize)
    requires
        i <= s.len(),
    ensures
        i <= j <= s.len(),
        j == i + word_len(s@.skip(i as int)),
{
    let mut j = i;
    while j < s.len() && !is_whitespace(s[j])
        invariant
            i <= j <= s.len(),
            word_len(s@.skip(i as int)) == (j - i) + word_len(s@.skip(j as int)),
        decreases s.len() - j,
    {
        assert(s@.skip(j as int).drop_first() =~= s@.skip(j + 1));
        assert(s@.skip(j as int)[0] == s@[j as int]);
        j = j + 1;
    }
    j
}

} // verus!

verus! {

/// The part of `t` after its last whitespace character: for a trimmed, non-empty `t`,
/// the last item of `str::split_whitespace`.
pub open spec fn last_word(t: Seq<char>) -> Seq<char>
    decreases t.len(),
{
    if t.len() == 0 || is_ws(t.last()) {
        Seq::empty()
    } else {
        last_word(t.drop_last()).push(t.last())
    }
}

/// `last_word`.
pub fn last_word_exec(t: &Vec<char>) -> (res: Vec<char>)
    ensures
        res@ == last_word(t@),
{
    let mut j: usize = t.len();
    proof {
        assert(t@.take(j as int) =~= t@);
        assert(t@ + t@.skip(j as int) =~= t@);
    }
    while j > 0 && !is_whitespace(t[j - 1])
        invariant
            j <= t.len(),
            last_word(t@) == last_word(t@.take(j as int)) + t@.skip(j as int),
        decreases j,
    {
        proof {
            let u = t@.take(j as int);
            assert(u.drop_last() =~= t@.take(j - 1));
            assert(u.last() == t@[j - 1]);
            assert(t@.skip(j - 1) =~= seq![t@[j - 1]] + t@.skip(j as int));
            assert(last_word(t@.take(j - 1)).push(t@[j - 1]) + t@.skip(j as int)
                =~= last_word(t@.take(j - 1)) + t@.skip(j - 1));
        }
        j = j - 1;
    }
    proof {
        assert(last_word(t@.take(j as int)) =~= Seq::<char>::empty());
        assert(Seq::<char>::empty() + t@.skip(j as int) =~= t@.skip(j as int));
    }
    slice_chars(t, j, t.len())
}

} // verus!
