//! Character-level text helpers shared by the checks, the suppression parser and the
//! report renderers.
use vstd::prelude::*;

verus! {

/// The characters of `s`, in order.
pub fn chars_of(s: &str) -> (v: Vec<char>)
    ensures
        v@ == s@,
{
    let mut v: Vec<char> = Vec::new();
    for c in it: s.chars()
        invariant
            v@ == it.seq().take(it.index() as int),
            it.seq() == s@,
    {
        v.push(c);
    }
    v
}

/// Builds a `String` holding exactly the characters of `v`
/// (std's `FromIterator<char>` for `String`).
#[verifier::external_body]
pub(crate) fn string_from_chars(v: &[char]) -> (s: String)
    ensures
        s@ == v@,
{
    v.iter().collect()
}

/// The lowercase form of a string as std's `str::to_lowercase` computes it
/// (Unicode case mapping; its tables are not restated here).
pub uninterp spec fn lowercase(s: Seq<char>) -> Seq<char>;

/// Every character is ASCII.
pub open spec fn is_ascii_text(s: Seq<char>) -> bool {
    forall|i: int| 0 <= i < s.len() ==> (#[trigger] s[i] as int) < 128
}

/// `c` with an ASCII capital letter made small.
pub open spec fn ascii_lower_char(c: char) -> char {
    if 'A' <= c && c <= 'Z' {
        ((c as int) + 32) as char
    } else {
        c
    }
}

/// `c` with an ASCII small letter made capital.
pub open spec fn ascii_upper_char(c: char) -> char {
    if 'a' <= c && c <= 'z' {
        ((c as int) - 32) as char
    } else {
        c
    }
}

/// Calls std's `str::to_lowercase`; the result is named by `lowercase`. On ASCII text it
/// makes each capital letter small and keeps every other character.
#[verifier::external_body]
pub(crate) fn to_lowercase(s: &str) -> (r: String)
    ensures
        r@ == lowercase(s@),
        is_ascii_text(s@) ==> r@ == s@.map_values(|c: char| ascii_lower_char(c)),
{
    s.to_lowercase()
}

/// Equality of two character sequences, element by element.
pub fn chars_eq(a: &[char], b: &[char]) -> (r: bool)
    ensures
        r == (a@ == b@),
{
    if a.len() != b.len() {
        return false;
    }
    let mut i: usize = 0;
    while i < a.len()
        invariant
            a@.len() == b@.len(),
            0 <= i <= a.len(),
            forall|j: int| 0 <= j < i ==> a@[j] == b@[j],
        decreases a.len() - i,
    {
        if a[i] != b[i] {
            return false;
        }
        i += 1;
    }
    assert(a@ =~= b@);
    true
}

/// Text equality.
pub fn str_eq(a: &str, b: &str) -> (r: bool)
    ensures
        r == (a@ == b@),
{
    let x = chars_of(a);
    let y = chars_of(b);
    chars_eq(x.as_slice(), y.as_slice())
}

/// `p` is a prefix of `s`.
pub open spec fn is_prefix(p: Seq<char>, s: Seq<char>) -> bool {
    p.len() <= s.len() && s.subrange(0, p.len() as int) == p
}

/// `n` occurs in `h` starting at index `i`.
pub open spec fn occurs_at(h: Seq<char>, n: Seq<char>, i: int) -> bool {
    0 <= i && i + n.len() <= h.len() && h.subrange(i, i + n.len()) == n
}

/// `n` occurs somewhere in `h` (std's `str::contains` with a string pattern).
pub open spec fn contains_text(h: Seq<char>, n: Seq<char>) -> bool {
    exists|i: int| occurs_at(h, n, i)
}

/// Whether `n` occurs in `h` at index `i`.
pub fn occurs_at_exec(h: &[char], n: &[char], i: usize) -> (r: bool)
    ensures
        r == occurs_at(h@, n@, i as int),
{
    if i > h.len() || n.len() > h.len() - i {
        return false;
    }
    let mut k: usize = 0;
    while k < n.len()
        invariant
            i + n.len() <= h.len(),
            0 <= k <= n.len(),
            forall|j: int| 0 <= j < k ==> h@[i + j] == n@[j],
        decreases n.len() - k,
    {
        if h[i + k] != n[k] {
            assert(h@.subrange(i as int, i + n@.len())[k as int] != n@[k as int]);
            return false;
        }
        k += 1;
    }
    assert(h@.subrange(i as int, i + n@.len()) =~= n@);
    true
}

/// `p` is a prefix of `s`.
pub fn starts_with(s: &[char], p: &[char]) -> (r: bool)
    ensures
        r == is_prefix(p@, s@),
{
    occurs_at_exec(s, p, 0)
}

/// `n` occurs somewhere in `h`.
pub fn contains_chars(h: &[char], n: &[char]) -> (r: bool)
    ensures
        r == contains_text(h@, n@),
{
    if n.len() > h.len() {
        return false;
    }
    let last = h.len() - n.len();
    let mut i: usize = 0;
    loop
        invariant
            n.len() <= h.len(),
            last == h.len() - n.len(),
            0 <= i <= last,
            forall|j: int| 0 <= j < i ==> !occurs_at(h@, n@, j),
        ensures
            forall|j: int| 0 <= j <= last ==> !occurs_at(h@, n@, j),
        decreases last - i,
    {
        if occurs_at_exec(h, n, i) {
            return true;
        }
        if i == last {
            break;
        }
        i += 1;
    }
    assert forall|j: int| !occurs_at(h@, n@, j) by {
        if 0 <= j && j + n@.len() <= h@.len() {
            assert(j <= last);
        }
    }
    false
}

/// `needle` occurs in `hay`.
pub fn str_contains(hay: &str, needle: &str) -> (r: bool)
    ensures
        r == contains_text(hay@, needle@),
{
    let h = chars_of(hay);
    let n = chars_of(needle);
    contains_chars(h.as_slice(), n.as_slice())
}

/// `prefix` is a prefix of `s`.
pub fn str_starts_with(s: &str, prefix: &str) -> (r: bool)
    ensures
        r == is_prefix(prefix@, s@),
{
    let a = chars_of(s);
    let p = chars_of(prefix);
    starts_with(a.as_slice(), p.as_slice())
}

/// Unicode `White_Space`, the property std's `char::is_whitespace` tests.
pub open spec fn is_white_space(c: char) -> bool {
    ||| ('\u{9}' <= c && c <= '\u{d}')
    ||| c == ' '
    ||| c == '\u{85}'
    ||| c == '\u{a0}'
    ||| c == '\u{1680}'
    ||| ('\u{2000}' <= c && c <= '\u{200a}')
    ||| c == '\u{2028}'
    ||| c == '\u{2029}'
    ||| c == '\u{202f}'
    ||| c == '\u{205f}'
    ||| c == '\u{3000}'
}

/// Whether `c` is Unicode white space.
pub fn char_is_white_space(c: char) -> (r: bool)
    ensures
        r == is_white_space(c),
{
    ('\u{9}' <= c && c <= '\u{d}') || c == ' ' || c == '\u{85}' || c == '\u{a0}'
        || c == '\u{1680}' || ('\u{2000}' <= c && c <= '\u{200a}') || c == '\u{2028}'
        || c == '\u{2029}' || c == '\u{202f}' || c == '\u{205f}' || c == '\u{3000}'
}

/// `s` without its leading white space (std's `str::trim_start`).
pub open spec fn trim_start_spec(s: Seq<char>) -> Seq<char>
    decreases s.len(),
{
    if s.len() > 0 && is_white_space(s[0]) {
        trim_start_spec(s.drop_first())
    } else {
        s
    }
}

/// `s` without its trailing white space (std's `str::trim_end`).
pub open spec fn trim_end_spec(s: Seq<char>) -> Seq<char>
    decreases s.len(),
{
    if s.len() > 0 && is_white_space(s.last()) {
        trim_end_spec(s.drop_last())
    } else {
        s
    }
}

/// `s` without leading and trailing white space (std's `str::trim`).
pub open spec fn trim_spec(s: Seq<char>) -> Seq<char> {
    trim_end_spec(trim_start_spec(s))
}

/// The number of leading white-space characters of `s`.
pub open spec fn leading_ws(s: Seq<char>) -> nat
    decreases s.len(),
{
    if s.len() > 0 && is_white_space(s[0]) {
        1 + leading_ws(s.drop_first())
    } else {
        0
    }
}

proof fn lemma_trim_start_skip(s: Seq<char>)
    ensures
        leading_ws(s) <= s.len(),
        trim_start_spec(s) == s.skip(leading_ws(s) as int),
        forall|j: int| 0 <= j < leading_ws(s) ==> is_white_space(#[trigger] s[j]),
        leading_ws(s) < s.len() ==> !is_white_space(s[leading_ws(s) as int]),
    decreases s.len(),
{
    if s.len() > 0 && is_white_space(s[0]) {
        lemma_trim_start_skip(s.drop_first());
        assert(s.drop_first().skip(leading_ws(s.drop_first()) as int) =~= s.skip(
            leading_ws(s) as int,
        ));
        assert forall|j: int| 0 <= j < leading_ws(s) implies is_white_space(#[trigger] s[j]) by {
            if j > 0 {
                assert(s[j] == s.drop_first()[j - 1]);
            }
        }
    } else {
        assert(s.skip(0) =~= s);
    }
}

/// The characters of `s` after its leading white space.
pub fn trim_start(s: &[char]) -> (r: Vec<char>)
    ensures
        r@ == trim_start_spec(s@),
{
    proof {
        lemma_trim_start_skip(s@);
    }
    let mut i: usize = 0;
    while i < s.len() && char_is_white_space(s[i])
        invariant
            0 <= i <= s.len(),
            i <= leading_ws(s@),
            leading_ws(s@) <= s@.len(),
            forall|j: int| 0 <= j < leading_ws(s@) ==> is_white_space(#[trigger] s@[j]),
            leading_ws(s@) < s@.len() ==> !is_white_space(s@[leading_ws(s@) as int]),
        decreases s.len() - i,
    {
        i += 1;
    }
    let mut r: Vec<char> = Vec::new();
    let mut k: usize = i;
    while k < s.len()
        invariant
            i <= k <= s.len(),
            r@ == s@.subrange(i as int, k as int),
        decreases s.len() - k,
    {
        r.push(s[k]);
        k += 1;
        assert(r@ =~= s@.subrange(i as int, k as int));
    }
    assert(i == leading_ws(s@));
    r
}


proof fn lemma_trim_end_take(s: Seq<char>)
    ensures
        exists|k: int| 0 <= k <= s.len() && trim_end_spec(s) == s.take(k) && (k == 0 || !is_white_space(s[k - 1]))
            && forall|j: int| k <= j < s.len() ==> is_white_space(#[trigger] s[j]),
    decreases s.len(),
{
    if s.len() > 0 && is_white_space(s.last()) {
        lemma_trim_end_take(s.drop_last());
        let k = choose|k: int| 0 <= k <= s.drop_last().len() && trim_end_spec(s.drop_last()) == s.drop_last().take(k) && (k == 0 || !is_white_space(s.drop_last()[k - 1]))
            && forall|j: int| k <= j < s.drop_last().len() ==> is_white_space(#[trigger] s.drop_last()[j]);
        assert(s.drop_last().take(k) =~= s.take(k));
        assert forall|j: int| k <= j < s.len() implies is_white_space(#[trigger] s[j]) by {
            if j < s.len() - 1 {
                assert(s[j] == s.drop_last()[j]);
            }
        }
    } else {
        assert(s.take(s.len() as int) =~= s);
    }
}

/// The characters of `s` without trailing white space.
pub fn trim_end(s: &[char]) -> (r: Vec<char>)
    ensures
        r@ == trim_end_spec(s@),
{
    let mut k: usize = s.len();
    assert(s@.take(k as int) =~= s@);
    while k > 0 && char_is_white_space(s[k - 1])
        invariant
            0 <= k <= s.len(),
            trim_end_spec(s@) == trim_end_spec(s@.take(k as int)),
        decreases k,
    {
        assert(s@.take(k as int).drop_last() =~= s@.take(k - 1));
        k -= 1;
    }
    assert(trim_end_spec(s@.take(k as int)) == s@.take(k as int));
    let mut r: Vec<char> = Vec::new();
    let mut i: usize = 0;
    while i < k
        invariant
            0 <= i <= k <= s.len(),
            r@ == s@.take(i as int),
        decreases k - i,
    {
        r.push(s[i]);
        i += 1;
        assert(r@ =~= s@.take(i as int));
    }
    r
}

/// The characters of `s` without leading and trailing white space.
pub fn trim(s: &[char]) -> (r: Vec<char>)
    ensures
        r@ == trim_spec(s@),
{
    let t = trim_start(s);
    trim_end(t.as_slice())
}

/// The pieces of `s` between occurrences of `c`, left to right (std's `split` with a
/// character pattern): `k` separators give `k + 1` pieces, possibly empty.
pub open spec fn split_by(s: Seq<char>, c: char) -> Seq<Seq<char>>
    decreases s.len(),
{
    if s.len() == 0 {
        seq![Seq::empty()]
    } else {
        let rest = split_by(s.drop_last(), c);
        if s.last() == c {
            rest.push(Seq::empty())
        } else {
            rest.update(rest.len() - 1, rest.last().push(s.last()))
        }
    }
}

proof fn lemma_split_nonempty(s: Seq<char>, c: char)
    ensures
        split_by(s, c).len() >= 1,
    decreases s.len(),
{
    if s.len() > 0 {
        lemma_split_nonempty(s.drop_last(), c);
    }
}

/// The pieces of `s` between occurrences of `c`.
pub fn split_chars(s: &[char], c: char) -> (r: Vec<Vec<char>>)
    ensures
        r@.map_values(|p: Vec<char>| p@) == split_by(s@, c),
{
    let mut pieces: Vec<Vec<char>> = Vec::new();
    let mut cur: Vec<char> = Vec::new();
    let mut i: usize = 0;
    while i < s.len()
        invariant
            0 <= i <= s.len(),
            pieces@.map_values(|p: Vec<char>| p@).push(cur@) == split_by(s@.take(i as int), c),
        decreases s.len() - i,
    {
        proof {
            lemma_split_nonempty(s@.take(i as int), c);
        }
        assert(s@.take(i + 1).drop_last() =~= s@.take(i as int));
        let ghost before = pieces@.map_values(|p: Vec<char>| p@).push(cur@);
        if s[i] == c {
            let done = cur;
            let ghost pv = pieces@.map_values(|p: Vec<char>| p@);
            pieces.push(done);
            assert(pieces@.map_values(|p: Vec<char>| p@) =~= pv.push(done@));
            cur = Vec::new();
            assert(pieces@.map_values(|p: Vec<char>| p@).push(cur@) =~= before.push(Seq::empty()));
        } else {
            cur.push(s[i]);
            assert(pieces@.map_values(|p: Vec<char>| p@).push(cur@) =~= before.update(before.len() - 1, before.last().push(s@[i as int])));
        }
        i += 1;
    }
    assert(s@.take(i as int) =~= s@);
    let ghost pv = pieces@.map_values(|p: Vec<char>| p@);
    pieces.push(cur);
    assert(pieces@.map_values(|p: Vec<char>| p@) =~= pv.push(cur@));
    pieces
}

/// The first index at or after `i` where `n` occurs in `h`.
pub open spec fn find_from(h: Seq<char>, n: Seq<char>, i: int) -> Option<int>
    decreases h.len() + 1 - i,
{
    if i < 0 || i + n.len() > h.len() {
        None
    } else if occurs_at(h, n, i) {
        Some(i)
    } else {
        find_from(h, n, i + 1)
    }
}

/// The first index where `n` occurs in `h` (std's `str::find`, counted in characters).
pub open spec fn find_spec(h: Seq<char>, n: Seq<char>) -> Option<int> {
    find_from(h, n, 0)
}

/// The first index at or after `i` where `n` occurs in `h`.
pub fn find_chars(h: &[char], n: &[char]) -> (r: Option<usize>)
    ensures
        r matches Some(k) ==> find_spec(h@, n@) == Some(k as int) && occurs_at(h@, n@, k as int),
        r is None ==> find_spec(h@, n@) is None,
{
    if n.len() > h.len() {
        return None;
    }
    let last = h.len() - n.len();
    let mut i: usize = 0;
    loop
        invariant
            n.len() <= h.len(),
            last == h.len() - n.len(),
            0 <= i <= last,
            find_spec(h@, n@) == find_from(h@, n@, i as int),
        decreases last - i,
    {
        if occurs_at_exec(h, n, i) {
            return Some(i);
        }
        if i == last {
            assert(find_from(h@, n@, i + 1) is None);
            return None;
        }
        i += 1;
    }
}

/// An ASCII letter, digit or `_`.
pub open spec fn is_ident_char(c: char) -> bool {
    ('a' <= c && c <= 'z') || ('A' <= c && c <= 'Z') || ('0' <= c && c <= '9') || c == '_'
}

/// The longest prefix of `s` made of identifier characters.
pub open spec fn ident_prefix(s: Seq<char>) -> Seq<char>
    decreases s.len(),
{
    if s.len() > 0 && is_ident_char(s[0]) {
        seq![s[0]] + ident_prefix(s.drop_first())
    } else {
        Seq::empty()
    }
}

proof fn lemma_ident_prefix_step(s: Seq<char>, k: int)
    requires
        0 <= k < s.len(),
        forall|j: int| 0 <= j < k ==> is_ident_char(#[trigger] s[j]),
    ensures
        ident_prefix(s) == s.take(k) + ident_prefix(s.skip(k)),
    decreases k,
{
    if k == 0 {
        assert(s.skip(0) =~= s);
        assert(s.take(0) + ident_prefix(s.skip(0)) =~= ident_prefix(s));
    } else {
        lemma_ident_prefix_step(s.drop_first(), k - 1);
        assert(s.drop_first().skip(k - 1) =~= s.skip(k));
        assert(seq![s[0]] + s.drop_first().take(k - 1) =~= s.take(k));
    }
}

/// The identifier characters at the start of `s`.
pub fn take_ident(s: &[char]) -> (r: Vec<char>)
    ensures
        r@ == ident_prefix(s@),
{
    let mut r: Vec<char> = Vec::new();
    let mut i: usize = 0;
    while i < s.len() && (('a' <= s[i] && s[i] <= 'z') || ('A' <= s[i] && s[i] <= 'Z') || ('0' <= s[i] && s[i] <= '9') || s[i] == '_')
        invariant
            0 <= i <= s.len(),
            r@ == s@.take(i as int),
            forall|j: int| 0 <= j < i ==> is_ident_char(#[trigger] s@[j]),
        decreases s.len() - i,
    {
        r.push(s[i]);
        i += 1;
        assert(r@ =~= s@.take(i as int));
    }
    proof {
        if i < s.len() {
            lemma_ident_prefix_step(s@, i as int);
            assert(ident_prefix(s@.skip(i as int)) =~= Seq::<char>::empty());
            assert(s@.take(i as int) + Seq::<char>::empty() =~= s@.take(i as int));
        } else {
            lemma_ident_prefix_full(s@);
        }
    }
    r
}

proof fn lemma_ident_prefix_full(s: Seq<char>)
    requires
        forall|j: int| 0 <= j < s.len() ==> is_ident_char(#[trigger] s[j]),
    ensures
        ident_prefix(s) == s,
    decreases s.len(),
{
    if s.len() > 0 {
        lemma_ident_prefix_full(s.drop_first());
        assert(seq![s[0]] + s.drop_first() =~= s);
    }
}

/// `s` without one trailing carriage return.
pub open spec fn strip_cr(s: Seq<char>) -> Seq<char> {
    if s.len() > 0 && s.last() == '\r' {
        s.drop_last()
    } else {
        s
    }
}

/// The lines of `s` (std's `str::lines`): split at `\n`, a `\r` before a `\n` dropped, and
/// no empty last line after a final line ending.
pub open spec fn lines_spec(s: Seq<char>) -> Seq<Seq<char>> {
    let ps = split_by(s, '\n');
    let n = ps.len() as int;
    let count = if ps.last().len() == 0 {
        n - 1
    } else {
        n
    };
    Seq::new(count as nat, |i: int| if i < n - 1 {
        strip_cr(ps[i])
    } else {
        ps[i]
    })
}

/// The lines of `s`, as characters.
pub fn lines_of(s: &str) -> (r: Vec<Vec<char>>)
    ensures
        r@.map_values(|p: Vec<char>| p@) == lines_spec(s@),
{
    let cs = chars_of(s);
    let ps = split_chars(cs.as_slice(), '\n');
    let ghost pv = ps@.map_values(|p: Vec<char>| p@);
    proof {
        lemma_split_nonempty(s@, '\n');
    }
    let n = ps.len();
    let count = if ps[n - 1].len() == 0 {
        n - 1
    } else {
        n
    };
    let mut out: Vec<Vec<char>> = Vec::new();
    let mut i: usize = 0;
    while i < count
        invariant
            0 <= i <= count <= n,
            n == ps@.len(),
            n >= 1,
            pv == ps@.map_values(|p: Vec<char>| p@),
            pv == split_by(s@, '\n'),
            count as int == (if pv.last().len() == 0 { n - 1 } else { n as int }),
            out@.map_values(|p: Vec<char>| p@) == lines_spec(s@).take(i as int),
        decreases count - i,
    {
        let p = &ps[i];
        let mut line: Vec<char> = Vec::new();
        let mut k: usize = 0;
        let end = if i < n - 1 && p.len() > 0 && p[p.len() - 1] == '\r' {
            p.len() - 1
        } else {
            p.len()
        };
        while k < end
            invariant
                0 <= k <= end <= p@.len(),
                line@ == p@.take(k as int),
            decreases end - k,
        {
            line.push(p[k]);
            k += 1;
            assert(line@ =~= p@.take(k as int));
        }
        assert(pv[i as int] == p@);
        assert(line@ =~= lines_spec(s@)[i as int]);
        let ghost prev = out@.map_values(|p: Vec<char>| p@);
        out.push(line);
        assert(out@.map_values(|p: Vec<char>| p@) =~= prev.push(line@));
        assert(lines_spec(s@).take(i + 1) =~= lines_spec(s@).take(i as int).push(lines_spec(s@)[i as int]));
        i += 1;
    }
    assert(lines_spec(s@).take(i as int) =~= lines_spec(s@));
    out
}

/// The decimal digits of `n`.
pub open spec fn decimal(n: nat) -> Seq<char>
    decreases n,
{
    if n < 10 {
        seq![digit_char(n)]
    } else {
        decimal(n / 10).push(digit_char(n % 10))
    }
}

pub open spec fn digit_char(d: nat) -> char {
    if d == 0 {
        '0'
    } else if d == 1 {
        '1'
    } else if d == 2 {
        '2'
    } else if d == 3 {
        '3'
    } else if d == 4 {
        '4'
    } else if d == 5 {
        '5'
    } else if d == 6 {
        '6'
    } else if d == 7 {
        '7'
    } else if d == 8 {
        '8'
    } else {
        '9'
    }
}

fn digit_exec(d: u64) -> (c: char)
    requires
        d < 10,
    ensures
        c == digit_char(d as nat),
{
    if d == 0 {
        '0'
    } else if d == 1 {
        '1'
    } else if d == 2 {
        '2'
    } else if d == 3 {
        '3'
    } else if d == 4 {
        '4'
    } else if d == 5 {
        '5'
    } else if d == 6 {
        '6'
    } else if d == 7 {
        '7'
    } else if d == 8 {
        '8'
    } else {
        '9'
    }
}

/// The decimal text of `n`.
pub fn decimal_string(n: u64) -> (r: String)
    ensures
        r@ == decimal(n as nat),
{
    let digits = decimal_chars(n);
    string_from_chars(digits.as_slice())
}

fn decimal_chars(n: u64) -> (r: Vec<char>)
    ensures
        r@ == decimal(n as nat),
    decreases n,
{
    if n < 10 {
        let mut v: Vec<char> = Vec::new();
        v.push(digit_exec(n));
        assert(v@ =~= seq![digit_char(n as nat)]);
        v
    } else {
        let mut v = decimal_chars(n / 10);
        v.push(digit_exec(n % 10));
        v
    }
}

}
