//! Character and string primitives shared by the parsers and the report
//! formatter: whitespace trimming, line splitting, case-insensitive
//! substring search, exact substring search, and comma joining.  All of
//! them are specified over `Seq<char>` views.

use vstd::prelude::*;

verus! {

/// The views of a sequence of owned strings.
pub open spec fn views_of(items: Seq<String>) -> Seq<Seq<char>> {
    items.map_values(|s: String| s@)
}

pub proof fn lemma_views_of_push(items: Seq<String>, x: String)
    ensures
        views_of(items.push(x)) =~= views_of(items).push(x@),
{
}

/// Whether `c` carries the White_Space property, as the trimming of the
/// listing tools' output understands it.
pub open spec fn is_space(c: char) -> bool {
    ||| c == ' '
    ||| c == '\t'
    ||| c == '\n'
    ||| c == '\u{0B}'
    ||| c == '\u{0C}'
    ||| c == '\r'
    ||| c == '\u{85}'
    ||| c == '\u{A0}'
    ||| c == '\u{1680}'
    ||| c == '\u{2000}'
    ||| c == '\u{2001}'
    ||| c == '\u{2002}'
    ||| c == '\u{2003}'
    ||| c == '\u{2004}'
    ||| c == '\u{2005}'
    ||| c == '\u{2006}'
    ||| c == '\u{2007}'
    ||| c == '\u{2008}'
    ||| c == '\u{2009}'
    ||| c == '\u{200A}'
    ||| c == '\u{2028}'
    ||| c == '\u{2029}'
    ||| c == '\u{202F}'
    ||| c == '\u{205F}'
    ||| c == '\u{3000}'
}

pub fn is_space_ch(c: char) -> (r: bool)
    ensures
        r == is_space(c),
{
    c == ' ' || c == '\t' || c == '\n' || c == '\u{0B}' || c == '\u{0C}' || c == '\r'
        || c == '\u{85}' || c == '\u{A0}' || c == '\u{1680}' || c == '\u{2000}' || c == '\u{2001}'
        || c == '\u{2002}' || c == '\u{2003}' || c == '\u{2004}' || c == '\u{2005}'
        || c == '\u{2006}' || c == '\u{2007}' || c == '\u{2008}' || c == '\u{2009}'
        || c == '\u{200A}' || c == '\u{2028}' || c == '\u{2029}' || c == '\u{202F}'
        || c == '\u{205F}' || c == '\u{3000}'
}

/// The code point of `c` with an ASCII capital letter folded to its
/// small form; other characters are left as they are.
pub open spec fn folded_code(c: char) -> int {
    if 65 <= c as int <= 90 {
        c as int + 32
    } else {
        c as int
    }
}

/// Case-insensitive character equality (ASCII fold).
pub open spec fn ci_eq(a: char, b: char) -> bool {
    folded_code(a) == folded_code(b)
}

fn ci_eq_ch(a: char, b: char) -> (r: bool)
    ensures
        r == ci_eq(a, b),
{
    let ua = a as u32;
    let ub = b as u32;
    let fa: u32 = if 65 <= ua && ua <= 90 { ua + 32 } else { ua };
    let fb: u32 = if 65 <= ub && ub <= 90 { ub + 32 } else { ub };
    fa == fb
}

/// `pat` occurs in `s` at position `i`, character for character.
pub open spec fn match_at(s: Seq<char>, pat: Seq<char>, i: int) -> bool {
    &&& 0 <= i
    &&& i + pat.len() <= s.len()
    &&& forall|j: int| 0 <= j < pat.len() ==> s[i + j] == pat[j]
}

/// `pat` occurs in `s` at position `i` up to ASCII case.
pub open spec fn match_ci_at(s: Seq<char>, pat: Seq<char>, i: int) -> bool {
    &&& 0 <= i
    &&& i + pat.len() <= s.len()
    &&& forall|j: int| 0 <= j < pat.len() ==> ci_eq(s[i + j], pat[j])
}

/// `s` holds `pat` somewhere, up to ASCII case.
pub open spec fn contains_ci(s: Seq<char>, pat: Seq<char>) -> bool {
    exists|i: int| match_ci_at(s, pat, i)
}

/// Whether `pat` stands at position `at` of `s`, character for character.
pub fn starts_with_at(s: &str, pat: &str, at: usize) -> (r: bool)
    requires
        at <= s@.len(),
    ensures
        r == match_at(s@, pat@, at as int),
{
    let n = s.unicode_len();
    let m = pat.unicode_len();
    if m > n - at {
        return false;
    }
    let mut j: usize = 0;
    while j < m
        invariant
            0 <= j <= m,
            at + m <= n,
            n == s@.len(),
            m == pat@.len(),
            forall|t: int| 0 <= t < j ==> s@[at + t] == pat@[t],
        decreases m - j,
    {
        if s.get_char(at + j) != pat.get_char(j) {
            return false;
        }
        j += 1;
    }
    true
}

/// Whether `s` holds `pat` up to ASCII case.
pub fn contains_ci_str(s: &str, pat: &str) -> (r: bool)
    ensures
        r == contains_ci(s@, pat@),
{
    let n = s.unicode_len();
    let m = pat.unicode_len();
    if m > n {
        assert(forall|i: int| !match_ci_at(s@, pat@, i));
        return false;
    }
    let mut i: usize = 0;
    while i <= n - m
        invariant
            0 <= i <= n - m + 1,
            m <= n,
            n == s@.len(),
            m == pat@.len(),
            forall|k: int| 0 <= k < i ==> !match_ci_at(s@, pat@, k),
        decreases n - m - i + 1,
    {
        let mut j: usize = 0;
        let mut hit = true;
        while j < m && hit
            invariant
                0 <= j <= m,
                i + m <= n,
                n == s@.len(),
                m == pat@.len(),
                hit ==> forall|t: int| 0 <= t < j ==> ci_eq(s@[i + t], pat@[t]),
                !hit ==> !match_ci_at(s@, pat@, i as int),
            decreases m - j + (if hit { 1int } else { 0int }),
        {
            if !ci_eq_ch(s.get_char(i + j), pat.get_char(j)) {
                hit = false;
            } else {
                j += 1;
            }
        }
        if hit {
            assert(match_ci_at(s@, pat@, i as int));
            return true;
        }
        i += 1;
    }
    assert forall|k: int| !match_ci_at(s@, pat@, k) by {
        if 0 <= k && k + pat@.len() <= s@.len() {
            assert(k < i);
        }
    }
    false
}

/// The position of the first occurrence of the two-character pattern
/// `c0 c1` in `s`, or `s.len()` when there is none.
pub open spec fn first_pair_at(s: Seq<char>, c0: char, c1: char) -> int
    decreases s.len(),
{
    if s.len() < 2 {
        s.len() as int
    } else if s[0] == c0 && s[1] == c1 {
        0
    } else {
        1 + first_pair_at(s.drop_first(), c0, c1)
    }
}

pub proof fn lemma_first_pair_at(s: Seq<char>, c0: char, c1: char)
    ensures
        0 <= first_pair_at(s, c0, c1) <= s.len(),
        first_pair_at(s, c0, c1) + 2 <= s.len() ==> s[first_pair_at(s, c0, c1)] == c0
            && s[first_pair_at(s, c0, c1) + 1] == c1,
        forall|j: int|
            0 <= j < first_pair_at(s, c0, c1) && j + 2 <= s.len() ==> !(#[trigger] s[j] == c0 && s[j
                + 1] == c1),
        first_pair_at(s, c0, c1) + 2 > s.len() ==> first_pair_at(s, c0, c1) == s.len(),
    decreases s.len(),
{
    if s.len() < 2 {
    } else if s[0] == c0 && s[1] == c1 {
    } else {
        let rest = s.drop_first();
        lemma_first_pair_at(rest, c0, c1);
        let f = first_pair_at(s, c0, c1);
        assert forall|j: int| 0 <= j < f && j + 2 <= s.len() implies !(#[trigger] s[j] == c0 && s[j
            + 1] == c1) by {
            if j > 0 {
                assert(s[j] == rest[j - 1]);
                assert(s[j + 1] == rest[j]);
            }
        }
        if f + 2 <= s.len() {
            assert(s[f] == rest[f - 1]);
            assert(s[f + 1] == rest[f]);
        }
    }
}

/// The position of the first occurrence of `c0` directly followed by
/// `c1`, or the character length of `s` when the pair does not occur.
pub fn find_pair(s: &str, c0: char, c1: char) -> (r: usize)
    ensures
        r as int == first_pair_at(s@, c0, c1),
{
    let n = s.unicode_len();
    let mut i: usize = 0;
    while n >= 1 && i < n - 1
        invariant
            0 <= i <= n,
            n == s@.len(),
            forall|j: int| 0 <= j < i ==> !(#[trigger] s@[j] == c0 && s@[j + 1] == c1),
        decreases n - i,
    {
        if s.get_char(i) == c0 && s.get_char(i + 1) == c1 {
            proof {
                lemma_first_pair_at(s@, c0, c1);
                let f = first_pair_at(s@, c0, c1);
                if f < i {
                    assert(!(s@[f] == c0 && s@[f + 1] == c1));
                }
                if f > i {
                    assert(!(s@[i as int] == c0 && s@[i + 1] == c1));
                }
            }
            return i;
        }
        i += 1;
    }
    proof {
        lemma_first_pair_at(s@, c0, c1);
        let f = first_pair_at(s@, c0, c1);
        if f + 2 <= s@.len() {
            assert(!(s@[f] == c0 && s@[f + 1] == c1));
        }
    }
    n
}

/// How many leading whitespace characters `s` has.
pub open spec fn leading_spaces(s: Seq<char>) -> int
    decreases s.len(),
{
    if s.len() > 0 && is_space(s[0]) {
        1 + leading_spaces(s.drop_first())
    } else {
        0
    }
}

pub proof fn lemma_leading_spaces(s: Seq<char>)
    ensures
        0 <= leading_spaces(s) <= s.len(),
        forall|j: int| 0 <= j < leading_spaces(s) ==> is_space(s[j]),
        leading_spaces(s) < s.len() ==> !is_space(s[leading_spaces(s)]),
    decreases s.len(),
{
    if s.len() > 0 && is_space(s[0]) {
        let rest = s.drop_first();
        lemma_leading_spaces(rest);
        let f = leading_spaces(s);
        assert forall|j: int| 0 <= j < f implies is_space(s[j]) by {
            if j > 0 {
                assert(s[j] == rest[j - 1]);
            }
        }
        if f < s.len() {
            assert(s[f] == rest[f - 1]);
        }
    }
}

/// How many trailing whitespace characters `s` has.
pub open spec fn trailing_spaces(s: Seq<char>) -> int
    decreases s.len(),
{
    if s.len() > 0 && is_space(s[s.len() - 1]) {
        1 + trailing_spaces(s.drop_last())
    } else {
        0
    }
}

pub proof fn lemma_trailing_spaces(s: Seq<char>)
    ensures
        0 <= trailing_spaces(s) <= s.len(),
        forall|j: int| s.len() - trailing_spaces(s) <= j < s.len() ==> is_space(s[j]),
        trailing_spaces(s) < s.len() ==> !is_space(s[s.len() - trailing_spaces(s) - 1]),
    decreases s.len(),
{
    if s.len() > 0 && is_space(s[s.len() - 1]) {
        let rest = s.drop_last();
        lemma_trailing_spaces(rest);
        let t = trailing_spaces(s);
        assert forall|j: int| s.len() - t <= j < s.len() implies is_space(s[j]) by {
            if j < s.len() - 1 {
                assert(s[j] == rest[j]);
            }
        }
        if t < s.len() {
            assert(s[s.len() - t - 1] == rest[rest.len() - (t - 1) - 1]);
        }
    }
}

/// `s` with leading and trailing whitespace removed.
pub open spec fn trim_spec(s: Seq<char>) -> Seq<char> {
    if leading_spaces(s) == s.len() {
        Seq::empty()
    } else {
        s.subrange(leading_spaces(s), s.len() - trailing_spaces(s))
    }
}

/// An owned copy of `s` with leading and trailing whitespace removed.
pub fn trimmed(s: &str) -> (r: String)
    ensures
        r@ == trim_spec(s@),
{
    let n = s.unicode_len();
    proof {
        lemma_leading_spaces(s@);
        lemma_trailing_spaces(s@);
    }
    let mut a: usize = 0;
    while a < n && is_space_ch(s.get_char(a))
        invariant
            0 <= a <= n,
            n == s@.len(),
            forall|j: int| 0 <= j < a ==> is_space(s@[j]),
        decreases n - a,
    {
        a += 1;
    }
    proof {
        let f = leading_spaces(s@);
        if f < a {
            assert(is_space(s@[f]));
        }
        if f > a {
            assert(is_space(s@[a as int]));
        }
        assert(a as int == f);
    }
    if a == n {
        let r = String::new();
        proof {
            assert(trim_spec(s@) =~= Seq::<char>::empty());
        }
        return r;
    }
    let mut b: usize = n;
    while b > a && is_space_ch(s.get_char(b - 1))
        invariant
            a <= b <= n,
            a < n,
            n == s@.len(),
            !is_space(s@[a as int]),
            forall|j: int| b <= j < n ==> is_space(s@[j]),
        decreases b,
    {
        b -= 1;
    }
    proof {
        let t = trailing_spaces(s@);
        // b > a here: were b == a, the last step checked is_space(s@[a]).
        assert(b > a);
        assert(!is_space(s@[b - 1]));
        if n - t < b {
            assert(is_space(s@[b - 1]));
        }
        if n - t > b {
            assert(!is_space(s@[n - t - 1]));
            assert(is_space(s@[n - t - 1]));
        }
        assert(b as int == n - t);
    }
    let sub = s.substring_char(a, b);
    let r = String::from_str(sub);
    proof {
        assert(r@ =~= trim_spec(s@));
    }
    r
}

/// Character-for-character string equality.
pub fn str_eq(a: &str, b: &str) -> (r: bool)
    ensures
        r == (a@ == b@),
{
    let n = a.unicode_len();
    if n != b.unicode_len() {
        return false;
    }
    let mut i: usize = 0;
    while i < n
        invariant
            0 <= i <= n,
            n == a@.len(),
            n == b@.len(),
            forall|j: int| 0 <= j < i ==> a@[j] == b@[j],
        decreases n - i,
    {
        if a.get_char(i) != b.get_char(i) {
            return false;
        }
        i += 1;
    }
    proof {
        assert(a@ =~= b@);
    }
    true
}

/// A line with one trailing carriage return removed, as the line
/// splitter hands lines out.
pub open spec fn strip_cr(l: Seq<char>) -> Seq<char> {
    if l.len() > 0 && l[l.len() - 1] == '\r' {
        l.drop_last()
    } else {
        l
    }
}

/// The position of the first `c` in `s`, or `s.len()` when absent.
pub open spec fn first_char_at(s: Seq<char>, c: char) -> int
    decreases s.len(),
{
    if s.len() == 0 {
        0
    } else if s[0] == c {
        0
    } else {
        1 + first_char_at(s.drop_first(), c)
    }
}

pub proof fn lemma_first_char_at(s: Seq<char>, c: char)
    ensures
        0 <= first_char_at(s, c) <= s.len(),
        first_char_at(s, c) < s.len() ==> s[first_char_at(s, c)] == c,
        forall|j: int| 0 <= j < first_char_at(s, c) ==> s[j] != c,
    decreases s.len(),
{
    if s.len() == 0 {
    } else if s[0] == c {
    } else {
        let rest = s.drop_first();
        lemma_first_char_at(rest, c);
        let f = first_char_at(s, c);
        assert forall|j: int| 0 <= j < f implies s[j] != c by {
            if j > 0 {
                assert(s[j] == rest[j - 1]);
            }
        }
        if f < s.len() {
            assert(s[f] == rest[f - 1]);
        }
    }
}

/// The lines of `s`: split at newline characters, the terminator not
/// included, one trailing carriage return stripped from each line, and
/// no empty final line when `s` ends with a newline.
pub open spec fn lines_of(s: Seq<char>) -> Seq<Seq<char>>
    decreases s.len(),
{
    if s.len() == 0 {
        Seq::empty()
    } else {
        let i = first_char_at(s, '\n');
        if 0 <= i < s.len() {
            seq![strip_cr(s.subrange(0, i))] + lines_of(s.subrange(i + 1, s.len() as int))
        } else {
            seq![strip_cr(s)]
        }
    }
}

/// The lines of `s` as owned strings.
pub fn split_lines(s: &str) -> (r: Vec<String>)
    ensures
        views_of(r@) == lines_of(s@),
{
    let n = s.unicode_len();
    let mut r: Vec<String> = Vec::new();
    let mut pos: usize = 0;
    proof {
        assert(s@.subrange(0, n as int) =~= s@);
        assert(views_of(r@) =~= Seq::<Seq<char>>::empty());
    }
    while pos < n
        invariant
            0 <= pos <= n,
            n == s@.len(),
            lines_of(s@) == views_of(r@) + lines_of(s@.subrange(pos as int, n as int)),
        decreases n - pos,
    {
        let ghost pos0 = pos as int;
        let ghost suffix = s@.subrange(pos as int, n as int);
        let ghost done = r@;
        let mut j: usize = pos;
        while j < n && s.get_char(j) != '\n'
            invariant
                pos <= j <= n,
                n == s@.len(),
                forall|t: int| pos <= t < j ==> s@[t] != '\n',
            decreases n - j,
        {
            j += 1;
        }
        proof {
            lemma_first_char_at(suffix, '\n');
            let f = first_char_at(suffix, '\n');
            assert forall|u: int| 0 <= u < j - pos implies suffix[u] != '\n' by {
                assert(suffix[u] == s@[pos + u]);
            }
            if j < n {
                assert(suffix[j - pos] == s@[j as int]);
                if f < j - pos {
                    assert(suffix[f] != '\n');
                }
                if f > j - pos {
                    assert(suffix[j - pos] != '\n');
                }
            } else {
                if f < suffix.len() {
                    assert(suffix[f] != '\n');
                }
            }
            assert(f == j - pos);
        }
        let end: usize = if j > pos && s.get_char(j - 1) == '\r' {
            j - 1
        } else {
            j
        };
        let line = s.substring_char(pos, end);
        let owned = String::from_str(line);
        proof {
            let raw = s@.subrange(pos as int, j as int);
            if j > pos && s@[j - 1] == '\r' {
                assert(owned@ =~= strip_cr(raw));
            } else {
                assert(owned@ =~= strip_cr(raw));
            }
        }
        r.push(owned);
        proof {
            lemma_views_of_push(done, owned);
        }
        if j < n {
            pos = j + 1;
        } else {
            pos = n;
        }
        proof {
            let f = first_char_at(suffix, '\n');
            if j < n {
                // a newline was found inside the suffix
                assert(suffix.subrange(0, f) =~= s@.subrange(pos0, j as int));
                assert(suffix.subrange(f + 1, suffix.len() as int) =~= s@.subrange(
                    pos as int,
                    n as int,
                ));
                assert(lines_of(suffix) == seq![strip_cr(suffix.subrange(0, f))] + lines_of(
                    suffix.subrange(f + 1, suffix.len() as int),
                ));
                assert(views_of(r@) =~= views_of(done).push(owned@));
                assert(views_of(r@) + lines_of(s@.subrange(pos as int, n as int)) =~= views_of(
                    done,
                ) + lines_of(suffix));
            } else {
                assert(suffix =~= s@.subrange(pos0, n as int));
                assert(lines_of(suffix) == seq![strip_cr(suffix)]);
                assert(strip_cr(suffix) == owned@);
                assert(s@.subrange(pos as int, n as int) =~= Seq::<char>::empty());
                assert(lines_of(s@.subrange(pos as int, n as int)) =~= Seq::<Seq<char>>::empty());
                assert(views_of(r@) =~= views_of(done).push(owned@));
                assert(views_of(r@) + lines_of(s@.subrange(pos as int, n as int)) =~= views_of(
                    done,
                ) + lines_of(suffix));
            }
        }
    }
    proof {
        assert(lines_of(s@.subrange(pos as int, n as int)) =~= Seq::<Seq<char>>::empty());
        assert(views_of(r@) =~= lines_of(s@));
    }
    r
}

/// The parts joined with a comma and a space between neighbours.
pub open spec fn join_spec(parts: Seq<Seq<char>>) -> Seq<char>
    decreases parts.len(),
{
    if parts.len() == 0 {
        Seq::empty()
    } else if parts.len() == 1 {
        parts[0]
    } else {
        parts[0] + ", "@ + join_spec(parts.drop_first())
    }
}

proof fn lemma_join_push(parts: Seq<Seq<char>>, x: Seq<char>)
    ensures
        parts.len() == 0 ==> join_spec(parts.push(x)) == x,
        parts.len() > 0 ==> join_spec(parts.push(x)) =~= join_spec(parts) + ", "@ + x,
    decreases parts.len(),
{
    if parts.len() == 0 {
        assert(parts.push(x)[0] == x);
    } else if parts.len() == 1 {
        assert(parts.push(x)[0] == parts[0]);
        assert(parts.push(x).drop_first() =~= seq![x]);
        assert(join_spec(seq![x]) == x);
    } else {
        lemma_join_push(parts.drop_first(), x);
        assert(parts.push(x).drop_first() =~= parts.drop_first().push(x));
        assert(parts.push(x)[0] == parts[0]);
    }
}

/// The items joined with `", "` between neighbours.
pub fn join_comma(items: &Vec<String>) -> (r: String)
    ensures
        r@ == join_spec(views_of(items@)),
{
    let mut r = String::new();
    let mut i: usize = 0;
    proof {
        assert(views_of(items@.subrange(0, 0)) =~= Seq::<Seq<char>>::empty());
    }
    while i < items.len()
        invariant
            0 <= i <= items@.len(),
            r@ == join_spec(views_of(items@.subrange(0, i as int))),
        decreases items@.len() - i,
    {
        if i > 0 {
            r.append(", ");
        }
        r.append(items[i].as_str());
        proof {
            let prefix = views_of(items@.subrange(0, i as int));
            lemma_join_push(prefix, items@[i as int]@);
            assert(views_of(items@.subrange(0, i + 1)) =~= prefix.push(items@[i as int]@));
        }
        i += 1;
    }
    proof {
        assert(items@.subrange(0, items@.len() as int) =~= items@);
    }
    r
}

} // verus!
