//! Character-level text utilities shared by the manifest parsers.
//!
//! Manifest content is handled as `Vec<char>`, whose view is the same
//! `Seq<char>` that `str` views give, so every scanning routine here can
//! be specified against the view of the original text.

use vstd::prelude::*;
use vstd::string::*;

verus! {

/// Relies on std's `String::push`: appends the character to the end of the string.
pub assume_specification[ String::push ](s: &mut String, c: char)
    ensures
        final(s)@ == old(s)@.push(c),
;

pub open spec fn is_space_char(c: char) -> bool {
    c == ' ' || c == '\t' || c == '\r' || c == '\n'
}

pub open spec fn is_digit_char(c: char) -> bool {
    48 <= c as u32 <= 57
}

/// Word characters as the identifier scans understand them: letters,
/// digits and the underscore.
pub open spec fn is_word_char(c: char) -> bool {
    is_digit_char(c) || (65 <= c as u32 <= 90) || (97 <= c as u32 <= 122) || c == '_'
}

pub fn is_space(c: char) -> (r: bool)
    ensures
        r == is_space_char(c),
{
    c == ' ' || c == '\t' || c == '\r' || c == '\n'
}

pub fn is_digit(c: char) -> (r: bool)
    ensures
        r == is_digit_char(c),
{
    let u = c as u32;
    48 <= u && u <= 57
}

pub fn is_word(c: char) -> (r: bool)
    ensures
        r == is_word_char(c),
{
    let u = c as u32;
    is_digit(c) || (65 <= u && u <= 90) || (97 <= u && u <= 122) || c == '_'
}

/// Collects the characters of a string slice into a vector with the same view.
pub fn chars_of(s: &str) -> (v: Vec<char>)
    ensures
        v@ == s@,
{
    let n = s.unicode_len();
    let mut v: Vec<char> = Vec::new();
    let mut i: usize = 0;
    while i < n
        invariant
            i <= n,
            n == s@.len(),
            v@ == s@.take(i as int),
        decreases n - i,
    {
        let c = s.get_char(i);
        v.push(c);
        proof {
            assert(s@.take(i + 1 as int) =~= s@.take(i as int).push(s@[i as int]));
        }
        i = i + 1;
    }
    proof {
        assert(s@.take(n as int) =~= s@);
    }
    v
}

/// Builds a `String` out of a character range of a vector.
pub fn string_of_range(v: &Vec<char>, from: usize, to: usize) -> (s: String)
    requires
        from <= to <= v@.len(),
    ensures
        s@ == v@.subrange(from as int, to as int),
{
    let mut s = String::new();
    let mut i: usize = from;
    while i < to
        invariant
            from <= i <= to <= v@.len(),
            s@ == v@.subrange(from as int, i as int),
        decreases to - i,
    {
        s.push(v[i]);
        proof {
            assert(v@.subrange(from as int, i + 1 as int) =~= v@.subrange(
                from as int,
                i as int,
            ).push(v@[i as int]));
        }
        i = i + 1;
    }
    s
}

pub fn string_of(v: &Vec<char>) -> (s: String)
    ensures
        s@ == v@,
{
    let r = string_of_range(v, 0, v.len());
    proof {
        assert(v@.subrange(0, v@.len() as int) =~= v@);
    }
    r
}

/// Compares a character vector with a string slice.
pub fn chars_eq_str(v: &Vec<char>, s: &str) -> (r: bool)
    ensures
        r == (v@ == s@),
{
    let n = s.unicode_len();
    if v.len() != n {
        proof {
            assert(v@ != s@);
        }
        return false;
    }
    let mut i: usize = 0;
    while i < n
        invariant
            i <= n,
            n == s@.len() == v@.len(),
            forall|j: int| 0 <= j < i ==> v@[j] == s@[j],
        decreases n - i,
    {
        if v[i] != s.get_char(i) {
            return false;
        }
        i = i + 1;
    }
    proof {
        assert(v@ =~= s@);
    }
    true
}

/// Compares two string slices character by character.
pub fn str_eq(a: &str, b: &str) -> (r: bool)
    ensures
        r == (a@ == b@),
{
    let n = a.unicode_len();
    if b.unicode_len() != n {
        proof {
            assert(a@ != b@);
        }
        return false;
    }
    let mut i: usize = 0;
    while i < n
        invariant
            i <= n,
            n == a@.len() == b@.len(),
            forall|j: int| 0 <= j < i ==> a@[j] == b@[j],
        decreases n - i,
    {
        if a.get_char(i) != b.get_char(i) {
            return false;
        }
        i = i + 1;
    }
    proof {
        assert(a@ =~= b@);
    }
    true
}

pub open spec fn starts_with_spec(s: Seq<char>, p: Seq<char>) -> bool {
    p.len() <= s.len() && s.subrange(0, p.len() as int) == p
}

pub open spec fn ends_with_spec(s: Seq<char>, p: Seq<char>) -> bool {
    p.len() <= s.len() && s.subrange(s.len() - p.len(), s.len() as int) == p
}

/// Whether the characters of `v`, starting at `at`, begin with `p`.
pub fn range_starts_with(v: &Vec<char>, at: usize, p: &str) -> (r: bool)
    requires
        at <= v@.len(),
    ensures
        r == starts_with_spec(v@.skip(at as int), p@),
{
    let n = p.unicode_len();
    if v.len() - at < n {
        return false;
    }
    let vlen = v.len();
    let mut i: usize = 0;
    while i < n
        invariant
            i <= n,
            n == p@.len(),
            at + n <= vlen == v@.len(),
            forall|j: int| 0 <= j < i ==> v@[at + j] == p@[j],
        decreases n - i,
    {
        if v[at + i] != p.get_char(i) {
            proof {
                assert(v@.skip(at as int)[i as int] == v@[at + i]);
            }
            return false;
        }
        i = i + 1;
    }
    proof {
        assert(v@.skip(at as int).subrange(0, n as int) =~= p@);
    }
    true
}

pub fn starts_with(v: &Vec<char>, p: &str) -> (r: bool)
    ensures
        r == starts_with_spec(v@, p@),
{
    let r = range_starts_with(v, 0, p);
    proof {
        assert(v@.skip(0) =~= v@);
    }
    r
}

pub fn ends_with(v: &Vec<char>, p: &str) -> (r: bool)
    ensures
        r == ends_with_spec(v@, p@),
{
    let n = p.unicode_len();
    if v.len() < n {
        return false;
    }
    let at = v.len() - n;
    let vlen = v.len();
    let mut i: usize = 0;
    while i < n
        invariant
            i <= n,
            n == p@.len(),
            at == vlen - n,
            vlen == v@.len(),
            forall|j: int| 0 <= j < i ==> v@[at + j] == p@[j],
        decreases n - i,
    {
        if v[at + i] != p.get_char(i) {
            proof {
                assert(v@.subrange(at as int, v@.len() as int)[i as int] == v@[at + i]);
            }
            return false;
        }
        i = i + 1;
    }
    proof {
        assert(v@.subrange(at as int, v@.len() as int) =~= p@);
    }
    true
}

/// Index right after the leading whitespace of `s`.
pub open spec fn skip_spaces_spec(s: Seq<char>, i: int) -> int
    decreases s.len() - i,
{
    if 0 <= i < s.len() && is_space_char(s[i]) {
        skip_spaces_spec(s, i + 1)
    } else {
        i
    }
}

pub proof fn lemma_skip_spaces_bounds(s: Seq<char>, i: int)
    requires
        0 <= i <= s.len(),
    ensures
        i <= skip_spaces_spec(s, i) <= s.len(),
        forall|j: int| i <= j < skip_spaces_spec(s, i) ==> is_space_char(s[j]),
        skip_spaces_spec(s, i) < s.len() ==> !is_space_char(s[skip_spaces_spec(s, i)]),
    decreases s.len() - i,
{
    if i < s.len() && is_space_char(s[i]) {
        lemma_skip_spaces_bounds(s, i + 1);
    }
}

pub fn skip_spaces(v: &Vec<char>, from: usize) -> (r: usize)
    requires
        from <= v@.len(),
    ensures
        r == skip_spaces_spec(v@, from as int),
        from <= r <= v@.len(),
    decreases v@.len() - from,
{
    proof {
        lemma_skip_spaces_bounds(v@, from as int);
    }
    if from < v.len() && is_space(v[from]) {
        skip_spaces(v, from + 1)
    } else {
        from
    }
}

pub open spec fn trim_start_spec(s: Seq<char>) -> Seq<char>
    decreases s.len(),
{
    if s.len() > 0 && is_space_char(s[0]) {
        trim_start_spec(s.skip(1))
    } else {
        s
    }
}

pub open spec fn trim_end_spec(s: Seq<char>) -> Seq<char>
    decreases s.len(),
{
    if s.len() > 0 && is_space_char(s[s.len() - 1]) {
        trim_end_spec(s.drop_last())
    } else {
        s
    }
}

/// Whitespace stripped from both ends, as `str::trim` does.
pub open spec fn trim_spec(s: Seq<char>) -> Seq<char> {
    trim_end_spec(trim_start_spec(s))
}

proof fn lemma_trim_start_skip(s: Seq<char>, i: int)
    requires
        0 <= i <= s.len(),
        forall|j: int| 0 <= j < i ==> is_space_char(s[j]),
    ensures
        trim_start_spec(s) == trim_start_spec(s.skip(i)),
    decreases i,
{
    if i > 0 {
        assert(trim_start_spec(s) == trim_start_spec(s.skip(1)));
        assert(s.skip(1).len() == s.len() - 1);
        assert(forall|j: int| 0 <= j < i - 1 ==> s.skip(1)[j] == s[j + 1]);
        lemma_trim_start_skip(s.skip(1), i - 1);
        assert(s.skip(1).skip(i - 1) =~= s.skip(i));
    } else {
        assert(s.skip(0) =~= s);
    }
}

proof fn lemma_trim_end_sub(s: Seq<char>, i: int)
    requires
        0 <= i <= s.len(),
        forall|j: int| i <= j < s.len() ==> is_space_char(s[j]),
    ensures
        trim_end_spec(s) == trim_end_spec(s.take(i)),
    decreases s.len() - i,
{
    if i < s.len() {
        assert(is_space_char(s[s.len() - 1]));
        assert(trim_end_spec(s) == trim_end_spec(s.drop_last()));
        lemma_trim_end_sub(s.drop_last(), i);
        assert(s.drop_last().take(i) =~= s.take(i));
    } else {
        assert(s.take(i) =~= s);
    }
}

/// Trims whitespace from both ends of the vector's characters.
pub fn trimmed(v: &Vec<char>) -> (r: Vec<char>)
    ensures
        r@ == trim_spec(v@),
{
    let lo = skip_spaces(v, 0);
    proof {
        lemma_skip_spaces_bounds(v@, 0);
        lemma_trim_start_skip(v@, lo as int);
    }
    // v@.skip(lo) has no leading space, so trim_start of it is itself
    proof {
        if lo < v@.len() {
            assert(v@.skip(lo as int)[0] == v@[lo as int]);
        }
        assert(trim_start_spec(v@) == v@.skip(lo as int));
    }
    let mut hi: usize = v.len();
    proof {
        assert(v@.skip(lo as int).take((v@.len() - lo) as int) =~= v@.skip(lo as int));
    }
    while hi > lo && is_space(v[hi - 1])
        invariant
            lo <= hi <= v@.len(),
            trim_end_spec(v@.skip(lo as int)) == trim_end_spec(
                v@.skip(lo as int).take(hi - lo as int),
            ),
        decreases hi,
    {
        proof {
            let t = v@.skip(lo as int).take(hi - lo as int);
            assert(t[t.len() - 1] == v@[hi - 1]);
            assert(t.drop_last() =~= v@.skip(lo as int).take(hi - 1 - lo as int));
        }
        hi = hi - 1;
    }
    proof {
        let t = v@.skip(lo as int).take(hi - lo as int);
        if hi > lo {
            assert(t[t.len() - 1] == v@[hi - 1]);
        }
        assert(trim_end_spec(t) == t);
        assert(t =~= v@.subrange(lo as int, hi as int));
    }
    let mut r: Vec<char> = Vec::new();
    let mut i: usize = lo;
    while i < hi
        invariant
            lo <= i <= hi <= v@.len(),
            r@ == v@.subrange(lo as int, i as int),
        decreases hi - i,
    {
        r.push(v[i]);
        proof {
            assert(v@.subrange(lo as int, i + 1 as int) =~= v@.subrange(
                lo as int,
                i as int,
            ).push(v@[i as int]));
        }
        i = i + 1;
    }
    proof {
        assert(r@ =~= v@.subrange(lo as int, hi as int));
    }
    r
}

/// Index of the first occurrence of `c` at or after `i`; `s.len()` if absent.
pub open spec fn find_char_spec(s: Seq<char>, c: char, i: int) -> int
    decreases s.len() - i,
{
    if 0 <= i < s.len() {
        if s[i] == c {
            i
        } else {
            find_char_spec(s, c, i + 1)
        }
    } else {
        i
    }
}

pub proof fn lemma_find_char(s: Seq<char>, c: char, i: int)
    requires
        0 <= i <= s.len(),
    ensures
        i <= find_char_spec(s, c, i) <= s.len(),
        forall|j: int| i <= j < find_char_spec(s, c, i) ==> s[j] != c,
        find_char_spec(s, c, i) < s.len() ==> s[find_char_spec(s, c, i)] == c,
    decreases s.len() - i,
{
    if i < s.len() && s[i] != c {
        lemma_find_char(s, c, i + 1);
    }
}

pub fn find_char(v: &Vec<char>, c: char, from: usize) -> (r: usize)
    requires
        from <= v@.len(),
    ensures
        r == find_char_spec(v@, c, from as int),
        from <= r <= v@.len(),
    decreases v@.len() - from,
{
    proof {
        lemma_find_char(v@, c, from as int);
    }
    if from < v.len() {
        if v[from] == c {
            from
        } else {
            find_char(v, c, from + 1)
        }
    } else {
        from
    }
}

/// A line's trailing carriage return stripped, as `str::lines` does.
pub open spec fn strip_cr_spec(l: Seq<char>) -> Seq<char> {
    if l.len() > 0 && l[l.len() - 1] == '\r' {
        l.drop_last()
    } else {
        l
    }
}

/// The lines of `s`, split at newline characters, each with a trailing
/// carriage return removed; a trailing newline produces no empty final line.
pub open spec fn lines_spec(s: Seq<char>) -> Seq<Seq<char>>
    decreases s.len(),
{
    if s.len() == 0 {
        Seq::empty()
    } else {
        let i = find_char_spec(s, '\n', 0);
        if 0 <= i < s.len() {
            seq![strip_cr_spec(s.take(i))] + lines_spec(s.skip(i + 1))
        } else {
            seq![strip_cr_spec(s)]
        }
    }
}

fn strip_cr(l: Vec<char>) -> (r: Vec<char>)
    ensures
        r@ == strip_cr_spec(l@),
{
    let mut m = l;
    if m.len() > 0 && m[m.len() - 1] == '\r' {
        m.pop();
    }
    m
}

/// Splits the characters into lines, as `str::lines` does.
pub fn split_lines(v: &Vec<char>) -> (r: Vec<Vec<char>>)
    ensures
        r.deep_view() == lines_spec(v@),
{
    let mut r: Vec<Vec<char>> = Vec::new();
    let mut start: usize = 0;
    proof {
        assert(v@.skip(0) =~= v@);
        assert(r.deep_view() =~~= Seq::<Seq<char>>::empty());
        assert(r.deep_view() + lines_spec(v@) =~~= lines_spec(v@));
    }
    while start < v.len()
        invariant
            start <= v@.len(),
            lines_spec(v@) == r.deep_view() + lines_spec(v@.skip(start as int)),
        decreases v@.len() - start,
    {
        let nl = find_char(v, '\n', start);
        let mut line: Vec<char> = Vec::new();
        let mut i: usize = start;
        while i < nl
            invariant
                start <= i <= nl <= v@.len(),
                line@ == v@.subrange(start as int, i as int),
            decreases nl - i,
        {
            line.push(v[i]);
            proof {
                assert(v@.subrange(start as int, i + 1 as int) =~= v@.subrange(
                    start as int,
                    i as int,
                ).push(v@[i as int]));
            }
            i = i + 1;
        }
        let stripped = strip_cr(line);
        let ghost old_deep = r.deep_view();
        let ghost stripped_view = stripped@;
        r.push(stripped);
        proof {
            assert(r.deep_view() =~~= old_deep.push(stripped_view));
            let rest = v@.skip(start as int);
            let k = find_char_spec(rest, '\n', 0);
            lemma_find_char(rest, '\n', 0);
            lemma_find_char(v@, '\n', start as int);
            assert(forall|j: int| 0 <= j < rest.len() ==> rest[j] == v@[start + j]);
            assert(k == nl - start) by {
                if k < nl - start {
                    assert(rest[k] == '\n');
                    assert(v@[start + k] == '\n');
                    assert(start <= start + k < nl);
                } else if k > nl - start {
                    assert(nl < v@.len());
                    assert(v@[nl as int] == '\n');
                    assert(rest[nl - start] == '\n');
                    assert(rest[nl - start] != '\n');
                }
            };
            assert(rest.take(k) =~= v@.subrange(start as int, nl as int));
            if nl < v@.len() {
                assert(rest.skip(k + 1) =~= v@.skip(nl + 1 as int));
                assert(lines_spec(rest) == seq![strip_cr_spec(rest.take(k))] + lines_spec(
                    rest.skip(k + 1),
                ));
                assert(old_deep + lines_spec(rest) =~~= r.deep_view() + lines_spec(
                    v@.skip(nl + 1 as int),
                ));
            } else {
                assert(rest.take(k) =~= rest);
                assert(lines_spec(rest) == seq![strip_cr_spec(rest)]);
                assert(v@.skip(nl as int) =~= Seq::<char>::empty());
                assert(old_deep + lines_spec(rest) =~~= r.deep_view() + lines_spec(
                    v@.skip(nl as int),
                ));
            }
        }
        if nl < v.len() {
            start = nl + 1;
        } else {
            start = nl;
        }
    }
    proof {
        assert(v@.skip(start as int) =~= Seq::<char>::empty());
        assert(r.deep_view() + lines_spec(v@.skip(start as int)) =~~= r.deep_view());
    }
    r
}

/// Whether `p` occurs as a contiguous run anywhere in `s`.
pub open spec fn contains_sub_spec(s: Seq<char>, p: Seq<char>) -> bool {
    exists|i: int| 0 <= i <= s.len() - p.len() && #[trigger] s.subrange(i, i + p.len()) == p
}

pub fn contains_sub(v: &Vec<char>, p: &str) -> (r: bool)
    ensures
        r == contains_sub_spec(v@, p@),
{
    let n = p.unicode_len();
    if n > v.len() {
        return false;
    }
    if n == 0 {
        proof {
            assert(contains_sub_spec(v@, p@)) by {
                assert(v@.subrange(0, 0 + p@.len() as int) =~= p@);
            }
        }
        return true;
    }
    let vlen = v.len();
    let mut i: usize = 0;
    while i <= vlen - n
        invariant
            1 <= n == p@.len(),
            n <= vlen == v@.len(),
            i <= vlen - n + 1,
            forall|k: int| 0 <= k < i ==> #[trigger] v@.subrange(k, k + p@.len()) != p@,
        decreases vlen - i,
    {
        let mut j: usize = 0;
        let mut hit = true;
        while j < n
            invariant
                j <= n,
                n == p@.len(),
                i + n <= vlen == v@.len(),
                hit == (forall|k: int| 0 <= k < j ==> v@[i + k] == p@[k]),
            decreases n - j,
        {
            if v[i + j] != p.get_char(j) {
                hit = false;
                proof {
                    assert(v@[i + j as int] != p@[j as int]);
                }
                j = n;
            } else {
                j = j + 1;
            }
        }
        if hit {
            proof {
                assert(contains_sub_spec(v@, p@)) by {
                    assert(v@.subrange(i as int, i + p@.len()) =~= p@);
                }
            }
            return true;
        }
        proof {
            if v@.subrange(i as int, i + p@.len()) == p@ {
                assert(forall|k: int| 0 <= k < n ==> #[trigger] v@.subrange(
                    i as int,
                    i + p@.len(),
                )[k] == v@[i + k]);
                assert(false);
            }
        }
        i = i + 1;
    }
    proof {
        if contains_sub_spec(v@, p@) {
            let w = choose|k: int|
                0 <= k <= v@.len() - p@.len() && #[trigger] v@.subrange(k, k + p@.len()) == p@;
            assert(v@.subrange(w, w + p@.len()) == p@);
            assert(false);
        }
    }
    false
}


/// End of the whitespace-free token starting at `i`: the first index at or
/// after `i` holding a space, or the end of `s`.
pub open spec fn token_end_spec(s: Seq<char>, i: int) -> int
    decreases s.len() - i,
{
    if 0 <= i < s.len() && !is_space_char(s[i]) {
        token_end_spec(s, i + 1)
    } else {
        i
    }
}

pub proof fn lemma_token_end_bounds(s: Seq<char>, i: int)
    requires
        0 <= i <= s.len(),
    ensures
        i <= token_end_spec(s, i) <= s.len(),
        forall|j: int| i <= j < token_end_spec(s, i) ==> !is_space_char(s[j]),
        token_end_spec(s, i) < s.len() ==> is_space_char(s[token_end_spec(s, i)]),
    decreases s.len() - i,
{
    if i < s.len() && !is_space_char(s[i]) {
        lemma_token_end_bounds(s, i + 1);
    }
}

pub fn token_end(v: &Vec<char>, from: usize) -> (r: usize)
    requires
        from <= v@.len(),
    ensures
        r == token_end_spec(v@, from as int),
        from <= r <= v@.len(),
    decreases v@.len() - from,
{
    proof {
        lemma_token_end_bounds(v@, from as int);
    }
    if from < v.len() && !is_space(v[from]) {
        token_end(v, from + 1)
    } else {
        from
    }
}

/// The whitespace-separated tokens of `s` from index `i` on, as half-open
/// index spans.
pub open spec fn token_spans_spec(s: Seq<char>, i: int) -> Seq<(int, int)>
    decreases s.len() - i,
{
    if !(0 <= i < s.len()) {
        Seq::empty()
    } else if is_space_char(s[i]) {
        token_spans_spec(s, i + 1)
    } else {
        let rest = token_spans_spec(s, i + 1);
        if i + 1 < s.len() && !is_space_char(s[i + 1]) {
            seq![(i, rest[0].1)] + rest.skip(1)
        } else {
            seq![(i, i + 1)] + rest
        }
    }
}

/// Unfolds `token_spans_spec` one whole token at a time: skip the leading
/// spaces, take the token there, continue after its end.
pub proof fn lemma_token_spans_step(s: Seq<char>, i: int)
    requires
        0 <= i <= s.len(),
    ensures
        skip_spaces_spec(s, i) >= s.len() ==> token_spans_spec(s, i) =~= Seq::<(int, int)>::empty(),
        skip_spaces_spec(s, i) < s.len() ==> token_spans_spec(s, i) =~= seq![
            (skip_spaces_spec(s, i), token_end_spec(s, skip_spaces_spec(s, i))),
        ] + token_spans_spec(s, token_end_spec(s, skip_spaces_spec(s, i))),
    decreases s.len() - i,
{
    lemma_skip_spaces_bounds(s, i);
    if i >= s.len() {
    } else if is_space_char(s[i]) {
        lemma_token_spans_step(s, i + 1);
    } else {
        assert(skip_spaces_spec(s, i) == i);
        lemma_token_end_bounds(s, i);
        if i + 1 < s.len() && !is_space_char(s[i + 1]) {
            lemma_token_spans_step(s, i + 1);
            assert(skip_spaces_spec(s, i + 1) == i + 1);
            assert(token_end_spec(s, i) == token_end_spec(s, i + 1));
        } else {
            assert(token_end_spec(s, i) == i + 1);
        }
    }
}

/// Collects the whitespace-separated token spans of the whole vector.
pub fn token_spans(v: &Vec<char>) -> (r: Vec<(usize, usize)>)
    ensures
        spans_view(r@) == token_spans_spec(v@, 0),
{
    let mut r: Vec<(usize, usize)> = Vec::new();
    let mut i: usize = 0;
    proof {
        assert(spans_view(r@) =~= Seq::<(int, int)>::empty());
        assert(Seq::<(int, int)>::empty() + token_spans_spec(v@, 0) =~= token_spans_spec(v@, 0));
    }
    while i < v.len()
        invariant
            i <= v@.len(),
            token_spans_spec(v@, 0) == spans_view(r@) + token_spans_spec(v@, i as int),
        decreases v@.len() - i,
    {
        let j = skip_spaces(v, i);
        proof {
            lemma_token_spans_step(v@, i as int);
        }
        if j >= v.len() {
            proof {
                assert(spans_view(r@) + token_spans_spec(v@, i as int) =~= spans_view(r@)
                    + token_spans_spec(v@, j as int));
            }
            i = j;
        } else {
            let e = token_end(v, j);
            proof {
                lemma_token_end_bounds(v@, j as int);
                assert(token_end_spec(v@, j as int) > j) by {
                    lemma_skip_spaces_bounds(v@, i as int);
                    assert(!is_space_char(v@[j as int]));
                };
            }
            let ghost old_spans = spans_view(r@);
            r.push((j, e));
            proof {
                assert(spans_view(r@) =~= old_spans.push((j as int, e as int)));
                assert(old_spans + token_spans_spec(v@, i as int) =~= spans_view(r@)
                    + token_spans_spec(v@, e as int));
            }
            i = e;
        }
    }
    proof {
        assert(token_spans_spec(v@, i as int) =~= Seq::<(int, int)>::empty());
        assert(spans_view(r@) + token_spans_spec(v@, i as int) =~= spans_view(r@));
    }
    r
}

pub open spec fn spans_view(a: Seq<(usize, usize)>) -> Seq<(int, int)> {
    a.map_values(|p: (usize, usize)| (p.0 as int, p.1 as int))
}

/// End of the run of ASCII digits starting at `i`.
pub open spec fn digits_end_spec(s: Seq<char>, i: int) -> int
    decreases s.len() - i,
{
    if 0 <= i < s.len() && is_digit_char(s[i]) {
        digits_end_spec(s, i + 1)
    } else {
        i
    }
}

pub proof fn lemma_digits_end_bounds(s: Seq<char>, i: int)
    requires
        0 <= i <= s.len(),
    ensures
        i <= digits_end_spec(s, i) <= s.len(),
        forall|j: int| i <= j < digits_end_spec(s, i) ==> is_digit_char(s[j]),
        digits_end_spec(s, i) < s.len() ==> !is_digit_char(s[digits_end_spec(s, i)]),
    decreases s.len() - i,
{
    if i < s.len() && is_digit_char(s[i]) {
        lemma_digits_end_bounds(s, i + 1);
    }
}

pub fn digits_end(v: &Vec<char>, from: usize) -> (r: usize)
    requires
        from <= v@.len(),
    ensures
        r == digits_end_spec(v@, from as int),
        from <= r <= v@.len(),
    decreases v@.len() - from,
{
    proof {
        lemma_digits_end_bounds(v@, from as int);
    }
    if from < v.len() && is_digit(v[from]) {
        digits_end(v, from + 1)
    } else {
        from
    }
}

/// Whether a dotted numeric version `D+.D+.D+` begins at index `i`.
pub open spec fn dotted_version_at_spec(s: Seq<char>, i: int) -> bool {
    let d1 = digits_end_spec(s, i);
    let d2 = digits_end_spec(s, d1 + 1);
    let d3 = digits_end_spec(s, d2 + 1);
    &&& d1 > i
    &&& d1 < s.len() && s[d1] == '.'
    &&& d2 > d1 + 1
    &&& d2 < s.len() && s[d2] == '.'
    &&& d3 > d2 + 1
}

pub fn dotted_version_at(v: &Vec<char>, i: usize) -> (r: bool)
    requires
        i <= v@.len(),
    ensures
        r == dotted_version_at_spec(v@, i as int),
{
    let d1 = digits_end(v, i);
    if !(d1 > i && d1 < v.len() && v[d1] == '.') {
        return false;
    }
    let d2 = digits_end(v, d1 + 1);
    if !(d2 > d1 + 1 && d2 < v.len() && v[d2] == '.') {
        return false;
    }
    let d3 = digits_end(v, d2 + 1);
    d3 > d2 + 1
}


/// Every token span lies inside the text, is nonempty, and the first token
/// of a text that starts with a non-space starts at that very index.
pub proof fn lemma_token_spans_bounds(s: Seq<char>, i: int)
    requires
        0 <= i <= s.len(),
    ensures
        forall|k: int|
            0 <= k < token_spans_spec(s, i).len() ==> i <= (#[trigger] token_spans_spec(s, i)[k]).0
                < token_spans_spec(s, i)[k].1 <= s.len(),
        (i < s.len() && !is_space_char(s[i])) ==> token_spans_spec(s, i).len() > 0
            && token_spans_spec(s, i)[0].0 == i,
    decreases s.len() - i,
{
    if i >= s.len() {
    } else if is_space_char(s[i]) {
        lemma_token_spans_bounds(s, i + 1);
    } else {
        lemma_token_spans_bounds(s, i + 1);
        let rest = token_spans_spec(s, i + 1);
        if i + 1 < s.len() && !is_space_char(s[i + 1]) {
            let merged = seq![(i, rest[0].1)] + rest.skip(1);
            assert(token_spans_spec(s, i) == merged);
            assert(rest[0].0 == i + 1);
            assert(rest[0].0 < rest[0].1);
            assert forall|k: int| 0 <= k < merged.len() implies i <= (#[trigger] merged[k]).0
                < merged[k].1 <= s.len() by {
                if k == 0 {
                    assert(merged[0] == (i, rest[0].1));
                } else {
                    assert(merged[k] == rest.skip(1)[k - 1]);
                    assert(rest.skip(1)[k - 1] == rest[k]);
                }
            }
            assert(merged[0].0 == i);
        } else {
            let whole = seq![(i, i + 1)] + rest;
            assert(token_spans_spec(s, i) == whole);
            assert forall|k: int| 0 <= k < whole.len() implies i <= (#[trigger] whole[k]).0
                < whole[k].1 <= s.len() by {
                if k == 0 {
                    assert(whole[0] == (i, i + 1));
                } else {
                    assert(whole[k] == rest[k - 1]);
                }
            }
            assert(whole[0].0 == i);
        }
    }
}


/// Start of the version digits of a token beginning at `a`: a leading `v`
/// is skipped.
pub open spec fn ver_start_spec(t: Seq<char>, a: int) -> int {
    if 0 <= a < t.len() && t[a] == 'v' {
        a + 1
    } else {
        a
    }
}

/// Whether the token starting at `a` is a dotted numeric version, optionally
/// `v`-prefixed.
pub open spec fn is_version_token_spec(t: Seq<char>, a: int) -> bool {
    dotted_version_at_spec(t, ver_start_spec(t, a))
}

/// Index of the first token at or after `k` whose text is a version token.
pub open spec fn first_version_token_spec(t: Seq<char>, toks: Seq<(int, int)>, k: int) -> Option<
    int,
>
    decreases toks.len() - k,
{
    if !(0 <= k < toks.len()) {
        None
    } else if is_version_token_spec(t, toks[k].0) {
        Some(k)
    } else {
        first_version_token_spec(t, toks, k + 1)
    }
}

pub proof fn lemma_first_version_token(t: Seq<char>, toks: Seq<(int, int)>, k: int)
    requires
        0 <= k,
    ensures
        first_version_token_spec(t, toks, k) matches Some(f) ==> k <= f < toks.len()
            && is_version_token_spec(t, toks[f].0),
    decreases toks.len() - k,
{
    if 0 <= k < toks.len() && !is_version_token_spec(t, toks[k].0) {
        lemma_first_version_token(t, toks, k + 1);
    }
}


/// End of the run of word characters starting at `i`.
pub open spec fn word_end_spec(s: Seq<char>, i: int) -> int
    decreases s.len() - i,
{
    if 0 <= i < s.len() && is_word_char(s[i]) {
        word_end_spec(s, i + 1)
    } else {
        i
    }
}

pub proof fn lemma_word_end_bounds(s: Seq<char>, i: int)
    requires
        0 <= i <= s.len(),
    ensures
        i <= word_end_spec(s, i) <= s.len(),
        forall|j: int| i <= j < word_end_spec(s, i) ==> is_word_char(s[j]),
        word_end_spec(s, i) < s.len() ==> !is_word_char(s[word_end_spec(s, i)]),
    decreases s.len() - i,
{
    if i < s.len() && is_word_char(s[i]) {
        lemma_word_end_bounds(s, i + 1);
    }
}

pub fn word_end(v: &Vec<char>, from: usize) -> (r: usize)
    requires
        from <= v@.len(),
    ensures
        r == word_end_spec(v@, from as int),
        from <= r <= v@.len(),
    decreases v@.len() - from,
{
    proof {
        lemma_word_end_bounds(v@, from as int);
    }
    if from < v.len() && is_word(v[from]) {
        word_end(v, from + 1)
    } else {
        from
    }
}

/// Copies a character range of a vector into a new vector.
pub fn sub_vec(v: &Vec<char>, from: usize, to: usize) -> (r: Vec<char>)
    requires
        from <= to <= v@.len(),
    ensures
        r@ == v@.subrange(from as int, to as int),
{
    let mut r: Vec<char> = Vec::new();
    let mut i: usize = from;
    while i < to
        invariant
            from <= i <= to <= v@.len(),
            r@ == v@.subrange(from as int, i as int),
        decreases to - i,
    {
        r.push(v[i]);
        proof {
            assert(v@.subrange(from as int, i + 1 as int) =~= v@.subrange(
                from as int,
                i as int,
            ).push(v@[i as int]));
        }
        i = i + 1;
    }
    r
}


/// Index of the first line at or after `k` that contains `needle`.
pub open spec fn find_line_spec(lines: Seq<Seq<char>>, needle: Seq<char>, k: int) -> Option<int>
    decreases lines.len() - k,
{
    if !(0 <= k < lines.len()) {
        None
    } else if contains_sub_spec(lines[k], needle) {
        Some(k)
    } else {
        find_line_spec(lines, needle, k + 1)
    }
}

/// First line (by index) containing `needle`, if any.
pub fn find_line(lines: &Vec<Vec<char>>, needle: &str) -> (r: Option<usize>)
    ensures
        r is Some <==> find_line_spec(lines.deep_view(), needle@, 0) is Some,
        r matches Some(i) ==> find_line_spec(lines.deep_view(), needle@, 0) == Some(i as int)
            && i < lines@.len(),
{
    let ghost ls = lines.deep_view();
    let mut k: usize = 0;
    while k < lines.len()
        invariant
            k <= lines@.len(),
            ls == lines.deep_view(),
            lines@.len() == ls.len(),
            find_line_spec(ls, needle@, 0) == find_line_spec(ls, needle@, k as int),
        decreases lines@.len() - k,
    {
        let line = &lines[k];
        proof {
            assert(line@ == ls[k as int]);
        }
        if contains_sub(line, needle) {
            return Some(k);
        }
        k = k + 1;
    }
    None
}

/// Number of occurrences of `c` in `s`.
pub open spec fn count_char_spec(s: Seq<char>, c: char) -> int
    decreases s.len(),
{
    if s.len() == 0 {
        0
    } else {
        count_char_spec(s.drop_last(), c) + if s.last() == c {
            1int
        } else {
            0int
        }
    }
}

pub proof fn lemma_count_char_bound(s: Seq<char>, c: char)
    ensures
        0 <= count_char_spec(s, c) <= s.len(),
    decreases s.len(),
{
    if s.len() > 0 {
        lemma_count_char_bound(s.drop_last(), c);
    }
}

pub fn count_char(v: &Vec<char>, c: char) -> (r: usize)
    ensures
        r == count_char_spec(v@, c),
{
    let mut r: usize = 0;
    let mut i: usize = 0;
    proof {
        assert(v@.take(0) =~= Seq::<char>::empty());
    }
    while i < v.len()
        invariant
            i <= v@.len(),
            r == count_char_spec(v@.take(i as int), c),
            r <= i,
        decreases v@.len() - i,
    {
        proof {
            assert(v@.take(i + 1 as int).drop_last() =~= v@.take(i as int));
            assert(v@.take(i + 1 as int).last() == v@[i as int]);
        }
        if v[i] == c {
            r = r + 1;
        }
        i = i + 1;
    }
    proof {
        assert(v@.take(v@.len() as int) =~= v@);
    }
    r
}


/// Total character count of a sequence of lines.
pub open spec fn sum_lens(lines: Seq<Seq<char>>) -> int
    decreases lines.len(),
{
    if lines.len() == 0 {
        0
    } else {
        sum_lens(lines.drop_last()) + lines.last().len()
    }
}

pub proof fn lemma_sum_lens_nonneg(lines: Seq<Seq<char>>)
    ensures
        sum_lens(lines) >= 0,
    decreases lines.len(),
{
    if lines.len() > 0 {
        lemma_sum_lens_nonneg(lines.drop_last());
    }
}

/// A split of the lines splits their total length.
pub proof fn lemma_sum_lens_parts(lines: Seq<Seq<char>>, i: int)
    requires
        0 <= i <= lines.len(),
    ensures
        sum_lens(lines) == sum_lens(lines.take(i)) + sum_lens(lines.skip(i)),
    decreases lines.len(),
{
    if i == lines.len() {
        assert(lines.take(i) =~= lines);
        assert(lines.skip(i) =~= Seq::<Seq<char>>::empty());
    } else {
        let dl = lines.drop_last();
        lemma_sum_lens_parts(dl, i);
        assert(lines.take(i) =~= dl.take(i));
        assert(lines.skip(i).drop_last() =~= dl.skip(i));
        assert(lines.skip(i).last() == lines.last());
        assert(sum_lens(lines.skip(i)) == sum_lens(dl.skip(i)) + lines.last().len());
    }
}

/// The lines of a text together hold at most as many characters as the
/// text.
pub proof fn lemma_lines_spec_sum(s: Seq<char>)
    ensures
        sum_lens(lines_spec(s)) <= s.len(),
    decreases s.len(),
{
    if s.len() == 0 {
    } else {
        let i = find_char_spec(s, '\n', 0);
        lemma_find_char(s, '\n', 0);
        if 0 <= i < s.len() {
            let first = strip_cr_spec(s.take(i));
            let rest = lines_spec(s.skip(i + 1));
            assert(lines_spec(s) == seq![first] + rest);
            lemma_sum_lens_parts(seq![first] + rest, 1);
            assert((seq![first] + rest).take(1) =~= seq![first]);
            assert((seq![first] + rest).skip(1) =~= rest);
            assert(sum_lens(seq![first]) == first.len()) by {
                assert(seq![first].drop_last() =~= Seq::<Seq<char>>::empty());
                assert(sum_lens(Seq::<Seq<char>>::empty()) == 0);
                assert(seq![first].last() == first);
            }
            lemma_lines_spec_sum(s.skip(i + 1));
        } else {
            let whole = strip_cr_spec(s);
            assert(lines_spec(s) == seq![whole]);
            assert(sum_lens(seq![whole]) == whole.len()) by {
                assert(seq![whole].drop_last() =~= Seq::<Seq<char>>::empty());
                assert(sum_lens(Seq::<Seq<char>>::empty()) == 0);
                assert(seq![whole].last() == whole);
            }
        }
    }
}

} // verus!
