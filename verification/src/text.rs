//! Character-level text utilities shared by the parsers and exporters.
//!
//! Strings are modelled by their views, sequences of `char`.
use vstd::prelude::*;

verus! {

/// The Unicode `White_Space` property (the set `char::is_whitespace` tests).
pub open spec fn is_ws(c: char) -> bool {
    let n = c as u32;
    ||| (0x09 <= n && n <= 0x0D)
    ||| n == 0x20
    ||| n == 0x85
    ||| n == 0xA0
    ||| n == 0x1680
    ||| (0x2000 <= n && n <= 0x200A)
    ||| n == 0x2028
    ||| n == 0x2029
    ||| n == 0x202F
    ||| n == 0x205F
    ||| n == 0x3000
}

/// Tests a character for Unicode white space.
pub fn is_white(c: char) -> (r: bool)
    ensures
        r == is_ws(c),
{
    let n = c as u32;
    (0x09 <= n && n <= 0x0D) || n == 0x20 || n == 0x85 || n == 0xA0 || n == 0x1680 || (0x2000
        <= n && n <= 0x200A) || n == 0x2028 || n == 0x2029 || n == 0x202F || n == 0x205F || n
        == 0x3000
}

/// `s` with its leading white space removed.
pub open spec fn trim_start_spec(s: Seq<char>) -> Seq<char>
    decreases s.len(),
{
    if s.len() > 0 && is_ws(s[0]) {
        trim_start_spec(s.drop_first())
    } else {
        s
    }
}

/// `s` with its trailing white space removed.
pub open spec fn trim_end_spec(s: Seq<char>) -> Seq<char>
    decreases s.len(),
{
    if s.len() > 0 && is_ws(s.last()) {
        trim_end_spec(s.drop_last())
    } else {
        s
    }
}

/// `s` with white space removed at both ends (what `str::trim` returns).
pub open spec fn trim_spec(s: Seq<char>) -> Seq<char> {
    trim_end_spec(trim_start_spec(s))
}

/// The characters of a string slice, in order.
pub fn to_chars(s: &str) -> (v: Vec<char>)
    ensures
        v@ == s@,
{
    let mut v: Vec<char> = Vec::new();
    for c in it: s.chars()
        invariant
            v@ == it.seq().take(it.index() as int),
            it.seq() == s@,
    {
        v.push(c);
    }
    v
}

/// Appends one character to a `String` (`String::push`).
#[verifier::external_body]
pub fn push_char(s: &mut String, c: char)
    ensures
        final(s)@ == old(s)@.push(c),
{
    s.push(c);
}

/// Appends a sequence of characters to a `String`.
pub fn push_chars(s: &mut String, v: &[char])
    ensures
        final(s)@ == old(s)@ + v@,
{
    let mut i: usize = 0;
    while i < v.len()
        invariant
            0 <= i <= v@.len(),
            s@ == old(s)@ + v@.take(i as int),
        decreases v@.len() - i,
    {
        push_char(s, v[i]);
        i = i + 1;
        assert(v@.take(i as int) == v@.take((i - 1) as int).push(v@[i - 1]));
    }
    assert(v@.take(v@.len() as int) == v@);
}

/// The string made of the characters `v`.
pub fn string_of(v: &[char]) -> (s: String)
    ensures
        s@ == v@,
{
    let mut s = String::new();
    push_chars(&mut s, v);
    s
}

/// A copy of `s[a..b]`.
pub fn copy_range(s: &[char], a: usize, b: usize) -> (r: Vec<char>)
    requires
        a <= b <= s@.len(),
    ensures
        r@ == s@.subrange(a as int, b as int),
{
    let mut r: Vec<char> = Vec::new();
    let mut i = a;
    while i < b
        invariant
            a <= i <= b <= s@.len(),
            r@ == s@.subrange(a as int, i as int),
        decreases b - i,
    {
        r.push(s[i]);
        i = i + 1;
    }
    r
}

/// The string `s[a..b]`.
pub fn string_range(s: &[char], a: usize, b: usize) -> (r: String)
    requires
        a <= b <= s@.len(),
    ensures
        r@ == s@.subrange(a as int, b as int),
{
    let v = copy_range(s, a, b);
    string_of(v.as_slice())
}

/// Index bounds of `trim_spec(s)` inside `s`.
pub fn trim_bounds(s: &[char]) -> (r: (usize, usize))
    ensures
        r.0 <= r.1 <= s@.len(),
        s@.subrange(r.0 as int, r.1 as int) == trim_spec(s@),
{
    let mut a: usize = 0;
    assert(s@.subrange(0, s@.len() as int) == s@);
    while a < s.len() && is_white(s[a])
        invariant
            0 <= a <= s@.len(),
            trim_start_spec(s@) == trim_start_spec(s@.subrange(a as int, s@.len() as int)),
        decreases s@.len() - a,
    {
        assert(s@.subrange(a as int, s@.len() as int).drop_first() == s@.subrange(
            a + 1,
            s@.len() as int,
        ));
        a = a + 1;
    }
    let ghost t = s@.subrange(a as int, s@.len() as int);
    assert(trim_start_spec(t) == t);
    let mut b: usize = s.len();
    while b > a && is_white(s[b - 1])
        invariant
            a <= b <= s@.len(),
            t == s@.subrange(a as int, s@.len() as int),
            trim_end_spec(t) == trim_end_spec(s@.subrange(a as int, b as int)),
        decreases b,
    {
        assert(s@.subrange(a as int, b as int).drop_last() == s@.subrange(a as int, b - 1));
        b = b - 1;
    }
    (a, b)
}

/// `s` with white space removed at both ends (`str::trim`).
pub fn trim_chars(s: &[char]) -> (r: Vec<char>)
    ensures
        r@ == trim_spec(s@),
{
    let (a, b) = trim_bounds(s);
    copy_range(s, a, b)
}

/// `s` with white space removed at both ends (`str::trim`), as a `String`.
pub fn trim_str(s: &str) -> (r: String)
    ensures
        r@ == trim_spec(s@),
{
    let v = to_chars(s);
    let t = trim_chars(v.as_slice());
    string_of(t.as_slice())
}

/// The pieces of `s` between occurrences of `sep` (what `str::split` with a
/// `char` yields): there is always one more piece than separators.
pub open spec fn split_spec(s: Seq<char>, sep: char) -> Seq<Seq<char>>
    decreases s.len(),
{
    if s.len() == 0 {
        seq![Seq::<char>::empty()]
    } else {
        let r = split_spec(s.drop_last(), sep);
        if s.last() == sep {
            r.push(Seq::<char>::empty())
        } else {
            r.update(r.len() - 1, r.last().push(s.last()))
        }
    }
}

pub proof fn lemma_split_nonempty(s: Seq<char>, sep: char)
    ensures
        split_spec(s, sep).len() >= 1,
    decreases s.len(),
{
    if s.len() > 0 {
        lemma_split_nonempty(s.drop_last(), sep);
    }
}

/// The views of a vector of strings.
pub open spec fn views(v: Seq<String>) -> Seq<Seq<char>> {
    v.map_values(|x: String| x@)
}

/// Splits `s` at every `sep` (`str::split`).
pub fn split_chars(s: &[char], sep: char) -> (r: Vec<String>)
    ensures
        views(r@) == split_spec(s@, sep),
{
    let mut pieces: Vec<String> = Vec::new();
    let mut cur: Vec<char> = Vec::new();
    let mut i: usize = 0;
    while i < s.len()
        invariant
            0 <= i <= s@.len(),
            split_spec(s@.take(i as int), sep) == views(pieces@).push(cur@),
        decreases s@.len() - i,
    {
        let c = s[i];
        let ghost before = s@.take(i as int);
        assert(s@.take(i + 1).drop_last() == before);
        if c == sep {
            let piece = string_of(cur.as_slice());
            pieces.push(piece);
            cur = Vec::new();
            assert(views(pieces@) == views(pieces@.drop_last()).push(piece@));
        } else {
            cur.push(c);
        }
        i = i + 1;
    }
    assert(s@.take(s@.len() as int) == s@);
    let last = string_of(cur.as_slice());
    pieces.push(last);
    assert(views(pieces@) == views(pieces@.drop_last()).push(last@));
    pieces
}

/// The maximal runs of non-white-space characters of `s`, in order (what
/// `str::split_whitespace` yields).
pub open spec fn words_spec(s: Seq<char>) -> Seq<Seq<char>>
    decreases s.len(),
{
    if s.len() == 0 {
        Seq::empty()
    } else {
        let r = words_spec(s.drop_last());
        if is_ws(s.last()) {
            r
        } else if s.len() >= 2 && !is_ws(s[s.len() - 2]) {
            r.update(r.len() - 1, r.last().push(s.last()))
        } else {
            r.push(seq![s.last()])
        }
    }
}

pub proof fn lemma_words_ends_in_word(s: Seq<char>)
    ensures
        s.len() > 0 && !is_ws(s.last()) ==> words_spec(s).len() > 0,
    decreases s.len(),
{
    if s.len() > 0 {
        lemma_words_ends_in_word(s.drop_last());
    }
}

/// Splits `s` into its white-space separated words (`str::split_whitespace`).
pub fn split_words(s: &[char]) -> (r: Vec<String>)
    ensures
        views(r@) == words_spec(s@),
{
    let mut words: Vec<String> = Vec::new();
    let mut cur: Vec<char> = Vec::new();
    let mut i: usize = 0;
    while i < s.len()
        invariant
            0 <= i <= s@.len(),
            cur@.len() == 0 ==> words_spec(s@.take(i as int)) == views(words@),
            cur@.len() > 0 ==> words_spec(s@.take(i as int)) == views(words@).push(cur@),
            cur@.len() > 0 ==> i > 0 && !is_ws(s@[i - 1]),
            cur@.len() == 0 && i > 0 ==> is_ws(s@[i - 1]),
        decreases s@.len() - i,
    {
        let c = s[i];
        let ghost before = s@.take(i as int);
        assert(s@.take(i + 1).drop_last() == before);
        assert(s@.take(i + 1).last() == c);
        proof {
            if i > 0 {
                assert(s@.take(i + 1)[i - 1] == s@[i - 1]);
            }
        }
        if is_white(c) {
            if cur.len() > 0 {
                let w = string_of(cur.as_slice());
                words.push(w);
                cur = Vec::new();
                assert(views(words@) == views(words@.drop_last()).push(w@));
            }
        } else {
            let ghost old_cur = cur@;
            cur.push(c);
            proof {
                let t = s@.take(i + 1);
                reveal_with_fuel(words_spec, 2);
                if old_cur.len() > 0 {
                    let r = views(words@).push(old_cur);
                    assert(words_spec(t) == r.update(r.len() - 1, r.last().push(c)));
                    assert(r.update(r.len() - 1, r.last().push(c)) =~= views(words@).push(cur@));
                } else {
                    assert(seq![c] =~= cur@);
                }
            }
        }
        i = i + 1;
    }
    assert(s@.take(s@.len() as int) == s@);
    if cur.len() > 0 {
        let w = string_of(cur.as_slice());
        words.push(w);
        assert(views(words@) == views(words@.drop_last()).push(w@));
    }
    words
}

/// `s` begins with `p`.
pub open spec fn starts_with_spec(s: Seq<char>, p: Seq<char>) -> bool {
    p.len() <= s.len() && s.take(p.len() as int) == p
}

/// `s` ends with `p`.
pub open spec fn ends_with_spec(s: Seq<char>, p: Seq<char>) -> bool {
    p.len() <= s.len() && s.skip(s.len() - p.len()) == p
}

/// `p` occurs in `s` at position `i`.
pub open spec fn occurs_at(s: Seq<char>, p: Seq<char>, i: int) -> bool {
    0 <= i && i + p.len() <= s.len() && s.subrange(i, i + p.len()) == p
}

/// Tests whether `p` occurs in `s` at position `i`.
pub fn matches_at(s: &[char], p: &[char], i: usize) -> (r: bool)
    ensures
        r == occurs_at(s@, p@, i as int),
{
    if i > s.len() || p.len() > s.len() - i {
        return false;
    }
    let mut k: usize = 0;
    while k < p.len()
        invariant
            i + p@.len() <= s@.len(),
            i + p@.len() <= s.len(),
            0 <= k <= p@.len(),
            forall|j: int| 0 <= j < k ==> s@[i + j] == p@[j],
        decreases p@.len() - k,
    {
        if s[i + k] != p[k] {
            assert(s@.subrange(i as int, i + p@.len())[k as int] != p@[k as int]);
            return false;
        }
        k = k + 1;
    }
    assert(s@.subrange(i as int, i + p@.len()) =~= p@);
    true
}

/// Tests whether `s` begins with `p`.
pub fn starts_with(s: &[char], p: &[char]) -> (r: bool)
    ensures
        r == starts_with_spec(s@, p@),
{
    let r = matches_at(s, p, 0);
    proof {
        if p@.len() <= s@.len() {
            assert(s@.subrange(0, p@.len() as int) == s@.take(p@.len() as int));
        }
    }
    r
}

/// Tests whether `s` ends with `p`.
pub fn ends_with(s: &[char], p: &[char]) -> (r: bool)
    ensures
        r == ends_with_spec(s@, p@),
{
    if p.len() > s.len() {
        return false;
    }
    let r = matches_at(s, p, s.len() - p.len());
    assert(s@.subrange(s@.len() - p@.len(), s@.len() as int) == s@.skip(s@.len() - p@.len()));
    r
}

/// The first position at which `p` occurs in `s`, if any.
#[verifier::opaque]
pub open spec fn first_occurrence(s: Seq<char>, p: Seq<char>) -> Option<int> {
    if exists|i: int| occurs_at(s, p, i) {
        Some(choose|i: int| occurs_at(s, p, i) && forall|j: int| 0 <= j < i ==> !occurs_at(s, p, j))
    } else {
        None
    }
}

/// An occurrence with none before it is the first one.
pub proof fn lemma_first_occurrence(s: Seq<char>, p: Seq<char>, i: int)
    requires
        occurs_at(s, p, i),
        forall|j: int| 0 <= j < i ==> !occurs_at(s, p, j),
    ensures
        first_occurrence(s, p) == Some(i),
{
    reveal(first_occurrence);
    let k = choose|k: int| occurs_at(s, p, k) && forall|j: int| 0 <= j < k ==> !occurs_at(s, p, j);
    assert(occurs_at(s, p, k) && forall|j: int| 0 <= j < k ==> !occurs_at(s, p, j));
    if k < i {
        assert(!occurs_at(s, p, k));
    }
    if i < k {
        assert(!occurs_at(s, p, i));
    }
}

/// Without occurrences there is no first one.
pub proof fn lemma_no_occurrence(s: Seq<char>, p: Seq<char>)
    requires
        forall|j: int| !occurs_at(s, p, j),
    ensures
        first_occurrence(s, p) is None,
{
    reveal(first_occurrence);
}

/// Finds the first occurrence of `p` in `s` at or after `from` (`str::find`).
pub fn find_from(s: &[char], p: &[char], from: usize) -> (r: Option<usize>)
    ensures
        match r {
            Some(i) => from <= i && occurs_at(s@, p@, i as int) && forall|j: int|
                from <= j < i ==> !occurs_at(s@, p@, j),
            None => forall|j: int| from <= j ==> !occurs_at(s@, p@, j),
        },
{
    let mut i = from;
    while i < s.len()
        invariant
            from <= i,
            i <= s@.len() || i == from,
            forall|j: int| from <= j < i ==> !occurs_at(s@, p@, j),
        decreases s@.len() - i,
    {
        if matches_at(s, p, i) {
            return Some(i);
        }
        i = i + 1;
    }
    if i == s.len() && matches_at(s, p, i) {
        return Some(i);
    }
    None
}

/// Finds the first occurrence of `p` in `s` (`str::find`).
pub fn find(s: &[char], p: &[char]) -> (r: Option<usize>)
    ensures
        r matches Some(i) ==> occurs_at(s@, p@, i as int) && first_occurrence(s@, p@) == Some(
            i as int,
        ),
        r is None ==> first_occurrence(s@, p@) is None,
{
    let r = find_from(s, p, 0);
    proof {
        match r {
            Some(i) => lemma_first_occurrence(s@, p@, i as int),
            None => {
                assert forall|j: int| !occurs_at(s@, p@, j) by {
                    if j >= 0 {
                        assert(!occurs_at(s@, p@, j));
                    }
                }
                lemma_no_occurrence(s@, p@);
            },
        }
    }
    r
}

/// `p` occurs somewhere in `s`.
pub open spec fn contains_spec(s: Seq<char>, p: Seq<char>) -> bool {
    exists|i: int| occurs_at(s, p, i)
}

/// Tests whether `p` occurs in `s` (`str::contains`).
pub fn contains(s: &[char], p: &[char]) -> (r: bool)
    ensures
        r == contains_spec(s@, p@),
{
    let r = find_from(s, p, 0);
    r.is_some()
}

/// `s` with every non-overlapping occurrence of `p`, taken from the left,
/// replaced by `r` (`str::replace` for a non-empty pattern).
pub open spec fn replace_spec(s: Seq<char>, p: Seq<char>, r: Seq<char>) -> Seq<char>
    recommends
        p.len() > 0,
    decreases s.len(),
{
    if p.len() == 0 || s.len() == 0 {
        s
    } else if starts_with_spec(s, p) {
        r + replace_spec(s.skip(p.len() as int), p, r)
    } else {
        seq![s[0]] + replace_spec(s.drop_first(), p, r)
    }
}

/// Replaces every occurrence of `p` in `s` by `r` (`str::replace`).
pub fn replace(s: &[char], p: &[char], r: &[char]) -> (out: Vec<char>)
    requires
        p@.len() > 0,
    ensures
        out@ == replace_spec(s@, p@, r@),
{
    let mut out: Vec<char> = Vec::new();
    let mut i: usize = 0;
    assert(s@.skip(0) == s@);
    while i < s.len()
        invariant
            p@.len() > 0,
            0 <= i <= s@.len(),
            replace_spec(s@, p@, r@) == out@ + replace_spec(s@.skip(i as int), p@, r@),
        decreases s@.len() - i,
    {
        let ghost rest = s@.skip(i as int);
        if matches_at(s, p, i) {
            assert(rest.take(p@.len() as int) == s@.subrange(i as int, i + p@.len()));
            assert(rest.skip(p@.len() as int) == s@.skip(i + p@.len()));
            let mut k: usize = 0;
            let ghost out0 = out@;
            while k < r.len()
                invariant
                    0 <= k <= r@.len(),
                    out@ == out0 + r@.take(k as int),
                decreases r@.len() - k,
            {
                out.push(r[k]);
                k = k + 1;
                assert(r@.take(k as int) == r@.take(k - 1).push(r@[k - 1]));
            }
            assert(r@.take(r@.len() as int) == r@);
            assert(out@ == out0 + r@);
            i = i + p.len();
        } else {
            proof {
                if starts_with_spec(rest, p@) {
                    assert(rest.take(p@.len() as int) == s@.subrange(i as int, i + p@.len()));
                }
            }
            assert(rest.drop_first() == s@.skip(i + 1));
            assert(seq![rest[0]] == seq![s@[i as int]]);
            out.push(s[i]);
            i = i + 1;
        }
    }
    assert(s@.skip(i as int).len() == 0);
    out
}

/// `c` as an ASCII digit, for `0 <= d < 10`.
pub open spec fn digit(d: nat) -> char {
    if d == 0 { '0' }
    else if d == 1 { '1' }
    else if d == 2 { '2' }
    else if d == 3 { '3' }
    else if d == 4 { '4' }
    else if d == 5 { '5' }
    else if d == 6 { '6' }
    else if d == 7 { '7' }
    else if d == 8 { '8' }
    else { '9' }
}

/// The decimal representation of `n`, without leading zeros.
pub open spec fn decimal(n: nat) -> Seq<char>
    decreases n,
{
    if n < 10 {
        seq![digit(n)]
    } else {
        decimal(n / 10).push(digit(n % 10))
    }
}

fn digit_char(d: u64) -> (c: char)
    requires
        d < 10,
    ensures
        c == digit(d as nat),
{
    if d == 0 { '0' }
    else if d == 1 { '1' }
    else if d == 2 { '2' }
    else if d == 3 { '3' }
    else if d == 4 { '4' }
    else if d == 5 { '5' }
    else if d == 6 { '6' }
    else if d == 7 { '7' }
    else if d == 8 { '8' }
    else { '9' }
}

/// Appends the decimal representation of `n` to `s`.
pub fn push_decimal(s: &mut String, n: u64)
    ensures
        final(s)@ == old(s)@ + decimal(n as nat),
    decreases n,
{
    if n < 10 {
        push_char(s, digit_char(n));
        assert(seq![digit(n as nat)] =~= decimal(n as nat));
    } else {
        push_decimal(s, n / 10);
        push_char(s, digit_char(n % 10));
    }
}

/// The decimal representation of `n` (`n.to_string()`).
pub fn decimal_string(n: u64) -> (s: String)
    ensures
        s@ == decimal(n as nat),
{
    let mut s = String::new();
    push_decimal(&mut s, n);
    s
}

/// Appends a string slice to a `String`.
pub fn push_str(s: &mut String, t: &str)
    ensures
        final(s)@ == old(s)@ + t@,
{
    s.append(t);
}

/// Lower-case mapping of a string as `str::to_lowercase` computes it.
pub uninterp spec fn lowercase(s: Seq<char>) -> Seq<char>;

/// Upper-case mapping of a string as `str::to_uppercase` computes it.
pub uninterp spec fn uppercase(s: Seq<char>) -> Seq<char>;

/// A character as ASCII lower case: `A`..`Z` become `a`..`z`.
pub open spec fn ascii_lower(c: char) -> char {
    if 'A' <= c && c <= 'Z' {
        ((c as u32) + 32) as char
    } else {
        c
    }
}

/// A character as ASCII upper case: `a`..`z` become `A`..`Z`.
pub open spec fn ascii_upper(c: char) -> char {
    if 'a' <= c && c <= 'z' {
        ((c as u32) - 32) as char
    } else {
        c
    }
}

/// Every character is ASCII.
pub open spec fn all_ascii(s: Seq<char>) -> bool {
    forall|i: int| 0 <= i < s.len() ==> (s[i] as u32) < 128
}

/// Calls `str::to_lowercase`; its result is named `lowercase` of the input.
/// On ASCII text it is `to_ascii_lowercase`, as std documents (that method
/// lower-cases the ASCII characters of what `to_lowercase` covers).
#[verifier::external_body]
pub fn to_lowercase(s: &str) -> (r: String)
    ensures
        r@ == lowercase(s@),
        all_ascii(s@) ==> r@ == s@.map_values(|c: char| ascii_lower(c)),
{
    s.to_lowercase()
}

/// Calls `str::to_uppercase`; its result is named `uppercase` of the input.
/// On ASCII text it is `to_ascii_uppercase`, as std documents.
#[verifier::external_body]
pub fn to_uppercase(s: &str) -> (r: String)
    ensures
        r@ == uppercase(s@),
        all_ascii(s@) ==> r@ == s@.map_values(|c: char| ascii_upper(c)),
{
    s.to_uppercase()
}

/// Compares two strings by content.
pub fn str_eq(a: &str, b: &str) -> (r: bool)
    ensures
        r == (a@ == b@),
{
    let x = to_chars(a);
    let y = to_chars(b);
    chars_eq(x.as_slice(), y.as_slice())
}

/// Compares two character sequences.
pub fn chars_eq(a: &[char], b: &[char]) -> (r: bool)
    ensures
        r == (a@ == b@),
{
    if a.len() != b.len() {
        return false;
    }
    let mut i: usize = 0;
    while i < a.len()
        invariant
            a@.len() == b@.len(),
            0 <= i <= a@.len(),
            forall|j: int| 0 <= j < i ==> a@[j] == b@[j],
        decreases a@.len() - i,
    {
        if a[i] != b[i] {
            return false;
        }
        i = i + 1;
    }
    assert(a@ =~= b@);
    true
}

/// Lexicographic order of character sequences by code point (the order of
/// `String`'s `Ord`, since UTF-8 preserves code point order).
pub open spec fn lex_lt(a: Seq<char>, b: Seq<char>) -> bool
    decreases a.len(),
{
    if a.len() == 0 {
        b.len() > 0
    } else if b.len() == 0 {
        false
    } else if a[0] < b[0] {
        true
    } else if a[0] == b[0] {
        lex_lt(a.drop_first(), b.drop_first())
    } else {
        false
    }
}

/// `lex_lt` is a strict total order.
pub proof fn lemma_lex_total(a: Seq<char>, b: Seq<char>)
    ensures
        !lex_lt(a, a),
        lex_lt(a, b) || a == b || lex_lt(b, a),
        !(lex_lt(a, b) && lex_lt(b, a)),
    decreases a.len(),
{
    if a.len() > 0 && b.len() > 0 {
        lemma_lex_total(a.drop_first(), b.drop_first());
        lemma_lex_total(a.drop_first(), a.drop_first());
        if a[0] == b[0] && a.drop_first() == b.drop_first() {
            assert(a =~= seq![a[0]] + a.drop_first());
            assert(b =~= seq![b[0]] + b.drop_first());
        }
    } else if a.len() > 0 {
        lemma_lex_total(a.drop_first(), a.drop_first());
    } else if b.len() == 0 {
        assert(a =~= b);
    }
}

/// `lex_lt` is transitive.
pub proof fn lemma_lex_trans(a: Seq<char>, b: Seq<char>, c: Seq<char>)
    requires
        lex_lt(a, b),
        lex_lt(b, c),
    ensures
        lex_lt(a, c),
    decreases a.len(),
{
    if a.len() > 0 && b.len() > 0 && c.len() > 0 {
        if a[0] == b[0] && b[0] == c[0] {
            lemma_lex_trans(a.drop_first(), b.drop_first(), c.drop_first());
        }
    }
}

/// Compares two character sequences by `lex_lt`.
pub fn chars_lt(a: &[char], b: &[char]) -> (r: bool)
    ensures
        r == lex_lt(a@, b@),
{
    let mut i: usize = 0;
    assert(a@.skip(0) == a@ && b@.skip(0) == b@);
    while i < a.len() && i < b.len() && a[i] == b[i]
        invariant
            0 <= i <= a@.len(),
            i <= b@.len(),
            lex_lt(a@, b@) == lex_lt(a@.skip(i as int), b@.skip(i as int)),
        decreases a@.len() - i,
    {
        assert(a@.skip(i as int).drop_first() == a@.skip(i + 1));
        assert(b@.skip(i as int).drop_first() == b@.skip(i + 1));
        i = i + 1;
    }
    if i == a.len() {
        i < b.len()
    } else if i == b.len() {
        false
    } else {
        assert(a@.skip(i as int)[0] == a@[i as int]);
        assert(b@.skip(i as int)[0] == b@[i as int]);
        a[i] < b[i]
    }
}

/// The elements are in strictly increasing `lex_lt` order.
pub open spec fn strictly_sorted(s: Seq<Seq<char>>) -> bool {
    forall|i: int, j: int| 0 <= i < j < s.len() ==> lex_lt(#[trigger] s[i], #[trigger] s[j])
}

/// The strings of `v`, sorted by `lex_lt` and without repetitions (`sort`
/// followed by `dedup`).
pub fn sort_dedup(v: Vec<String>) -> (r: Vec<String>)
    ensures
        strictly_sorted(views(r@)),
        views(r@).to_set() == views(v@).to_set(),
{
    let mut r: Vec<String> = Vec::new();
    let mut i: usize = 0;
    let ghost vv = views(v@);
    while i < v.len()
        invariant
            0 <= i <= v@.len(),
            vv == views(v@),
            strictly_sorted(views(r@)),
            views(r@).to_set() == vv.take(i as int).to_set(),
        decreases v@.len() - i,
    {
        let x = v[i].clone();
        let xc = to_chars(x.as_str());
        let mut k: usize = 0;
        while k < r.len() && chars_lt(to_chars(r[k].as_str()).as_slice(), xc.as_slice())
            invariant
                0 <= k <= r@.len(),
                xc@ == x@,
                forall|j: int| 0 <= j < k ==> lex_lt(#[trigger] views(r@)[j], x@),
            decreases r@.len() - k,
        {
            k = k + 1;
        }
        let ghost rv = views(r@);
        assert(vv[i as int] == x@);
        assert(vv.take(i + 1) == vv.take(i as int).push(x@));
        proof {
            vv.take(i as int).lemma_push_to_set_commute(x@);
        }
        if k < r.len() && chars_eq(to_chars(r[k].as_str()).as_slice(), xc.as_slice()) {
            assert(rv[k as int] == x@);
            assert(vv.take(i + 1).to_set() == vv.take(i as int).to_set().insert(x@));
            assert(rv.to_set().contains(x@));
            assert(rv.to_set().insert(x@) =~= rv.to_set());
        } else {
            proof {
                if k < r@.len() {
                    lemma_lex_total(rv[k as int], x@);
                }
            }
            r.insert(k, x);
            assert(views(r@) =~= rv.insert(k as int, x@));
            proof {
                let nv = views(r@);
                assert forall|a: int, b: int| 0 <= a < b < nv.len() implies lex_lt(
                    #[trigger] nv[a],
                    #[trigger] nv[b],
                ) by {
                    if b < k {
                    } else if a < k && b == k {
                    } else if a < k && b > k {
                        assert(nv[b] == rv[b - 1]);
                        lemma_lex_trans(nv[a], x@, rv[k as int]);
                        if b - 1 > k {
                            lemma_lex_trans(nv[a], rv[k as int], rv[b - 1]);
                        }
                    } else if a == k {
                        assert(nv[b] == rv[b - 1]);
                        if b - 1 > k {
                            lemma_lex_trans(x@, rv[k as int], rv[b - 1]);
                        }
                    } else {
                        assert(nv[a] == rv[a - 1]);
                        assert(nv[b] == rv[b - 1]);
                    }
                }
                assert(nv.to_set() =~= rv.to_set().insert(x@)) by {
                    assert forall|y: Seq<char>| nv.to_set().contains(y) implies rv.to_set().insert(
                        x@,
                    ).contains(y) by {
                        let j = choose|j: int| 0 <= j < nv.len() && nv[j] == y;
                        if j < k {
                            assert(rv[j] == y);
                        } else if j > k {
                            assert(rv[j - 1] == y);
                        }
                    }
                    assert forall|y: Seq<char>| rv.to_set().insert(x@).contains(y) implies nv.to_set().contains(
                        y,
                    ) by {
                        if y == x@ {
                            assert(nv[k as int] == y);
                        } else {
                            let j = choose|j: int| 0 <= j < rv.len() && rv[j] == y;
                            if j < k {
                                assert(nv[j] == y);
                            } else {
                                assert(nv[j + 1] == y);
                            }
                        }
                    }
                }
                assert(vv.take(i + 1).to_set() =~= vv.take(i as int).to_set().insert(x@));
            }
        }
        i = i + 1;
    }
    assert(vv.take(v@.len() as int) == vv);
    r
}

/// `s` with every leading repetition of `p` removed (`str::trim_start_matches`).
pub open spec fn trim_prefix_all(s: Seq<char>, p: Seq<char>) -> Seq<char>
    decreases s.len(),
{
    if p.len() > 0 && starts_with_spec(s, p) {
        trim_prefix_all(s.skip(p.len() as int), p)
    } else {
        s
    }
}

/// Removes every leading repetition of `p` from `s` (`str::trim_start_matches`).
pub fn trim_start_matches(s: &[char], p: &[char]) -> (r: Vec<char>)
    ensures
        r@ == trim_prefix_all(s@, p@),
{
    let mut i: usize = 0;
    assert(s@.skip(0) == s@);
    if p.len() > 0 {
        while i < s.len() && matches_at(s, p, i)
            invariant
                p@.len() > 0,
                0 <= i <= s@.len(),
                trim_prefix_all(s@, p@) == trim_prefix_all(s@.skip(i as int), p@),
            decreases s@.len() - i,
        {
            assert(s@.skip(i as int).take(p@.len() as int) == s@.subrange(i as int, i + p@.len()));
            assert(s@.skip(i as int).skip(p@.len() as int) == s@.skip(i + p@.len()));
            i = i + p.len();
        }
        proof {
            if i < s@.len() && starts_with_spec(s@.skip(i as int), p@) {
                assert(s@.skip(i as int).take(p@.len() as int) == s@.subrange(
                    i as int,
                    i + p@.len(),
                ));
            }
            if i == s@.len() {
                assert(s@.skip(i as int).len() == 0);
            }
        }
    }
    copy_range(s, i, s.len())
}

/// `s` with every trailing `c` removed (`str::trim_end_matches` with a char).
pub open spec fn trim_end_char(s: Seq<char>, c: char) -> Seq<char>
    decreases s.len(),
{
    if s.len() > 0 && s.last() == c {
        trim_end_char(s.drop_last(), c)
    } else {
        s
    }
}

/// Removes every trailing `c` from `s` (`str::trim_end_matches`).
pub fn trim_end_matches_char(s: &[char], c: char) -> (r: Vec<char>)
    ensures
        r@ == trim_end_char(s@, c),
{
    let mut b: usize = s.len();
    assert(s@.take(s@.len() as int) == s@);
    while b > 0 && s[b - 1] == c
        invariant
            0 <= b <= s@.len(),
            trim_end_char(s@, c) == trim_end_char(s@.take(b as int), c),
        decreases b,
    {
        assert(s@.take(b as int).drop_last() == s@.take(b - 1));
        b = b - 1;
    }
    let r = copy_range(s, 0, b);
    assert(s@.subrange(0, b as int) == s@.take(b as int));
    r
}

/// `s` without the prefix `p` when it has it, else `s`.
pub open spec fn strip_prefix_or_keep(s: Seq<char>, p: Seq<char>) -> Seq<char> {
    if starts_with_spec(s, p) {
        s.skip(p.len() as int)
    } else {
        s
    }
}

/// `s` without the suffix `p` when it has it, else `s`.
pub open spec fn strip_suffix_or_keep(s: Seq<char>, p: Seq<char>) -> Seq<char> {
    if ends_with_spec(s, p) {
        s.take(s.len() - p.len())
    } else {
        s
    }
}

/// Removes the prefix `p` when present (`s.strip_prefix(p).unwrap_or(s)`).
pub fn strip_prefix_keep(s: &[char], p: &[char]) -> (r: Vec<char>)
    ensures
        r@ == strip_prefix_or_keep(s@, p@),
{
    if starts_with(s, p) {
        let r = copy_range(s, p.len(), s.len());
        assert(s@.subrange(p@.len() as int, s@.len() as int) == s@.skip(p@.len() as int));
        r
    } else {
        let r = copy_range(s, 0, s.len());
        assert(s@.subrange(0, s@.len() as int) == s@);
        r
    }
}

/// Removes the suffix `p` when present (`s.strip_suffix(p).unwrap_or(s)`).
pub fn strip_suffix_keep(s: &[char], p: &[char]) -> (r: Vec<char>)
    ensures
        r@ == strip_suffix_or_keep(s@, p@),
{
    if ends_with(s, p) {
        let r = copy_range(s, 0, s.len() - p.len());
        assert(s@.subrange(0, s@.len() - p@.len()) == s@.take(s@.len() - p@.len()));
        r
    } else {
        let r = copy_range(s, 0, s.len());
        assert(s@.subrange(0, s@.len() as int) == s@);
        r
    }
}

/// `c` is an ASCII capital letter.
pub open spec fn is_ascii_upper(c: char) -> bool {
    'A' <= c && c <= 'Z'
}

/// `x` and `y` are equal up to ASCII case.
pub open spec fn ascii_fold_eq(x: char, y: char) -> bool {
    ||| x == y
    ||| is_ascii_upper(x) && (x as u32) + 32 == (y as u32)
    ||| is_ascii_upper(y) && (y as u32) + 32 == (x as u32)
}

/// `a` and `b` are equal up to ASCII case (`str::eq_ignore_ascii_case`).
pub open spec fn eq_ignore_ascii_case_spec(a: Seq<char>, b: Seq<char>) -> bool {
    a.len() == b.len() && forall|i: int| 0 <= i < a.len() ==> ascii_fold_eq(a[i], b[i])
}

/// Compares two strings up to ASCII case (`str::eq_ignore_ascii_case`).
pub fn eq_ignore_ascii_case(a: &[char], b: &[char]) -> (r: bool)
    ensures
        r == eq_ignore_ascii_case_spec(a@, b@),
{
    if a.len() != b.len() {
        return false;
    }
    let mut i: usize = 0;
    while i < a.len()
        invariant
            a@.len() == b@.len(),
            0 <= i <= a@.len(),
            forall|j: int| 0 <= j < i ==> ascii_fold_eq(a@[j], b@[j]),
        decreases a@.len() - i,
    {
        let x = a[i];
        let y = b[i];
        let ok = x == y || ('A' <= x && x <= 'Z' && (x as u32) + 32 == (y as u32)) || ('A' <= y
            && y <= 'Z' && (y as u32) + 32 == (x as u32));
        if !ok {
            return false;
        }
        i = i + 1;
    }
    true
}

/// The html escape of one character (as orgize's `HtmlEscape` writes it).
pub open spec fn escape_char(c: char) -> Seq<char> {
    if c == '<' {
        "&lt;"@
    } else if c == '>' {
        "&gt;"@
    } else if c == '&' {
        "&amp;"@
    } else if c == '\'' {
        "&apos;"@
    } else if c == '"' {
        "&quot;"@
    } else {
        seq![c]
    }
}

/// `s` with `<`, `>`, `&`, `'` and `"` written as html entities.
pub open spec fn html_escape(s: Seq<char>) -> Seq<char>
    decreases s.len(),
{
    if s.len() == 0 {
        Seq::empty()
    } else {
        html_escape(s.drop_last()) + escape_char(s.last())
    }
}

/// Appends the html escape of `t` to `out`.
pub fn push_escaped(out: &mut String, t: &str)
    ensures
        final(out)@ == old(out)@ + html_escape(t@),
{
    let s = to_chars(t);
    let mut i: usize = 0;
    while i < s.len()
        invariant
            0 <= i <= s@.len(),
            s@ == t@,
            out@ == old(out)@ + html_escape(s@.take(i as int)),
        decreases s@.len() - i,
    {
        let c = s[i];
        assert(s@.take(i + 1).drop_last() == s@.take(i as int));
        if c == '<' {
            out.append("&lt;");
        } else if c == '>' {
            out.append("&gt;");
        } else if c == '&' {
            out.append("&amp;");
        } else if c == '\'' {
            out.append("&apos;");
        } else if c == '"' {
            out.append("&quot;");
        } else {
            push_char(out, c);
        }
        i = i + 1;
    }
    assert(s@.take(s@.len() as int) == s@);
}

/// `s` with its leading white space removed (`str::trim_start`).
pub fn trim_start_chars(s: &[char]) -> (r: Vec<char>)
    ensures
        r@ == trim_start_spec(s@),
{
    let mut a: usize = 0;
    assert(s@.subrange(0, s@.len() as int) == s@);
    while a < s.len() && is_white(s[a])
        invariant
            0 <= a <= s@.len(),
            trim_start_spec(s@) == trim_start_spec(s@.subrange(a as int, s@.len() as int)),
        decreases s@.len() - a,
    {
        assert(s@.subrange(a as int, s@.len() as int).drop_first() == s@.subrange(
            a + 1,
            s@.len() as int,
        ));
        a = a + 1;
    }
    copy_range(s, a, s.len())
}

/// The last position of `c` in `s`, if any.
pub fn rfind_char(s: &[char], c: char) -> (r: Option<usize>)
    ensures
        r matches Some(k) ==> k < s@.len() && s@[k as int] == c && forall|j: int|
            k < j < s@.len() ==> s@[j] != c,
        r is None ==> forall|j: int| 0 <= j < s@.len() ==> s@[j] != c,
{
    let mut i = s.len();
    while i > 0
        invariant
            0 <= i <= s@.len(),
            forall|j: int| i <= j < s@.len() ==> s@[j] != c,
        decreases i,
    {
        if s[i - 1] == c {
            return Some(i - 1);
        }
        i = i - 1;
    }
    None
}

/// The elements of a finite set of strings in increasing `lex_lt` order.
pub open spec fn sorted_set(s: Set<Seq<char>>) -> Seq<Seq<char>> {
    choose|r: Seq<Seq<char>>| strictly_sorted(r) && r.to_set() == s
}

/// Two strictly sorted sequences with the same elements are equal.
pub proof fn lemma_sorted_unique(a: Seq<Seq<char>>, b: Seq<Seq<char>>)
    requires
        strictly_sorted(a),
        strictly_sorted(b),
        a.to_set() == b.to_set(),
    ensures
        a == b,
    decreases a.len(),
{
    if a.len() == 0 {
        if b.len() > 0 {
            assert(b.to_set().contains(b[0]));
        }
        assert(a =~= b);
    } else {
        assert(a.to_set().contains(a[0]));
        assert(b.to_set().contains(a[0]));
        let k = choose|k: int| 0 <= k < b.len() && b[k] == a[0];
        assert(b.to_set().contains(b[0]));
        let m = choose|m: int| 0 <= m < a.len() && a[m] == b[0];
        lemma_lex_total(a[0], b[0]);
        if k > 0 {
            assert(lex_lt(b[0], a[0]));
            if m > 0 {
                assert(lex_lt(a[0], b[0]));
            }
        }
        assert(a[0] == b[0]);
        let a1 = a.drop_first();
        let b1 = b.drop_first();
        assert forall|x: Seq<char>| a1.to_set().contains(x) implies b1.to_set().contains(x) by {
            let i = choose|i: int| 0 <= i < a1.len() && a1[i] == x;
            assert(a.to_set().contains(x));
            let j = choose|j: int| 0 <= j < b.len() && b[j] == x;
            assert(lex_lt(a[0], a[i + 1]));
            lemma_lex_total(a[0], a[0]);
            if j == 0 {
                assert(false);
            }
            assert(b1[j - 1] == x);
        }
        assert forall|x: Seq<char>| b1.to_set().contains(x) implies a1.to_set().contains(x) by {
            let i = choose|i: int| 0 <= i < b1.len() && b1[i] == x;
            assert(b.to_set().contains(x));
            let j = choose|j: int| 0 <= j < a.len() && a[j] == x;
            assert(lex_lt(b[0], b[i + 1]));
            lemma_lex_total(b[0], b[0]);
            if j == 0 {
                assert(false);
            }
            assert(a1[j - 1] == x);
        }
        assert(a1.to_set() =~= b1.to_set());
        lemma_sorted_unique(a1, b1);
        assert(a =~= seq![a[0]] + a1);
        assert(b =~= seq![b[0]] + b1);
    }
}

/// The result of `sort_dedup` is `sorted_set` of the input's elements.
pub proof fn lemma_sort_dedup_is_sorted_set(r: Seq<Seq<char>>, s: Set<Seq<char>>)
    requires
        strictly_sorted(r),
        r.to_set() == s,
    ensures
        r == sorted_set(s),
{
    let c = sorted_set(s);
    assert(strictly_sorted(c) && c.to_set() == s);
    lemma_sorted_unique(r, c);
}

} // verus!
