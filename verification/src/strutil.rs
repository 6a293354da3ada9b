//! Verified text utilities the protocol layer is built on: character search,
//! whitespace trimming, string equality, substring tests, and decimal
//! formatting, each specified over the `Seq<char>` view of a string.
use vstd::prelude::*;

verus! {

/// The whitespace characters this crate recognizes: the ASCII subset of the
/// separators that can occur between the tokens of a request line.
pub open spec fn is_ws(c: char) -> bool {
    c == ' ' || c == '\t' || c == '\r' || c == '\n'
}

pub fn is_ws_char(c: char) -> (r: bool)
    ensures
        r == is_ws(c),
{
    c == ' ' || c == '\t' || c == '\r' || c == '\n'
}

/// Index of the first occurrence of `c` in `s` at or after `pos`; `s.len()`
/// when there is none.
pub open spec fn find_from(s: Seq<char>, c: char, pos: int) -> int
    decreases s.len() - pos,
{
    if pos < 0 || pos >= s.len() {
        s.len() as int
    } else if s[pos] == c {
        pos
    } else {
        find_from(s, c, pos + 1)
    }
}

/// `s` holds `c` somewhere.
pub open spec fn contains_char(s: Seq<char>, c: char) -> bool {
    find_from(s, c, 0) < s.len()
}

/// What `find_from` returns: the first hit, with no occurrence before it.
pub proof fn lemma_find_from(s: Seq<char>, c: char, pos: int)
    requires
        0 <= pos <= s.len(),
    ensures
        pos <= find_from(s, c, pos) <= s.len(),
        find_from(s, c, pos) < s.len() ==> s[find_from(s, c, pos)] == c,
        forall|j: int| pos <= j < find_from(s, c, pos) ==> s[j] != c,
    decreases s.len() - pos,
{
    if pos < s.len() && s[pos] != c {
        lemma_find_from(s, c, pos + 1);
    }
}

pub fn find_char(s: &str, c: char, from: usize) -> (k: usize)
    requires
        from <= s@.len(),
    ensures
        k == find_from(s@, c, from as int),
{
    let n = s.unicode_len();
    let mut i = from;
    while i < n
        invariant
            from <= i <= n,
            n == s@.len(),
            find_from(s@, c, from as int) == find_from(s@, c, i as int),
        decreases n - i,
    {
        if s.get_char(i) == c {
            return i;
        }
        i = i + 1;
    }
    i
}

/// Index of the first character at or after `pos` that is not whitespace;
/// `s.len()` when the rest is all whitespace.
pub open spec fn skip_ws_from(s: Seq<char>, pos: int) -> int
    decreases s.len() - pos,
{
    if pos < 0 || pos >= s.len() {
        s.len() as int
    } else if is_ws(s[pos]) {
        skip_ws_from(s, pos + 1)
    } else {
        pos
    }
}

pub proof fn lemma_skip_ws_from(s: Seq<char>, pos: int)
    requires
        0 <= pos <= s.len(),
    ensures
        pos <= skip_ws_from(s, pos) <= s.len(),
        skip_ws_from(s, pos) < s.len() ==> !is_ws(s[skip_ws_from(s, pos)]),
        forall|j: int| pos <= j < skip_ws_from(s, pos) ==> is_ws(s[j]),
    decreases s.len() - pos,
{
    if pos < s.len() && is_ws(s[pos]) {
        lemma_skip_ws_from(s, pos + 1);
    }
}

pub fn skip_ws(s: &str, from: usize) -> (k: usize)
    requires
        from <= s@.len(),
    ensures
        k == skip_ws_from(s@, from as int),
{
    let n = s.unicode_len();
    let mut i = from;
    while i < n
        invariant
            from <= i <= n,
            n == s@.len(),
            skip_ws_from(s@, from as int) == skip_ws_from(s@, i as int),
        decreases n - i,
    {
        if !is_ws_char(s.get_char(i)) {
            return i;
        }
        i = i + 1;
    }
    i
}

/// Index of the first whitespace character at or after `pos`; `s.len()` when
/// there is none.
pub open spec fn find_ws_from(s: Seq<char>, pos: int) -> int
    decreases s.len() - pos,
{
    if pos < 0 || pos >= s.len() {
        s.len() as int
    } else if is_ws(s[pos]) {
        pos
    } else {
        find_ws_from(s, pos + 1)
    }
}

pub proof fn lemma_find_ws_from(s: Seq<char>, pos: int)
    requires
        0 <= pos <= s.len(),
    ensures
        pos <= find_ws_from(s, pos) <= s.len(),
        find_ws_from(s, pos) < s.len() ==> is_ws(s[find_ws_from(s, pos)]),
        forall|j: int| pos <= j < find_ws_from(s, pos) ==> !is_ws(s[j]),
    decreases s.len() - pos,
{
    if pos < s.len() && !is_ws(s[pos]) {
        lemma_find_ws_from(s, pos + 1);
    }
}

pub fn find_ws(s: &str, from: usize) -> (k: usize)
    requires
        from <= s@.len(),
    ensures
        k == find_ws_from(s@, from as int),
{
    let n = s.unicode_len();
    let mut i = from;
    while i < n
        invariant
            from <= i <= n,
            n == s@.len(),
            find_ws_from(s@, from as int) == find_ws_from(s@, i as int),
        decreases n - i,
    {
        if is_ws_char(s.get_char(i)) {
            return i;
        }
        i = i + 1;
    }
    i
}

/// Where the trailing whitespace of `s.take(pos)` starts: the least index
/// `b <= pos` with only whitespace in `s[b..pos]` and no whitespace at `b - 1`.
pub open spec fn trim_end_at(s: Seq<char>, pos: int) -> int
    decreases pos,
{
    if pos <= 0 || pos > s.len() {
        0
    } else if is_ws(s[pos - 1]) {
        trim_end_at(s, pos - 1)
    } else {
        pos
    }
}

/// Trailing whitespace never reaches below a non-whitespace character.
pub proof fn lemma_trim_end_above(s: Seq<char>, pos: int, a: int)
    requires
        0 <= a < pos <= s.len(),
        !is_ws(s[a]),
    ensures
        trim_end_at(s, pos) > a,
    decreases pos,
{
    if is_ws(s[pos - 1]) {
        lemma_trim_end_above(s, pos - 1, a);
    }
}

/// `s` with the surrounding whitespace removed.
pub open spec fn spec_trim(s: Seq<char>) -> Seq<char> {
    let a = skip_ws_from(s, 0);
    if a == s.len() {
        Seq::<char>::empty()
    } else {
        s.subrange(a, trim_end_at(s, s.len() as int))
    }
}

pub fn trim_str(s: &str) -> (r: String)
    ensures
        r@ == spec_trim(s@),
{
    let n = s.unicode_len();
    let a = skip_ws(s, 0);
    proof {
        lemma_skip_ws_from(s@, 0);
    }
    if a == n {
        return String::new();
    }
    let mut b = n;
    proof {
        lemma_trim_end_above(s@, n as int, a as int);
    }
    while is_ws_char(s.get_char(b - 1))
        invariant
            a < b <= n,
            n == s@.len(),
            !is_ws(s@[a as int]),
            trim_end_at(s@, n as int) == trim_end_at(s@, b as int),
            trim_end_at(s@, b as int) > a,
        decreases b,
    {
        proof {
            lemma_trim_end_above(s@, b - 1, a as int);
        }
        b = b - 1;
    }
    s.substring_char(a, b).to_owned()
}

/// `s` holds the four characters of the protocol marker `HTTP` in a row,
/// starting at or after `pos`.
pub open spec fn http_from(s: Seq<char>, pos: int) -> bool
    decreases s.len() - pos,
{
    if pos < 0 || pos + 4 > s.len() {
        false
    } else if s[pos] == 'H' && s[pos + 1] == 'T' && s[pos + 2] == 'T' && s[pos + 3] == 'P' {
        true
    } else {
        http_from(s, pos + 1)
    }
}

/// `s` holds `HTTP` as a substring; such a line is taken for a request line.
pub open spec fn contains_http(s: Seq<char>) -> bool {
    http_from(s, 0)
}

pub fn has_http(s: &str) -> (r: bool)
    ensures
        r == contains_http(s@),
{
    let n = s.unicode_len();
    if n < 4 {
        return false;
    }
    let mut i: usize = 0;
    while i <= n - 4
        invariant
            0 <= i <= n - 3,
            4 <= n == s@.len(),
            http_from(s@, 0) == http_from(s@, i as int),
        decreases n - i,
    {
        if s.get_char(i) == 'H' && s.get_char(i + 1) == 'T' && s.get_char(i + 2) == 'T'
            && s.get_char(i + 3) == 'P' {
            return true;
        }
        i = i + 1;
    }
    false
}

/// The two strings hold the same characters.
pub fn str_eq(a: &str, b: &str) -> (r: bool)
    ensures
        r == (a@ == b@),
{
    let na = a.unicode_len();
    let nb = b.unicode_len();
    if na != nb {
        return false;
    }
    let mut i: usize = 0;
    while i < na
        invariant
            0 <= i <= na,
            na == a@.len(),
            nb == b@.len(),
            na == nb,
            forall|j: int| 0 <= j < i ==> a@[j] == b@[j],
        decreases na - i,
    {
        if a.get_char(i) != b.get_char(i) {
            return false;
        }
        i = i + 1;
    }
    proof {
        assert(a@ =~= b@);
    }
    true
}

/// The pieces of `s` from `pos` on, split at every occurrence of `c`; two
/// adjacent separators enclose an empty piece, as `str::split` has it.
pub open spec fn split_from(s: Seq<char>, c: char, pos: int) -> Seq<Seq<char>>
    decreases s.len() - pos,
        when 0 <= pos <= s.len()
        via split_from_dec
{
    let k = find_from(s, c, pos);
    if k >= s.len() {
        seq![s.subrange(pos, s.len() as int)]
    } else {
        seq![s.subrange(pos, k)] + split_from(s, c, k + 1)
    }
}

#[via_fn]
proof fn split_from_dec(s: Seq<char>, c: char, pos: int) {
    if 0 <= pos <= s.len() {
        lemma_find_from(s, c, pos);
    }
}

/// The pieces of `s` split at `c`; never empty — an empty `s` gives one
/// empty piece.
pub open spec fn spec_split(s: Seq<char>, c: char) -> Seq<Seq<char>> {
    split_from(s, c, 0)
}

/// The path segment at index `i` when the path has one; empty otherwise.
pub open spec fn seg_of(path: Seq<char>, i: int) -> Seq<char> {
    if 0 <= i < spec_split(path, '/').len() {
        spec_split(path, '/')[i]
    } else {
        Seq::<char>::empty()
    }
}

/// The segment at `i` of the remaining pieces, empty when there is none;
/// scaffolding for walking a split left to right.
spec fn tail_seg(s: Seq<char>, c: char, pos: int, j: int) -> Seq<char> {
    if 0 <= j < split_from(s, c, pos).len() {
        split_from(s, c, pos)[j]
    } else {
        Seq::<char>::empty()
    }
}

/// The path segment at index `i`, exactly as `str::split('/')` would hand it
/// out; `None` when the path has fewer segments.
pub fn path_segment(s: &str, i: usize) -> (r: Option<String>)
    ensures
        match r {
            Some(v) => i < spec_split(s@, '/').len() && v@ == seg_of(s@, i as int),
            None => i >= spec_split(s@, '/').len() && seg_of(s@, i as int) == Seq::<char>::empty(),
        },
{
    let n = s.unicode_len();
    let mut pos: usize = 0;
    let mut count: usize = 0;
    loop
        invariant
            pos <= n,
            count <= i,
            n == s@.len(),
            seg_of(s@, i as int) == tail_seg(s@, '/', pos as int, i - count),
            (i as int) < spec_split(s@, '/').len() <==> (i - count) < split_from(
                s@,
                '/',
                pos as int,
            ).len(),
        decreases i - count,
    {
        let k = find_char(s, '/', pos);
        proof {
            lemma_find_from(s@, '/', pos as int);
        }
        if count == i {
            let piece = s.substring_char(pos, k);
            proof {
                assert(split_from(s@, '/', pos as int)[0] == piece@);
                assert(split_from(s@, '/', pos as int).len() >= 1);
            }
            return Some(piece.to_owned());
        }
        if k >= n {
            proof {
                assert(split_from(s@, '/', pos as int).len() == 1);
            }
            return None;
        }
        proof {
            let rest = split_from(s@, '/', k as int + 1);
            let whole = split_from(s@, '/', pos as int);
            assert(whole == seq![s@.subrange(pos as int, k as int)] + rest);
            assert(whole.len() == 1 + rest.len());
            assert forall|j: int| 1 <= j < whole.len() implies whole[j] == rest[j - 1] by {}
        }
        pos = k + 1;
        count = count + 1;
    }
}

/// `s` ends with the characters of `suffix`.
pub open spec fn spec_ends_with(s: Seq<char>, suffix: Seq<char>) -> bool {
    suffix.len() <= s.len() && s.subrange(s.len() - suffix.len(), s.len() as int) == suffix
}

pub fn str_ends_with(s: &str, suffix: &str) -> (r: bool)
    ensures
        r == spec_ends_with(s@, suffix@),
{
    let n = s.unicode_len();
    let m = suffix.unicode_len();
    if m > n {
        return false;
    }
    str_eq(s.substring_char(n - m, n), suffix)
}

/// The digit character for a value below ten.
pub open spec fn digit_char(d: int) -> char {
    if d == 0 {
        '0'
    } else if d == 1 {
        '1'
    } else if d == 2 {
        '2'
    } else if d == 3 {
        '3'
    } else if d == 4 {
        '4'
    } else if d == 5 {
        '5'
    } else if d == 6 {
        '6'
    } else if d == 7 {
        '7'
    } else if d == 8 {
        '8'
    } else {
        '9'
    }
}

/// The decimal representation of `n`, most significant digit first.
pub open spec fn spec_dec(n: int) -> Seq<char>
    decreases n,
{
    if n < 10 {
        seq![digit_char(n)]
    } else {
        spec_dec(n / 10).push(digit_char(n % 10))
    }
}

fn digit_str(d: usize) -> (r: &'static str)
    requires
        d < 10,
    ensures
        r@ == seq![digit_char(d as int)],
{
    proof {
        reveal_strlit("0");
        reveal_strlit("1");
        reveal_strlit("2");
        reveal_strlit("3");
        reveal_strlit("4");
        reveal_strlit("5");
        reveal_strlit("6");
        reveal_strlit("7");
        reveal_strlit("8");
        reveal_strlit("9");
    }
    let r: &'static str = if d == 0 {
        "0"
    } else if d == 1 {
        "1"
    } else if d == 2 {
        "2"
    } else if d == 3 {
        "3"
    } else if d == 4 {
        "4"
    } else if d == 5 {
        "5"
    } else if d == 6 {
        "6"
    } else if d == 7 {
        "7"
    } else if d == 8 {
        "8"
    } else {
        "9"
    };
    proof {
        assert(r@ =~= seq![digit_char(d as int)]);
    }
    r
}

/// Formats `n` in decimal.
pub fn usize_to_dec(n: usize) -> (r: String)
    ensures
        r@ == spec_dec(n as int),
    decreases n,
{
    if n < 10 {
        digit_str(n).to_owned()
    } else {
        let mut s = usize_to_dec(n / 10);
        s.append(digit_str(n % 10));
        proof {
            assert(s@ =~= spec_dec(n as int));
        }
        s
    }
}

} // verus!
