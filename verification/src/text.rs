//! Text as sequences of characters: the scanning, splitting, trimming,
//! number parsing and number printing that the parsers of the agent share.

use vstd::prelude::*;
use vstd::slice::slice_subrange;

verus! {

/// `String::push` appends one character to the end of the string.
pub assume_specification[ String::push ](s: &mut String, c: char)
    ensures
        final(s)@ == old(s)@.push(c),
;

// ---------------------------------------------------------------------
// Conversions
// ---------------------------------------------------------------------

/// The characters of a string, in order.
pub fn chars_of(s: &str) -> (v: Vec<char>)
    ensures
        v@ == s@,
{
    let mut v: Vec<char> = Vec::new();
    for c in it: s.chars()
        invariant
            it.seq() == s@,
            v@ == s@.take(it.index() as int),
    {
        v.push(c);
    }
    v
}

/// The string made of `v`.
pub fn string_of(v: &[char]) -> (s: String)
    ensures
        s@ == v@,
{
    let mut s = String::new();
    let mut i: usize = 0;
    while i < v.len()
        invariant
            i <= v.len(),
            s@ == v@.take(i as int),
        decreases v.len() - i,
    {
        s.push(v[i]);
        i += 1;
    }
    s
}

/// The contents of a list of strings.
pub open spec fn views(v: Seq<String>) -> Seq<Seq<char>> {
    v.map_values(|s: String| s@)
}

/// The contents of a list of slices.
pub open spec fn texts(v: Seq<&[char]>) -> Seq<Seq<char>> {
    v.map_values(|s: &[char]| s@)
}

/// The contents of a list of string slices.
pub open spec fn strs(v: Seq<&str>) -> Seq<Seq<char>> {
    v.map_values(|s: &str| s@)
}

/// The contents of an optional string.
pub open spec fn opt_view(s: Option<String>) -> Option<Seq<char>> {
    match s {
        Some(t) => Some(t@),
        None => None,
    }
}

/// Pushing a string pushes its contents.
pub proof fn lemma_views_push(v: Seq<String>, s: String)
    ensures
        views(v.push(s)) == views(v).push(s@),
{
    assert(views(v.push(s)) =~= views(v).push(s@));
}

/// Pushing a slice pushes its contents.
pub proof fn lemma_texts_push(v: Seq<&[char]>, s: &[char])
    ensures
        texts(v.push(s)) == texts(v).push(s@),
{
    assert(texts(v.push(s)) =~= texts(v).push(s@));
}

/// `std::str::from_utf8` reads octets as UTF-8 text: it succeeds exactly on
/// valid UTF-8 and gives the characters that the octets encode.
#[verifier::external_body]
pub(crate) fn utf8_text(bytes: &[u8]) -> (r: Option<&str>)
    ensures
        r is Some <==> vstd::utf8::valid_utf8(bytes@),
        r matches Some(s) ==> s@ == vstd::utf8::decode_utf8(bytes@),
{
    std::str::from_utf8(bytes).ok()
}

/// The text that `String::from_utf8_lossy` makes of octets.
pub uninterp spec fn lossy_utf8(bytes: Seq<u8>) -> Seq<char>;

/// `String::from_utf8_lossy` reads octets as UTF-8 text. What is no valid
/// UTF-8 comes out as replacement characters; valid UTF-8 comes out as it is.
#[verifier::external_body]
pub(crate) fn lossy_text(bytes: &[u8]) -> (r: String)
    ensures
        r@ == lossy_utf8(bytes@),
        vstd::utf8::valid_utf8(bytes@) ==> r@ == vstd::utf8::decode_utf8(bytes@),
{
    String::from_utf8_lossy(bytes).into_owned()
}

/// A character as the `Debug` form of `char` writes it, quoted and escaped.
pub uninterp spec fn quoted_char(c: char) -> Seq<char>;

/// The `Debug` form of `char`.
#[verifier::external_body]
pub(crate) fn quote_char(c: char) -> (r: String)
    ensures
        r@ == quoted_char(c),
{
    format!("{c:?}")
}

/// How many octets a character takes in UTF-8.
pub open spec fn width(c: char) -> nat {
    let u = c as u32;
    if u < 0x80 {
        1
    } else if u < 0x800 {
        2
    } else if u < 0x1_0000 {
        3
    } else {
        4
    }
}

/// How many octets a text takes in UTF-8.
pub open spec fn utf8_len(s: Seq<char>) -> nat
    decreases s.len(),
{
    if s.len() == 0 {
        0
    } else {
        utf8_len(s.drop_last()) + width(s.last())
    }
}

fn char_width(c: char) -> (n: u128)
    ensures
        n == width(c),
        1 <= n <= 4,
{
    let u: u32 = c as u32;
    if u < 0x80 {
        1
    } else if u < 0x800 {
        2
    } else if u < 0x1_0000 {
        3
    } else {
        4
    }
}

/// How many octets a text takes in UTF-8.
pub fn byte_len(s: &[char]) -> (n: u128)
    ensures
        n == utf8_len(s@),
        n <= 4 * s@.len(),
{
    let mut n: u128 = 0;
    let mut i: usize = 0;
    let len: usize = s.len();
    assert(s@.take(0) =~= Seq::empty());
    while i < len
        invariant
            i <= s@.len() == len,
            n == utf8_len(s@.take(i as int)),
            n <= 4 * i,
        decreases s@.len() - i,
    {
        assert(s@.take(i + 1).drop_last() =~= s@.take(i as int));
        n = n + char_width(s[i]);
        i += 1;
    }
    assert(s@.take(i as int) =~= s@);
    n
}

/// Index of the character that starts at octet `col`, searching from
/// character `i` on; `None` where `col` falls within a character or beyond
/// the end. The end itself counts.
pub open spec fn char_at_from(s: Seq<char>, col: nat, i: int) -> Option<int>
    decreases s.len() - i,
{
    if i < 0 || i > s.len() || utf8_len(s.take(i)) > col {
        None
    } else if utf8_len(s.take(i)) == col {
        Some(i)
    } else if i == s.len() {
        None
    } else {
        char_at_from(s, col, i + 1)
    }
}

/// Index of the character that starts at octet `col`, if one does.
pub open spec fn char_at(s: Seq<char>, col: nat) -> Option<int> {
    char_at_from(s, col, 0)
}

/// Index of the character that starts at octet `col`, if one does.
pub fn char_index(s: &[char], col: u128) -> (r: Option<usize>)
    ensures
        match r {
            Some(i) => char_at(s@, col as nat) == Some(i as int) && i <= s@.len(),
            None => char_at(s@, col as nat) is None,
        },
{
    let mut n: u128 = 0;
    let mut i: usize = 0;
    let len: usize = s.len();
    assert(s@.take(0) =~= Seq::empty());
    loop
        invariant
            i <= s@.len() == len,
            n == utf8_len(s@.take(i as int)),
            n <= 4 * i,
            char_at(s@, col as nat) == char_at_from(s@, col as nat, i as int),
        decreases s@.len() - i,
    {
        if n == col {
            return Some(i);
        }
        if n > col || i == len {
            return None;
        }
        assert(s@.take(i + 1).drop_last() =~= s@.take(i as int));
        n = n + char_width(s[i]);
        i += 1;
    }
}

// ---------------------------------------------------------------------
// Comparison
// ---------------------------------------------------------------------

/// Whether two runs of characters are the same.
pub fn same_chars(a: &[char], b: &[char]) -> (r: bool)
    ensures
        r == (a@ == b@),
{
    if a.len() != b.len() {
        return false;
    }
    let mut i: usize = 0;
    while i < a.len()
        invariant
            i <= a.len(),
            a.len() == b.len(),
            a@.take(i as int) == b@.take(i as int),
        decreases a.len() - i,
    {
        if a[i] != b[i] {
            assert(a@[i as int] != b@[i as int]);
            return false;
        }
        assert(a@.take(i + 1) =~= a@.take(i as int).push(a@[i as int]));
        assert(b@.take(i + 1) =~= b@.take(i as int).push(b@[i as int]));
        i += 1;
    }
    assert(a@.take(i as int) =~= a@);
    assert(b@.take(i as int) =~= b@);
    true
}

/// Whether a run of characters is the given text.
pub fn is_text(a: &[char], b: &str) -> (r: bool)
    ensures
        r == (a@ == b@),
{
    let v = chars_of(b);
    same_chars(a, v.as_slice())
}

/// Whether two strings are the same.
pub fn same_str(a: &str, b: &str) -> (r: bool)
    ensures
        r == (a@ == b@),
{
    let v = chars_of(a);
    is_text(v.as_slice(), b)
}

/// Whether a list of strings holds the given text.
pub fn list_has(list: &Vec<String>, t: &str) -> (r: bool)
    ensures
        r == views(list@).contains(t@),
{
    let mut i: usize = 0;
    while i < list.len()
        invariant
            i <= list.len(),
            forall|k: int| 0 <= k < i ==> views(list@)[k] != t@,
        decreases list.len() - i,
    {
        if same_str(list[i].as_str(), t) {
            assert(views(list@)[i as int] == t@);
            return true;
        }
        i += 1;
    }
    false
}

/// Whether `s` begins with `p`.
pub fn starts_with(s: &[char], p: &str) -> (r: bool)
    ensures
        r == p@.is_prefix_of(s@),
{
    let v = chars_of(p);
    if v.len() > s.len() {
        return false;
    }
    let head = slice_subrange(s, 0, v.len());
    assert(s@.subrange(0, v@.len() as int) =~= s@.take(v@.len() as int));
    let r = same_chars(head, v.as_slice());
    assert(p@.is_prefix_of(s@) <==> s@.take(p@.len() as int) =~= p@);
    r
}

/// Whether `s` ends with `p`.
pub fn ends_with(s: &[char], p: &str) -> (r: bool)
    ensures
        r == p@.is_suffix_of(s@),
{
    let v = chars_of(p);
    if v.len() > s.len() {
        return false;
    }
    let tail = slice_subrange(s, s.len() - v.len(), s.len());
    same_chars(tail, v.as_slice())
}

/// `p` stands somewhere in `s`.
pub open spec fn has_text(s: Seq<char>, p: Seq<char>) -> bool {
    exists|i: int| occurs_at(s, p, i)
}

/// `p` stands in `s` at index `i`.
pub open spec fn occurs_at(s: Seq<char>, p: Seq<char>, i: int) -> bool {
    &&& 0 <= i <= s.len() - p.len()
    &&& s.subrange(i, i + p.len()) == p
}

/// First index at or after `i` at which `p` stands in `s`, if any.
pub open spec fn find_text_from(s: Seq<char>, p: Seq<char>, i: int) -> Option<int>
    decreases s.len() + 1 - i,
{
    if i < 0 || i > s.len() - p.len() {
        None
    } else if occurs_at(s, p, i) {
        Some(i)
    } else {
        find_text_from(s, p, i + 1)
    }
}

/// First index at which `p` stands in `s`, if any.
pub open spec fn find_text(s: Seq<char>, p: Seq<char>) -> Option<int> {
    find_text_from(s, p, 0)
}

proof fn lemma_find_text_from(s: Seq<char>, p: Seq<char>, i: int)
    requires
        0 <= i,
    ensures
        match find_text_from(s, p, i) {
            Some(r) => i <= r && occurs_at(s, p, r),
            None => forall|k: int| i <= k ==> !occurs_at(s, p, k),
        },
    decreases s.len() + 1 - i,
{
    if i <= s.len() - p.len() && !occurs_at(s, p, i) {
        lemma_find_text_from(s, p, i + 1);
    }
}

/// A text is found exactly when it stands somewhere.
pub proof fn lemma_find_text(s: Seq<char>, p: Seq<char>)
    ensures
        find_text(s, p) is Some <==> has_text(s, p),
        find_text(s, p) matches Some(r) ==> occurs_at(s, p, r),
{
    lemma_find_text_from(s, p, 0);
    if has_text(s, p) {
        let i = choose|i: int| occurs_at(s, p, i);
        assert(occurs_at(s, p, i));
    }
}

/// Position of the first occurrence of `p`.
pub fn find(s: &[char], p: &str) -> (r: Option<usize>)
    ensures
        match r {
            Some(i) => find_text(s@, p@) == Some(i as int),
            None => find_text(s@, p@) is None,
        },
        r matches Some(i) ==> i + p@.len() <= s@.len(),
{
    let v = chars_of(p);
    if v.len() > s.len() {
        return None;
    }
    let last: usize = s.len() - v.len();
    let mut i: usize = 0;
    loop
        invariant
            v@ == p@,
            last + v.len() == s.len(),
            i <= last,
            find_text(s@, p@) == find_text_from(s@, p@, i as int),
        decreases last - i,
    {
        let here = slice_subrange(s, i, i + v.len());
        if same_chars(here, v.as_slice()) {
            return Some(i);
        }
        assert(!occurs_at(s@, p@, i as int));
        if i == last {
            assert(find_text_from(s@, p@, i + 1) is None);
            return None;
        }
        i += 1;
    }
}

/// Whether `p` stands somewhere in `s`.
pub fn contains(s: &[char], p: &str) -> (r: bool)
    ensures
        r == has_text(s@, p@),
{
    proof {
        lemma_find_text(s@, p@);
    }
    find(s, p).is_some()
}

// ---------------------------------------------------------------------
// Scanning
// ---------------------------------------------------------------------

/// A character with the Unicode property White_Space.
pub open spec fn is_space(c: char) -> bool {
    let u = c as u32;
    ||| 0x9 <= u <= 0xd
    ||| u == 0x20
    ||| u == 0x85
    ||| u == 0xa0
    ||| u == 0x1680
    ||| 0x2000 <= u <= 0x200a
    ||| u == 0x2028
    ||| u == 0x2029
    ||| u == 0x202f
    ||| u == 0x205f
    ||| u == 0x3000
}

/// Whether `c` is white space.
pub fn is_whitespace(c: char) -> (r: bool)
    ensures
        r == is_space(c),
{
    let u: u32 = c as u32;
    (0x9 <= u && u <= 0xd) || u == 0x20 || u == 0x85 || u == 0xa0 || u == 0x1680 || (0x2000 <= u
        && u <= 0x200a) || u == 0x2028 || u == 0x2029 || u == 0x202f || u == 0x205f || u == 0x3000
}

/// The class that holds `c` alone.
pub open spec fn just(c: char) -> spec_fn(char) -> bool {
    |x: char| x == c
}

/// The class of white space.
pub open spec fn space() -> spec_fn(char) -> bool {
    |x: char| is_space(x)
}

/// The class of everything but white space.
pub open spec fn not_space() -> spec_fn(char) -> bool {
    |x: char| !is_space(x)
}

/// First index at or after `i` that holds a character of class `p`; the
/// length where there is none.
pub open spec fn scan(s: Seq<char>, p: spec_fn(char) -> bool, i: int) -> int
    decreases s.len() - i,
{
    if i < 0 || i >= s.len() {
        s.len() as int
    } else if p(s[i]) {
        i
    } else {
        scan(s, p, i + 1)
    }
}

/// What `scan` finds.
pub proof fn lemma_scan(s: Seq<char>, p: spec_fn(char) -> bool, i: int)
    requires
        0 <= i <= s.len(),
    ensures
        i <= scan(s, p, i) <= s.len(),
        forall|k: int| i <= k < scan(s, p, i) ==> !p(#[trigger] s[k]),
        scan(s, p, i) < s.len() ==> p(s[scan(s, p, i)]),
    decreases s.len() - i,
{
    if i < s.len() && !p(s[i]) {
        lemma_scan(s, p, i + 1);
    }
}

/// Index of the next `c` at or after `from`, or the length.
pub fn scan_char(s: &[char], c: char, from: usize) -> (r: usize)
    requires
        from <= s@.len(),
    ensures
        r == scan(s@, just(c), from as int),
        from <= r <= s@.len(),
{
    let mut i: usize = from;
    while i < s.len() && s[i] != c
        invariant
            from <= i <= s@.len(),
            scan(s@, just(c), from as int) == scan(s@, just(c), i as int),
        decreases s@.len() - i,
    {
        i += 1;
    }
    i
}

/// Index of the next white space at or after `from`, or the length.
pub fn scan_space(s: &[char], from: usize) -> (r: usize)
    requires
        from <= s@.len(),
    ensures
        r == scan(s@, space(), from as int),
        from <= r <= s@.len(),
{
    let mut i: usize = from;
    while i < s.len() && !is_whitespace(s[i])
        invariant
            from <= i <= s@.len(),
            scan(s@, space(), from as int) == scan(s@, space(), i as int),
        decreases s@.len() - i,
    {
        i += 1;
    }
    i
}

/// Index of the next character that is no white space, or the length.
pub fn scan_not_space(s: &[char], from: usize) -> (r: usize)
    requires
        from <= s@.len(),
    ensures
        r == scan(s@, not_space(), from as int),
        from <= r <= s@.len(),
{
    let mut i: usize = from;
    while i < s.len() && is_whitespace(s[i])
        invariant
            from <= i <= s@.len(),
            scan(s@, not_space(), from as int) == scan(s@, not_space(), i as int),
        decreases s@.len() - i,
    {
        i += 1;
    }
    i
}

/// Last index below `n` that holds `c`, if any.
pub open spec fn last_index(s: Seq<char>, c: char, n: int) -> Option<int>
    decreases n,
{
    if n <= 0 || n > s.len() {
        None
    } else if s[n - 1] == c {
        Some(n - 1)
    } else {
        last_index(s, c, n - 1)
    }
}

/// Index of the last `c` in `s`.
pub fn rfind_char(s: &[char], c: char) -> (r: Option<usize>)
    ensures
        match r {
            Some(i) => {
                &&& last_index(s@, c, s@.len() as int) == Some(i as int)
                &&& i < s@.len()
                &&& s@[i as int] == c
            },
            None => last_index(s@, c, s@.len() as int) is None,
        },
{
    let mut n: usize = s.len();
    while n > 0
        invariant
            n <= s@.len(),
            last_index(s@, c, s@.len() as int) == last_index(s@, c, n as int),
        decreases n,
    {
        if s[n - 1] == c {
            return Some(n - 1);
        }
        n -= 1;
    }
    None
}

// ---------------------------------------------------------------------
// Letters
// ---------------------------------------------------------------------

/// An ASCII capital as a small letter; anything else as it is.
pub open spec fn lower_char(c: char) -> char {
    let u = c as u32;
    if 0x41 <= u <= 0x5a {
        ((u + 0x20) as u32) as char
    } else {
        c
    }
}

/// A text with its ASCII capitals as small letters.
pub open spec fn ascii_lower(s: Seq<char>) -> Seq<char> {
    s.map_values(|c: char| lower_char(c))
}

fn to_lower_char(c: char) -> (r: char)
    ensures
        r == lower_char(c),
{
    let u: u32 = c as u32;
    if 0x41 <= u && u <= 0x5a {
        ((u + 0x20) as u8) as char
    } else {
        c
    }
}

/// A text with its ASCII capitals as small letters.
pub fn to_ascii_lower(s: &[char]) -> (r: Vec<char>)
    ensures
        r@ == ascii_lower(s@),
{
    let mut out: Vec<char> = Vec::new();
    let mut i: usize = 0;
    while i < s.len()
        invariant
            i <= s@.len(),
            out@ == ascii_lower(s@.take(i as int)),
        decreases s@.len() - i,
    {
        out.push(to_lower_char(s[i]));
        assert(out@ =~= ascii_lower(s@.take(i + 1)));
        i += 1;
    }
    assert(s@.take(i as int) =~= s@);
    out
}

// ---------------------------------------------------------------------
// Trimming
// ---------------------------------------------------------------------

/// `s` without the characters of class `p` at its start.
pub open spec fn drop_front(s: Seq<char>, p: spec_fn(char) -> bool) -> Seq<char>
    decreases s.len(),
{
    if s.len() > 0 && p(s[0]) {
        drop_front(s.drop_first(), p)
    } else {
        s
    }
}

/// `s` without the characters of class `p` at its end.
pub open spec fn drop_back(s: Seq<char>, p: spec_fn(char) -> bool) -> Seq<char>
    decreases s.len(),
{
    if s.len() > 0 && p(s.last()) {
        drop_back(s.drop_last(), p)
    } else {
        s
    }
}

/// `s` without white space at either end.
pub open spec fn trimmed(s: Seq<char>) -> Seq<char> {
    drop_back(drop_front(s, space()), space())
}

/// `s` without white space at its start.
pub fn trim_start(s: &[char]) -> (r: &[char])
    ensures
        r@ == drop_front(s@, space()),
{
    let mut i: usize = 0;
    assert(s@.skip(0) =~= s@);
    while i < s.len() && is_whitespace(s[i])
        invariant
            i <= s@.len(),
            drop_front(s@, space()) == drop_front(s@.skip(i as int), space()),
        decreases s@.len() - i,
    {
        assert(s@.skip(i as int).drop_first() =~= s@.skip(i + 1));
        i += 1;
    }
    assert(s@.skip(i as int) =~= s@.subrange(i as int, s@.len() as int));
    slice_subrange(s, i, s.len())
}

/// `s` without white space at its end.
pub fn trim_end(s: &[char]) -> (r: &[char])
    ensures
        r@ == drop_back(s@, space()),
{
    let mut n: usize = s.len();
    assert(s@.take(n as int) =~= s@);
    while n > 0 && is_whitespace(s[n - 1])
        invariant
            n <= s@.len(),
            drop_back(s@, space()) == drop_back(s@.take(n as int), space()),
        decreases n,
    {
        assert(s@.take(n as int).drop_last() =~= s@.take(n - 1));
        n -= 1;
    }
    assert(s@.take(n as int) =~= s@.subrange(0, n as int));
    slice_subrange(s, 0, n)
}

/// `s` without white space at either end.
pub fn trim(s: &[char]) -> (r: &[char])
    ensures
        r@ == trimmed(s@),
{
    trim_end(trim_start(s))
}

/// `s` without any `c` at its end.
pub fn trim_end_char(s: &[char], c: char) -> (r: &[char])
    ensures
        r@ == drop_back(s@, just(c)),
{
    let mut n: usize = s.len();
    assert(s@.take(n as int) =~= s@);
    while n > 0 && s[n - 1] == c
        invariant
            n <= s@.len(),
            drop_back(s@, just(c)) == drop_back(s@.take(n as int), just(c)),
        decreases n,
    {
        assert(s@.take(n as int).drop_last() =~= s@.take(n - 1));
        n -= 1;
    }
    assert(s@.take(n as int) =~= s@.subrange(0, n as int));
    slice_subrange(s, 0, n)
}

/// `s` without any `c` at either end.
pub fn trim_char(s: &[char], c: char) -> (r: &[char])
    ensures
        r@ == drop_back(drop_front(s@, just(c)), just(c)),
{
    let mut i: usize = 0;
    assert(s@.skip(0) =~= s@);
    while i < s.len() && s[i] == c
        invariant
            i <= s@.len(),
            drop_front(s@, just(c)) == drop_front(s@.skip(i as int), just(c)),
        decreases s@.len() - i,
    {
        assert(s@.skip(i as int).drop_first() =~= s@.skip(i + 1));
        i += 1;
    }
    assert(s@.skip(i as int) =~= s@.subrange(i as int, s@.len() as int));
    trim_end_char(slice_subrange(s, i, s.len()), c)
}

// ---------------------------------------------------------------------
// Splitting
// ---------------------------------------------------------------------

/// A line without the carriage return that may end it.
pub open spec fn without_cr(s: Seq<char>) -> Seq<char> {
    if s.len() > 0 && s.last() == '\r' {
        s.drop_last()
    } else {
        s
    }
}

/// The lines of `s` from index `i` on.
pub open spec fn lines_from(s: Seq<char>, i: int) -> Seq<Seq<char>>
    decreases s.len() - i,
{
    if i < 0 || i >= s.len() {
        Seq::empty()
    } else {
        let e = scan(s, just('\n'), i);
        proof {
            lemma_scan(s, just('\n'), i);
        }
        if e < s.len() {
            seq![without_cr(s.subrange(i, e))] + lines_from(s, e + 1)
        } else {
            seq![s.subrange(i, e)]
        }
    }
}

/// The lines of `s`: each ends at a line feed, which it does not hold, nor
/// the carriage return before it. A last line needs no line feed.
pub open spec fn lines_of(s: Seq<char>) -> Seq<Seq<char>> {
    lines_from(s, 0)
}

/// The lines of `s`.
pub fn lines<'a>(s: &'a [char]) -> (r: Vec<&'a [char]>)
    ensures
        texts(r@) == lines_of(s@),
{
    let mut out: Vec<&'a [char]> = Vec::new();
    let mut i: usize = 0;
    assert(texts(out@) + lines_from(s@, 0) =~= lines_from(s@, 0));
    while i < s.len()
        invariant
            i <= s@.len(),
            texts(out@) + lines_from(s@, i as int) == lines_of(s@),
        decreases s@.len() - i,
    {
        let e = scan_char(s, '\n', i);
        let raw = slice_subrange(s, i, e);
        let ghost before = out@;
        if e == s.len() {
            out.push(raw);
            proof {
                lemma_texts_push(before, raw);
                assert(texts(out@) =~= texts(before) + lines_from(s@, i as int));
                assert(texts(out@) + lines_from(s@, e as int) =~= texts(out@));
            }
            i = e;
        } else {
            let line = if raw.len() > 0 && raw[raw.len() - 1] == '\r' {
                slice_subrange(raw, 0, raw.len() - 1)
            } else {
                raw
            };
            out.push(line);
            proof {
                assert(line@ =~= without_cr(raw@));
                lemma_texts_push(before, line);
                assert(texts(out@) + lines_from(s@, e + 1) =~= texts(before) + lines_from(
                    s@,
                    i as int,
                ));
            }
            i = e + 1;
        }
    }
    assert(texts(out@) + lines_from(s@, i as int) =~= texts(out@));
    out
}

/// The words of `s` from index `i` on.
pub open spec fn words_from(s: Seq<char>, i: int) -> Seq<Seq<char>>
    decreases s.len() - i,
{
    if i < 0 || i >= s.len() {
        Seq::empty()
    } else {
        let a = scan(s, not_space(), i);
        let e = scan(s, space(), a);
        proof {
            lemma_scan(s, not_space(), i);
            lemma_scan(s, space(), a);
        }
        if a >= s.len() {
            Seq::empty()
        } else {
            seq![s.subrange(a, e)] + words_from(s, e)
        }
    }
}

/// The longest runs of `s` without white space, in order.
pub open spec fn words_of(s: Seq<char>) -> Seq<Seq<char>> {
    words_from(s, 0)
}

/// The words of `s`.
pub fn words<'a>(s: &'a [char]) -> (r: Vec<&'a [char]>)
    ensures
        texts(r@) == words_of(s@),
{
    let mut out: Vec<&'a [char]> = Vec::new();
    let mut i: usize = 0;
    assert(texts(out@) + words_from(s@, 0) =~= words_from(s@, 0));
    while i < s.len()
        invariant
            i <= s@.len(),
            texts(out@) + words_from(s@, i as int) == words_of(s@),
        decreases s@.len() - i,
    {
        let a = scan_not_space(s, i);
        if a == s.len() {
            assert(words_from(s@, i as int) =~= words_from(s@, a as int));
            i = a;
        } else {
            let e = scan_space(s, a);
            proof {
                lemma_scan(s@, not_space(), i as int);
                lemma_scan(s@, space(), a as int);
            }
            let word = slice_subrange(s, a, e);
            let ghost before = out@;
            out.push(word);
            proof {
                lemma_texts_push(before, word);
                assert(texts(out@) + words_from(s@, e as int) =~= texts(before) + words_from(
                    s@,
                    i as int,
                ));
            }
            i = e;
        }
    }
    assert(texts(out@) + words_from(s@, i as int) =~= texts(out@));
    out
}

/// The pieces of `s` between separators `c`, from index `i` on.
pub open spec fn pieces_from(s: Seq<char>, c: char, i: int) -> Seq<Seq<char>>
    decreases s.len() - i,
{
    if i < 0 || i > s.len() {
        Seq::empty()
    } else {
        let e = scan(s, just(c), i);
        proof {
            lemma_scan(s, just(c), i);
        }
        if e < s.len() {
            seq![s.subrange(i, e)] + pieces_from(s, c, e + 1)
        } else {
            seq![s.subrange(i, e)]
        }
    }
}

/// The pieces of `s` between separators `c`; there is at least one.
pub open spec fn pieces_of(s: Seq<char>, c: char) -> Seq<Seq<char>> {
    pieces_from(s, c, 0)
}

/// The pieces of `s` between separators `c`.
pub fn pieces<'a>(s: &'a [char], c: char) -> (r: Vec<&'a [char]>)
    ensures
        texts(r@) == pieces_of(s@, c),
{
    let mut out: Vec<&'a [char]> = Vec::new();
    let mut i: usize = 0;
    assert(texts(out@) + pieces_from(s@, c, 0) =~= pieces_from(s@, c, 0));
    loop
        invariant
            i <= s@.len(),
            texts(out@) + pieces_from(s@, c, i as int) == pieces_of(s@, c),
        decreases s@.len() - i,
    {
        let e = scan_char(s, c, i);
        let piece = slice_subrange(s, i, e);
        let ghost before = out@;
        out.push(piece);
        proof {
            lemma_texts_push(before, piece);
        }
        if e == s.len() {
            assert(texts(out@) =~= texts(before) + pieces_from(s@, c, i as int));
            return out;
        }
        proof {
            assert(texts(out@) + pieces_from(s@, c, e + 1) =~= texts(before) + pieces_from(
                s@,
                c,
                i as int,
            ));
        }
        i = e + 1;
    }
}

/// What stands before and after the first `c`, if there is one.
pub open spec fn cut(s: Seq<char>, c: char) -> Option<(Seq<char>, Seq<char>)> {
    let e = scan(s, just(c), 0);
    if e < s.len() {
        Some((s.subrange(0, e), s.subrange(e + 1, s.len() as int)))
    } else {
        None
    }
}

/// Splits `s` at its first `c`.
pub fn split_once<'a>(s: &'a [char], c: char) -> (r: Option<(&'a [char], &'a [char])>)
    ensures
        match r {
            Some((a, b)) => cut(s@, c) == Some((a@, b@)),
            None => cut(s@, c) is None,
        },
{
    let e = scan_char(s, c, 0);
    if e == s.len() {
        None
    } else {
        Some((slice_subrange(s, 0, e), slice_subrange(s, e + 1, s.len())))
    }
}

/// First index at or after `i` that holds octet `c`; the length where there
/// is none.
pub open spec fn scan_octet(s: Seq<u8>, c: u8, i: int) -> int
    decreases s.len() - i,
{
    if i < 0 || i >= s.len() {
        s.len() as int
    } else if s[i] == c {
        i
    } else {
        scan_octet(s, c, i + 1)
    }
}

/// Where `scan_octet` ends up.
pub proof fn lemma_scan_octet(s: Seq<u8>, c: u8, i: int)
    requires
        0 <= i <= s.len(),
    ensures
        i <= scan_octet(s, c, i) <= s.len(),
    decreases s.len() - i,
{
    if i < s.len() && s[i] != c {
        lemma_scan_octet(s, c, i + 1);
    }
}

/// The runs of octets between separators `c`, from index `i` on.
pub open spec fn octet_pieces_from(s: Seq<u8>, c: u8, i: int) -> Seq<Seq<u8>>
    decreases s.len() - i,
{
    if i < 0 || i > s.len() {
        Seq::empty()
    } else {
        let e = scan_octet(s, c, i);
        proof {
            lemma_scan_octet(s, c, i);
        }
        if e < s.len() {
            seq![s.subrange(i, e)] + octet_pieces_from(s, c, e + 1)
        } else {
            seq![s.subrange(i, e)]
        }
    }
}

/// The runs of octets between separators `c`; there is at least one.
pub open spec fn octet_pieces_of(s: Seq<u8>, c: u8) -> Seq<Seq<u8>> {
    octet_pieces_from(s, c, 0)
}

/// The contents of a list of octet slices.
pub open spec fn octet_views(v: Seq<&[u8]>) -> Seq<Seq<u8>> {
    v.map_values(|s: &[u8]| s@)
}

/// The runs of octets between separators `c`.
pub fn octet_pieces<'a>(s: &'a [u8], c: u8) -> (r: Vec<&'a [u8]>)
    ensures
        octet_views(r@) == octet_pieces_of(s@, c),
{
    let mut out: Vec<&'a [u8]> = Vec::new();
    let mut i: usize = 0;
    assert(octet_views(out@) + octet_pieces_from(s@, c, 0) =~= octet_pieces_from(s@, c, 0));
    loop
        invariant
            i <= s@.len(),
            octet_views(out@) + octet_pieces_from(s@, c, i as int) == octet_pieces_of(s@, c),
        decreases s@.len() - i,
    {
        let mut e: usize = i;
        while e < s.len() && s[e] != c
            invariant
                i <= e <= s@.len(),
                scan_octet(s@, c, i as int) == scan_octet(s@, c, e as int),
            decreases s@.len() - e,
        {
            e += 1;
        }
        let piece = slice_subrange(s, i, e);
        let ghost before = out@;
        out.push(piece);
        assert(octet_views(out@) =~= octet_views(before).push(piece@));
        if e == s.len() {
            assert(octet_views(out@) =~= octet_views(before) + octet_pieces_from(s@, c, i as int));
            return out;
        }
        assert(octet_views(out@) + octet_pieces_from(s@, c, e + 1) =~= octet_views(before)
            + octet_pieces_from(s@, c, i as int));
        i = e + 1;
    }
}

/// What `f` makes of the items of `s` that it does not pass over, in order.
pub open spec fn gather<A, B>(s: Seq<A>, f: spec_fn(A) -> Option<B>) -> Seq<B>
    decreases s.len(),
{
    if s.len() == 0 {
        Seq::empty()
    } else {
        let front = gather(s.drop_last(), f);
        match f(s.last()) {
            Some(b) => front.push(b),
            None => front,
        }
    }
}

/// What `f` makes of each item of `s`, one after another.
pub open spec fn spread<A, B>(s: Seq<A>, f: spec_fn(A) -> Seq<B>) -> Seq<B>
    decreases s.len(),
{
    if s.len() == 0 {
        Seq::empty()
    } else {
        spread(s.drop_last(), f) + f(s.last())
    }
}

/// How one more item adds to what is spread out.
pub proof fn lemma_spread_step<A, B>(s: Seq<A>, f: spec_fn(A) -> Seq<B>, i: int)
    requires
        0 <= i < s.len(),
    ensures
        spread(s.take(i + 1), f) == spread(s.take(i), f) + f(s[i]),
{
    assert(s.take(i + 1).drop_last() =~= s.take(i));
}

/// How one more item adds to what is gathered.
pub proof fn lemma_gather_step<A, B>(s: Seq<A>, f: spec_fn(A) -> Option<B>, i: int)
    requires
        0 <= i < s.len(),
    ensures
        gather(s.take(i + 1), f) == (match f(s[i]) {
            Some(b) => gather(s.take(i), f).push(b),
            None => gather(s.take(i), f),
        }),
{
    assert(s.take(i + 1).drop_last() =~= s.take(i));
}

/// What is gathered from a sequence and one from another stands side by side.
pub proof fn lemma_gather_concat<A, B>(s: Seq<A>, t: Seq<A>, f: spec_fn(A) -> Option<B>)
    ensures
        gather(s + t, f) == gather(s, f) + gather(t, f),
    decreases t.len(),
{
    if t.len() == 0 {
        assert(s + t =~= s);
        assert(gather(s, f) + gather(t, f) =~= gather(s, f));
    } else {
        lemma_gather_concat(s, t.drop_last(), f);
        assert((s + t).drop_last() =~= s + t.drop_last());
        assert(gather(s + t, f) =~= gather(s, f) + gather(t, f));
    }
}

// ---------------------------------------------------------------------
// Numbers
// ---------------------------------------------------------------------

/// The value of a digit in bases up to 16.
pub open spec fn digit(c: char, radix: nat) -> Option<nat> {
    let u = c as u32;
    let d = if 0x30 <= u <= 0x39 {
        (u - 0x30) as nat
    } else if 0x61 <= u <= 0x66 {
        (u - 0x61 + 10) as nat
    } else if 0x41 <= u <= 0x46 {
        (u - 0x41 + 10) as nat
    } else {
        16
    };
    if d < radix {
        Some(d)
    } else {
        None
    }
}

/// The number that a run of digits writes; `None` if one is no digit.
pub open spec fn digits_value(s: Seq<char>, radix: nat) -> Option<nat>
    decreases s.len(),
{
    if s.len() == 0 {
        Some(0)
    } else {
        match (digits_value(s.drop_last(), radix), digit(s.last(), radix)) {
            (Some(v), Some(d)) => Some(v * radix + d),
            _ => None,
        }
    }
}

/// The number that `s` writes: an optional plus sign and at least one
/// digit, no larger than `max`.
pub open spec fn number(s: Seq<char>, radix: nat, max: nat) -> Option<nat> {
    let d = if s.len() > 0 && s[0] == '+' {
        s.drop_first()
    } else {
        s
    };
    if d.len() == 0 {
        None
    } else {
        match digits_value(d, radix) {
            Some(v) => if v <= max {
                Some(v)
            } else {
                None
            },
            None => None,
        }
    }
}

proof fn lemma_digits_grow(s: Seq<char>, radix: nat, n: int)
    requires
        radix >= 1,
        0 <= n <= s.len(),
    ensures
        digits_value(s.take(n), radix) is None ==> digits_value(s, radix) is None,
        digits_value(s, radix) is Some && digits_value(s.take(n), radix) is Some
            ==> digits_value(s.take(n), radix)->0 <= digits_value(s, radix)->0,
    decreases s.len() - n,
{
    if n == s.len() {
        assert(s.take(n) =~= s);
    } else {
        lemma_digits_grow(s, radix, n + 1);
        assert(s.take(n + 1).drop_last() =~= s.take(n));
        match digits_value(s.take(n), radix) {
            Some(v) => {
                assert(v <= v * radix) by (nonlinear_arith)
                    requires
                        radix >= 1,
                        v >= 0,
                ;
            },
            None => {},
        }
    }
}

/// The value of a digit in bases up to 16.
pub fn digit_value(c: char, radix: u64) -> (r: Option<u64>)
    requires
        radix <= 16,
    ensures
        match r {
            Some(d) => digit(c, radix as nat) == Some(d as nat) && d < 16 && d < radix,
            None => digit(c, radix as nat) is None,
        },
{
    let u: u32 = c as u32;
    let d: u64 = if 0x30 <= u && u <= 0x39 {
        (u - 0x30) as u64
    } else if 0x61 <= u && u <= 0x66 {
        (u - 0x61 + 10) as u64
    } else if 0x41 <= u && u <= 0x46 {
        (u - 0x41 + 10) as u64
    } else {
        16
    };
    if d < radix {
        Some(d)
    } else {
        None
    }
}

/// Reads a number no larger than `max`.
pub fn parse_number(s: &[char], radix: u64, max: u64) -> (r: Option<u64>)
    requires
        2 <= radix <= 16,
    ensures
        match r {
            Some(v) => number(s@, radix as nat, max as nat) == Some(v as nat) && v <= max,
            None => number(s@, radix as nat, max as nat) is None,
        },
{
    let plus = s.len() > 0 && s[0] == '+';
    let from: usize = if plus {
        1
    } else {
        0
    };
    let d = slice_subrange(s, from, s.len());
    assert(d@ =~= if plus {
        s@.drop_first()
    } else {
        s@
    });
    if d.len() == 0 {
        return None;
    }
    let mut i: usize = 0;
    let mut acc: u64 = 0;
    while i < d.len()
        invariant
            2 <= radix <= 16,
            i <= d@.len(),
            digits_value(d@.take(i as int), radix as nat) == Some(acc as nat),
            acc <= max,
            d@.len() > 0,
            number(s@, radix as nat, max as nat) == (match digits_value(d@, radix as nat) {
                Some(v) => if v <= max {
                    Some(v)
                } else {
                    None
                },
                None => None::<nat>,
            }),
        decreases d@.len() - i,
    {
        proof {
            lemma_digits_grow(d@, radix as nat, i + 1);
            assert(d@.take(i + 1).drop_last() =~= d@.take(i as int));
        }
        match digit_value(d[i], radix) {
            None => {
                return None;
            },
            Some(v) => {
                assert(acc * radix <= 0xffff_ffff_ffff_ffff * 16) by (nonlinear_arith)
                    requires
                        acc <= 0xffff_ffff_ffff_ffff,
                        radix <= 16,
                ;
                let wide: u128 = (acc as u128) * (radix as u128) + (v as u128);
                assert(digits_value(d@.take(i + 1), radix as nat) == Some(wide as nat));
                if wide > max as u128 {
                    return None;
                }
                acc = wide as u64;
            },
        }
        i += 1;
    }
    assert(d@.take(i as int) =~= d@);
    Some(acc)
}

/// The digit that stands for `d` in bases up to 16.
pub open spec fn digit_char(d: nat) -> char {
    if d == 0 {
        '0'
    } else if d == 1 {
        '1'
    } else if d == 2 {
        '2'
    } else if d == 3 {
        '3'
    } else if d == 4 {
        '4'
    } else if d == 5 {
        '5'
    } else if d == 6 {
        '6'
    } else if d == 7 {
        '7'
    } else if d == 8 {
        '8'
    } else if d == 9 {
        '9'
    } else if d == 10 {
        'a'
    } else if d == 11 {
        'b'
    } else if d == 12 {
        'c'
    } else if d == 13 {
        'd'
    } else if d == 14 {
        'e'
    } else {
        'f'
    }
}

/// `n` written in base `radix`, without leading zeros.
pub open spec fn numeral(n: nat, radix: nat) -> Seq<char>
    decreases n,
{
    if radix < 2 || n < radix {
        seq![digit_char(n)]
    } else {
        proof {
            assert(n / radix < n) by (nonlinear_arith)
                requires
                    radix >= 2,
                    n >= radix,
            ;
        }
        numeral(n / radix, radix).push(digit_char(n % radix))
    }
}

/// The digit that stands for `d`.
fn char_of_digit(d: u128) -> (c: char)
    requires
        d < 16,
    ensures
        c == digit_char(d as nat),
{
    if d == 0 {
        '0'
    } else if d == 1 {
        '1'
    } else if d == 2 {
        '2'
    } else if d == 3 {
        '3'
    } else if d == 4 {
        '4'
    } else if d == 5 {
        '5'
    } else if d == 6 {
        '6'
    } else if d == 7 {
        '7'
    } else if d == 8 {
        '8'
    } else if d == 9 {
        '9'
    } else if d == 10 {
        'a'
    } else if d == 11 {
        'b'
    } else if d == 12 {
        'c'
    } else if d == 13 {
        'd'
    } else if d == 14 {
        'e'
    } else {
        'f'
    }
}

/// Appends `n`, written in base `radix`.
pub fn push_number(out: &mut String, n: u128, radix: u128)
    requires
        2 <= radix <= 16,
    ensures
        final(out)@ == old(out)@ + numeral(n as nat, radix as nat),
    decreases n,
{
    if n < radix {
        out.push(char_of_digit(n));
    } else {
        assert(n / radix < n) by (nonlinear_arith)
            requires
                radix >= 2,
                n >= radix,
        ;
        assert((n as int) / (radix as int) == (n as nat) / (radix as nat));
        push_number(out, n / radix, radix);
        out.push(char_of_digit(n % radix));
    }
    assert(out@ =~= old(out)@ + numeral(n as nat, radix as nat));
}

/// `n` in decimal.
pub fn decimal(n: u64) -> (s: String)
    ensures
        s@ == numeral(n as nat, 10),
{
    let mut s = String::new();
    push_number(&mut s, n as u128, 10);
    assert(s@ =~= numeral(n as nat, 10));
    s
}

/// `n` in decimal, with a minus sign where it is negative.
pub open spec fn signed_numeral(n: int) -> Seq<char> {
    if n < 0 {
        seq!['-'] + numeral((-n) as nat, 10)
    } else {
        numeral(n as nat, 10)
    }
}

/// `n` in decimal, with a minus sign where it is negative.
pub fn signed_decimal(n: i64) -> (s: String)
    ensures
        s@ == signed_numeral(n as int),
{
    let mut s = String::new();
    if n < 0 {
        s.push('-');
        push_number(&mut s, (-(n as i128)) as u128, 10);
    } else {
        push_number(&mut s, n as u128, 10);
    }
    assert(s@ =~= signed_numeral(n as int));
    s
}

} // verus!
