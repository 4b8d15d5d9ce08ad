//! Character sequences: the text model shared by every parser of the crate.
//!
//! Text is modelled as `Seq<char>`. Executable code holds it as `&[char]` or
//! `Vec<char>` and converts from and to `String` at the edges.

use vstd::prelude::*;
use vstd::slice::slice_subrange;

verus! {

/// Unicode `White_Space`, the class that `trim` and `split_whitespace` use.
pub open spec fn is_whitespace(c: char) -> bool {
    let n = c as u32;
    (0x09 <= n <= 0x0d) || n == 0x20 || n == 0x85 || n == 0xa0 || n == 0x1680 || (0x2000 <= n
        <= 0x200a) || n == 0x2028 || n == 0x2029 || n == 0x202f || n == 0x205f || n == 0x3000
}

/// ASCII whitespace: space, tab, line feed, form feed, carriage return.
pub open spec fn is_ascii_whitespace(c: char) -> bool {
    c == ' ' || c == '\t' || c == '\n' || c == '\x0c' || c == '\r'
}

/// Which characters separate words: whitespace of either class, or the
/// slash between the parts of a path.
#[derive(Clone, Copy, Debug, PartialEq, Eq)]
pub enum Blank {
    Unicode,
    Ascii,
    Slash,
}

impl Blank {
    pub open spec fn holds(self, c: char) -> bool {
        match self {
            Blank::Unicode => is_whitespace(c),
            Blank::Ascii => is_ascii_whitespace(c),
            Blank::Slash => c == '/',
        }
    }

    pub fn test(self, c: char) -> (r: bool)
        ensures
            r == self.holds(c),
    {
        match self {
            Blank::Unicode => {
                let n: u32 = c as u32;
                (0x09 <= n && n <= 0x0d) || n == 0x20 || n == 0x85 || n == 0xa0 || n == 0x1680
                    || (0x2000 <= n && n <= 0x200a) || n == 0x2028 || n == 0x2029 || n == 0x202f
                    || n == 0x205f || n == 0x3000
            },
            Blank::Ascii => c == ' ' || c == '\t' || c == '\n' || c == '\x0c' || c == '\r',
            Blank::Slash => c == '/',
        }
    }
}

/// The first index at or after `i` whose character is not blank, or the length.
pub open spec fn skip_blank(s: Seq<char>, i: int, b: Blank) -> int
    decreases s.len() - i,
{
    if 0 <= i < s.len() && b.holds(s[i]) {
        skip_blank(s, i + 1, b)
    } else {
        i
    }
}

/// The first index at or after `i` whose character is blank, or the length.
pub open spec fn skip_word(s: Seq<char>, i: int, b: Blank) -> int
    decreases s.len() - i,
{
    if 0 <= i < s.len() && !b.holds(s[i]) {
        skip_word(s, i + 1, b)
    } else {
        i
    }
}

/// The first index at or after `i` that holds `c`, or the length.
pub open spec fn find_from(s: Seq<char>, i: int, c: char) -> int
    decreases s.len() - i,
{
    if 0 <= i < s.len() && s[i] != c {
        find_from(s, i + 1, c)
    } else {
        i
    }
}

/// The first index at or after `i` where `a` stands with `b` right after it,
/// or the length.
pub open spec fn find_pair_from(s: Seq<char>, i: int, a: char, b: char) -> int
    decreases s.len() - i,
{
    if 0 <= i < s.len() && !(s[i] == a && i + 1 < s.len() && s[i + 1] == b) {
        find_pair_from(s, i + 1, a, b)
    } else {
        i
    }
}

/// The index just after the last non-blank character before `n`, or 0.
pub open spec fn trim_end_at(s: Seq<char>, n: int, b: Blank) -> int
    decreases n,
{
    if 0 < n <= s.len() && b.holds(s[n - 1]) {
        trim_end_at(s, n - 1, b)
    } else {
        n
    }
}

/// The index of the last `c` before `n`, or -1.
pub open spec fn rfind_before(s: Seq<char>, n: int, c: char) -> int
    decreases n,
{
    if 0 < n <= s.len() {
        if s[n - 1] == c {
            n - 1
        } else {
            rfind_before(s, n - 1, c)
        }
    } else {
        -1
    }
}

pub proof fn lemma_skip_blank_bounds(s: Seq<char>, i: int, b: Blank)
    requires
        0 <= i <= s.len(),
    ensures
        i <= skip_blank(s, i, b) <= s.len(),
        skip_blank(s, i, b) < s.len() ==> !b.holds(s[skip_blank(s, i, b)]),
        forall|k: int| i <= k < skip_blank(s, i, b) ==> b.holds(#[trigger] s[k]),
    decreases s.len() - i,
{
    if i < s.len() && b.holds(s[i]) {
        lemma_skip_blank_bounds(s, i + 1, b);
    }
}

pub proof fn lemma_skip_word_bounds(s: Seq<char>, i: int, b: Blank)
    requires
        0 <= i <= s.len(),
    ensures
        i <= skip_word(s, i, b) <= s.len(),
        skip_word(s, i, b) < s.len() ==> b.holds(s[skip_word(s, i, b)]),
        i < s.len() && !b.holds(s[i]) ==> i < skip_word(s, i, b),
        forall|k: int| i <= k < skip_word(s, i, b) ==> !b.holds(#[trigger] s[k]),
    decreases s.len() - i,
{
    if i < s.len() && !b.holds(s[i]) {
        lemma_skip_word_bounds(s, i + 1, b);
    }
}

pub proof fn lemma_find_from_bounds(s: Seq<char>, i: int, c: char)
    requires
        0 <= i <= s.len(),
    ensures
        i <= find_from(s, i, c) <= s.len(),
        find_from(s, i, c) < s.len() ==> s[find_from(s, i, c)] == c,
        forall|k: int| i <= k < find_from(s, i, c) ==> #[trigger] s[k] != c,
    decreases s.len() - i,
{
    if i < s.len() && s[i] != c {
        lemma_find_from_bounds(s, i + 1, c);
    }
}

pub proof fn lemma_trim_end_bounds(s: Seq<char>, n: int, b: Blank)
    requires
        0 <= n <= s.len(),
    ensures
        0 <= trim_end_at(s, n, b) <= n,
        trim_end_at(s, n, b) > 0 ==> !b.holds(s[trim_end_at(s, n, b) - 1]),
        forall|k: int| trim_end_at(s, n, b) <= k < n ==> b.holds(#[trigger] s[k]),
    decreases n,
{
    if 0 < n && b.holds(s[n - 1]) {
        lemma_trim_end_bounds(s, n - 1, b);
    }
}

pub proof fn lemma_rfind_bounds(s: Seq<char>, n: int, c: char)
    requires
        0 <= n <= s.len(),
    ensures
        -1 <= rfind_before(s, n, c) < n,
        rfind_before(s, n, c) >= 0 ==> s[rfind_before(s, n, c)] == c,
        forall|k: int| rfind_before(s, n, c) < k < n ==> #[trigger] s[k] != c,
    decreases n,
{
    if 0 < n && s[n - 1] != c {
        lemma_rfind_bounds(s, n - 1, c);
    }
}

/// `s` without its leading whitespace.
pub open spec fn trim_start(s: Seq<char>) -> Seq<char> {
    s.subrange(skip_blank(s, 0, Blank::Unicode), s.len() as int)
}

/// `s` without its trailing whitespace.
pub open spec fn trim_end(s: Seq<char>) -> Seq<char> {
    s.subrange(0, trim_end_at(s, s.len() as int, Blank::Unicode))
}

/// `s` without leading and trailing whitespace.
pub open spec fn trim(s: Seq<char>) -> Seq<char> {
    trim_end(trim_start(s))
}

pub open spec fn starts_with(s: Seq<char>, p: Seq<char>) -> bool {
    p.len() <= s.len() && s.subrange(0, p.len() as int) == p
}

pub open spec fn ends_with(s: Seq<char>, p: Seq<char>) -> bool {
    p.len() <= s.len() && s.subrange(s.len() - p.len(), s.len() as int) == p
}

/// What follows the prefix `p` in `s`, where `s` starts with it.
pub open spec fn strip_prefix(s: Seq<char>, p: Seq<char>) -> Option<Seq<char>> {
    if starts_with(s, p) {
        Some(s.subrange(p.len() as int, s.len() as int))
    } else {
        None
    }
}

/// `s` without one leading `c`, where it has one; else `s`.
pub open spec fn without_leading(s: Seq<char>, c: char) -> Seq<char> {
    if s.len() > 0 && s[0] == c {
        s.subrange(1, s.len() as int)
    } else {
        s
    }
}

/// `s` without one trailing `c`, where it has one; else `s`.
pub open spec fn without_trailing(s: Seq<char>, c: char) -> Seq<char> {
    if s.len() > 0 && s[s.len() - 1] == c {
        s.subrange(0, s.len() - 1)
    } else {
        s
    }
}

pub open spec fn contains_char(s: Seq<char>, c: char) -> bool {
    find_from(s, 0, c) < s.len()
}

/// Whether `pat` stands in `s` at index `i`.
pub open spec fn occurs_at(s: Seq<char>, pat: Seq<char>, i: int) -> bool {
    0 <= i && i + pat.len() <= s.len() && s.subrange(i, i + pat.len()) == pat
}

/// Whether `pat` stands somewhere in `s`.
pub open spec fn contains_text(s: Seq<char>, pat: Seq<char>) -> bool {
    exists|i: int| occurs_at(s, pat, i)
}

/// The part of `s` after its last `c`, or all of it.
pub open spec fn after_last(s: Seq<char>, c: char) -> Seq<char> {
    s.subrange(rfind_before(s, s.len() as int, c) + 1, s.len() as int)
}

/// A line without its line ending (`\n` or `\r\n`).
pub open spec fn chomp(line: Seq<char>) -> Seq<char> {
    let a = without_trailing(line, '\n');
    if a.len() < line.len() {
        without_trailing(a, '\r')
    } else {
        line
    }
}

/// The words of `s` from index `i` on: the maximal runs of non-blank characters.
pub open spec fn words_from(s: Seq<char>, i: int, b: Blank) -> Seq<Seq<char>>
    decreases s.len() - i,
{
    let a = skip_blank(s, i, b);
    let e = skip_word(s, a, b);
    if i < 0 || a < i || a >= s.len() || e <= a || e > s.len() {
        Seq::empty()
    } else {
        seq![s.subrange(a, e)] + words_from(s, e, b)
    }
}

/// The words of `s`.
pub open spec fn words(s: Seq<char>, b: Blank) -> Seq<Seq<char>> {
    words_from(s, 0, b)
}

/// The part of `s` from index `i` on, cut after each line feed. Every line
/// but perhaps the last ends with its line feed; none is empty.
pub open spec fn lines_from(s: Seq<char>, i: int) -> Seq<Seq<char>>
    decreases s.len() - i,
{
    let e = find_from(s, i, '\n');
    if i < 0 || i >= s.len() || e < i {
        Seq::empty()
    } else if e >= s.len() {
        seq![s.subrange(i, s.len() as int)]
    } else {
        seq![s.subrange(i, e + 1)] + lines_from(s, e + 1)
    }
}

/// The lines of `s`, each with its line feed.
pub open spec fn lines(s: Seq<char>) -> Seq<Seq<char>> {
    lines_from(s, 0)
}

/// The pieces of `s` from index `i` on that `c` separates; an empty piece
/// stands between two separators and at either end.
pub open spec fn split_from(s: Seq<char>, i: int, c: char) -> Seq<Seq<char>>
    decreases s.len() - i,
{
    let e = find_from(s, i, c);
    if i < 0 || i > s.len() || e < i || e > s.len() {
        Seq::empty()
    } else if e == s.len() {
        seq![s.subrange(i, e)]
    } else {
        seq![s.subrange(i, e)] + split_from(s, e + 1, c)
    }
}

/// The pieces of `s` that `c` separates.
pub open spec fn split_char(s: Seq<char>, c: char) -> Seq<Seq<char>> {
    split_from(s, 0, c)
}

/// The first `n` texts of `list` in a row, with `sep` between them.
pub open spec fn joined_after(list: Seq<Seq<char>>, sep: Seq<char>, n: int) -> Seq<char>
    decreases n,
{
    if n <= 0 || n > list.len() {
        Seq::empty()
    } else if n == 1 {
        list[0]
    } else {
        joined_after(list, sep, n - 1) + sep + list[n - 1]
    }
}

/// The texts of `list` in a row, with `sep` between them.
pub open spec fn joined(list: Seq<Seq<char>>, sep: Seq<char>) -> Seq<char> {
    joined_after(list, sep, list.len() as int)
}

/// Lexicographic order by code point, the order of `str`.
pub open spec fn text_lt(a: Seq<char>, b: Seq<char>) -> bool
    decreases a.len(),
{
    if b.len() == 0 {
        false
    } else if a.len() == 0 {
        true
    } else if a[0] != b[0] {
        a[0] < b[0]
    } else {
        text_lt(a.subrange(1, a.len() as int), b.subrange(1, b.len() as int))
    }
}

/// How many bytes the UTF-8 form of `c` takes.
pub open spec fn utf8_width(c: char) -> nat {
    let n = c as u32;
    if n < 0x80 {
        1
    } else if n < 0x800 {
        2
    } else if n < 0x10000 {
        3
    } else {
        4
    }
}

/// How many bytes the UTF-8 form of the first `n` characters of `s` takes.
pub open spec fn utf8_len(s: Seq<char>, n: int) -> nat
    decreases n,
{
    if n <= 0 || n > s.len() {
        0
    } else {
        utf8_len(s, n - 1) + utf8_width(s[n - 1])
    }
}

/// The length of `s` in bytes of UTF-8, the length that `str::len` gives.
pub open spec fn byte_len(s: Seq<char>) -> nat {
    utf8_len(s, s.len() as int)
}

pub proof fn lemma_utf8_len_bounds(s: Seq<char>, n: int)
    requires
        0 <= n <= s.len(),
    ensures
        n <= utf8_len(s, n) <= 4 * n,
        (forall|i: int| 0 <= i < n ==> (#[trigger] s[i] as u32) < 0x80) ==> utf8_len(s, n) == n,
    decreases n,
{
    if n > 0 {
        lemma_utf8_len_bounds(s, n - 1);
    }
}

pub proof fn lemma_utf8_len_grows(s: Seq<char>, m: int, n: int)
    requires
        0 <= m <= n <= s.len(),
    ensures
        utf8_len(s, m) <= utf8_len(s, n),
    decreases n - m,
{
    if m < n {
        lemma_utf8_len_grows(s, m, n - 1);
    }
}

/// The view of a list of slices: the list of their views.
pub open spec fn views(v: Seq<&[char]>) -> Seq<Seq<char>> {
    v.map_values(|t: &[char]| t@)
}

/// The views of a list of strings.
pub open spec fn texts(v: Seq<String>) -> Seq<Seq<char>> {
    v.map_values(|s: String| s@)
}

/// The views of a list of character lists.
pub open spec fn char_lists(v: Seq<Vec<char>>) -> Seq<Seq<char>> {
    v.map_values(|s: Vec<char>| s@)
}

/// Whether `name` starts with one of `prefixes`.
pub open spec fn has_prefix_in(name: Seq<char>, prefixes: Seq<Seq<char>>) -> bool {
    exists|k: int| 0 <= k < prefixes.len() && starts_with(name, #[trigger] prefixes[k])
}

/// The characters of `s`, in order.
pub fn chars_of(s: &str) -> (r: Vec<char>)
    ensures
        r@ == s@,
{
    let mut out: Vec<char> = Vec::new();
    let it = s.chars();
    for c in iter: it
        invariant
            out@ == iter.seq().take(iter.index@),
    {
        out.push(c);
    }
    out
}

/// `String::push`: appends one character to the string.
#[verifier::external_body]
fn push_char(s: &mut String, c: char)
    ensures
        final(s)@ == old(s)@.push(c),
{
    s.push(c)
}

/// The string that holds the characters of `s`, in order.
pub fn string_of(s: &[char]) -> (r: String)
    ensures
        r@ == s@,
{
    let mut out = String::new();
    let mut i: usize = 0;
    while i < s.len()
        invariant
            i <= s.len(),
            out@ == s@.take(i as int),
        decreases s.len() - i,
    {
        push_char(&mut out, s[i]);
        i += 1;
        assert(s@.take(i as int) == s@.take(i - 1).push(s@[i - 1]));
    }
    assert(s@.take(s.len() as int) == s@);
    out
}

/// The string that `literal` writes, as characters.
pub fn lit(literal: &str) -> (r: Vec<char>)
    ensures
        r@ == literal@,
{
    chars_of(literal)
}

/// A copy of `s`.
pub fn to_vec(s: &[char]) -> (r: Vec<char>)
    ensures
        r@ == s@,
{
    let mut out: Vec<char> = Vec::new();
    let mut i: usize = 0;
    while i < s.len()
        invariant
            i <= s.len(),
            out@ == s@.take(i as int),
        decreases s.len() - i,
    {
        out.push(s[i]);
        i += 1;
        assert(s@.take(i as int) == s@.take(i - 1).push(s@[i - 1]));
    }
    assert(s@.take(s.len() as int) == s@);
    out
}

/// Appends the characters of `t` to `out`.
pub fn append_chars(out: &mut Vec<char>, t: &[char])
    ensures
        final(out)@ == old(out)@ + t@,
{
    let mut i: usize = 0;
    while i < t.len()
        invariant
            i <= t.len(),
            out@ == old(out)@ + t@.take(i as int),
        decreases t.len() - i,
    {
        out.push(t[i]);
        i += 1;
        assert(t@.take(i as int) == t@.take(i - 1).push(t@[i - 1]));
    }
    assert(t@.take(t.len() as int) == t@);
}

/// `a`, `b` and `c` in a row.
pub fn concat3(a: &[char], b: &[char], c: &[char]) -> (r: Vec<char>)
    ensures
        r@ == a@ + b@ + c@,
{
    let mut out = to_vec(a);
    append_chars(&mut out, b);
    append_chars(&mut out, c);
    out
}

pub fn skip_blank_exec(s: &[char], i: usize, b: Blank) -> (r: usize)
    requires
        i <= s.len(),
    ensures
        r == skip_blank(s@, i as int, b),
        i <= r <= s.len(),
{
    let mut j: usize = i;
    while j < s.len() && b.test(s[j])
        invariant
            i <= j <= s.len(),
            skip_blank(s@, i as int, b) == skip_blank(s@, j as int, b),
        decreases s.len() - j,
    {
        j += 1;
    }
    j
}

pub fn skip_word_exec(s: &[char], i: usize, b: Blank) -> (r: usize)
    requires
        i <= s.len(),
    ensures
        r == skip_word(s@, i as int, b),
        i <= r <= s.len(),
{
    let mut j: usize = i;
    while j < s.len() && !b.test(s[j])
        invariant
            i <= j <= s.len(),
            skip_word(s@, i as int, b) == skip_word(s@, j as int, b),
        decreases s.len() - j,
    {
        j += 1;
    }
    j
}

pub fn find_from_exec(s: &[char], i: usize, c: char) -> (r: usize)
    requires
        i <= s.len(),
    ensures
        r == find_from(s@, i as int, c),
        i <= r <= s.len(),
{
    let mut j: usize = i;
    while j < s.len() && s[j] != c
        invariant
            i <= j <= s.len(),
            find_from(s@, i as int, c) == find_from(s@, j as int, c),
        decreases s.len() - j,
    {
        j += 1;
    }
    j
}

pub fn find_pair_exec(s: &[char], a: char, b: char) -> (r: usize)
    ensures
        r == find_pair_from(s@, 0, a, b),
        r <= s.len(),
        r < s.len() ==> r + 1 < s.len(),
{
    let mut j: usize = 0;
    while j < s.len() && !(s[j] == a && j + 1 < s.len() && s[j + 1] == b)
        invariant
            j <= s.len(),
            find_pair_from(s@, 0, a, b) == find_pair_from(s@, j as int, a, b),
        decreases s.len() - j,
    {
        j += 1;
    }
    j
}

pub fn trim_end_at_exec(s: &[char], n: usize, b: Blank) -> (r: usize)
    requires
        n <= s.len(),
    ensures
        r == trim_end_at(s@, n as int, b),
        r <= n,
{
    let mut j: usize = n;
    while j > 0 && b.test(s[j - 1])
        invariant
            j <= n <= s.len(),
            trim_end_at(s@, n as int, b) == trim_end_at(s@, j as int, b),
        decreases j,
    {
        j -= 1;
    }
    j
}

/// The index of the last `c` before `n`, if there is one.
pub fn rfind_before_exec(s: &[char], n: usize, c: char) -> (r: Option<usize>)
    requires
        n <= s.len(),
    ensures
        match r {
            Some(k) => k == rfind_before(s@, n as int, c) && k < n,
            None => rfind_before(s@, n as int, c) == -1,
        },
{
    let mut j: usize = n;
    while j > 0
        invariant
            j <= n <= s.len(),
            rfind_before(s@, n as int, c) == rfind_before(s@, j as int, c),
        decreases j,
    {
        if s[j - 1] == c {
            return Some(j - 1);
        }
        j -= 1;
    }
    None
}

pub fn trim_start_exec(s: &[char]) -> (r: &[char])
    ensures
        r@ == trim_start(s@),
{
    let a = skip_blank_exec(s, 0, Blank::Unicode);
    slice_subrange(s, a, s.len())
}

pub fn trim_end_exec(s: &[char]) -> (r: &[char])
    ensures
        r@ == trim_end(s@),
{
    let e = trim_end_at_exec(s, s.len(), Blank::Unicode);
    slice_subrange(s, 0, e)
}

pub fn trim_exec(s: &[char]) -> (r: &[char])
    ensures
        r@ == trim(s@),
{
    trim_end_exec(trim_start_exec(s))
}

pub fn starts_with_exec(s: &[char], p: &[char]) -> (r: bool)
    ensures
        r == starts_with(s@, p@),
{
    if p.len() > s.len() {
        return false;
    }
    let mut i: usize = 0;
    while i < p.len()
        invariant
            i <= p.len() <= s.len(),
            forall|k: int| 0 <= k < i ==> s@[k] == p@[k],
        decreases p.len() - i,
    {
        if s[i] != p[i] {
            assert(s@.subrange(0, p.len() as int)[i as int] != p@[i as int]);
            return false;
        }
        i += 1;
    }
    assert(s@.subrange(0, p.len() as int) =~= p@);
    true
}

pub fn ends_with_exec(s: &[char], p: &[char]) -> (r: bool)
    ensures
        r == ends_with(s@, p@),
{
    if p.len() > s.len() {
        return false;
    }
    let off: usize = s.len() - p.len();
    let mut i: usize = 0;
    while i < p.len()
        invariant
            i <= p.len() <= s.len(),
            off == s.len() - p.len(),
            forall|k: int| 0 <= k < i ==> s@[off + k] == p@[k],
        decreases p.len() - i,
    {
        if s[off + i] != p[i] {
            assert(s@.subrange(s.len() - p.len(), s.len() as int)[i as int] != p@[i as int]);
            return false;
        }
        i += 1;
    }
    assert(s@.subrange(s.len() - p.len(), s.len() as int) =~= p@);
    true
}

pub fn text_eq(a: &[char], b: &[char]) -> (r: bool)
    ensures
        r == (a@ == b@),
{
    if a.len() != b.len() {
        return false;
    }
    let r = starts_with_exec(a, b);
    assert(a@.subrange(0, a.len() as int) == a@);
    r
}

pub fn strip_prefix_exec<'a>(s: &'a [char], p: &[char]) -> (r: Option<&'a [char]>)
    ensures
        match r {
            Some(t) => strip_prefix(s@, p@) == Some(t@),
            None => strip_prefix(s@, p@) is None,
        },
{
    if starts_with_exec(s, p) {
        Some(slice_subrange(s, p.len(), s.len()))
    } else {
        None
    }
}

pub fn without_leading_exec(s: &[char], c: char) -> (r: &[char])
    ensures
        r@ == without_leading(s@, c),
{
    if s.len() > 0 && s[0] == c {
        slice_subrange(s, 1, s.len())
    } else {
        s
    }
}

pub fn without_trailing_exec(s: &[char], c: char) -> (r: &[char])
    ensures
        r@ == without_trailing(s@, c),
{
    if s.len() > 0 && s[s.len() - 1] == c {
        slice_subrange(s, 0, s.len() - 1)
    } else {
        s
    }
}

pub fn contains_char_exec(s: &[char], c: char) -> (r: bool)
    ensures
        r == contains_char(s@, c),
{
    find_from_exec(s, 0, c) < s.len()
}

pub fn contains_text_exec(s: &[char], pat: &[char]) -> (r: bool)
    ensures
        r == contains_text(s@, pat@),
{
    if pat.len() > s.len() {
        assert forall|i: int| !occurs_at(s@, pat@, i) by {}
        return false;
    }
    let last: usize = s.len() - pat.len();
    let mut i: usize = 0;
    loop
        invariant
            i <= last,
            last == s.len() - pat.len(),
            forall|k: int| 0 <= k < i ==> !occurs_at(s@, pat@, k),
        decreases last - i,
    {
        let rest = slice_subrange(s, i, s.len());
        if starts_with_exec(rest, pat) {
            assert(rest@.subrange(0, pat@.len() as int) =~= s@.subrange(i as int, i + pat@.len()));
            assert(occurs_at(s@, pat@, i as int));
            return true;
        }
        assert(!occurs_at(s@, pat@, i as int)) by {
            assert(rest@.subrange(0, pat@.len() as int) =~= s@.subrange(i as int, i + pat@.len()));
        }
        if i == last {
            assert forall|k: int| !occurs_at(s@, pat@, k) by {}
            return false;
        }
        i += 1;
    }
}

pub fn after_last_exec(s: &[char], c: char) -> (r: &[char])
    ensures
        r@ == after_last(s@, c),
{
    match rfind_before_exec(s, s.len(), c) {
        Some(k) => slice_subrange(s, k + 1, s.len()),
        None => s,
    }
}

pub fn chomp_exec(line: &[char]) -> (r: &[char])
    ensures
        r@ == chomp(line@),
{
    let a = without_trailing_exec(line, '\n');
    if a.len() < line.len() {
        without_trailing_exec(a, '\r')
    } else {
        line
    }
}

/// The words of `s`, as slices of it.
pub fn split_words<'a>(s: &'a [char], b: Blank) -> (r: Vec<&'a [char]>)
    ensures
        views(r@) == words(s@, b),
{
    let mut out: Vec<&'a [char]> = Vec::new();
    let mut i: usize = 0;
    assert(views(out@) =~= Seq::<Seq<char>>::empty());
    loop
        invariant
            i <= s.len(),
            words(s@, b) == views(out@) + words_from(s@, i as int, b),
        decreases s.len() - i,
    {
        let a = skip_blank_exec(s, i, b);
        if a >= s.len() {
            assert(words_from(s@, i as int, b) =~= Seq::<Seq<char>>::empty());
            assert(views(out@) + Seq::<Seq<char>>::empty() =~= views(out@));
            return out;
        }
        let e = skip_word_exec(s, a, b);
        proof {
            lemma_skip_blank_bounds(s@, i as int, b);
            lemma_skip_word_bounds(s@, a as int, b);
        }
        let w = slice_subrange(s, a, e);
        let ghost before = views(out@);
        out.push(w);
        assert(views(out@) =~= before.push(w@));
        assert(before + (seq![w@] + words_from(s@, e as int, b)) =~= before.push(w@)
            + words_from(s@, e as int, b));
        i = e;
    }
}

/// The lines of `s`, each with its line feed, as slices of it.
pub fn split_lines<'a>(s: &'a [char]) -> (r: Vec<&'a [char]>)
    ensures
        views(r@) == lines(s@),
{
    let mut out: Vec<&'a [char]> = Vec::new();
    let mut i: usize = 0;
    assert(views(out@) =~= Seq::<Seq<char>>::empty());
    while i < s.len()
        invariant
            i <= s.len(),
            lines(s@) == views(out@) + lines_from(s@, i as int),
        decreases s.len() - i,
    {
        let e = find_from_exec(s, i, '\n');
        let next: usize = if e >= s.len() {
            s.len()
        } else {
            e + 1
        };
        let w = slice_subrange(s, i, next);
        let ghost before = views(out@);
        out.push(w);
        assert(views(out@) =~= before.push(w@));
        proof {
            if e >= s.len() {
                assert(lines_from(s@, next as int) =~= Seq::<Seq<char>>::empty());
                assert(lines_from(s@, i as int) =~= seq![w@]);
            }
            assert(before + (seq![w@] + lines_from(s@, next as int)) =~= before.push(w@)
                + lines_from(s@, next as int));
        }
        i = next;
    }
    assert(lines_from(s@, i as int) =~= Seq::<Seq<char>>::empty());
    assert(views(out@) + Seq::<Seq<char>>::empty() =~= views(out@));
    out
}

/// The pieces of `s` that `c` separates, as slices of it.
pub fn split_char_exec<'a>(s: &'a [char], c: char) -> (r: Vec<&'a [char]>)
    ensures
        views(r@) == split_char(s@, c),
{
    let mut out: Vec<&'a [char]> = Vec::new();
    let mut i: usize = 0;
    assert(views(out@) =~= Seq::<Seq<char>>::empty());
    loop
        invariant
            i <= s.len(),
            split_char(s@, c) == views(out@) + split_from(s@, i as int, c),
        decreases s.len() - i,
    {
        let e = find_from_exec(s, i, c);
        let w = slice_subrange(s, i, e);
        let ghost before = views(out@);
        out.push(w);
        assert(views(out@) =~= before.push(w@));
        if e == s.len() {
            assert(before + seq![w@] =~= before.push(w@));
            return out;
        }
        assert(before + (seq![w@] + split_from(s@, e + 1, c)) =~= before.push(w@) + split_from(
            s@,
            e + 1,
            c,
        ));
        i = e + 1;
    }
}

/// The texts of `list` in a row, with `sep` between them.
pub fn join_strings(list: &Vec<String>, sep: &str) -> (r: Vec<char>)
    ensures
        r@ == joined(texts(list@), sep@),
{
    let mut out: Vec<char> = Vec::new();
    let s = chars_of(sep);
    let mut i: usize = 0;
    while i < list.len()
        invariant
            i <= list.len(),
            s@ == sep@,
            out@ == joined_after(texts(list@), sep@, i as int),
        decreases list.len() - i,
    {
        if i > 0 {
            append_chars(&mut out, s.as_slice());
        }
        let item = chars_of(list[i].as_str());
        append_chars(&mut out, item.as_slice());
        assert(out@ =~= joined_after(texts(list@), sep@, i + 1));
        i += 1;
    }
    out
}

/// Whether `a` comes before `b` in the order of `str`.
pub fn text_lt_exec(a: &[char], b: &[char]) -> (r: bool)
    ensures
        r == text_lt(a@, b@),
{
    let mut i: usize = 0;
    assert(a@.subrange(0, a.len() as int) =~= a@);
    assert(b@.subrange(0, b.len() as int) =~= b@);
    while i < a.len() && i < b.len()
        invariant
            i <= a.len(),
            i <= b.len(),
            text_lt(a@, b@) == text_lt(
                a@.subrange(i as int, a.len() as int),
                b@.subrange(i as int, b.len() as int),
            ),
        decreases a.len() - i,
    {
        let ghost ra = a@.subrange(i as int, a.len() as int);
        let ghost rb = b@.subrange(i as int, b.len() as int);
        if a[i] != b[i] {
            assert(ra[0] == a@[i as int] && rb[0] == b@[i as int]);
            return a[i] < b[i];
        }
        assert(ra[0] == rb[0]);
        assert(ra.subrange(1, ra.len() as int) =~= a@.subrange(i as int + 1, a.len() as int));
        assert(rb.subrange(1, rb.len() as int) =~= b@.subrange(i as int + 1, b.len() as int));
        i += 1;
    }
    i < b.len()
}

/// The length of `s` in bytes of UTF-8, unless it is above `limit`.
pub fn byte_len_within(s: &[char], limit: usize) -> (r: Option<usize>)
    ensures
        match r {
            Some(n) => n == byte_len(s@) && n <= limit,
            None => byte_len(s@) > limit,
        },
{
    let mut total: usize = 0;
    let mut i: usize = 0;
    while i < s.len()
        invariant
            i <= s.len(),
            total == utf8_len(s@, i as int),
            total <= limit,
        decreases s.len() - i,
    {
        let n: u32 = s[i] as u32;
        let w: usize = if n < 0x80 {
            1
        } else if n < 0x800 {
            2
        } else if n < 0x10000 {
            3
        } else {
            4
        };
        if w > limit - total {
            proof {
                lemma_utf8_len_grows(s@, i as int + 1, s.len() as int);
            }
            return None;
        }
        total = total + w;
        i += 1;
    }
    Some(total)
}

/// Whether `list` holds `item`.
pub fn list_contains(list: &Vec<String>, item: &[char]) -> (r: bool)
    ensures
        r == texts(list@).contains(item@),
{
    let mut i: usize = 0;
    while i < list.len()
        invariant
            i <= list.len(),
            forall|k: int| 0 <= k < i ==> texts(list@)[k] != item@,
        decreases list.len() - i,
    {
        let entry = chars_of(list[i].as_str());
        if text_eq(entry.as_slice(), item) {
            assert(texts(list@)[i as int] == item@);
            return true;
        }
        i += 1;
    }
    false
}

/// Whether `list` holds `item`.
pub fn chars_contains(list: &Vec<Vec<char>>, item: &[char]) -> (r: bool)
    ensures
        r == char_lists(list@).contains(item@),
{
    let mut i: usize = 0;
    while i < list.len()
        invariant
            i <= list.len(),
            forall|k: int| 0 <= k < i ==> char_lists(list@)[k] != item@,
        decreases list.len() - i,
    {
        if text_eq(list[i].as_slice(), item) {
            assert(char_lists(list@)[i as int] == item@);
            return true;
        }
        i += 1;
    }
    false
}

pub fn has_prefix_in_exec(name: &[char], prefixes: &Vec<Vec<char>>) -> (r: bool)
    ensures
        r == has_prefix_in(name@, char_lists(prefixes@)),
{
    let mut i: usize = 0;
    while i < prefixes.len()
        invariant
            i <= prefixes.len(),
            forall|k: int| 0 <= k < i ==> !starts_with(name@, #[trigger] char_lists(prefixes@)[k]),
        decreases prefixes.len() - i,
    {
        if starts_with_exec(name, prefixes[i].as_slice()) {
            assert(starts_with(name@, char_lists(prefixes@)[i as int]));
            return true;
        }
        i += 1;
    }
    false
}

/// Appends the lists of `more` to `list`.
pub fn extend_lists(list: &mut Vec<Vec<char>>, more: Vec<Vec<char>>)
    ensures
        char_lists(final(list)@) == char_lists(old(list)@) + char_lists(more@),
{
    let mut rest = more;
    list.append(&mut rest);
    assert(char_lists(list@) =~= char_lists(old(list)@) + char_lists(more@));
}

} // verus!
