//! Reading back the canonical text of a manifest.

use crate::canonical::canonical_text;
use crate::canonical::file_text;
use crate::canonical::headers_text;
use crate::canonical::section_lines;
use crate::canonical::section_text;
use crate::canonical::header_text;
use crate::canonical::label_of;
use crate::checksum::ChecksumType;
use crate::filter::accepts;
use crate::filter::FilterModel;
use crate::hexcode::hex_encoded;
use crate::hexcode::is_hex_digit;
use crate::hexcode::law_hex_round_trip;
use crate::manifest::parse_release;
use crate::manifest::digest_fits;
use crate::manifest::entry_with;
use crate::release::file_line;
use crate::release::EntryModel;
use crate::release::LineFields;
use crate::number::decimal;
use crate::number::is_digit;
use crate::number::law_decimal_round_trip;
use crate::number::lemma_decimal_digits;
use crate::text::skip_blank;
use crate::text::skip_word;
use crate::text::words;
use crate::text::words_from;
use crate::manifest::after_header_line;
use crate::manifest::ReleaseModel;
use crate::release::line_kind;
use crate::release::ChecksumState;
use crate::release::LineKind;
use crate::text::contains_char;
use crate::text::find_pair_from;
use crate::text::is_whitespace;
use crate::text::trim_end;
use crate::text::trim_end_at;
use crate::text::Blank;
use crate::manifest::after_line;
use crate::manifest::after_lines;
use crate::manifest::start_state;
use crate::manifest::ParseState;
use crate::release::ReleaseFault;
use crate::text::find_from;
use crate::text::lemma_find_from_bounds;
use crate::text::lines;
use crate::text::lines_from;
use crate::text::text_lt;
use crate::textmap::ascending;
use crate::textmap::lemma_lower_bound;
use crate::textmap::lemma_text_lt_irreflexive;
use crate::textmap::lemma_text_lt_transitive;
use crate::textmap::lemma_upsert_ascending;
use crate::textmap::lemma_upsert_at_end;
use crate::textmap::lookup;
use crate::textmap::lower_bound;
use crate::textmap::position;
use crate::textmap::upsert;
use vstd::prelude::*;

verus! {

/// Where the first `c` at or after `i` stands, by what stands before it.
pub proof fn lemma_find_from_is(s: Seq<char>, i: int, c: char, n: int)
    requires
        0 <= i <= n <= s.len(),
        forall|k: int| i <= k < n ==> #[trigger] s[k] != c,
        n < s.len() ==> s[n] == c,
    ensures
        find_from(s, i, c) == n,
    decreases n - i,
{
    if i < n {
        lemma_find_from_is(s, i + 1, c, n);
    }
}

/// The search in the second of two texts in a row is the search in that
/// text alone.
pub proof fn lemma_find_from_shift(x: Seq<char>, y: Seq<char>, j: int, c: char)
    requires
        0 <= j <= y.len(),
    ensures
        find_from(x + y, x.len() + j, c) == x.len() + find_from(y, j, c),
{
    lemma_find_from_bounds(y, j, c);
    let n = find_from(y, j, c);
    assert forall|k: int| x.len() + j <= k < x.len() + n implies #[trigger] (x + y)[k] != c by {
        assert((x + y)[k] == y[k - x.len()]);
    }
    if n < y.len() {
        assert((x + y)[x.len() + n] == y[n]);
    }
    lemma_find_from_is(x + y, x.len() + j, c, x.len() + n);
}

/// The search in the first of two texts in a row is the search in that
/// text alone, where it finds something there.
pub proof fn lemma_find_from_first(x: Seq<char>, y: Seq<char>, i: int, c: char)
    requires
        0 <= i <= x.len(),
        find_from(x, i, c) < x.len(),
    ensures
        find_from(x + y, i, c) == find_from(x, i, c),
{
    lemma_find_from_bounds(x, i, c);
    let n = find_from(x, i, c);
    assert forall|k: int| i <= k < n implies #[trigger] (x + y)[k] != c by {
        assert((x + y)[k] == x[k]);
    }
    assert((x + y)[n] == x[n]);
    lemma_find_from_is(x + y, i, c, n);
}

/// The lines of the second of two texts in a row are the lines of that
/// text alone.
pub proof fn lemma_lines_shift(x: Seq<char>, y: Seq<char>, j: int)
    requires
        0 <= j <= y.len(),
    ensures
        lines_from(x + y, x.len() + j) == lines_from(y, j),
    decreases y.len() - j,
{
    let s = x + y;
    lemma_find_from_shift(x, y, j, '\n');
    lemma_find_from_bounds(y, j, '\n');
    let e = find_from(y, j, '\n');
    if j < y.len() {
        if e >= y.len() {
            assert(s.subrange(x.len() + j, s.len() as int) =~= y.subrange(j, y.len() as int));
        } else {
            assert(s.subrange(x.len() + j, x.len() + e + 1) =~= y.subrange(j, e + 1));
            lemma_lines_shift(x, y, e + 1);
        }
    }
}

/// The lines of a text that ends in a line feed, from a line start on, with
/// another text after it: the lines of the first, then those of the second.
pub proof fn lemma_lines_concat_from(x: Seq<char>, y: Seq<char>, i: int)
    requires
        0 <= i <= x.len(),
        x.len() > 0 ==> x[x.len() - 1] == '\n',
    ensures
        lines_from(x + y, i) == lines_from(x, i) + lines_from(y, 0),
    decreases x.len() - i,
{
    let s = x + y;
    if i == x.len() {
        lemma_lines_shift(x, y, 0);
        assert(lines_from(x, i) =~= Seq::<Seq<char>>::empty());
        assert(lines_from(x, i) + lines_from(y, 0) =~= lines_from(y, 0));
    } else {
        lemma_find_from_bounds(x, i, '\n');
        let e = find_from(x, i, '\n');
        assert(e < x.len()) by {
            if e >= x.len() {
                assert(x[x.len() - 1] != '\n');
            }
        }
        lemma_find_from_first(x, y, i, '\n');
        assert(s.subrange(i, e + 1) =~= x.subrange(i, e + 1));
        lemma_lines_concat_from(x, y, e + 1);
        assert(lines_from(s, i) == seq![x.subrange(i, e + 1)] + lines_from(s, e + 1));
        assert(lines_from(x, i) == seq![x.subrange(i, e + 1)] + lines_from(x, e + 1));
        assert(seq![x.subrange(i, e + 1)] + (lines_from(x, e + 1) + lines_from(y, 0)) =~= (seq![
            x.subrange(i, e + 1),
        ] + lines_from(x, e + 1)) + lines_from(y, 0));
    }
}

/// The lines of two texts in a row, where the first is empty or ends in a
/// line feed: the lines of the first, then those of the second.
pub proof fn lemma_lines_concat(x: Seq<char>, y: Seq<char>)
    requires
        x.len() > 0 ==> x[x.len() - 1] == '\n',
    ensures
        lines(x + y) == lines(x) + lines(y),
{
    lemma_lines_concat_from(x, y, 0);
}

/// A text without line feed, with a line feed after it, is one line.
pub proof fn lemma_one_line(t: Seq<char>)
    requires
        forall|k: int| 0 <= k < t.len() ==> #[trigger] t[k] != '\n',
    ensures
        lines(t + seq!['\n']) == seq![t + seq!['\n']],
{
    let s = t + seq!['\n'];
    assert forall|k: int| 0 <= k < t.len() implies #[trigger] s[k] != '\n' by {
        assert(s[k] == t[k]);
    }
    assert(s[t.len() as int] == '\n');
    lemma_find_from_is(s, 0, '\n', t.len() as int);
    let n = t.len() as int;
    assert(s.subrange(0, n + 1) =~= s);
    assert(lines_from(s, n + 1) =~= Seq::<Seq<char>>::empty());
    assert(seq![s] + Seq::<Seq<char>>::empty() =~= seq![s]);
}

/// The state after the first `n` of the lines `ls`, read from the state
/// `st` on; the first fault ends the reading.
pub open spec fn read_on(st: ParseState, ls: Seq<Seq<char>>, n: int, f: FilterModel) -> Result<
    ParseState,
    ReleaseFault,
>
    decreases n,
{
    if n <= 0 || n > ls.len() {
        Ok(st)
    } else {
        match read_on(st, ls, n - 1, f) {
            Ok(s) => after_line(s, ls[n - 1], f),
            Err(e) => Err(e),
        }
    }
}

/// The state after the lines of `text`, read from the state `st` on.
pub open spec fn read_text(st: ParseState, text: Seq<char>, f: FilterModel) -> Result<
    ParseState,
    ReleaseFault,
> {
    read_on(st, lines(text), lines(text).len() as int, f)
}

pub proof fn lemma_after_lines_is_read_on(all: Seq<Seq<char>>, n: int, f: FilterModel)
    requires
        0 <= n <= all.len(),
    ensures
        after_lines(all, n, f) == read_on(start_state(), all, n, f),
    decreases n,
{
    if n > 0 {
        lemma_after_lines_is_read_on(all, n - 1, f);
    }
}

pub proof fn lemma_read_on_first(st: ParseState, a: Seq<Seq<char>>, b: Seq<Seq<char>>, k: int, f: FilterModel)
    requires
        0 <= k <= a.len(),
    ensures
        read_on(st, a + b, k, f) == read_on(st, a, k, f),
    decreases k,
{
    if k > 0 {
        lemma_read_on_first(st, a, b, k - 1, f);
        assert((a + b)[k - 1] == a[k - 1]);
    }
}

pub proof fn lemma_read_on_concat(st: ParseState, a: Seq<Seq<char>>, b: Seq<Seq<char>>, m: int, f: FilterModel)
    requires
        0 <= m <= b.len(),
    ensures
        read_on(st, a + b, a.len() + m, f) == match read_on(st, a, a.len() as int, f) {
            Ok(s) => read_on(s, b, m, f),
            Err(e) => Err(e),
        },
    decreases m,
{
    if m == 0 {
        lemma_read_on_first(st, a, b, a.len() as int, f);
    } else {
        lemma_read_on_concat(st, a, b, m - 1, f);
        assert((a + b)[a.len() + m - 1] == b[m - 1]);
    }
}

/// Reading two texts in a row, where the first is empty or ends in a line
/// feed, is reading the first and then the second.
pub proof fn lemma_read_text_concat(st: ParseState, x: Seq<char>, y: Seq<char>, f: FilterModel)
    requires
        x.len() > 0 ==> x[x.len() - 1] == '\n',
    ensures
        read_text(st, x + y, f) == match read_text(st, x, f) {
            Ok(s) => read_text(s, y, f),
            Err(e) => Err(e),
        },
{
    lemma_lines_concat(x, y);
    lemma_read_on_concat(st, lines(x), lines(y), lines(y).len() as int, f);
}

/// Reading one line is taking the step of that line.
pub proof fn lemma_read_one_line(st: ParseState, t: Seq<char>, f: FilterModel)
    requires
        forall|k: int| 0 <= k < t.len() ==> #[trigger] t[k] != '\n',
    ensures
        read_text(st, t + seq!['\n'], f) == after_line(st, t + seq!['\n'], f),
{
    lemma_one_line(t);
    let ls = seq![t + seq!['\n']];
    assert(read_on(st, ls, 0, f) == Ok::<ParseState, ReleaseFault>(st));
    assert(read_on(st, ls, 1, f) == after_line(st, ls[0], f));
}

/// Reading nothing leaves the state as it is.
pub proof fn lemma_read_nothing(st: ParseState, f: FilterModel)
    ensures
        read_text(st, Seq::empty(), f) == Ok::<ParseState, ReleaseFault>(st),
{
    assert(lines(Seq::<char>::empty()) =~= Seq::<Seq<char>>::empty());
}

/// In an ordered table a key is found exactly where it stands.
pub proof fn lemma_lookup_member<W>(m: Seq<(Seq<char>, W)>, i: int)
    requires
        ascending(m),
        0 <= i < m.len(),
    ensures
        position(m, m[i].0) == Some(i),
        lookup(m, m[i].0) == Some(m[i].1),
{
    let k = m[i].0;
    lemma_lower_bound(m, k, 0);
    let p = lower_bound(m, k, 0);
    lemma_text_lt_irreflexive(k);
    if p > i {
        assert(text_lt(m[i].0, k));
    }
    if p < i {
        assert(text_lt(m[p].0, m[i].0));
    }
}

/// In a table a key that is found stands where it is found.
pub proof fn lemma_lookup_found<W>(m: Seq<(Seq<char>, W)>, k: Seq<char>)
    ensures
        match position(m, k) {
            Some(p) => 0 <= p < m.len() && m[p].0 == k && lookup(m, k) == Some(m[p].1),
            None => lookup(m, k) is None,
        },
{
    lemma_lower_bound(m, k, 0);
}

/// In an ordered table a key that is not found stands nowhere.
pub proof fn lemma_lookup_absent<W>(m: Seq<(Seq<char>, W)>, k: Seq<char>, i: int)
    requires
        ascending(m),
        lookup(m, k) is None,
        0 <= i < m.len(),
    ensures
        m[i].0 != k,
{
    if m[i].0 == k {
        lemma_lookup_member(m, i);
    }
}

/// What an ordered table holds after an entry is put into it: the entry
/// under its key, and under every other key what it held.
pub proof fn lemma_lookup_upsert<W>(m: Seq<(Seq<char>, W)>, k: Seq<char>, w: W, q: Seq<char>)
    requires
        ascending(m),
    ensures
        lookup(upsert(m, k, w), q) == if q == k {
            Some(w)
        } else {
            lookup(m, q)
        },
{
    lemma_upsert_ascending(m, k, w);
    let r = upsert(m, k, w);
    if q != k {
        lemma_lower_bound(m, k, 0);
        let p = lower_bound(m, k, 0);
        let replaced = p < m.len() && m[p].0 == k;
        lemma_lookup_found(m, q);
        lemma_lookup_found(r, q);
        match position(m, q) {
            Some(i) => {
                // the entry of `q` stands in the new table too
                let j = if replaced || i < p {
                    i
                } else {
                    i + 1
                };
                assert(r[j] == m[i]);
                lemma_lookup_member(r, j);
            },
            None => {
                match position(r, q) {
                    Some(j) => {
                        // an entry of `q` in the new table stood in the old one
                        let i = if replaced || j < p {
                            j
                        } else {
                            j - 1
                        };
                        assert(j != p);
                        assert(m[i] == r[j]);
                        lemma_lookup_absent(m, q, i);
                    },
                    None => {},
                }
            },
        }
    }
}

/// Two ordered tables that hold the same under every key agree on their
/// first `n` entries.
pub proof fn lemma_same_prefix<W>(a: Seq<(Seq<char>, W)>, b: Seq<(Seq<char>, W)>, n: int)
    requires
        ascending(a),
        ascending(b),
        forall|k: Seq<char>| lookup(a, k) == lookup(b, k),
        0 <= n <= a.len(),
    ensures
        n <= b.len(),
        forall|i: int| 0 <= i < n ==> a[i] == b[i],
    decreases n,
{
    if n > 0 {
        lemma_same_prefix(a, b, n - 1);
        let i = n - 1;
        let k = a[i].0;
        lemma_lookup_member(a, i);
        assert(lookup(b, k) == lookup(a, k));
        lemma_lookup_found(b, k);
        let p = position(b, k)->0;
        lemma_text_lt_irreflexive(k);
        if p < i {
            assert(b[p] == a[p]);
            assert(text_lt(a[p].0, a[i].0));
        }
        if p > i {
            let k2 = b[i].0;
            assert(text_lt(k2, k));
            lemma_lookup_member(b, i);
            assert(lookup(a, k2) == lookup(b, k2));
            lemma_lookup_found(a, k2);
            let q = position(a, k2)->0;
            lemma_text_lt_irreflexive(k2);
            if q < i {
                assert(b[q] == a[q]);
                assert(text_lt(b[q].0, b[i].0));
            } else if q > i {
                assert(text_lt(a[i].0, a[q].0));
                lemma_text_lt_transitive(k, k2, k);
            }
        }
    }
}

/// Two ordered tables that hold the same under every key are the same.
pub proof fn lemma_tables_equal<W>(a: Seq<(Seq<char>, W)>, b: Seq<(Seq<char>, W)>)
    requires
        ascending(a),
        ascending(b),
        forall|k: Seq<char>| lookup(a, k) == lookup(b, k),
    ensures
        a == b,
{
    lemma_same_prefix(a, b, a.len() as int);
    lemma_same_prefix(b, a, b.len() as int);
    assert(a =~= b);
}

/// A text that does not end in a blank, with a line feed after it, is
/// itself once the blanks at its end are off.
pub proof fn lemma_trim_end_of_line(t: Seq<char>)
    requires
        t.len() > 0,
        !is_whitespace(t[t.len() - 1]),
    ensures
        trim_end(t + seq!['\n']) == t,
{
    let s = t + seq!['\n'];
    let n = t.len() as int;
    assert(s[n] == '\n');
    assert(s[n - 1] == t[n - 1]);
    assert(trim_end_at(s, n + 1, Blank::Unicode) == trim_end_at(s, n, Blank::Unicode));
    assert(trim_end_at(s, n, Blank::Unicode) == n);
    assert(s.subrange(0, n) =~= t);
}

/// The section that the label of a kind starts.
pub open spec fn section_of(kind: ChecksumType) -> ChecksumState {
    match kind {
        ChecksumType::Md5 => ChecksumState::Md5,
        ChecksumType::Sha1 => ChecksumState::Sha1,
        ChecksumType::Sha256 => ChecksumState::Sha256,
        ChecksumType::Sha512 => ChecksumState::Sha512,
    }
}

/// What is known of the labels: none holds a line feed or a space, and none
/// ends in a blank.
pub proof fn lemma_labels(kind: ChecksumType)
    ensures
        label_of(kind).len() > 0,
        forall|j: int| 0 <= j < label_of(kind).len() ==> #[trigger] label_of(kind)[j] != '\n',
        forall|j: int| 0 <= j < label_of(kind).len() ==> #[trigger] label_of(kind)[j] != ' ',
        !is_whitespace(label_of(kind)[label_of(kind).len() - 1]),
        label_of(kind)[0] != ' ',
        match kind {
            ChecksumType::Md5 => line_kind(label_of(kind)) == LineKind::Md5Start,
            ChecksumType::Sha1 => line_kind(label_of(kind)) == LineKind::Sha1Start,
            ChecksumType::Sha256 => line_kind(label_of(kind)) == LineKind::Sha256Start,
            ChecksumType::Sha512 => line_kind(label_of(kind)) == LineKind::Sha512Start,
        },
{
    reveal_strlit("MD5Sum:");
    reveal_strlit("SHA1:");
    reveal_strlit("SHA256:");
    reveal_strlit("SHA512:");
    let l = label_of(kind);
    match kind {
        ChecksumType::Md5 => {},
        ChecksumType::Sha1 => {
            assert(l != "MD5Sum:"@) by {
                assert(l.len() != "MD5Sum:"@.len());
            }
        },
        ChecksumType::Sha256 => {
            assert(l != "MD5Sum:"@) by {
                assert(l[0] != "MD5Sum:"@[0]);
            }
            assert(l != "SHA1:"@) by {
                assert(l.len() != "SHA1:"@.len());
            }
        },
        ChecksumType::Sha512 => {
            assert(l != "MD5Sum:"@) by {
                assert(l[0] != "MD5Sum:"@[0]);
            }
            assert(l != "SHA1:"@) by {
                assert(l.len() != "SHA1:"@.len());
            }
            assert(l != "SHA256:"@) by {
                assert(l[3] != "SHA256:"@[3]);
            }
        },
    }
}

/// The line of a label starts the section of its kind.
pub proof fn lemma_label_line(st: ParseState, kind: ChecksumType, f: FilterModel)
    ensures
        read_text(st, label_of(kind) + seq!['\n'], f) == Ok::<ParseState, ReleaseFault>(
            ParseState { section: section_of(kind), release: st.release },
        ),
{
    lemma_labels(kind);
    lemma_read_one_line(st, label_of(kind), f);
    lemma_trim_end_of_line(label_of(kind));
}

/// Whether a header field can be written on a line and read back: its name
/// is not empty, holds no colon and no blank and does not start with a
/// dash; its value is not empty, holds no line feed and does not end in a
/// blank.
pub open spec fn header_ok(k: Seq<char>, v: Seq<char>) -> bool {
    &&& k.len() > 0
    &&& k[0] != '-'
    &&& forall|i: int| 0 <= i < k.len() ==> #[trigger] k[i] != ':' && !is_whitespace(k[i])
    &&& v.len() > 0
    &&& !is_whitespace(v[v.len() - 1])
    &&& forall|i: int| 0 <= i < v.len() ==> #[trigger] v[i] != '\n'
}

/// Where the first `a` with `b` after it stands, by what stands before it.
pub proof fn lemma_find_pair_is(s: Seq<char>, i: int, a: char, b: char, n: int)
    requires
        0 <= i <= n,
        n + 1 < s.len(),
        forall|k: int| i <= k < n ==> #[trigger] s[k] != a,
        s[n] == a,
        s[n + 1] == b,
    ensures
        find_pair_from(s, i, a, b) == n,
    decreases n - i,
{
    if i < n {
        lemma_find_pair_is(s, i + 1, a, b, n);
    }
}

/// The line of a header field, read outside the frames of a signature,
/// puts the field into the headers and ends the section.
pub proof fn lemma_header_line(st: ParseState, k: Seq<char>, v: Seq<char>, f: FilterModel)
    requires
        header_ok(k, v),
        st.section != ChecksumState::PgpMessage,
        st.section != ChecksumState::PgpSignature,
    ensures
        read_text(st, header_text(k, v), f) == Ok::<ParseState, ReleaseFault>(
            ParseState {
                section: ChecksumState::No,
                release: ReleaseModel {
                    headers: upsert(st.release.headers, k, v),
                    files: st.release.files,
                },
            },
        ),
{
    let t = k + seq![':', ' '] + v;
    let n = k.len() as int;
    assert(header_text(k, v) =~= t + seq!['\n']);
    assert(t.len() == n + 2 + v.len());
    assert forall|j: int| 0 <= j < t.len() implies #[trigger] t[j] != '\n' by {
        if j < n {
            assert(t[j] == k[j]);
        } else if j >= n + 2 {
            assert(t[j] == v[j - n - 2]);
        }
    }
    lemma_read_one_line(st, t, f);
    assert(t[t.len() - 1] == v[v.len() - 1]);
    lemma_trim_end_of_line(t);
    assert(t[0] == k[0]);
    assert(t[n] == ':');
    assert(t[n + 1] == ' ');
    assert forall|j: int| 0 <= j < n implies #[trigger] t[j] != ':' by {
        assert(t[j] == k[j]);
    }
    lemma_find_from_is(t, 0, ':', n);
    assert(contains_char(t, ':'));
    lemma_find_pair_is(t, 0, ':', ' ', n);
    assert(line_kind(t) == LineKind::Metadata) by {
        reveal_strlit("-----BEGIN PGP SIGNED MESSAGE-----");
        reveal_strlit("-----BEGIN PGP SIGNATURE-----");
        reveal_strlit("-----END PGP SIGNATURE-----");
        lemma_labels(ChecksumType::Md5);
        lemma_labels(ChecksumType::Sha1);
        lemma_labels(ChecksumType::Sha256);
        lemma_labels(ChecksumType::Sha512);
        assert(t != label_of(ChecksumType::Md5)) by {
            if t == label_of(ChecksumType::Md5) {
                assert(label_of(ChecksumType::Md5)[n + 1] == ' ');
            }
        }
        assert(t != label_of(ChecksumType::Sha1)) by {
            if t == label_of(ChecksumType::Sha1) {
                assert(label_of(ChecksumType::Sha1)[n + 1] == ' ');
            }
        }
        assert(t != label_of(ChecksumType::Sha256)) by {
            if t == label_of(ChecksumType::Sha256) {
                assert(label_of(ChecksumType::Sha256)[n + 1] == ' ');
            }
        }
        assert(t != label_of(ChecksumType::Sha512)) by {
            if t == label_of(ChecksumType::Sha512) {
                assert(label_of(ChecksumType::Sha512)[n + 1] == ' ');
            }
        }
        assert("-----BEGIN PGP SIGNED MESSAGE-----"@[0] == '-');
        assert("-----BEGIN PGP SIGNATURE-----"@[0] == '-');
        assert("-----END PGP SIGNATURE-----"@[0] == '-');
    }
    assert(t.subrange(0, n) =~= k);
    assert(t.subrange(n + 2, t.len() as int) =~= v);
    assert(after_header_line(st, t) == Ok::<ParseState, ReleaseFault>(
        ParseState {
            section: ChecksumState::No,
            release: ReleaseModel {
                headers: upsert(st.release.headers, k, v),
                files: st.release.files,
            },
        },
    ));
}

/// Where a word that starts at `i` ends, by what it is made of.
pub proof fn lemma_skip_word_is(s: Seq<char>, i: int, n: int, b: Blank)
    requires
        0 <= i <= n <= s.len(),
        forall|k: int| i <= k < n ==> !b.holds(#[trigger] s[k]),
        n < s.len() ==> b.holds(s[n]),
    ensures
        skip_word(s, i, b) == n,
    decreases n - i,
{
    if i < n {
        lemma_skip_word_is(s, i + 1, n, b);
    }
}

/// Where the blanks that start at `i` end, by what stands there.
pub proof fn lemma_skip_blank_is(s: Seq<char>, i: int, n: int, b: Blank)
    requires
        0 <= i <= n <= s.len(),
        forall|k: int| i <= k < n ==> b.holds(#[trigger] s[k]),
        n < s.len() ==> !b.holds(s[n]),
    ensures
        skip_blank(s, i, b) == n,
    decreases n - i,
{
    if i < n {
        lemma_skip_blank_is(s, i + 1, n, b);
    }
}

/// Three words with one space before each are the words of their line.
pub proof fn lemma_three_words(a: Seq<char>, b: Seq<char>, c: Seq<char>)
    requires
        a.len() > 0,
        b.len() > 0,
        c.len() > 0,
        forall|k: int| 0 <= k < a.len() ==> !Blank::Ascii.holds(#[trigger] a[k]),
        forall|k: int| 0 <= k < b.len() ==> !Blank::Ascii.holds(#[trigger] b[k]),
        forall|k: int| 0 <= k < c.len() ==> !Blank::Ascii.holds(#[trigger] c[k]),
    ensures
        words(seq![' '] + a + seq![' '] + b + seq![' '] + c, Blank::Ascii) == seq![a, b, c],
{
    let t = seq![' '] + a + seq![' '] + b + seq![' '] + c;
    let ws = Blank::Ascii;
    let a0 = 1int;
    let a1 = a0 + a.len();
    let b0 = a1 + 1;
    let b1 = b0 + b.len();
    let c0 = b1 + 1;
    let c1 = c0 + c.len();
    assert(t.len() == c1);
    assert(t[0] == ' ');
    assert(t[a1] == ' ');
    assert(t[b1] == ' ');
    assert forall|k: int| a0 <= k < a1 implies !ws.holds(#[trigger] t[k]) by {
        assert(t[k] == a[k - a0]);
    }
    assert forall|k: int| b0 <= k < b1 implies !ws.holds(#[trigger] t[k]) by {
        assert(t[k] == b[k - b0]);
    }
    assert forall|k: int| c0 <= k < c1 implies !ws.holds(#[trigger] t[k]) by {
        assert(t[k] == c[k - c0]);
    }
    assert(!ws.holds(t[a0]));
    assert(!ws.holds(t[b0]));
    assert(!ws.holds(t[c0]));
    lemma_skip_blank_is(t, 0, a0, ws);
    lemma_skip_word_is(t, a0, a1, ws);
    lemma_skip_blank_is(t, a1, b0, ws);
    lemma_skip_word_is(t, b0, b1, ws);
    lemma_skip_blank_is(t, b1, c0, ws);
    lemma_skip_word_is(t, c0, c1, ws);
    assert(skip_blank(t, c1, ws) == c1);
    assert(t.subrange(a0, a1) =~= a);
    assert(t.subrange(b0, b1) =~= b);
    assert(t.subrange(c0, c1) =~= c);
    assert(words_from(t, c1, ws) =~= Seq::<Seq<char>>::empty());
    assert(words_from(t, b1, ws) =~= seq![c]);
    assert(words_from(t, a1, ws) =~= seq![b, c]);
    assert(words_from(t, 0, ws) =~= seq![a, b, c]);
}

/// Whether a path can be written on a line and read back: it is not empty
/// and holds no blank.
pub open spec fn path_ok(path: Seq<char>) -> bool {
    path.len() > 0 && forall|i: int| 0 <= i < path.len() ==> !is_whitespace(#[trigger] path[i])
}

/// The line of a file, read in the section of its digest, puts the digest
/// into the entry of the file.
pub proof fn lemma_file_line(
    st: ParseState,
    kind: ChecksumType,
    d: Seq<u8>,
    size: u64,
    path: Seq<char>,
    f: FilterModel,
)
    requires
        st.section == section_of(kind),
        d.len() == kind.digest_len(),
        path_ok(path),
        accepts(f, path),
    ensures
        read_text(st, file_text(d, size, path), f) == Ok::<ParseState, ReleaseFault>(
            ParseState {
                section: st.section,
                release: ReleaseModel {
                    headers: st.release.headers,
                    files: upsert(
                        st.release.files,
                        path,
                        (match lookup(st.release.files, path) {
                            Some(e) => e,
                            None => EntryModel::bare(size),
                        }).with(kind, d),
                    ),
                },
            },
        ),
{
    let hex = hex_encoded(d);
    let dec = decimal(size as nat);
    let t = seq![' '] + hex + seq![' '] + dec + seq![' '] + path;
    law_hex_round_trip(d);
    lemma_decimal_digits(size as nat);
    law_decimal_round_trip(size);
    assert(file_text(d, size, path) =~= t + seq!['\n']);
    assert(hex.len() > 0);
    assert forall|k: int| 0 <= k < hex.len() implies !Blank::Ascii.holds(#[trigger] hex[k]) by {
        assert(is_hex_digit(hex[k]));
    }
    assert forall|k: int| 0 <= k < dec.len() implies !Blank::Ascii.holds(#[trigger] dec[k]) by {
        assert(is_digit(dec[k]));
    }
    assert forall|k: int| 0 <= k < path.len() implies !Blank::Ascii.holds(#[trigger] path[k]) by {
        assert(!is_whitespace(path[k]));
    }
    lemma_three_words(hex, dec, path);
    let n = t.len() as int;
    assert(n == 1 + hex.len() + 1 + dec.len() + 1 + path.len());
    assert forall|j: int| 0 <= j < n implies #[trigger] t[j] != '\n' by {
        if 1 <= j < 1 + hex.len() {
            assert(t[j] == hex[j - 1]);
            assert(is_hex_digit(hex[j - 1]));
        } else if 2 + hex.len() <= j < 2 + hex.len() + dec.len() {
            assert(t[j] == dec[j - 2 - hex.len()]);
            assert(is_digit(dec[j - 2 - hex.len()]));
        } else if j >= 3 + hex.len() + dec.len() {
            assert(t[j] == path[j - 3 - hex.len() - dec.len()]);
            assert(!is_whitespace(path[j - 3 - hex.len() - dec.len()]));
        }
    }
    lemma_read_one_line(st, t, f);
    assert(t[n - 1] == path[path.len() - 1]);
    lemma_trim_end_of_line(t);
    assert(t[0] == ' ');
    assert(line_kind(t) == LineKind::FileEntry);
    assert(file_line(t) == Ok::<LineFields, ReleaseFault>(
        LineFields { checksum: hex, size, path },
    ));
    assert(digest_fits(kind, hex));
    assert(st.section.hash_kind() == Some(kind));
    let fields = LineFields { checksum: hex, size, path };
    assert(entry_with(st.release.files, fields, kind) == (match lookup(st.release.files, path) {
        Some(e) => e,
        None => EntryModel::bare(size),
    }).with(kind, d));
}

/// Whether every header field can be written and read back.
pub open spec fn headers_ok(h: Seq<(Seq<char>, Seq<char>)>) -> bool {
    forall|i: int| 0 <= i < h.len() ==> header_ok((#[trigger] h[i]).0, h[i].1)
}

/// Whether a text is empty or ends in a line feed.
pub open spec fn ends_lines(x: Seq<char>) -> bool {
    x.len() > 0 ==> x[x.len() - 1] == '\n'
}

pub proof fn lemma_headers_text_ends(h: Seq<(Seq<char>, Seq<char>)>, n: int)
    requires
        0 <= n <= h.len(),
    ensures
        ends_lines(headers_text(h, n)),
    decreases n,
{
    if n > 0 {
        let line = header_text(h[n - 1].0, h[n - 1].1);
        let all = headers_text(h, n);
        assert(all[all.len() - 1] == line[line.len() - 1]);
    }
}

/// The lines of the header fields, read from a fresh state, give those
/// fields as headers.
pub proof fn lemma_read_headers(st: ParseState, h: Seq<(Seq<char>, Seq<char>)>, n: int, f: FilterModel)
    requires
        0 <= n <= h.len(),
        ascending(h),
        headers_ok(h),
        st.section == ChecksumState::No,
        st.release.headers.len() == 0,
    ensures
        read_text(st, headers_text(h, n), f) == Ok::<ParseState, ReleaseFault>(
            ParseState {
                section: ChecksumState::No,
                release: ReleaseModel { headers: h.take(n), files: st.release.files },
            },
        ),
    decreases n,
{
    if n == 0 {
        lemma_read_nothing(st, f);
        assert(h.take(0) =~= st.release.headers);
    } else {
        lemma_read_headers(st, h, n - 1, f);
        lemma_headers_text_ends(h, n - 1);
        let before = ParseState {
            section: ChecksumState::No,
            release: ReleaseModel { headers: h.take(n - 1), files: st.release.files },
        };
        let k = h[n - 1].0;
        let v = h[n - 1].1;
        lemma_read_text_concat(st, headers_text(h, n - 1), header_text(k, v), f);
        assert(header_ok(h[n - 1].0, h[n - 1].1));
        lemma_header_line(before, k, v, f);
        assert forall|j: int| 0 <= j < h.take(n - 1).len() implies text_lt(
            #[trigger] h.take(n - 1)[j].0,
            k,
        ) by {
            assert(text_lt(h[j].0, h[n - 1].0));
        }
        lemma_upsert_at_end(h.take(n - 1), k, v);
        assert(h.take(n - 1).push((k, v)) =~= h.take(n));
    }
}

/// The place of a kind among the sections: the strongest comes first.
pub open spec fn rank(kind: ChecksumType) -> int {
    match kind {
        ChecksumType::Sha512 => 0,
        ChecksumType::Sha256 => 1,
        ChecksumType::Sha1 => 2,
        ChecksumType::Md5 => 3,
    }
}

/// The kind of the section at a place.
pub open spec fn kind_at(level: int) -> ChecksumType {
    if level == 0 {
        ChecksumType::Sha512
    } else if level == 1 {
        ChecksumType::Sha256
    } else if level == 2 {
        ChecksumType::Sha1
    } else {
        ChecksumType::Md5
    }
}

/// Whether the digest of a kind of the file at index `i` has been read,
/// once the sections before `level` are read and of the section at `level`
/// the lines of the files before `n`.
pub open spec fn is_read(kind: ChecksumType, level: int, i: int, n: int) -> bool {
    rank(kind) < level || (rank(kind) == level && i < n)
}

/// An entry with the digests that have been read.
pub open spec fn read_part(e: EntryModel, level: int, i: int, n: int) -> EntryModel {
    EntryModel {
        size: e.size,
        md5: if is_read(ChecksumType::Md5, level, i, n) {
            e.md5
        } else {
            None
        },
        sha1: if is_read(ChecksumType::Sha1, level, i, n) {
            e.sha1
        } else {
            None
        },
        sha256: if is_read(ChecksumType::Sha256, level, i, n) {
            e.sha256
        } else {
            None
        },
        sha512: if is_read(ChecksumType::Sha512, level, i, n) {
            e.sha512
        } else {
            None
        },
    }
}

/// What the table holds under a path at a point of the reading.
pub open spec fn held(files: Seq<(Seq<char>, EntryModel)>, p: Seq<char>, level: int, n: int) -> Option<
    EntryModel,
> {
    match position(files, p) {
        Some(i) => if read_part(files[i].1, level, i, n).has_digest() {
            Some(read_part(files[i].1, level, i, n))
        } else {
            None
        },
        None => None,
    }
}

/// Whether a table is the table of the files at a point of the reading.
pub open spec fn table_is(
    t: Seq<(Seq<char>, EntryModel)>,
    files: Seq<(Seq<char>, EntryModel)>,
    level: int,
    n: int,
) -> bool {
    ascending(t) && forall|p: Seq<char>| lookup(t, p) == held(files, p, level, n)
}

/// Whether the digests of an entry have the lengths of their kinds.
pub open spec fn lengths_ok(e: EntryModel) -> bool {
    &&& e.md5 is Some ==> e.md5->0.len() == 16
    &&& e.sha1 is Some ==> e.sha1->0.len() == 20
    &&& e.sha256 is Some ==> e.sha256->0.len() == 32
    &&& e.sha512 is Some ==> e.sha512->0.len() == 64
}

/// Whether every file can be written and read back under the filter: its
/// path holds no blank and is wanted, and it lists at least one digest.
pub open spec fn files_ok(files: Seq<(Seq<char>, EntryModel)>, f: FilterModel) -> bool {
    forall|i: int|
        0 <= i < files.len() ==> path_ok((#[trigger] files[i]).0) && accepts(f, files[i].0)
            && files[i].1.has_digest() && lengths_ok(files[i].1)
}

pub proof fn lemma_section_lines_end(files: Seq<(Seq<char>, EntryModel)>, kind: ChecksumType, n: int)
    requires
        0 <= n <= files.len(),
    ensures
        ends_lines(section_lines(files, kind, n)),
    decreases n,
{
    if n > 0 {
        lemma_section_lines_end(files, kind, n - 1);
        match files[n - 1].1.digest(kind) {
            Some(d) => {
                let line = file_text(d, files[n - 1].1.size, files[n - 1].0);
                let all = section_lines(files, kind, n);
                assert(all[all.len() - 1] == line[line.len() - 1]);
            },
            None => {
                assert(section_lines(files, kind, n) =~= section_lines(files, kind, n - 1));
            },
        }
    }
}

/// The lines of a section, read in that section, bring the digests of its
/// kind into the table, file after file.
pub proof fn lemma_read_section_lines(
    st: ParseState,
    files: Seq<(Seq<char>, EntryModel)>,
    level: int,
    n: int,
    f: FilterModel,
)
    requires
        0 <= level < 4,
        0 <= n <= files.len(),
        ascending(files),
        files_ok(files, f),
        st.section == section_of(kind_at(level)),
        table_is(st.release.files, files, level, 0),
    ensures
        read_text(st, section_lines(files, kind_at(level), n), f) matches Ok(s) && s.section
            == st.section && s.release.headers == st.release.headers && table_is(
            s.release.files,
            files,
            level,
            n,
        ),
    decreases n,
{
    let kind = kind_at(level);
    if n == 0 {
        lemma_read_nothing(st, f);
    } else {
        lemma_read_section_lines(st, files, level, n - 1, f);
        lemma_section_lines_end(files, kind, n - 1);
        let before = read_text(st, section_lines(files, kind, n - 1), f)->Ok_0;
        let path = files[n - 1].0;
        let e = files[n - 1].1;
        assert(path_ok(files[n - 1].0) && accepts(f, files[n - 1].0) && lengths_ok(files[n - 1].1));
        lemma_lookup_member(files, n - 1);
        let t0 = before.release.files;
        match e.digest(kind) {
            None => {
                assert(section_lines(files, kind, n) =~= section_lines(files, kind, n - 1));
                assert forall|p: Seq<char>| lookup(t0, p) == held(files, p, level, n) by {
                    assert(lookup(t0, p) == held(files, p, level, n - 1));
                    lemma_lookup_found(files, p);
                    match position(files, p) {
                        Some(i) => {
                            assert(read_part(files[i].1, level, i, n) == read_part(
                                files[i].1,
                                level,
                                i,
                                n - 1,
                            ));
                        },
                        None => {},
                    }
                }
            },
            Some(d) => {
                let piece = file_text(d, e.size, path);
                lemma_read_text_concat(st, section_lines(files, kind, n - 1), piece, f);
                lemma_file_line(before, kind, d, e.size, path, f);
                let entry = (match lookup(t0, path) {
                    Some(x) => x,
                    None => EntryModel::bare(e.size),
                }).with(kind, d);
                let t1 = upsert(t0, path, entry);
                lemma_upsert_ascending(t0, path, entry);
                assert(lookup(t0, path) == held(files, path, level, n - 1));
                assert(entry == read_part(e, level, n - 1, n));
                assert forall|p: Seq<char>| lookup(t1, p) == held(files, p, level, n) by {
                    lemma_lookup_upsert(t0, path, entry, p);
                    assert(lookup(t0, p) == held(files, p, level, n - 1));
                    lemma_lookup_found(files, p);
                    if p != path {
                        match position(files, p) {
                            Some(i) => {
                                assert(i != n - 1);
                                assert(read_part(files[i].1, level, i, n) == read_part(
                                    files[i].1,
                                    level,
                                    i,
                                    n - 1,
                                ));
                            },
                            None => {},
                        }
                    }
                }
            },
        }
    }
}

pub proof fn lemma_section_text_ends(files: Seq<(Seq<char>, EntryModel)>, kind: ChecksumType)
    ensures
        section_text(files, kind).len() > 0,
        ends_lines(section_text(files, kind)),
{
    lemma_section_lines_end(files, kind, files.len() as int);
    let lines = section_lines(files, kind, files.len() as int);
    let head = label_of(kind) + seq!['\n'];
    let all = section_text(files, kind);
    assert(all =~= head + lines);
    if lines.len() > 0 {
        assert(all[all.len() - 1] == lines[lines.len() - 1]);
    } else {
        assert(all[all.len() - 1] == head[head.len() - 1]);
    }
}

/// A section, read after the sections before it, brings the digests of its
/// kind into the table.
pub proof fn lemma_read_section(
    st: ParseState,
    files: Seq<(Seq<char>, EntryModel)>,
    level: int,
    f: FilterModel,
)
    requires
        0 <= level < 4,
        ascending(files),
        files_ok(files, f),
        table_is(st.release.files, files, level, 0),
    ensures
        read_text(st, section_text(files, kind_at(level)), f) matches Ok(s)
            && s.release.headers == st.release.headers && table_is(
            s.release.files,
            files,
            level + 1,
            0,
        ),
{
    let kind = kind_at(level);
    let head = label_of(kind) + seq!['\n'];
    let lines = section_lines(files, kind, files.len() as int);
    assert(section_text(files, kind) =~= head + lines);
    lemma_label_line(st, kind, f);
    lemma_read_text_concat(st, head, lines, f);
    let started = ParseState { section: section_of(kind), release: st.release };
    lemma_read_section_lines(started, files, level, files.len() as int, f);
    let s = read_text(started, lines, f)->Ok_0;
    assert forall|p: Seq<char>| lookup(s.release.files, p) == held(files, p, level + 1, 0) by {
        assert(lookup(s.release.files, p) == held(files, p, level, files.len() as int));
        lemma_lookup_found(files, p);
        match position(files, p) {
            Some(i) => {
                assert(read_part(files[i].1, level + 1, i, 0) == read_part(
                    files[i].1,
                    level,
                    i,
                    files.len() as int,
                ));
            },
            None => {},
        }
    }
}

/// Whether a manifest can be written in its canonical text and read back
/// under the filter: its header fields and its files stand in the order of
/// their keys, every header field keeps to one line, and every file has a
/// path without blanks that the filter wants, and lists a digest.
pub open spec fn printable(r: ReleaseModel, f: FilterModel) -> bool {
    ascending(r.headers) && headers_ok(r.headers) && ascending(r.files) && files_ok(r.files, f)
}

/// The canonical text of a manifest reads back as the manifest. So a
/// manifest that is read from its canonical text and written again gives
/// that text again.
pub proof fn law_canonical_text_reads_back(r: ReleaseModel, f: FilterModel)
    requires
        printable(r, f),
    ensures
        parse_release(canonical_text(r), f) == Ok::<ReleaseModel, ReleaseFault>(r),
        parse_release(canonical_text(r), f) matches Ok(again) && canonical_text(again)
            == canonical_text(r),
{
    let h = headers_text(r.headers, r.headers.len() as int);
    let s0 = section_text(r.files, kind_at(0));
    let s1 = section_text(r.files, kind_at(1));
    let s2 = section_text(r.files, kind_at(2));
    let s3 = section_text(r.files, kind_at(3));
    let text = canonical_text(r);
    assert(text == h + s0 + s1 + s2 + s3);
    let st = start_state();
    // the headers
    lemma_read_headers(st, r.headers, r.headers.len() as int, f);
    assert(r.headers.take(r.headers.len() as int) =~= r.headers);
    let a = read_text(st, h, f)->Ok_0;
    assert(a.release.files =~= Seq::<(Seq<char>, EntryModel)>::empty());
    assert forall|p: Seq<char>| lookup(a.release.files, p) == held(r.files, p, 0, 0) by {
        lemma_lookup_found(r.files, p);
    }
    // the four sections
    lemma_read_section(a, r.files, 0, f);
    let b = read_text(a, s0, f)->Ok_0;
    lemma_read_section(b, r.files, 1, f);
    let c = read_text(b, s1, f)->Ok_0;
    lemma_read_section(c, r.files, 2, f);
    let d = read_text(c, s2, f)->Ok_0;
    lemma_read_section(d, r.files, 3, f);
    let e = read_text(d, s3, f)->Ok_0;
    // the texts in a row
    lemma_headers_text_ends(r.headers, r.headers.len() as int);
    lemma_section_text_ends(r.files, kind_at(0));
    lemma_section_text_ends(r.files, kind_at(1));
    lemma_section_text_ends(r.files, kind_at(2));
    lemma_read_text_concat(st, h, s0, f);
    assert(ends_lines(h + s0)) by {
        assert((h + s0)[(h + s0).len() - 1] == s0[s0.len() - 1]);
    }
    lemma_read_text_concat(st, h + s0, s1, f);
    assert(ends_lines(h + s0 + s1)) by {
        assert((h + s0 + s1)[(h + s0 + s1).len() - 1] == s1[s1.len() - 1]);
    }
    lemma_read_text_concat(st, h + s0 + s1, s2, f);
    assert(ends_lines(h + s0 + s1 + s2)) by {
        assert((h + s0 + s1 + s2)[(h + s0 + s1 + s2).len() - 1] == s2[s2.len() - 1]);
    }
    lemma_read_text_concat(st, h + s0 + s1 + s2, s3, f);
    assert(read_text(st, text, f) == Ok::<ParseState, ReleaseFault>(e));
    // the table that was read holds what the manifest holds
    assert forall|p: Seq<char>| lookup(e.release.files, p) == lookup(r.files, p) by {
        assert(lookup(e.release.files, p) == held(r.files, p, 4, 0));
        lemma_lookup_found(r.files, p);
        match position(r.files, p) {
            Some(i) => {
                assert(r.files[i].1.has_digest());
                assert(read_part(r.files[i].1, 4, i, 0) == r.files[i].1);
            },
            None => {},
        }
    }
    lemma_tables_equal(e.release.files, r.files);
    lemma_after_lines_is_read_on(lines(text), lines(text).len() as int, f);
    assert(e.release == r);
}

} // verus!
