//! Mirror targets: what one line of the configuration asks for.

use crate::error::MirsError;
use crate::text::after_last;
use crate::text::after_last_exec;
use crate::text::chars_of;
use crate::text::find_from;
use crate::text::find_from_exec;
use crate::text::lines;
use crate::text::list_contains;
use crate::text::lit;
use crate::text::skip_blank;
use crate::text::skip_blank_exec;
use crate::text::split_char;
use crate::text::split_char_exec;
use crate::text::split_lines;
use crate::text::split_words;
use crate::text::starts_with;
use crate::text::string_of;
use crate::text::strip_prefix_exec;
use crate::text::text_eq;
use crate::text::text_lt;
use crate::text::text_lt_exec;
use crate::text::texts;
use crate::text::trim;
use crate::text::trim_exec;
use crate::text::views;
use crate::text::without_trailing;
use crate::text::without_trailing_exec;
use crate::text::words;
use crate::text::Blank;
use vstd::prelude::*;
use vstd::slice::slice_subrange;

verus! {

/// One upstream slice to mirror.
#[derive(Debug, Default)]
pub struct MirrorOpts {
    pub url: String,
    pub suite: String,
    pub components: Vec<String>,
    pub arch: Vec<String>,
    pub debian_installer_arch: Vec<String>,
    pub source: bool,
    pub packages: bool,
    pub pgp_pub_key: Option<String>,
    pub pgp_verify: bool,
    pub udeb: bool,
}

/// What a `MirrorOpts` says, as plain text and flags.
pub struct MirrorTarget {
    pub url: Seq<char>,
    pub suite: Seq<char>,
    pub components: Seq<Seq<char>>,
    pub arch: Seq<Seq<char>>,
    pub debian_installer_arch: Seq<Seq<char>>,
    pub source: bool,
    pub packages: bool,
    pub pgp_pub_key: Option<Seq<char>>,
    pub pgp_verify: bool,
    pub udeb: bool,
}

impl View for MirrorOpts {
    type V = MirrorTarget;

    open spec fn view(&self) -> MirrorTarget {
        MirrorTarget {
            url: self.url@,
            suite: self.suite@,
            components: texts(self.components@),
            arch: texts(self.arch@),
            debian_installer_arch: texts(self.debian_installer_arch@),
            source: self.source,
            packages: self.packages,
            pgp_pub_key: match self.pgp_pub_key {
                Some(k) => Some(k@),
                None => None,
            },
            pgp_verify: self.pgp_verify,
            udeb: self.udeb,
        }
    }
}

/// Why a line of the configuration names no target.
#[derive(Clone, Copy, Debug, PartialEq, Eq, Structural)]
pub enum ConfigFault {
    BadStart,
    UnclosedBracket,
    InvalidOption,
    NoUrl,
    NoSuite,
}

impl ConfigFault {
    pub open spec fn message(self) -> Seq<char> {
        match self {
            ConfigFault::BadStart => "mirror config must start with either 'deb' or 'deb-src'"@,
            ConfigFault::UnclosedBracket => "options bracket is not closed"@,
            ConfigFault::InvalidOption => "invalid format of options bracket"@,
            ConfigFault::NoUrl => "no url specified"@,
            ConfigFault::NoSuite => "no suite specified"@,
        }
    }

    /// The message of the fault.
    pub fn text(self) -> (r: &'static str)
        ensures
            r@ == self.message(),
    {
        match self {
            ConfigFault::BadStart => "mirror config must start with either 'deb' or 'deb-src'",
            ConfigFault::UnclosedBracket => "options bracket is not closed",
            ConfigFault::InvalidOption => "invalid format of options bracket",
            ConfigFault::NoUrl => "no url specified",
            ConfigFault::NoSuite => "no suite specified",
        }
    }

    /// The error that reports the fault.
    pub fn into_error(self) -> (e: MirsError)
        ensures
            e matches MirsError::Config { msg } && msg@ == self.message(),
    {
        MirsError::Config { msg: self.text().to_owned() }
    }
}

/// What the options bracket of a line has set.
pub struct Options {
    pub arch: Seq<Seq<char>>,
    pub debian_installer_arch: Seq<Seq<char>>,
    pub pgp_pub_key: Option<Seq<char>>,
    pub pgp_verify: bool,
    pub udeb: bool,
}

pub open spec fn no_options() -> Options {
    Options {
        arch: Seq::empty(),
        debian_installer_arch: Seq::empty(),
        pgp_pub_key: None,
        pgp_verify: false,
        udeb: false,
    }
}

pub open spec fn same_letter(c: char, lower: char, upper: char) -> bool {
    c == lower || c == upper
}

/// Whether `v` is the word `true`, in any case.
pub open spec fn is_true_word(v: Seq<char>) -> bool {
    v.len() == 4 && same_letter(v[0], 't', 'T') && same_letter(v[1], 'r', 'R') && same_letter(
        v[2],
        'u',
        'U',
    ) && same_letter(v[3], 'e', 'E')
}

/// The options after one more `key=value` of the bracket; `None` where the
/// part has no `=`. A key that is not known changes nothing.
pub open spec fn option_applied(o: Options, part: Seq<char>) -> Option<Options> {
    let k = find_from(part, 0, '=');
    if k < 0 || k >= part.len() {
        None
    } else {
        let key = part.subrange(0, k);
        let val = part.subrange(k + 1, part.len() as int);
        Some(
            if key == "arch"@ {
                Options { arch: o.arch + split_char(val, ','), ..o }
            } else if key == "di_arch"@ {
                Options {
                    debian_installer_arch: o.debian_installer_arch + split_char(val, ','),
                    ..o
                }
            } else if key == "pgp_pub_key"@ {
                Options { pgp_pub_key: Some(val), pgp_verify: true, ..o }
            } else if key == "pgp_verify"@ {
                Options { pgp_verify: is_true_word(val), ..o }
            } else if key == "udeb"@ {
                Options { udeb: is_true_word(val), ..o }
            } else {
                o
            },
        )
    }
}

/// The options after the first `n` parts of the bracket, read in order.
pub open spec fn options_after(parts: Seq<Seq<char>>, n: int) -> Option<Options>
    decreases n,
{
    if n <= 0 || n > parts.len() {
        Some(no_options())
    } else {
        match options_after(parts, n - 1) {
            Some(o) => option_applied(o, parts[n - 1]),
            None => None,
        }
    }
}

/// The components that the words after the suite name: of each word what
/// follows its last slash; `main` where there are none.
pub open spec fn components_of(parts: Seq<Seq<char>>) -> Seq<Seq<char>> {
    if parts.len() <= 2 {
        seq!["main"@]
    } else {
        Seq::new((parts.len() - 2) as nat, |i: int| after_last(parts[i + 2], '/'))
    }
}

/// The target that the words after the bracket name, under the options given.
pub open spec fn target_of_words(
    source: bool,
    o: Options,
    parts: Seq<Seq<char>>,
) -> Result<MirrorTarget, ConfigFault> {
    if parts.len() < 1 {
        Err(ConfigFault::NoUrl)
    } else if parts.len() < 2 {
        Err(ConfigFault::NoSuite)
    } else {
        Ok(
            MirrorTarget {
                url: without_trailing(parts[0], '/'),
                suite: parts[1],
                components: components_of(parts),
                arch: if o.arch.len() == 0 {
                    seq!["amd64"@]
                } else {
                    o.arch
                },
                debian_installer_arch: o.debian_installer_arch,
                source,
                packages: !source,
                pgp_pub_key: o.pgp_pub_key,
                pgp_verify: o.pgp_verify,
                udeb: o.udeb,
            },
        )
    }
}

/// The target that what follows `deb` or `deb-src` names.
pub open spec fn target_of_rest(source: bool, rest: Seq<char>) -> Result<MirrorTarget, ConfigFault> {
    let a = skip_blank(rest, 0, Blank::Unicode);
    if 0 <= a < rest.len() && rest[a] == '[' {
        let e = find_from(rest, a + 1, ']');
        if e <= a || e >= rest.len() {
            Err(ConfigFault::UnclosedBracket)
        } else {
            let parts = words(rest.subrange(a + 1, e), Blank::Unicode);
            match options_after(parts, parts.len() as int) {
                None => Err(ConfigFault::InvalidOption),
                Some(o) => target_of_words(
                    source,
                    o,
                    words(rest.subrange(e + 1, rest.len() as int), Blank::Unicode),
                ),
            }
        }
    } else {
        target_of_words(source, no_options(), words(rest, Blank::Unicode))
    }
}

/// The target that a line of the configuration names:
/// `deb` or `deb-src`, an optional bracket of `key=value` options, the URL,
/// the suite, and the components.
pub open spec fn target_of(line: Seq<char>) -> Result<MirrorTarget, ConfigFault> {
    if starts_with(line, "deb-src"@) {
        target_of_rest(true, line.subrange(7, line.len() as int))
    } else if starts_with(line, "deb"@) {
        target_of_rest(false, line.subrange(3, line.len() as int))
    } else {
        Err(ConfigFault::BadStart)
    }
}

/// What the options bracket has set so far, while a line is read.
struct OptionsBuf {
    arch: Vec<String>,
    debian_installer_arch: Vec<String>,
    pgp_pub_key: Option<String>,
    pgp_verify: bool,
    udeb: bool,
}

impl View for OptionsBuf {
    type V = Options;

    closed spec fn view(&self) -> Options {
        Options {
            arch: texts(self.arch@),
            debian_installer_arch: texts(self.debian_installer_arch@),
            pgp_pub_key: match self.pgp_pub_key {
                Some(k) => Some(k@),
                None => None,
            },
            pgp_verify: self.pgp_verify,
            udeb: self.udeb,
        }
    }
}

fn is_letter(c: char, lower: char, upper: char) -> (r: bool)
    ensures
        r == same_letter(c, lower, upper),
{
    c == lower || c == upper
}

fn is_true(v: &[char]) -> (r: bool)
    ensures
        r == is_true_word(v@),
{
    v.len() == 4 && is_letter(v[0], 't', 'T') && is_letter(v[1], 'r', 'R') && is_letter(
        v[2],
        'u',
        'U',
    ) && is_letter(v[3], 'e', 'E')
}

/// Appends the pieces of `val` between commas to `list`.
fn extend_with_pieces(list: &mut Vec<String>, val: &[char])
    ensures
        texts(final(list)@) == texts(old(list)@) + split_char(val@, ','),
{
    let pieces = split_char_exec(val, ',');
    let mut i: usize = 0;
    assert(texts(list@) + views(pieces@).take(0) =~= texts(list@));
    while i < pieces.len()
        invariant
            i <= pieces.len(),
            views(pieces@) == split_char(val@, ','),
            texts(list@) == texts(old(list)@) + views(pieces@).take(i as int),
        decreases pieces.len() - i,
    {
        let ghost before = texts(list@);
        list.push(string_of(pieces[i]));
        assert(texts(list@) =~= before.push(pieces@[i as int]@));
        assert(views(pieces@).take(i + 1) =~= views(pieces@).take(i as int).push(
            pieces@[i as int]@,
        ));
        i += 1;
    }
    assert(views(pieces@).take(pieces.len() as int) =~= views(pieces@));
}

/// Reads one `key=value` of the bracket into `o`; `false` where it has no `=`.
fn apply_option(o: &mut OptionsBuf, part: &[char]) -> (ok: bool)
    ensures
        match option_applied(old(o)@, part@) {
            Some(next) => ok && final(o)@ == next,
            None => !ok && final(o)@ == old(o)@,
        },
{
    let k = find_from_exec(part, 0, '=');
    if k >= part.len() {
        return false;
    }
    let key = slice_subrange(part, 0, k);
    let val = slice_subrange(part, k + 1, part.len());
    if text_eq(key, lit("arch").as_slice()) {
        extend_with_pieces(&mut o.arch, val);
    } else if text_eq(key, lit("di_arch").as_slice()) {
        extend_with_pieces(&mut o.debian_installer_arch, val);
    } else if text_eq(key, lit("pgp_pub_key").as_slice()) {
        o.pgp_pub_key = Some(string_of(val));
        o.pgp_verify = true;
    } else if text_eq(key, lit("pgp_verify").as_slice()) {
        o.pgp_verify = is_true(val);
    } else if text_eq(key, lit("udeb").as_slice()) {
        o.udeb = is_true(val);
    }
    true
}

/// Reads the parts of the bracket in order; `false` where one has no `=`.
fn read_options(o: &mut OptionsBuf, parts: &Vec<&[char]>) -> (ok: bool)
    requires
        old(o)@ == no_options(),
    ensures
        match options_after(views(parts@), parts@.len() as int) {
            Some(all) => ok && final(o)@ == all,
            None => !ok,
        },
{
    let mut i: usize = 0;
    while i < parts.len()
        invariant
            i <= parts.len(),
            options_after(views(parts@), i as int) == Some(o@),
        decreases parts.len() - i,
    {
        let ok = apply_option(o, parts[i]);
        if !ok {
            assert(options_after(views(parts@), i + 1) is None);
            proof {
                lemma_options_fail_stays(views(parts@), i + 1, parts@.len() as int);
            }
            return false;
        }
        i += 1;
    }
    true
}

pub proof fn lemma_options_fail_stays(parts: Seq<Seq<char>>, m: int, n: int)
    requires
        0 <= m <= n <= parts.len(),
        options_after(parts, m) is None,
    ensures
        options_after(parts, n) is None,
    decreases n - m,
{
    if m < n {
        lemma_options_fail_stays(parts, m, n - 1);
    }
}

/// The components that the words after the suite name.
fn read_components(parts: &Vec<&[char]>) -> (r: Vec<String>)
    requires
        parts@.len() >= 2,
    ensures
        texts(r@) == components_of(views(parts@)),
{
    let mut out: Vec<String> = Vec::new();
    if parts.len() == 2 {
        out.push("main".to_owned());
        assert(texts(out@) =~= seq!["main"@]);
        return out;
    }
    let mut i: usize = 2;
    assert(texts(out@) =~= components_of(views(parts@)).take(0));
    while i < parts.len()
        invariant
            2 <= i <= parts.len(),
            parts@.len() > 2,
            texts(out@) == components_of(views(parts@)).take(i - 2),
        decreases parts.len() - i,
    {
        let ghost before = texts(out@);
        let name = after_last_exec(parts[i], '/');
        out.push(string_of(name));
        assert(texts(out@) =~= before.push(name@));
        assert(components_of(views(parts@)).take(i - 1) =~= components_of(views(parts@)).take(
            i - 2,
        ).push(name@));
        i += 1;
    }
    assert(components_of(views(parts@)).take(parts@.len() - 2) =~= components_of(views(parts@)));
    out
}

/// The target that the words after the bracket name, under the options read.
fn read_words(source: bool, o: OptionsBuf, parts: &Vec<&[char]>) -> (r: Result<
    MirrorOpts,
    ConfigFault,
>)
    ensures
        match r {
            Ok(t) => target_of_words(source, o@, views(parts@)) == Ok::<MirrorTarget, ConfigFault>(
                t@,
            ),
            Err(f) => target_of_words(source, o@, views(parts@)) == Err::<
                MirrorTarget,
                ConfigFault,
            >(f),
        },
{
    if parts.len() < 1 {
        return Err(ConfigFault::NoUrl);
    }
    if parts.len() < 2 {
        return Err(ConfigFault::NoSuite);
    }
    let url = without_trailing_exec(parts[0], '/');
    let components = read_components(parts);
    let mut arch = o.arch;
    if arch.len() == 0 {
        arch.push("amd64".to_owned());
        assert(texts(arch@) =~= seq!["amd64"@]);
    }
    let t = MirrorOpts {
        url: string_of(url),
        suite: string_of(parts[1]),
        components,
        arch,
        debian_installer_arch: o.debian_installer_arch,
        source,
        packages: !source,
        pgp_pub_key: o.pgp_pub_key,
        pgp_verify: o.pgp_verify,
        udeb: o.udeb,
    };
    Ok(t)
}

/// The target that what follows `deb` or `deb-src` names.
fn read_rest(source: bool, rest: &[char]) -> (r: Result<MirrorOpts, ConfigFault>)
    ensures
        match r {
            Ok(t) => target_of_rest(source, rest@) == Ok::<MirrorTarget, ConfigFault>(t@),
            Err(f) => target_of_rest(source, rest@) == Err::<MirrorTarget, ConfigFault>(f),
        },
{
    let mut o = OptionsBuf {
        arch: Vec::new(),
        debian_installer_arch: Vec::new(),
        pgp_pub_key: None,
        pgp_verify: false,
        udeb: false,
    };
    assert(o@.arch =~= no_options().arch);
    assert(o@.debian_installer_arch =~= no_options().debian_installer_arch);
    let a = skip_blank_exec(rest, 0, Blank::Unicode);
    if a < rest.len() && rest[a] == '[' {
        let e = find_from_exec(rest, a + 1, ']');
        if e >= rest.len() {
            return Err(ConfigFault::UnclosedBracket);
        }
        let parts = split_words(slice_subrange(rest, a + 1, e), Blank::Unicode);
        if !read_options(&mut o, &parts) {
            return Err(ConfigFault::InvalidOption);
        }
        let tail = split_words(slice_subrange(rest, e + 1, rest.len()), Blank::Unicode);
        read_words(source, o, &tail)
    } else {
        let tail = split_words(rest, Blank::Unicode);
        read_words(source, o, &tail)
    }
}

impl MirrorOpts {
    /// Reads one line of the configuration.
    pub fn try_from(line: &str) -> (r: Result<MirrorOpts, MirsError>)
        ensures
            match r {
                Ok(t) => target_of(line@) == Ok::<MirrorTarget, ConfigFault>(t@),
                Err(e) => match target_of(line@) {
                    Err(f) => e matches MirsError::Config { msg } && msg@ == f.message(),
                    Ok(_) => false,
                },
            },
    {
        let chars = chars_of(line);
        match MirrorOpts::from_chars(chars.as_slice()) {
            Ok(t) => Ok(t),
            Err(f) => Err(f.into_error()),
        }
    }

    /// Reads one line of the configuration, given as characters.
    pub fn from_chars(line: &[char]) -> (r: Result<MirrorOpts, ConfigFault>)
        ensures
            match r {
                Ok(t) => target_of(line@) == Ok::<MirrorTarget, ConfigFault>(t@),
                Err(f) => target_of(line@) == Err::<MirrorTarget, ConfigFault>(f),
            },
    {
        proof {
            reveal_strlit("deb-src");
            reveal_strlit("deb");
        }
        match strip_prefix_exec(line, lit("deb-src").as_slice()) {
            Some(rest) => read_rest(true, rest),
            None => match strip_prefix_exec(line, lit("deb").as_slice()) {
                Some(rest) => read_rest(false, rest),
                None => Err(ConfigFault::BadStart),
            },
        }
    }

    /// Whether installer images are asked for.
    pub fn debian_installer(&self) -> (r: bool)
        ensures
            r == (self@.debian_installer_arch.len() > 0),
    {
        self.debian_installer_arch.len() > 0
    }

    /// Whether the repository is flat: its suite is `/`.
    pub fn flat(&self) -> (r: bool)
        ensures
            r == (self@.suite == seq!['/']),
    {
        let suite = chars_of(self.suite.as_str());
        let r = suite.len() == 1 && suite[0] == '/';
        proof {
            if r {
                assert(self@.suite =~= seq!['/']);
            }
        }
        r
    }

    /// Where the indices of the suite lie under the root: `dists/` and the
    /// suite, or nothing for a flat repository.
    pub fn dist_part(&self) -> (r: String)
        ensures
            r@ == dist_part_of(self@.suite),
    {
        if self.flat() {
            String::new()
        } else {
            let mut out = lit("dists/");
            let suite = chars_of(self.suite.as_str());
            crate::text::append_chars(&mut out, suite.as_slice());
            string_of(out.as_slice())
        }
    }
}

/// Where the indices of a suite lie under the root of its repository.
pub open spec fn dist_part_of(suite: Seq<char>) -> Seq<char> {
    if suite == seq!['/'] {
        Seq::empty()
    } else {
        "dists/"@ + suite
    }
}


/// The views of a list of targets.
pub open spec fn targets(v: Seq<MirrorOpts>) -> Seq<MirrorTarget> {
    v.map_values(|m: MirrorOpts| m@)
}

/// The order of targets: by URL, then by suite.
pub open spec fn target_lt(a: MirrorTarget, b: MirrorTarget) -> bool {
    text_lt(a.url, b.url) || (a.url == b.url && text_lt(a.suite, b.suite))
}

/// Whether two targets name the same slice: the same URL and suite.
pub open spec fn same_target(a: MirrorTarget, b: MirrorTarget) -> bool {
    a.url == b.url && a.suite == b.suite
}

/// `list` with the first `n` names of `extra` added, each unless it is there
/// already.
pub open spec fn union_after(list: Seq<Seq<char>>, extra: Seq<Seq<char>>, n: int) -> Seq<Seq<char>>
    decreases n,
{
    if n <= 0 || n > extra.len() {
        list
    } else {
        let before = union_after(list, extra, n - 1);
        if before.contains(extra[n - 1]) {
            before
        } else {
            before.push(extra[n - 1])
        }
    }
}

/// `list` with the names of `extra` added, each unless it is there already.
pub open spec fn union_of(list: Seq<Seq<char>>, extra: Seq<Seq<char>>) -> Seq<Seq<char>> {
    union_after(list, extra, extra.len() as int)
}

/// Two lines for one slice, as one target: the names united, the flags
/// or-ed, the later key file where it has one.
pub open spec fn merged(last: MirrorTarget, new: MirrorTarget) -> MirrorTarget {
    MirrorTarget {
        url: last.url,
        suite: last.suite,
        components: union_of(last.components, new.components),
        arch: union_of(last.arch, new.arch),
        debian_installer_arch: union_of(last.debian_installer_arch, new.debian_installer_arch),
        source: last.source || new.source,
        packages: last.packages || new.packages,
        pgp_pub_key: if new.pgp_pub_key is Some {
            new.pgp_pub_key
        } else {
            last.pgp_pub_key
        },
        pgp_verify: last.pgp_verify || new.pgp_verify,
        udeb: last.udeb || new.udeb,
    }
}

/// The first index at or after `i` whose target is not below `t`, or the
/// length.
pub open spec fn place_of(list: Seq<MirrorTarget>, t: MirrorTarget, i: int) -> int
    decreases list.len() - i,
{
    if 0 <= i < list.len() && target_lt(list[i], t) {
        place_of(list, t, i + 1)
    } else {
        i
    }
}

/// `list` with `t` taken in: merged into the target of the same slice, or
/// put before the first greater one.
pub open spec fn placed(list: Seq<MirrorTarget>, t: MirrorTarget) -> Seq<MirrorTarget> {
    let p = place_of(list, t, 0);
    if 0 <= p < list.len() && same_target(list[p], t) {
        list.update(p, merged(list[p], t))
    } else if 0 <= p <= list.len() {
        list.insert(p, t)
    } else {
        list
    }
}

/// The first `n` targets, merged by slice and in order of URL and suite.
pub open spec fn merge_after(all: Seq<MirrorTarget>, n: int) -> Seq<MirrorTarget>
    decreases n,
{
    if n <= 0 || n > all.len() {
        Seq::empty()
    } else {
        placed(merge_after(all, n - 1), all[n - 1])
    }
}

/// The targets merged by slice, in order of URL and suite.
pub open spec fn merge_all(all: Seq<MirrorTarget>) -> Seq<MirrorTarget> {
    merge_after(all, all.len() as int)
}

/// What a line of the configuration file says once its comment and the blanks
/// around it are taken off.
pub open spec fn config_line(raw: Seq<char>) -> Seq<char> {
    let t = trim(raw);
    t.subrange(0, find_from(t, 0, '#'))
}

/// Why a configuration file cannot be read.
pub enum ConfigReadFault {
    /// The line with the number, counted from 1, names no target.
    BadLine { number: int, fault: ConfigFault },
    /// No line names a target.
    NoTargets,
}

impl ConfigReadFault {
    pub open spec fn message(self) -> Seq<char> {
        match self {
            ConfigReadFault::BadLine { number, fault } => "failed parsing config on line "@
                + crate::number::decimal(number as nat) + ": "@ + fault.message(),
            ConfigReadFault::NoTargets => "no valid repositories in config"@,
        }
    }
}

/// The targets that the first `n` lines name. A line that is empty once its
/// comment is off names none and is passed over; the first line that is
/// malformed ends the reading.
pub open spec fn targets_after(all: Seq<Seq<char>>, n: int) -> Result<
    Seq<MirrorTarget>,
    ConfigReadFault,
>
    decreases n,
{
    if n <= 0 || n > all.len() {
        Ok(Seq::empty())
    } else {
        match targets_after(all, n - 1) {
            Err(e) => Err(e),
            Ok(before) => if config_line(all[n - 1]).len() == 0 {
                Ok(before)
            } else {
                match target_of(config_line(all[n - 1])) {
                    Ok(t) => Ok(before.push(t)),
                    Err(fault) => Err(ConfigReadFault::BadLine { number: n, fault }),
                }
            },
        }
    }
}

/// The targets that a configuration file asks for: those that its lines
/// name, merged by slice. A malformed line is an error, and so is a file
/// without any target.
pub open spec fn config_targets(content: Seq<char>) -> Result<Seq<MirrorTarget>, ConfigReadFault> {
    match targets_after(lines(content), lines(content).len() as int) {
        Err(e) => Err(e),
        Ok(found) => if merge_all(found).len() == 0 {
            Err(ConfigReadFault::NoTargets)
        } else {
            Ok(merge_all(found))
        },
    }
}

pub proof fn lemma_config_fault_stays(all: Seq<Seq<char>>, m: int, n: int)
    requires
        0 <= m <= n <= all.len(),
        targets_after(all, m) is Err,
    ensures
        targets_after(all, n) == targets_after(all, m),
    decreases n - m,
{
    if m < n {
        lemma_config_fault_stays(all, m, n - 1);
    }
}

fn target_lt_exec(a: &MirrorOpts, b: &MirrorOpts) -> (r: bool)
    ensures
        r == target_lt(a@, b@),
{
    let au = chars_of(a.url.as_str());
    let bu = chars_of(b.url.as_str());
    if text_lt_exec(au.as_slice(), bu.as_slice()) {
        return true;
    }
    if !text_eq(au.as_slice(), bu.as_slice()) {
        return false;
    }
    let a_suite = chars_of(a.suite.as_str());
    let b_suite = chars_of(b.suite.as_str());
    text_lt_exec(a_suite.as_slice(), b_suite.as_slice())
}

fn same_target_exec(a: &MirrorOpts, b: &MirrorOpts) -> (r: bool)
    ensures
        r == same_target(a@, b@),
{
    a.url == b.url && a.suite == b.suite
}

/// Adds the names of `extra` to `list`, each unless it is there already.
fn unite(list: &mut Vec<String>, extra: Vec<String>)
    ensures
        texts(final(list)@) == union_of(texts(old(list)@), texts(extra@)),
{
    let ghost all = texts(extra@);
    let mut rev = crate::lists::reversed(extra);
    assert(texts(rev@) =~= all.reverse());
    assert(all.reverse().take(rev@.len() as int) =~= all.reverse());
    let mut n: usize = 0;
    let count: usize = rev.len();
    let ghost total = count as nat;
    while rev.len() > 0
        invariant
            n + rev@.len() == total,
            total == all.len(),
            total <= usize::MAX,
            texts(rev@) == all.reverse().take(rev@.len() as int),
            texts(list@) == union_after(texts(old(list)@), all, n as int),
        decreases rev.len(),
    {
        let ghost r0 = texts(rev@);
        let ghost before = texts(list@);
        match rev.pop() {
            Some(s) => {
                assert(s@ == r0.last());
                assert(r0.last() == all[n as int]);
                assert(texts(rev@) =~= r0.drop_last());
                let item = chars_of(s.as_str());
                if !list_contains(list, item.as_slice()) {
                    list.push(s);
                    assert(texts(list@) =~= before.push(all[n as int]));
                }
                n += 1;
            },
            None => {},
        }
    }
}

/// Merges `new` into `last`, a target of the same slice.
fn merge_into(last: MirrorOpts, new: MirrorOpts) -> (r: MirrorOpts)
    ensures
        r@ == merged(last@, new@),
{
    let mut last = last;
    unite(&mut last.components, new.components);
    unite(&mut last.arch, new.arch);
    unite(&mut last.debian_installer_arch, new.debian_installer_arch);
    last.udeb = last.udeb || new.udeb;
    last.packages = last.packages || new.packages;
    last.source = last.source || new.source;
    last.pgp_verify = last.pgp_verify || new.pgp_verify;
    match new.pgp_pub_key {
        Some(key) => {
            last.pgp_pub_key = Some(key);
        },
        None => {},
    }
    last
}

/// Takes `t` into a merged list.
fn place(list: &mut Vec<MirrorOpts>, t: MirrorOpts)
    ensures
        targets(final(list)@) == placed(targets(old(list)@), t@),
{
    let mut p: usize = 0;
    while p < list.len() && target_lt_exec(&list[p], &t)
        invariant
            p <= list.len(),
            place_of(targets(list@), t@, 0) == place_of(targets(list@), t@, p as int),
        decreases list.len() - p,
    {
        p += 1;
    }
    if p < list.len() && same_target_exec(&list[p], &t) {
        let last = list.remove(p);
        let both = merge_into(last, t);
        list.insert(p, both);
        assert(targets(list@) =~= targets(old(list)@).update(
            p as int,
            merged(targets(old(list)@)[p as int], t@),
        ));
    } else {
        list.insert(p, t);
        assert(targets(list@) =~= targets(old(list)@).insert(p as int, t@));
    }
}

/// Merges the targets that name one slice, and puts the rest in order of URL
/// and suite.
pub fn merge_similar(mirrors: Vec<MirrorOpts>) -> (r: Vec<MirrorOpts>)
    ensures
        targets(r@) == merge_all(targets(mirrors@)),
        targets_ascending(targets(r@)),
{
    proof {
        law_merged_targets_ascending(targets(mirrors@), mirrors@.len() as int);
    }
    let ghost all = targets(mirrors@);
    let mut rev = crate::lists::reversed(mirrors);
    assert(targets(rev@) =~= all.reverse());
    assert(all.reverse().take(rev@.len() as int) =~= all.reverse());
    let mut out: Vec<MirrorOpts> = Vec::new();
    let mut n: usize = 0;
    let count: usize = rev.len();
    let ghost total = count as nat;
    assert(targets(out@) =~= merge_after(all, 0));
    while rev.len() > 0
        invariant
            n + rev@.len() == total,
            total == all.len(),
            total <= usize::MAX,
            targets(rev@) == all.reverse().take(rev@.len() as int),
            targets(out@) == merge_after(all, n as int),
        decreases rev.len(),
    {
        let ghost r0 = targets(rev@);
        match rev.pop() {
            Some(t) => {
                assert(t@ == r0.last());
                assert(r0.last() == all[n as int]);
                assert(targets(rev@) =~= r0.drop_last());
                place(&mut out, t);
                n += 1;
            },
            None => {},
        }
    }
    out
}

/// Reads a configuration file: one target per line, `#` starts a comment,
/// and lines for one slice are merged. A malformed line is an error that
/// names the line, and a file without any target is an error.
pub fn read_config(content: &str) -> (r: Result<Vec<MirrorOpts>, MirsError>)
    ensures
        match r {
            Ok(v) => config_targets(content@) == Ok::<Seq<MirrorTarget>, ConfigReadFault>(
                targets(v@),
            ) && v@.len() > 0,
            Err(e) => config_targets(content@) matches Err(f) && (
            e matches MirsError::Config { msg } && msg@ == f.message()),
        },
{
    let chars = chars_of(content);
    let all = split_lines(chars.as_slice());
    let mut found: Vec<MirrorOpts> = Vec::new();
    let mut i: usize = 0;
    assert(targets(found@) =~= Seq::<MirrorTarget>::empty());
    while i < all.len()
        invariant
            i <= all.len(),
            views(all@) == lines(content@),
            targets_after(views(all@), i as int) == Ok::<Seq<MirrorTarget>, ConfigReadFault>(
                targets(found@),
            ),
        decreases all.len() - i,
    {
        let t = trim_exec(all[i]);
        let cut = find_from_exec(t, 0, '#');
        let line = slice_subrange(t, 0, cut);
        assert(line@ == config_line(views(all@)[i as int]));
        if line.len() > 0 {
            let ghost before = targets(found@);
            match MirrorOpts::from_chars(line) {
                Ok(opts) => {
                    found.push(opts);
                    assert(targets(found@) =~= before.push(opts@));
                },
                Err(fault) => {
                    proof {
                        lemma_config_fault_stays(views(all@), i + 1, all@.len() as int);
                    }
                    let mut msg = lit("failed parsing config on line ");
                    let number: u64 = (i + 1) as u64;
                    crate::text::append_chars(
                        &mut msg,
                        crate::number::decimal_exec(number).as_slice(),
                    );
                    crate::text::append_chars(&mut msg, lit(": ").as_slice());
                    crate::text::append_chars(&mut msg, lit(fault.text()).as_slice());
                    return Err(MirsError::Config { msg: string_of(msg.as_slice()) });
                },
            }
        }
        i += 1;
    }
    let merged = merge_similar(found);
    if merged.len() == 0 {
        return Err(MirsError::Config { msg: "no valid repositories in config".to_owned() });
    }
    Ok(merged)
}

/// What a target mirrors: binary packages, sources, or both.
pub open spec fn kind_word(t: MirrorTarget) -> Seq<char> {
    if t.packages && t.source {
        "deb+deb-src"@
    } else if t.packages {
        "deb"@
    } else if t.source {
        "deb-src"@
    } else {
        Seq::empty()
    }
}

/// How a target is shown: what it mirrors and from where, then either that
/// it is flat, or its suite with the architectures in brackets and its
/// components.
pub open spec fn description_of(t: MirrorTarget) -> Seq<char> {
    if t.suite == seq!['/'] {
        kind_word(t) + " "@ + t.url + " (flat)"@
    } else {
        kind_word(t) + " "@ + t.url + " "@ + t.suite + "["@ + crate::text::joined(t.arch, ", "@)
            + "] "@ + crate::text::joined(t.components, " "@)
    }
}

impl MirrorOpts {
    /// How the target is shown.
    pub fn describe(&self) -> (r: String)
        ensures
            r@ == description_of(self@),
    {
        let mut out: Vec<char> = if self.packages && self.source {
            lit("deb+deb-src")
        } else if self.packages {
            lit("deb")
        } else if self.source {
            lit("deb-src")
        } else {
            Vec::new()
        };
        crate::text::append_chars(&mut out, lit(" ").as_slice());
        crate::text::append_chars(&mut out, chars_of(self.url.as_str()).as_slice());
        if self.flat() {
            crate::text::append_chars(&mut out, lit(" (flat)").as_slice());
        } else {
            crate::text::append_chars(&mut out, lit(" ").as_slice());
            crate::text::append_chars(&mut out, chars_of(self.suite.as_str()).as_slice());
            crate::text::append_chars(&mut out, lit("[").as_slice());
            crate::text::append_chars(
                &mut out,
                crate::text::join_strings(&self.arch, ", ").as_slice(),
            );
            crate::text::append_chars(&mut out, lit("] ").as_slice());
            crate::text::append_chars(
                &mut out,
                crate::text::join_strings(&self.components, " ").as_slice(),
            );
        }
        string_of(out.as_slice())
    }
}

/// Whether the targets stand in ascending order of URL and suite; then no
/// two of them name the same slice.
pub open spec fn targets_ascending(list: Seq<MirrorTarget>) -> bool {
    forall|i: int, j: int| 0 <= i < j < list.len() ==> target_lt(#[trigger] list[i], #[trigger] list[j])
}

pub proof fn lemma_target_lt_transitive(a: MirrorTarget, b: MirrorTarget, c: MirrorTarget)
    requires
        target_lt(a, b),
        target_lt(b, c),
    ensures
        target_lt(a, c),
{
    if text_lt(a.url, b.url) && text_lt(b.url, c.url) {
        crate::textmap::lemma_text_lt_transitive(a.url, b.url, c.url);
    } else if a.url == b.url && b.url == c.url {
        crate::textmap::lemma_text_lt_transitive(a.suite, b.suite, c.suite);
    }
}

pub proof fn lemma_target_lt_total(a: MirrorTarget, b: MirrorTarget)
    ensures
        target_lt(a, b) || same_target(a, b) || target_lt(b, a),
        !(target_lt(a, b) && same_target(a, b)),
{
    crate::textmap::lemma_text_lt_total(a.url, b.url);
    crate::textmap::lemma_text_lt_total(a.suite, b.suite);
    crate::textmap::lemma_text_lt_irreflexive(a.url);
    crate::textmap::lemma_text_lt_irreflexive(a.suite);
}

pub proof fn lemma_place_of(list: Seq<MirrorTarget>, t: MirrorTarget, i: int)
    requires
        0 <= i <= list.len(),
    ensures
        i <= place_of(list, t, i) <= list.len(),
        place_of(list, t, i) < list.len() ==> !target_lt(list[place_of(list, t, i)], t),
        forall|j: int| i <= j < place_of(list, t, i) ==> target_lt(#[trigger] list[j], t),
    decreases list.len() - i,
{
    if i < list.len() && target_lt(list[i], t) {
        lemma_place_of(list, t, i + 1);
    }
}

/// An ordered list of targets keeps its order when a target is taken in.
pub proof fn lemma_placed_ascending(list: Seq<MirrorTarget>, t: MirrorTarget)
    requires
        targets_ascending(list),
    ensures
        targets_ascending(placed(list, t)),
{
    lemma_place_of(list, t, 0);
    let p = place_of(list, t, 0);
    let r = placed(list, t);
    assert forall|i: int, j: int| 0 <= i < j < r.len() implies target_lt(
        #[trigger] r[i],
        #[trigger] r[j],
    ) by {
        if p < list.len() && same_target(list[p], t) {
            assert(target_lt(list[i], list[j]));
            assert(r[i].url == list[i].url && r[i].suite == list[i].suite);
            assert(r[j].url == list[j].url && r[j].suite == list[j].suite);
        } else {
            if j < p {
                assert(r[i] == list[i] && r[j] == list[j]);
            } else if j == p {
                assert(r[i] == list[i]);
            } else if i == p {
                assert(r[j] == list[j - 1]);
                lemma_target_lt_total(list[p], t);
                if j - 1 > p {
                    assert(target_lt(list[p], list[j - 1]));
                    lemma_target_lt_transitive(t, list[p], list[j - 1]);
                }
            } else if i < p {
                assert(r[i] == list[i] && r[j] == list[j - 1]);
            } else {
                assert(r[i] == list[i - 1] && r[j] == list[j - 1]);
            }
        }
    }
}

/// The merged targets stand in ascending order of URL and suite: each slice
/// has one target.
pub proof fn law_merged_targets_ascending(all: Seq<MirrorTarget>, n: int)
    requires
        0 <= n <= all.len(),
    ensures
        targets_ascending(merge_after(all, n)),
    decreases n,
{
    if n > 0 {
        law_merged_targets_ascending(all, n - 1);
        lemma_placed_ascending(merge_after(all, n - 1), all[n - 1]);
    }
}

/// What the first `n` targets say of the slice of `key`: the first of them
/// that names it, with each later one merged in; `None` where none names it.
pub open spec fn gathered(all: Seq<MirrorTarget>, n: int, key: MirrorTarget) -> Option<MirrorTarget>
    decreases n,
{
    if n <= 0 || n > all.len() {
        None
    } else if same_target(all[n - 1], key) {
        match gathered(all, n - 1, key) {
            None => Some(all[n - 1]),
            Some(t) => Some(merged(t, all[n - 1])),
        }
    } else {
        gathered(all, n - 1, key)
    }
}

/// A slice is gathered where one of the targets names it, and what is
/// gathered names that slice.
pub proof fn lemma_gathered(all: Seq<MirrorTarget>, n: int, key: MirrorTarget)
    requires
        0 <= n <= all.len(),
    ensures
        gathered(all, n, key) is Some <==> exists|j: int|
            0 <= j < n && same_target(#[trigger] all[j], key),
        gathered(all, n, key) matches Some(t) ==> same_target(t, key),
    decreases n,
{
    if n > 0 {
        lemma_gathered(all, n - 1, key);
        if same_target(all[n - 1], key) {
            assert(0 <= n - 1 < n && same_target(all[n - 1], key));
        } else if gathered(all, n - 1, key) is Some {
            let j = choose|j: int| 0 <= j < n - 1 && same_target(#[trigger] all[j], key);
            assert(0 <= j < n && same_target(all[j], key));
        }
    }
}

/// The names of a union are those of the two lists; the names of the first
/// list keep their places, and no name comes to stand twice.
pub proof fn law_union_holds_both(list: Seq<Seq<char>>, extra: Seq<Seq<char>>, n: int)
    requires
        0 <= n <= extra.len(),
    ensures
        forall|x: Seq<char>| #[trigger]
            union_after(list, extra, n).contains(x) <==> list.contains(x) || extra.take(
                n,
            ).contains(x),
        list.len() <= union_after(list, extra, n).len(),
        union_after(list, extra, n).take(list.len() as int) == list,
        list.no_duplicates() ==> union_after(list, extra, n).no_duplicates(),
    decreases n,
{
    if n > 0 {
        law_union_holds_both(list, extra, n - 1);
        let before = union_after(list, extra, n - 1);
        let after = union_after(list, extra, n);
        let last = extra[n - 1];
        let shorter = extra.take(n - 1);
        let longer = extra.take(n);
        assert(longer =~= shorter.push(last));
        assert forall|x: Seq<char>| #[trigger]
            after.contains(x) <==> list.contains(x) || longer.contains(x) by {
            if longer.contains(x) {
                let k = choose|k: int| 0 <= k < longer.len() && longer[k] == x;
                if k < shorter.len() {
                    assert(shorter[k] == x);
                }
            }
            if shorter.contains(x) {
                let k = choose|k: int| 0 <= k < shorter.len() && shorter[k] == x;
                assert(longer[k] == x);
            }
            assert(longer[shorter.len() as int] == last);
            if !before.contains(last) {
                if before.contains(x) {
                    let k = choose|k: int| 0 <= k < before.len() && before[k] == x;
                    assert(after[k] == x);
                }
                assert(after[before.len() as int] == last);
                if after.contains(x) {
                    let k = choose|k: int| 0 <= k < after.len() && after[k] == x;
                    if k < before.len() {
                        assert(before[k] == x);
                    }
                }
            }
        }
        assert(after.take(list.len() as int) =~= before.take(list.len() as int));
        if list.no_duplicates() && !before.contains(last) {
            assert forall|a: int, b: int| 0 <= a < after.len() && 0 <= b < after.len() && a != b implies after[a]
                != after[b] by {
                if a < before.len() && b < before.len() {
                    assert(before[a] != before[b]);
                } else if a < before.len() {
                    assert(before[a] == after[a]);
                } else {
                    assert(before[b] == after[b]);
                }
            }
        }
    } else {
        assert(extra.take(0) =~= Seq::<Seq<char>>::empty());
    }
}

/// Among targets in ascending order none names the slice of a target that
/// has its place between two of them.
proof fn lemma_no_other_place(list: Seq<MirrorTarget>, t: MirrorTarget)
    requires
        targets_ascending(list),
    ensures
        forall|i: int|
            0 <= i < list.len() && i != place_of(list, t, 0) ==> !same_target(#[trigger] list[i], t),
{
    lemma_place_of(list, t, 0);
    let p = place_of(list, t, 0);
    assert forall|i: int| 0 <= i < list.len() && i != p implies !same_target(
        #[trigger] list[i],
        t,
    ) by {
        lemma_target_lt_total(list[i], t);
        if i > p {
            lemma_target_lt_total(list[p], t);
            assert(target_lt(list[p], list[i]));
            if same_target(list[i], t) {
                lemma_target_lt_total(list[p], list[i]);
            }
        }
    }
}

/// The merged targets hold a target for a slice exactly where the input
/// names the slice, and that target is what the input's targets of the
/// slice give when they are merged one after the other: the names united in
/// the order in which they were first seen, the flags or-ed.
pub proof fn law_merged_targets_gather(all: Seq<MirrorTarget>, n: int, key: MirrorTarget)
    requires
        0 <= n <= all.len(),
    ensures
        match gathered(all, n, key) {
            None => forall|i: int|
                0 <= i < merge_after(all, n).len() ==> !same_target(
                    #[trigger] merge_after(all, n)[i],
                    key,
                ),
            Some(t) => exists|i: int|
                0 <= i < merge_after(all, n).len() && #[trigger] merge_after(all, n)[i] == t,
        },
    decreases n,
{
    if n > 0 {
        law_merged_targets_gather(all, n - 1, key);
        law_merged_targets_ascending(all, n - 1);
        lemma_gathered(all, n - 1, key);
        let list = merge_after(all, n - 1);
        let t = all[n - 1];
        let after = placed(list, t);
        let p = place_of(list, t, 0);
        lemma_place_of(list, t, 0);
        lemma_no_other_place(list, t);
        assert(after == merge_after(all, n));
        let taken = p < list.len() && same_target(list[p], t);
        match gathered(all, n - 1, key) {
            None => {
                if same_target(t, key) {
                    if taken {
                        assert(same_target(list[p], key));
                    }
                    assert(after[p] == t);
                } else {
                    assert forall|i: int| 0 <= i < after.len() implies !same_target(
                        #[trigger] after[i],
                        key,
                    ) by {
                        if taken {
                            assert(same_target(after[i], list[i]));
                        } else if i < p {
                            assert(after[i] == list[i]);
                        } else if i > p {
                            assert(after[i] == list[i - 1]);
                        }
                    }
                }
            },
            Some(g) => {
                let i = choose|i: int| 0 <= i < list.len() && #[trigger] list[i] == g;
                if same_target(t, key) {
                    assert(same_target(list[i], t));
                    assert(i == p);
                    assert(after[p] == merged(g, t));
                } else {
                    if taken {
                        assert(i != p);
                        assert(after[i] == g);
                    } else if i < p {
                        assert(after[i] == g);
                    } else {
                        assert(after[i + 1] == g);
                    }
                }
            },
        }
    }
}

} // verus!
