//! Which files of a manifest a target asks for.

use crate::config::MirrorOpts;
use crate::config::MirrorTarget;
use crate::text::char_lists;
use crate::text::chars_contains;
use crate::text::chars_of;
use crate::text::concat3;
use crate::text::extend_lists;
use crate::text::has_prefix_in;
use crate::text::has_prefix_in_exec;
use crate::text::lit;
use crate::text::split_words;
use crate::text::texts;
use crate::text::views;
use crate::text::words;
use crate::text::Blank;
use vstd::prelude::*;

verus! {

/// A filter as plain values: the prefixes of wanted file names, the names of
/// wanted directories, and the wanted components.
pub struct FilterModel {
    pub prefixes: Seq<Seq<char>>,
    pub dirs: Seq<Seq<char>>,
    pub components: Seq<Seq<char>>,
}

/// The file name prefixes that the first `n` architectures add.
pub open spec fn arch_prefixes(arch: Seq<Seq<char>>, udeb: bool, n: int) -> Seq<Seq<char>>
    decreases n,
{
    if n <= 0 || n > arch.len() {
        Seq::empty()
    } else {
        let a = arch[n - 1];
        arch_prefixes(arch, udeb, n - 1) + seq![
            "Components-"@ + a,
            "Contents-"@ + a,
            "Commands-"@ + a,
        ] + if udeb {
            seq!["Contents-udeb-"@ + a]
        } else {
            Seq::empty()
        }
    }
}

/// The directories that the first `n` architectures add.
pub open spec fn arch_dirs(arch: Seq<Seq<char>>, n: int) -> Seq<Seq<char>>
    decreases n,
{
    if n <= 0 || n > arch.len() {
        Seq::empty()
    } else {
        let a = arch[n - 1];
        arch_dirs(arch, n - 1) + seq!["binary-"@ + a, "Contents-"@ + a + ".diff"@]
    }
}

/// The directories that the first `n` installer architectures add.
pub open spec fn installer_dirs(arch: Seq<Seq<char>>, n: int) -> Seq<Seq<char>>
    decreases n,
{
    if n <= 0 || n > arch.len() {
        Seq::empty()
    } else {
        installer_dirs(arch, n - 1) + seq!["installer-"@ + arch[n - 1]]
    }
}

/// The file name prefixes that binary packages add.
pub open spec fn package_prefixes(t: MirrorTarget) -> Seq<Seq<char>> {
    seq![
        "Contents-all"@,
        "Components-all"@,
        "Commands-all"@,
        "Packages"@,
        "icons"@,
        "Translation"@,
        "Index"@,
    ] + (if t.udeb {
        seq!["Contents-udeb-all"@]
    } else {
        Seq::empty()
    }) + arch_prefixes(t.arch, t.udeb, t.arch.len() as int) + (if t.debian_installer_arch.len()
        > 0 {
        seq!["MD5SUMS"@, "SHA256SUMS"@, "SHA512SUMS"@]
    } else {
        Seq::empty()
    })
}

/// The directories that binary packages add.
pub open spec fn package_dirs(t: MirrorTarget) -> Seq<Seq<char>> {
    seq![
        "dep11"@,
        "i18n"@,
        "binary-all"@,
        "cnf"@,
        "Contents-all.diff"@,
        "Packages.diff"@,
    ] + (if t.udeb {
        seq!["debian-installer"@]
    } else {
        Seq::empty()
    }) + arch_dirs(t.arch, t.arch.len() as int) + (if t.debian_installer_arch.len() > 0 {
        seq!["current"@, "images"@] + installer_dirs(
            t.debian_installer_arch,
            t.debian_installer_arch.len() as int,
        )
    } else {
        Seq::empty()
    })
}

/// The filter that a target asks for.
pub open spec fn filter_of(t: MirrorTarget) -> FilterModel {
    FilterModel {
        prefixes: seq!["Release"@] + (if t.source {
            seq!["Sources"@]
        } else {
            Seq::empty()
        }) + (if t.packages {
            package_prefixes(t)
        } else {
            Seq::empty()
        }),
        dirs: (if t.source {
            seq!["source"@]
        } else {
            Seq::empty()
        }) + (if t.packages {
            package_dirs(t)
        } else {
            Seq::empty()
        }),
        components: t.components,
    }
}

pub open spec fn is_dot(w: Seq<char>) -> bool {
    w == seq!['.']
}

pub open spec fn is_dotdot(w: Seq<char>) -> bool {
    w == seq!['.', '.']
}

/// The first index at or after `i` whose part is not `.`, or the length.
pub open spec fn next_real(w: Seq<Seq<char>>, i: int) -> int
    decreases w.len() - i,
{
    if 0 <= i < w.len() && is_dot(w[i]) {
        next_real(w, i + 1)
    } else {
        i
    }
}

pub proof fn lemma_next_real(w: Seq<Seq<char>>, i: int)
    requires
        0 <= i <= w.len(),
    ensures
        i <= next_real(w, i) <= w.len(),
    decreases w.len() - i,
{
    if i < w.len() && is_dot(w[i]) {
        lemma_next_real(w, i + 1);
    }
}

/// Whether the parts of a path from `i` on are wanted directories that end
/// in a wanted file name. Parts that are `.` do not count, and `..` is never
/// wanted.
pub open spec fn tail_accepted(f: FilterModel, w: Seq<Seq<char>>, i: int) -> bool
    decreases w.len() - i,
{
    let k = next_real(w, i);
    let n = next_real(w, k + 1);
    if i < 0 || k < i || k >= w.len() || n <= k || n > w.len() {
        false
    } else if n >= w.len() {
        !is_dotdot(w[k]) && has_prefix_in(w[k], f.prefixes)
    } else {
        !is_dotdot(w[k]) && f.dirs.contains(w[k]) && tail_accepted(f, w, n)
    }
}

/// Whether the filter wants the file at `path`, a path of the manifest.
///
/// A path of one part is wanted where its name starts with a wanted prefix:
/// that is a file at the root of a flat repository. A longer path is wanted
/// where its first part is a wanted component, every directory after it is
/// a wanted directory, and its file name starts with a wanted prefix. A path
/// that starts with `/`, `.` or `..` is not wanted.
pub open spec fn accepts(f: FilterModel, path: Seq<char>) -> bool {
    let w = words(path, Blank::Slash);
    if path.len() == 0 || path[0] == '/' || w.len() == 0 || is_dot(w[0]) || is_dotdot(w[0]) {
        false
    } else {
        let n = next_real(w, 1);
        if n >= w.len() {
            has_prefix_in(w[0], f.prefixes)
        } else {
            f.components.contains(w[0]) && tail_accepted(f, w, n)
        }
    }
}

/// Which files of a manifest a target asks for.
pub struct ReleaseFileFilter {
    file_prefix_filter: Vec<Vec<char>>,
    dir_filter: Vec<Vec<char>>,
    components: Vec<Vec<char>>,
}

impl View for ReleaseFileFilter {
    type V = FilterModel;

    closed spec fn view(&self) -> FilterModel {
        FilterModel {
            prefixes: char_lists(self.file_prefix_filter@),
            dirs: char_lists(self.dir_filter@),
            components: char_lists(self.components@),
        }
    }
}

fn is_dot_exec(w: &[char]) -> (r: bool)
    ensures
        r == is_dot(w@),
{
    let r = w.len() == 1 && w[0] == '.';
    proof {
        if r {
            assert(w@ =~= seq!['.']);
        }
    }
    r
}

fn is_dotdot_exec(w: &[char]) -> (r: bool)
    ensures
        r == is_dotdot(w@),
{
    let r = w.len() == 2 && w[0] == '.' && w[1] == '.';
    proof {
        if r {
            assert(w@ =~= seq!['.', '.']);
        }
    }
    r
}

fn next_real_exec(w: &Vec<&[char]>, i: usize) -> (r: usize)
    requires
        i <= w@.len(),
    ensures
        r == next_real(views(w@), i as int),
        i <= r <= w@.len(),
{
    let mut j: usize = i;
    while j < w.len() && is_dot_exec(w[j])
        invariant
            i <= j <= w@.len(),
            next_real(views(w@), i as int) == next_real(views(w@), j as int),
        decreases w.len() - j,
    {
        j += 1;
    }
    j
}

/// One list of one name.
fn one(name: &str) -> (r: Vec<Vec<char>>)
    ensures
        char_lists(r@) == seq![name@],
{
    let mut out: Vec<Vec<char>> = Vec::new();
    out.push(lit(name));
    assert(char_lists(out@) =~= seq![name@]);
    out
}

/// `head`, `a` and `tail` in a row, as the last name of `list`.
fn push_name(list: &mut Vec<Vec<char>>, head: &str, a: &[char], tail: &str)
    ensures
        char_lists(final(list)@) == char_lists(old(list)@).push(head@ + a@ + tail@),
{
    let h = lit(head);
    let t = lit(tail);
    list.push(concat3(h.as_slice(), a, t.as_slice()));
    assert(char_lists(list@) =~= char_lists(old(list)@).push(head@ + a@ + tail@));
}

fn push_lit(list: &mut Vec<Vec<char>>, name: &str)
    ensures
        char_lists(final(list)@) == char_lists(old(list)@).push(name@),
{
    list.push(lit(name));
    assert(char_lists(list@) =~= char_lists(old(list)@).push(name@));
}

fn arch_prefixes_exec(arch: &Vec<String>, udeb: bool) -> (r: Vec<Vec<char>>)
    ensures
        char_lists(r@) == arch_prefixes(texts(arch@), udeb, arch@.len() as int),
{
    let mut out: Vec<Vec<char>> = Vec::new();
    let mut i: usize = 0;
    assert(char_lists(out@) =~= Seq::<Seq<char>>::empty());
    while i < arch.len()
        invariant
            i <= arch.len(),
            char_lists(out@) == arch_prefixes(texts(arch@), udeb, i as int),
        decreases arch.len() - i,
    {
        let a = chars_of(arch[i].as_str());
        let ghost before = char_lists(out@);
        push_name(&mut out, "Components-", a.as_slice(), "");
        push_name(&mut out, "Contents-", a.as_slice(), "");
        push_name(&mut out, "Commands-", a.as_slice(), "");
        if udeb {
            push_name(&mut out, "Contents-udeb-", a.as_slice(), "");
        }
        proof {
            reveal_strlit("");
            assert("Components-"@ + a@ + ""@ =~= "Components-"@ + a@);
            assert("Contents-"@ + a@ + ""@ =~= "Contents-"@ + a@);
            assert("Commands-"@ + a@ + ""@ =~= "Commands-"@ + a@);
            assert("Contents-udeb-"@ + a@ + ""@ =~= "Contents-udeb-"@ + a@);
            assert(char_lists(out@) =~= arch_prefixes(texts(arch@), udeb, i + 1));
        }
        i += 1;
    }
    out
}

fn arch_dirs_exec(arch: &Vec<String>) -> (r: Vec<Vec<char>>)
    ensures
        char_lists(r@) == arch_dirs(texts(arch@), arch@.len() as int),
{
    let mut out: Vec<Vec<char>> = Vec::new();
    let mut i: usize = 0;
    assert(char_lists(out@) =~= Seq::<Seq<char>>::empty());
    while i < arch.len()
        invariant
            i <= arch.len(),
            char_lists(out@) == arch_dirs(texts(arch@), i as int),
        decreases arch.len() - i,
    {
        let a = chars_of(arch[i].as_str());
        push_name(&mut out, "binary-", a.as_slice(), "");
        push_name(&mut out, "Contents-", a.as_slice(), ".diff");
        proof {
            reveal_strlit("");
            assert("binary-"@ + a@ + ""@ =~= "binary-"@ + a@);
            assert(char_lists(out@) =~= arch_dirs(texts(arch@), i + 1));
        }
        i += 1;
    }
    out
}

fn installer_dirs_exec(arch: &Vec<String>) -> (r: Vec<Vec<char>>)
    ensures
        char_lists(r@) == installer_dirs(texts(arch@), arch@.len() as int),
{
    let mut out: Vec<Vec<char>> = Vec::new();
    let mut i: usize = 0;
    assert(char_lists(out@) =~= Seq::<Seq<char>>::empty());
    while i < arch.len()
        invariant
            i <= arch.len(),
            char_lists(out@) == installer_dirs(texts(arch@), i as int),
        decreases arch.len() - i,
    {
        let a = chars_of(arch[i].as_str());
        push_name(&mut out, "installer-", a.as_slice(), "");
        proof {
            reveal_strlit("");
            assert("installer-"@ + a@ + ""@ =~= "installer-"@ + a@);
            assert(char_lists(out@) =~= installer_dirs(texts(arch@), i + 1));
        }
        i += 1;
    }
    out
}

fn package_prefixes_exec(opts: &MirrorOpts) -> (r: Vec<Vec<char>>)
    ensures
        char_lists(r@) == package_prefixes(opts@),
{
    let mut out = one("Contents-all");
    push_lit(&mut out, "Components-all");
    push_lit(&mut out, "Commands-all");
    push_lit(&mut out, "Packages");
    push_lit(&mut out, "icons");
    push_lit(&mut out, "Translation");
    push_lit(&mut out, "Index");
    if opts.udeb {
        push_lit(&mut out, "Contents-udeb-all");
    }
    extend_lists(&mut out, arch_prefixes_exec(&opts.arch, opts.udeb));
    if opts.debian_installer_arch.len() > 0 {
        push_lit(&mut out, "MD5SUMS");
        push_lit(&mut out, "SHA256SUMS");
        push_lit(&mut out, "SHA512SUMS");
    }
    assert(char_lists(out@) =~= package_prefixes(opts@));
    out
}

fn package_dirs_exec(opts: &MirrorOpts) -> (r: Vec<Vec<char>>)
    ensures
        char_lists(r@) == package_dirs(opts@),
{
    let mut out = one("dep11");
    push_lit(&mut out, "i18n");
    push_lit(&mut out, "binary-all");
    push_lit(&mut out, "cnf");
    push_lit(&mut out, "Contents-all.diff");
    push_lit(&mut out, "Packages.diff");
    if opts.udeb {
        push_lit(&mut out, "debian-installer");
    }
    extend_lists(&mut out, arch_dirs_exec(&opts.arch));
    if opts.debian_installer_arch.len() > 0 {
        push_lit(&mut out, "current");
        push_lit(&mut out, "images");
        extend_lists(&mut out, installer_dirs_exec(&opts.debian_installer_arch));
    }
    assert(char_lists(out@) =~= package_dirs(opts@));
    out
}

fn components_exec(list: &Vec<String>) -> (r: Vec<Vec<char>>)
    ensures
        char_lists(r@) == texts(list@),
{
    let mut out: Vec<Vec<char>> = Vec::new();
    let mut i: usize = 0;
    assert(char_lists(out@) =~= texts(list@).take(0));
    while i < list.len()
        invariant
            i <= list.len(),
            char_lists(out@) == texts(list@).take(i as int),
        decreases list.len() - i,
    {
        let ghost before = char_lists(out@);
        let item = chars_of(list[i].as_str());
        out.push(item);
        assert(char_lists(out@) =~= before.push(item@));
        assert(texts(list@).take(i + 1) =~= texts(list@).take(i as int).push(item@));
        i += 1;
    }
    assert(texts(list@).take(list@.len() as int) =~= texts(list@));
    out
}

impl ReleaseFileFilter {
    /// The filter that `opts` asks for.
    pub fn new(opts: &MirrorOpts) -> (r: Self)
        ensures
            r@ == filter_of(opts@),
    {
        let mut file_prefix_filter = one("Release");
        let mut dir_filter: Vec<Vec<char>> = Vec::new();
        if opts.source {
            push_lit(&mut file_prefix_filter, "Sources");
            push_lit(&mut dir_filter, "source");
        }
        if opts.packages {
            extend_lists(&mut file_prefix_filter, package_prefixes_exec(opts));
            extend_lists(&mut dir_filter, package_dirs_exec(opts));
        }
        let components = components_exec(&opts.components);
        let r = Self { file_prefix_filter, dir_filter, components };
        assert(r@.prefixes =~= filter_of(opts@).prefixes);
        assert(r@.dirs =~= filter_of(opts@).dirs);
        r
    }

    /// Whether the filter wants the file at `path`.
    pub fn accept(&self, path: &str) -> (r: bool)
        ensures
            r == accepts(self@, path@),
    {
        let chars = chars_of(path);
        self.accept_chars(chars.as_slice())
    }

    /// Whether the filter wants the file at `path`, given as characters.
    pub fn accept_chars(&self, path: &[char]) -> (r: bool)
        ensures
            r == accepts(self@, path@),
    {
        if path.len() == 0 || path[0] == '/' {
            return false;
        }
        let w = split_words(path, Blank::Slash);
        if w.len() == 0 || is_dot_exec(w[0]) || is_dotdot_exec(w[0]) {
            return false;
        }
        let mut k = next_real_exec(&w, 1);
        proof {
            lemma_next_real_fixed(views(w@), 1);
        }
        if k >= w.len() {
            return has_prefix_in_exec(w[0], &self.file_prefix_filter);
        }
        if !chars_contains(&self.components, w[0]) {
            return false;
        }
        loop
            invariant
                1 <= k < w@.len(),
                k == next_real(views(w@), k as int),
                accepts(self@, path@) == tail_accepted(self@, views(w@), k as int),
            decreases w@.len() - k,
        {
            if is_dotdot_exec(w[k]) {
                return false;
            }
            let n = next_real_exec(&w, k + 1);
            if n >= w.len() {
                return has_prefix_in_exec(w[k], &self.file_prefix_filter);
            }
            if !chars_contains(&self.dir_filter, w[k]) {
                return false;
            }
            proof {
                assert(next_real(views(w@), n as int) == n) by {
                    lemma_next_real_fixed(views(w@), k + 1);
                }
            }
            k = n;
        }
    }
}

pub proof fn lemma_next_real_fixed(w: Seq<Seq<char>>, i: int)
    requires
        0 <= i <= w.len(),
    ensures
        next_real(w, next_real(w, i)) == next_real(w, i),
    decreases w.len() - i,
{
    if i < w.len() && is_dot(w[i]) {
        lemma_next_real_fixed(w, i + 1);
    }
}

} // verus!
