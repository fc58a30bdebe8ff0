//! Which of the files found under a project root are scanned: markdown task
//! files under `todo/`, and source files of known languages outside excluded
//! directories. Walking the directory tree is left to the caller; these
//! functions decide on the paths it found, and order them.
use vstd::prelude::*;
use crate::order::{cmp_text, cmp_text_exec, sort_by, total_preorder, sorted_by, lemma_cmp_text_facts, lemma_cmp_text_trans, lemma_insert_at, lemma_sort_by_step, lemma_sort_by_len, lemma_sort_by_sorted, lemma_sort_by_multiset};
use crate::text::{chars_of, eq_str, starts_with, starts_with_str, copy_range};

verus! {

/// How the directory tree is walked.
#[derive(Debug, Clone)]
pub struct ScanConfig {
    pub root_path: String,
    pub follow_links: bool,
    /// Deepest level walked; `None` for no limit.
    pub max_depth: Option<usize>,
}

impl ScanConfig {
    /// The current directory, links not followed, ten levels deep.
    pub fn default() -> (r: Self)
        ensures
            r.root_path@ == "."@,
            !r.follow_links,
            r.max_depth == Some(10usize),
    {
        ScanConfig { root_path: ".".to_string(), follow_links: false, max_depth: Some(10) }
    }
}

/// The position of the last `c` in `s`, or -1.
pub open spec fn last_index(s: Seq<char>, c: char) -> int
    decreases s.len(),
{
    if s.len() == 0 {
        -1
    } else if s.last() == c {
        s.len() - 1
    } else {
        last_index(s.drop_last(), c)
    }
}

/// The last component of a `/`-separated path.
pub open spec fn file_name(p: Seq<char>) -> Seq<char> {
    p.subrange(last_index(p, '/') + 1, p.len() as int)
}

/// The extension of a path: what follows the last `.` of its file name,
/// where that `.` is not the name's first character.
pub open spec fn extension(p: Seq<char>) -> Option<Seq<char>> {
    let f = file_name(p);
    let d = last_index(f, '.');
    if f == ".."@ || d <= 0 {
        None
    } else {
        Some(f.subrange(d + 1, f.len() as int))
    }
}

/// The file name without its extension, as `Path::file_stem` gives it.
pub open spec fn file_stem(p: Seq<char>) -> Option<Seq<char>> {
    let f = file_name(p);
    let d = last_index(f, '.');
    if f.len() == 0 || f == ".."@ {
        None
    } else if d <= 0 {
        Some(f)
    } else {
        Some(f.subrange(0, d))
    }
}

/// The languages whose comments are scanned, by file extension.
pub open spec fn is_source_extension(e: Seq<char>) -> bool {
    e == "rs"@ || e == "js"@ || e == "ts"@ || e == "jsx"@ || e == "tsx"@ || e == "py"@ || e
        == "java"@ || e == "c"@ || e == "cpp"@ || e == "cc"@ || e == "cxx"@ || e == "h"@ || e
        == "hpp"@ || e == "go"@ || e == "rb"@ || e == "php"@ || e == "swift"@ || e == "kt"@ || e
        == "scala"@
}

/// Directory names never descended into: build output, dependency caches,
/// version-control data, and any hidden directory.
pub open spec fn excluded_dir_name(n: Seq<char>) -> bool {
    n == "target"@ || n == "node_modules"@ || n == "__pycache__"@ || n == ".git"@ || n
        == ".svn"@ || n == ".hg"@ || n == ".DS_Store"@ || n == "Thumbs.db"@ || starts_with(
        n,
        "."@,
    )
}

/// `p[i..j]` is a directory component of `p`: it is delimited by `/` (or the
/// start) before and by `/` after, so it is not the final component.
pub open spec fn dir_segment(p: Seq<char>, i: int, j: int) -> bool {
    &&& 0 <= i <= j < p.len()
    &&& i == 0 || p[i - 1] == '/'
    &&& p[j] == '/'
    &&& forall|k: int| i <= k < j ==> p[k] != '/'
}

/// Some directory on the way to `p` has an excluded name (`.` and `..` are
/// steps of the path, not names).
pub open spec fn has_excluded_ancestor(p: Seq<char>) -> bool {
    exists|i: int, j: int|
        #![trigger p.subrange(i, j)]
        dir_segment(p, i, j) && p.subrange(i, j) != "."@ && p.subrange(i, j) != ".."@
            && excluded_dir_name(p.subrange(i, j))
}

/// A path that source discovery keeps.
pub open spec fn is_source_candidate(p: Seq<char>) -> bool {
    (extension(p) matches Some(e) && is_source_extension(e)) && !has_excluded_ancestor(p)
}

/// A path that markdown discovery keeps.
pub open spec fn is_markdown_candidate(p: Seq<char>) -> bool {
    extension(p) == Some("md"@)
}

/// Texts in lexicographic order.
pub open spec fn text_order() -> spec_fn(String, String) -> bool {
    |a: String, b: String| cmp_text(a@, b@) <= 0
}

pub open spec fn source_pred() -> spec_fn(String) -> bool {
    |p: String| is_source_candidate(p@)
}

pub open spec fn markdown_pred() -> spec_fn(String) -> bool {
    |p: String| is_markdown_candidate(p@)
}

/// The source files kept from `paths`, sorted.
pub open spec fn selected_sources(paths: Seq<String>) -> Seq<String> {
    sort_by(paths.filter(source_pred()), text_order())
}

/// The markdown files kept from `paths`, sorted.
pub open spec fn selected_markdown(paths: Seq<String>) -> Seq<String> {
    sort_by(paths.filter(markdown_pred()), text_order())
}

pub proof fn lemma_text_order_total()
    ensures
        total_preorder(text_order()),
{
    let le = text_order();
    assert forall|x: String, y: String| #[trigger] le(x, y) || le(y, x) by {
        lemma_cmp_text_facts(x@, y@);
    }
    assert forall|x: String, y: String, z: String| #[trigger] le(x, y) && #[trigger] le(
        y,
        z,
    ) implies le(x, z) by {
        lemma_cmp_text_trans(x@, y@, z@);
    }
}

/// The position of the last `c` in `s`, or `None`.
fn last_index_exec(s: &Vec<char>, c: char) -> (r: Option<usize>)
    ensures
        match r {
            Some(i) => last_index(s@, c) == i as int,
            None => last_index(s@, c) == -1,
        },
{
    let mut j: usize = s.len();
    assert(s@.subrange(0, j as int) == s@);
    while j > 0 && s[j - 1] != c
        invariant
            j <= s@.len(),
            last_index(s@, c) == last_index(s@.subrange(0, j as int), c),
        decreases j,
    {
        assert(s@.subrange(0, j as int).drop_last() == s@.subrange(0, j - 1));
        j = j - 1;
    }
    if j == 0 {
        None
    } else {
        Some(j - 1)
    }
}

proof fn lemma_last_index_range(s: Seq<char>, c: char)
    ensures
        -1 <= last_index(s, c) < s.len(),
        last_index(s, c) >= 0 ==> s[last_index(s, c)] == c,
    decreases s.len(),
{
    if s.len() > 0 && s.last() != c {
        lemma_last_index_range(s.drop_last(), c);
    }
}

/// The characters of the last component of `p`.
fn file_name_exec(p: &Vec<char>) -> (r: Vec<char>)
    ensures
        r@ == file_name(p@),
{
    proof {
        lemma_last_index_range(p@, '/');
    }
    let n = p.len();
    let start = match last_index_exec(p, '/') {
        Some(i) => i + 1,
        None => 0,
    };
    copy_range(p, start, p.len())
}

/// The extension of `p`, if it has one.
pub fn extension_exec(p: &Vec<char>) -> (r: Option<Vec<char>>)
    ensures
        match r {
            Some(e) => extension(p@) == Some(e@),
            None => extension(p@) is None,
        },
{
    let f = file_name_exec(p);
    proof {
        lemma_last_index_range(f@, '.');
    }
    if eq_str(&f, "..") {
        return None;
    }
    match last_index_exec(&f, '.') {
        Some(d) => {
            if d == 0 {
                None
            } else {
                Some(copy_range(&f, d + 1, f.len()))
            }
        },
        None => None,
    }
}

/// The file name of `p` without its extension, if it has a name.
pub fn file_stem_exec(p: &Vec<char>) -> (r: Option<Vec<char>>)
    ensures
        match r {
            Some(e) => file_stem(p@) == Some(e@),
            None => file_stem(p@) is None,
        },
{
    let f = file_name_exec(p);
    proof {
        lemma_last_index_range(f@, '.');
    }
    if f.len() == 0 || eq_str(&f, "..") {
        return None;
    }
    match last_index_exec(&f, '.') {
        Some(d) => {
            if d == 0 {
                Some(f)
            } else {
                Some(copy_range(&f, 0, d))
            }
        },
        None => Some(f),
    }
}

fn is_source_extension_exec(e: &Vec<char>) -> (r: bool)
    ensures
        r == is_source_extension(e@),
{
    eq_str(e, "rs") || eq_str(e, "js") || eq_str(e, "ts") || eq_str(e, "jsx") || eq_str(e, "tsx")
        || eq_str(e, "py") || eq_str(e, "java") || eq_str(e, "c") || eq_str(e, "cpp") || eq_str(
        e,
        "cc",
    ) || eq_str(e, "cxx") || eq_str(e, "h") || eq_str(e, "hpp") || eq_str(e, "go") || eq_str(
        e,
        "rb",
    ) || eq_str(e, "php") || eq_str(e, "swift") || eq_str(e, "kt") || eq_str(e, "scala")
}

fn excluded_dir_chars(n: &Vec<char>) -> (r: bool)
    ensures
        r == excluded_dir_name(n@),
{
    eq_str(n, "target") || eq_str(n, "node_modules") || eq_str(n, "__pycache__") || eq_str(
        n,
        ".git",
    ) || eq_str(n, ".svn") || eq_str(n, ".hg") || eq_str(n, ".DS_Store") || eq_str(
        n,
        "Thumbs.db",
    ) || starts_with_str(n, ".")
}

/// Whether a directory of this name is skipped.
pub fn should_exclude_dir(dir_name: &str) -> (r: bool)
    ensures
        r == excluded_dir_name(dir_name@),
{
    let n = chars_of(dir_name);
    excluded_dir_chars(&n)
}

/// Whether the path names a file in one of the scanned languages.
pub fn is_supported_source_file(path: &str) -> (r: bool)
    ensures
        r == (extension(path@) matches Some(e) && is_source_extension(e)),
{
    let p = chars_of(path);
    match extension_exec(&p) {
        Some(e) => is_source_extension_exec(&e),
        None => false,
    }
}

/// Whether some directory on the way to `path` has an excluded name.
pub fn has_excluded_ancestor_exec(path: &Vec<char>) -> (r: bool)
    ensures
        r == has_excluded_ancestor(path@),
{
    let ghost p = path@;
    let mut seg: usize = 0;
    let mut i: usize = 0;
    while i < path.len()
        invariant
            seg <= i <= p.len(),
            p == path@,
            seg == 0 || p[seg - 1] == '/',
            forall|k: int| seg <= k < i ==> p[k] != '/',
            forall|a: int, b: int|
                #![trigger p.subrange(a, b)]
                dir_segment(p, a, b) && b < i ==> !(p.subrange(a, b) != "."@ && p.subrange(a, b)
                    != ".."@ && excluded_dir_name(p.subrange(a, b))),
        decreases p.len() - i,
    {
        if path[i] == '/' {
            let name = copy_range(path, seg, i);
            assert(dir_segment(p, seg as int, i as int));
            if !eq_str(&name, ".") && !eq_str(&name, "..") && excluded_dir_chars(&name) {
                return true;
            }
            assert forall|a: int, b: int|
                #![trigger p.subrange(a, b)]
                dir_segment(p, a, b) && b < i + 1 implies !(p.subrange(a, b) != "."@
                && p.subrange(a, b) != ".."@ && excluded_dir_name(p.subrange(a, b))) by {
                if b == i {
                    if a < seg {
                        assert(p[seg - 1] == '/');
                    } else if a > seg {
                        assert(p[a - 1] == '/');
                    }
                }
            }
            seg = i + 1;
        }
        i = i + 1;
    }
    false
}

/// Whether source discovery keeps this path.
pub fn is_source_candidate_exec(path: &String) -> (r: bool)
    ensures
        r == is_source_candidate(path@),
{
    let p = chars_of(path.as_str());
    let supported = match extension_exec(&p) {
        Some(e) => is_source_extension_exec(&e),
        None => false,
    };
    supported && !has_excluded_ancestor_exec(&p)
}

/// Whether markdown discovery keeps this path.
pub fn is_markdown_candidate_exec(path: &String) -> (r: bool)
    ensures
        r == is_markdown_candidate(path@),
{
    let p = chars_of(path.as_str());
    match extension_exec(&p) {
        Some(e) => eq_str(&e, "md"),
        None => false,
    }
}

fn path_le_exec(a: &String, b: &String) -> (r: bool)
    ensures
        r == (cmp_text(a@, b@) <= 0),
{
    let x = chars_of(a.as_str());
    let y = chars_of(b.as_str());
    cmp_text_exec(&x, &y) <= 0
}

/// `paths` in lexicographic order (a stable sort).
pub fn sort_texts(paths: Vec<String>) -> (r: Vec<String>)
    ensures
        r@ == sort_by(paths@, text_order()),
{
    let ghost orig = paths@;
    let ghost le = text_order();
    let mut rest = paths;
    let n = rest.len();
    let mut out: Vec<String> = Vec::new();
    let mut i: usize = 0;
    assert(orig.subrange(0, 0) == Seq::<String>::empty());
    while rest.len() > 0
        invariant
            i + rest@.len() == orig.len(),
            orig.len() == n,
            rest@ == orig.subrange(i as int, orig.len() as int),
            out@ == sort_by(orig.subrange(0, i as int), le),
            le == text_order(),
        decreases rest@.len(),
    {
        let x = rest.remove(0);
        assert(x == orig[i as int]);
        proof {
            lemma_sort_by_len(orig.subrange(0, i as int), le);
        }
        let mut j: usize = out.len();
        while j > 0 && !path_le_exec(&out[j - 1], &x)
            invariant
                j <= out@.len(),
                forall|k: int| j <= k < out@.len() ==> !le(#[trigger] out@[k], x),
                le == text_order(),
            decreases j,
        {
            j = j - 1;
        }
        proof {
            lemma_insert_at(out@, x, le, j as int);
            lemma_sort_by_step(orig, i as int, le);
        }
        out.insert(j, x);
        i = i + 1;
        assert(rest@ == orig.subrange(i as int, orig.len() as int));
    }
    assert(orig.subrange(0, orig.len() as int) == orig);
    out
}

/// The source files among `paths`: those with a scanned extension and no
/// excluded directory on the way, in lexicographic order.
pub fn select_source_files(paths: Vec<String>) -> (r: Vec<String>)
    ensures
        r@ == selected_sources(paths@),
{
    let ghost orig = paths@;
    let mut kept: Vec<String> = Vec::new();
    let mut rest = paths;
    let n = rest.len();
    let mut i: usize = 0;
    proof {
        reveal(Seq::filter);
    }
    assert(orig.subrange(0, 0) == Seq::<String>::empty());
    while rest.len() > 0
        invariant
            i + rest@.len() == orig.len(),
            orig.len() == n,
            rest@ == orig.subrange(i as int, orig.len() as int),
            kept@ == orig.subrange(0, i as int).filter(source_pred()),
        decreases rest@.len(),
    {
        let x = rest.remove(0);
        proof {
            reveal(Seq::filter);
            assert(orig.subrange(0, i + 1).drop_last() == orig.subrange(0, i as int));
        }
        if is_source_candidate_exec(&x) {
            kept.push(x);
        }
        i = i + 1;
        assert(rest@ == orig.subrange(i as int, orig.len() as int));
    }
    assert(orig.subrange(0, orig.len() as int) == orig);
    sort_texts(kept)
}

/// The markdown files among `paths`, in lexicographic order.
pub fn select_markdown_files(paths: Vec<String>) -> (r: Vec<String>)
    ensures
        r@ == selected_markdown(paths@),
{
    let ghost orig = paths@;
    let mut kept: Vec<String> = Vec::new();
    let mut rest = paths;
    let n = rest.len();
    let mut i: usize = 0;
    proof {
        reveal(Seq::filter);
    }
    assert(orig.subrange(0, 0) == Seq::<String>::empty());
    while rest.len() > 0
        invariant
            i + rest@.len() == orig.len(),
            orig.len() == n,
            rest@ == orig.subrange(i as int, orig.len() as int),
            kept@ == orig.subrange(0, i as int).filter(markdown_pred()),
        decreases rest@.len(),
    {
        let x = rest.remove(0);
        proof {
            reveal(Seq::filter);
            assert(orig.subrange(0, i + 1).drop_last() == orig.subrange(0, i as int));
        }
        if is_markdown_candidate_exec(&x) {
            kept.push(x);
        }
        i = i + 1;
        assert(rest@ == orig.subrange(i as int, orig.len() as int));
    }
    assert(orig.subrange(0, orig.len() as int) == orig);
    sort_texts(kept)
}

/// No path that source discovery returns lies under an excluded directory,
/// and every one has a scanned extension; the list is in order and holds
/// each kept input path as often as the input does.
pub proof fn lemma_sources_exclude_dirs(paths: Seq<String>)
    ensures
        forall|k: int|
            0 <= k < selected_sources(paths).len() ==> is_source_candidate(
                #[trigger] selected_sources(paths)[k]@,
            ),
        sorted_by(selected_sources(paths), text_order()),
        selected_sources(paths).to_multiset() == paths.filter(source_pred()).to_multiset(),
{
    let f = paths.filter(source_pred());
    lemma_text_order_total();
    lemma_sort_by_sorted(f, text_order());
    lemma_sort_by_multiset(f, text_order());
    assert forall|k: int| 0 <= k < selected_sources(paths).len() implies is_source_candidate(
        #[trigger] selected_sources(paths)[k]@,
    ) by {
        let x = selected_sources(paths)[k];
        broadcast use vstd::seq_lib::group_to_multiset_ensures;

        assert(selected_sources(paths).contains(x));
        assert(selected_sources(paths).to_multiset().count(x) > 0);
        assert(f.contains(x));
        let m = choose|m: int| 0 <= m < f.len() && f[m] == x;
        paths.lemma_filter_pred(source_pred(), m);
    }
}

} // verus!
