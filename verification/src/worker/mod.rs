//! What the worker decides when it builds and runs a program: which files
//! are sources, the arguments of each compiler and linker step, the order
//! of the steps and when to stop.
use vstd::prelude::*;

use crate::text::{
    concat, ends_with, eq_ignore_ascii_case, eq_ignore_ascii_case_spec, has_suffix,
    last_index_of, lemma_last_index_of, owned, push_str, rfind_char, substring,
};

pub mod steps;

verus! {

/// The languages the worker compiles.
#[derive(Clone, Copy, PartialEq, Eq, Structural, Debug)]
pub enum Lang {
    C,
    Rust,
}

/// A node of the user's filesystem: a file and its contents, or a
/// directory and its entries.
#[derive(Debug)]
pub enum FsNode {
    File(String),
    Dir(Vec<(String, FsNode)>),
}

/// The extension of a file name, as `Path::extension` finds it: the text
/// after the last `.`, unless that `.` begins the name.
pub open spec fn extension_of(name: Seq<char>) -> Option<Seq<char>> {
    if name == ".."@ {
        None
    } else {
        match last_index_of(name, '.') {
            Some(i) => if i == 0 {
                None
            } else {
                Some(name.subrange(i + 1, name.len() as int))
            },
            None => None,
        }
    }
}

/// The file name of a path, as `Path::file_name` finds it: its last
/// component, trailing `/` and `.` components set aside; none when that
/// component is `..` or there is none.
pub open spec fn file_name(path: Seq<char>) -> Option<Seq<char>>
    decreases path.len(),
{
    if path.len() == 0 {
        None
    } else if path.last() == '/' {
        file_name(path.drop_last())
    } else {
        match last_index_of(path, '/') {
            Some(i) => {
                proof {
                    lemma_last_index_of(path, '/');
                }
                let comp = path.subrange(i + 1, path.len() as int);
                if comp == "."@ {
                    file_name(path.subrange(0, i))
                } else if comp == ".."@ {
                    None
                } else {
                    Some(comp)
                }
            },
            None => if path == "."@ || path == ".."@ {
                None
            } else {
                Some(path)
            },
        }
    }
}

proof fn lemma_file_name_not_dotdot(path: Seq<char>)
    ensures
        file_name(path) matches Some(n) ==> n != ".."@,
    decreases path.len(),
{
    if path.len() > 0 {
        if path.last() == '/' {
            lemma_file_name_not_dotdot(path.drop_last());
        } else {
            lemma_last_index_of(path, '/');
            match last_index_of(path, '/') {
                Some(i) => {
                    lemma_file_name_not_dotdot(path.subrange(0, i));
                },
                None => {},
            }
        }
    }
}

/// The file name of a path without its extension, as `Path::file_stem`
/// finds it: the whole name when it has no `.` but a leading one, else the
/// part before its last `.`.
pub open spec fn file_stem(path: Seq<char>) -> Option<Seq<char>> {
    match file_name(path) {
        Some(n) => match last_index_of(n, '.') {
            Some(i) => if i > 0 {
                Some(n.subrange(0, i))
            } else {
                Some(n)
            },
            None => Some(n),
        },
        None => None,
    }
}

/// The extension of a path, as `Path::extension` finds it.
pub open spec fn path_ext(path: Seq<char>) -> Option<Seq<char>> {
    match file_name(path) {
        Some(n) => extension_of(n),
        None => None,
    }
}

/// `base` with `name` pushed onto it, as `PathBuf::push` does: an absolute
/// `name` replaces `base`; otherwise a `/` is put between them unless
/// `base` is empty or already ends with one.
pub open spec fn joined(base: Seq<char>, name: Seq<char>) -> Seq<char> {
    if name.len() > 0 && name[0] == '/' {
        name
    } else if base.len() > 0 && base.last() != '/' {
        base + "/"@ + name
    } else {
        base + name
    }
}

/// Whether `ext` marks a source file of `lang`: `c`, `cc`, `cp`, `cpp`,
/// `cxx` or `c++` for C and C++, `rs` for Rust, in any ASCII case.
pub open spec fn source_ext(ext: Seq<char>, lang: Lang) -> bool {
    match lang {
        Lang::C => eq_ignore_ascii_case_spec(ext, "c"@) || eq_ignore_ascii_case_spec(ext, "cc"@)
            || eq_ignore_ascii_case_spec(ext, "cp"@) || eq_ignore_ascii_case_spec(ext, "cpp"@)
            || eq_ignore_ascii_case_spec(ext, "cxx"@) || eq_ignore_ascii_case_spec(ext, "c++"@),
        Lang::Rust => eq_ignore_ascii_case_spec(ext, "rs"@),
    }
}

/// The source files of `node`, found at `path`, in the order its entries
/// are listed.
pub open spec fn node_sources(node: FsNode, path: Seq<char>, lang: Lang) -> Seq<Seq<char>>
    decreases node,
{
    match node {
        FsNode::File(_) => match path_ext(path) {
            Some(ext) => if source_ext(ext, lang) {
                seq![path]
            } else {
                Seq::empty()
            },
            None => Seq::empty(),
        },
        FsNode::Dir(entries) => dir_sources(entries@, path, lang),
    }
}

/// The source files under the entries of a directory at `base`.
pub open spec fn dir_sources(entries: Seq<(String, FsNode)>, base: Seq<char>, lang: Lang) -> Seq<
    Seq<char>,
>
    decreases entries,
{
    if entries.len() == 0 {
        Seq::empty()
    } else {
        node_sources(entries[0].1, joined(base, entries[0].0@), lang) + dir_sources(
            entries.drop_first(),
            base,
            lang,
        )
    }
}

/// Whether `ext` marks a source file of `lang`.
pub fn is_source_ext(ext: &str, lang: Lang) -> (r: bool)
    ensures
        r == source_ext(ext@, lang),
{
    match lang {
        Lang::C => eq_ignore_ascii_case(ext, "c") || eq_ignore_ascii_case(ext, "cc")
            || eq_ignore_ascii_case(ext, "cp") || eq_ignore_ascii_case(ext, "cpp")
            || eq_ignore_ascii_case(ext, "cxx") || eq_ignore_ascii_case(ext, "c++"),
        Lang::Rust => eq_ignore_ascii_case(ext, "rs"),
    }
}

/// The file name of `path`.
pub(crate) fn path_file_name(path: &str) -> (r: Option<String>)
    ensures
        match r {
            Some(n) => file_name(path@) == Some(n@),
            None => file_name(path@) is None,
        },
{
    proof {
        reveal_strlit("..");
        reveal_strlit(".");
    }
    let mut cur = owned(path);
    let mut n = cur.as_str().unicode_len();
    loop
        invariant
            n == cur@.len(),
            file_name(cur@) == file_name(path@),
        decreases n,
    {
        if n == 0 {
            return None;
        }
        if cur.as_str().get_char(n - 1) == '/' {
            proof {
                assert(cur@.drop_last() =~= cur@.subrange(0, n - 1));
            }
            cur = substring(cur.as_str(), 0, n - 1);
            n = n - 1;
        } else {
            match rfind_char(cur.as_str(), '/') {
                Some(i) => {
                    let comp = substring(cur.as_str(), i + 1, n);
                    if crate::text::str_eq(comp.as_str(), ".") {
                        cur = substring(cur.as_str(), 0, i);
                        n = i;
                    } else if crate::text::str_eq(comp.as_str(), "..") {
                        return None;
                    } else {
                        return Some(comp);
                    }
                },
                None => {
                    if crate::text::str_eq(cur.as_str(), ".") || crate::text::str_eq(
                        cur.as_str(),
                        "..",
                    ) {
                        return None;
                    }
                    return Some(cur);
                },
            }
        }
    }
}

/// The file stem of `path`.
pub(crate) fn path_file_stem(path: &str) -> (r: Option<String>)
    ensures
        match r {
            Some(n) => file_stem(path@) == Some(n@),
            None => file_stem(path@) is None,
        },
{
    let name = match path_file_name(path) {
        Some(n) => n,
        None => {
            return None;
        },
    };
    match rfind_char(name.as_str(), '.') {
        Some(i) => if i > 0 {
            Some(substring(name.as_str(), 0, i))
        } else {
            Some(name)
        },
        None => Some(name),
    }
}

/// The extension of `path`.
fn path_extension(path: &str) -> (r: Option<String>)
    ensures
        match r {
            Some(e) => path_ext(path@) == Some(e@),
            None => path_ext(path@) is None,
        },
{
    let name = match path_file_name(path) {
        Some(n) => n,
        None => {
            return None;
        },
    };
    proof {
        reveal_strlit("..");
        reveal_strlit(".");
        lemma_file_name_not_dotdot(path@);
    }
    let m = name.as_str().unicode_len();
    match rfind_char(name.as_str(), '.') {
        Some(i) => if i == 0 {
            None
        } else {
            Some(substring(name.as_str(), i + 1, m))
        },
        None => None,
    }
}

/// `base` with `name` pushed onto it.
pub fn join_path(base: &str, name: &str) -> (r: String)
    ensures
        r@ == joined(base@, name@),
{
    proof {
        reveal_strlit("/");
    }
    if name.unicode_len() > 0 && name.get_char(0) == '/' {
        return owned(name);
    }
    let n = base.unicode_len();
    if n > 0 && base.get_char(n - 1) != '/' {
        let mut r = concat(base, "/");
        push_str(&mut r, name);
        r
    } else {
        concat(base, name)
    }
}

/// Appends the source files of `node`, found at `base_path`, to `sources`.
pub fn collect_sources(node: &FsNode, base_path: &str, lang: Lang, sources: &mut Vec<String>)
    ensures
        crate::text::views(final(sources)@) == crate::text::views(old(sources)@) + node_sources(
            *node,
            base_path@,
            lang,
        ),
    decreases node,
{
    match node {
        FsNode::File(_) => {
            let ghost before = sources@;
            match path_extension(base_path) {
                Some(ext) => {
                    if is_source_ext(ext.as_str(), lang) {
                        sources.push(owned(base_path));
                        assert(crate::text::views(sources@) =~= crate::text::views(before)
                            + seq![base_path@]);
                    } else {
                        assert(crate::text::views(before) + Seq::<Seq<char>>::empty()
                            =~= crate::text::views(before));
                    }
                },
                None => {
                    assert(crate::text::views(before) + Seq::<Seq<char>>::empty()
                        =~= crate::text::views(before));
                },
            }
        },
        FsNode::Dir(children) => {
            assert(decreases_to!(*node => *children));
            collect_dir_sources(children, base_path, lang, sources);
        },
    }
}

/// Appends the source files under the entries of a directory at
/// `base_path` to `sources`.
pub fn collect_dir_sources(
    children: &Vec<(String, FsNode)>,
    base_path: &str,
    lang: Lang,
    sources: &mut Vec<String>,
)
    ensures
        crate::text::views(final(sources)@) == crate::text::views(old(sources)@) + dir_sources(
            children@,
            base_path@,
            lang,
        ),
    decreases children,
{
    let ghost entries = children@;
    let mut i: usize = 0;
    assert(entries.skip(0) =~= entries);
    assert(crate::text::views(sources@) + Seq::<Seq<char>>::empty() =~= crate::text::views(sources@));
    while i < children.len()
        invariant
            entries == children@,
            i <= entries.len(),
            crate::text::views(sources@) + dir_sources(entries.skip(i as int), base_path@, lang)
                == crate::text::views(old(sources)@) + dir_sources(entries, base_path@, lang),
        decreases children.len() - i,
    {
        let ghost before = sources@;
        assert(entries.skip(i as int).drop_first() =~= entries.skip(i + 1));
        assert(entries.skip(i as int)[0] == entries[i as int]);
        let child_path = join_path(base_path, children[i].0.as_str());
        assert(decreases_to!(*children => children@[i as int].1));
        collect_sources(&children[i].1, child_path.as_str(), lang, sources);
        assert(crate::text::views(sources@) + dir_sources(entries.skip(i + 1), base_path@, lang)
            =~= crate::text::views(before) + dir_sources(entries.skip(i as int), base_path@, lang));
        i = i + 1;
    }
    assert(entries.skip(i as int) =~= Seq::<(String, FsNode)>::empty());
    assert(crate::text::views(sources@) + Seq::<Seq<char>>::empty() =~= crate::text::views(sources@));
}

/// One change the user's filesystem is built with.
#[derive(Debug)]
pub enum FsOp {
    /// Create the directory at this path, and its parents.
    MakeDir(String),
    /// Create the file at this path with these contents.
    WriteFile(String, String),
}

/// An [`FsOp`] as a mathematical value.
pub enum FsOpView {
    MakeDir(Seq<char>),
    WriteFile(Seq<char>, Seq<char>),
}

impl View for FsOp {
    type V = FsOpView;

    open spec fn view(&self) -> FsOpView {
        match self {
            FsOp::MakeDir(p) => FsOpView::MakeDir(p@),
            FsOp::WriteFile(p, c) => FsOpView::WriteFile(p@, c@),
        }
    }
}

/// The views of a list of changes.
pub open spec fn op_views(ops: Seq<FsOp>) -> Seq<FsOpView> {
    Seq::new(ops.len(), |i: int| ops[i]@)
}

/// The changes that build `node` at `path`: a file is written with its
/// contents; a directory is created, then each entry is built in turn
/// under it.
pub open spec fn node_ops(node: FsNode, path: Seq<char>) -> Seq<FsOpView>
    decreases node,
{
    match node {
        FsNode::File(contents) => seq![FsOpView::WriteFile(path, contents@)],
        FsNode::Dir(entries) => seq![FsOpView::MakeDir(path)] + dir_ops(entries@, path),
    }
}

/// The changes that build the entries of a directory at `base`.
pub open spec fn dir_ops(entries: Seq<(String, FsNode)>, base: Seq<char>) -> Seq<FsOpView>
    decreases entries,
{
    if entries.len() == 0 {
        Seq::empty()
    } else {
        node_ops(entries[0].1, joined(base, entries[0].0@)) + dir_ops(entries.drop_first(), base)
    }
}

proof fn lemma_op_views_push(ops: Seq<FsOp>, op: FsOp)
    ensures
        op_views(ops.push(op)) == op_views(ops).push(op@),
{
    assert(op_views(ops.push(op)) =~= op_views(ops).push(op@));
}

/// Appends the changes that build `node` at `path` to `ops`.
pub fn plan_node(node: &FsNode, path: &str, ops: &mut Vec<FsOp>)
    ensures
        op_views(final(ops)@) == op_views(old(ops)@) + node_ops(*node, path@),
    decreases node,
{
    match node {
        FsNode::File(contents) => {
            let op = FsOp::WriteFile(owned(path), contents.clone());
            proof {
                lemma_op_views_push(ops@, op);
            }
            ops.push(op);
        },
        FsNode::Dir(children) => {
            let ghost before = ops@;
            let op = FsOp::MakeDir(owned(path));
            proof {
                lemma_op_views_push(ops@, op);
            }
            ops.push(op);
            assert(decreases_to!(*node => *children));
            plan_dir(children, path, ops);
            assert(op_views(ops@) =~= op_views(before) + node_ops(*node, path@));
        },
    }
}

/// Appends the changes that build the entries of a directory at `base` to
/// `ops`.
pub fn plan_dir(children: &Vec<(String, FsNode)>, base: &str, ops: &mut Vec<FsOp>)
    ensures
        op_views(final(ops)@) == op_views(old(ops)@) + dir_ops(children@, base@),
    decreases children,
{
    let ghost entries = children@;
    let mut i: usize = 0;
    assert(entries.skip(0) =~= entries);
    while i < children.len()
        invariant
            entries == children@,
            i <= entries.len(),
            op_views(ops@) + dir_ops(entries.skip(i as int), base@) == op_views(old(ops)@)
                + dir_ops(entries, base@),
        decreases children.len() - i,
    {
        let ghost before = ops@;
        assert(entries.skip(i as int).drop_first() =~= entries.skip(i + 1));
        assert(entries.skip(i as int)[0] == entries[i as int]);
        let child_path = join_path(base, children[i].0.as_str());
        assert(decreases_to!(*children => children@[i as int].1));
        plan_node(&children[i].1, child_path.as_str(), ops);
        assert(op_views(ops@) + dir_ops(entries.skip(i + 1), base@) =~= op_views(before) + dir_ops(
            entries.skip(i as int),
            base@,
        ));
        i = i + 1;
    }
    assert(entries.skip(i as int) =~= Seq::<(String, FsNode)>::empty());
    assert(op_views(ops@) + Seq::<FsOpView>::empty() =~= op_views(ops@));
}

/// The changes that build the user's filesystem from its root entries:
/// the root `/` first, then every entry under it.
pub fn user_fs_plan(fs: &Vec<(String, FsNode)>) -> (r: Vec<FsOp>)
    ensures
        op_views(r@) == seq![FsOpView::MakeDir("/"@)] + dir_ops(fs@, "/"@),
{
    let mut ops: Vec<FsOp> = Vec::new();
    let root = FsOp::MakeDir(owned("/"));
    proof {
        lemma_op_views_push(ops@, root);
        assert(op_views(ops@) =~= Seq::<FsOpView>::empty());
    }
    ops.push(root);
    plan_dir(fs, "/", &mut ops);
    ops
}

/// `s` with every trailing repetition of `p` removed, as
/// `str::trim_end_matches` does.
pub open spec fn trim_end(s: Seq<char>, p: Seq<char>) -> Seq<char>
    decreases s.len(),
{
    if p.len() > 0 && has_suffix(s, p) {
        trim_end(s.subrange(0, s.len() - p.len()), p)
    } else {
        s
    }
}

/// The object file rustc writes for `source`: the path without its
/// trailing `.rs` (all of them), with `.o` added.
pub open spec fn rust_obj(source: Seq<char>) -> Seq<char> {
    trim_end(source, ".rs"@) + ".o"@
}

/// The object file rustc writes for `source`.
pub fn rust_obj_path(source: &str) -> (r: String)
    ensures
        r@ == rust_obj(source@),
{
    proof {
        reveal_strlit(".rs");
    }
    let mut n = source.unicode_len();
    let mut cur = owned(source);
    while n >= 3 && ends_with(cur.as_str(), ".rs")
        invariant
            cur@.len() == n,
            trim_end(cur@, ".rs"@) == trim_end(source@, ".rs"@),
        decreases n,
    {
        proof {
            reveal_strlit(".rs");
        }
        assert(trim_end(cur@, ".rs"@) == trim_end(cur@.subrange(0, n - 3), ".rs"@));
        let next = substring(cur.as_str(), 0, n - 3);
        cur = next;
        n = n - 3;
    }
    proof {
        if has_suffix(cur@, ".rs"@) {
            assert(cur@.len() >= 3);
        }
    }
    concat(cur.as_str(), ".o")
}


/// Whether `a` sorts strictly before `b`: the order in which `String`s
/// compare, character by character, a proper prefix first.
pub open spec fn text_lt(a: Seq<char>, b: Seq<char>) -> bool
    decreases a.len(),
{
    if b.len() == 0 {
        false
    } else if a.len() == 0 {
        true
    } else if a[0] != b[0] {
        (a[0] as u32) < (b[0] as u32)
    } else {
        text_lt(a.drop_first(), b.drop_first())
    }
}

proof fn lemma_text_lt_asymmetric(a: Seq<char>, b: Seq<char>)
    ensures
        !(text_lt(a, b) && text_lt(b, a)),
    decreases a.len(),
{
    if a.len() > 0 && b.len() > 0 && a[0] == b[0] {
        lemma_text_lt_asymmetric(a.drop_first(), b.drop_first());
    }
}

proof fn lemma_text_lt_transitive(a: Seq<char>, b: Seq<char>, c: Seq<char>)
    requires
        text_lt(a, b),
        text_lt(b, c),
    ensures
        text_lt(a, c),
    decreases a.len(),
{
    if a.len() > 0 && b.len() > 0 && c.len() > 0 && a[0] == b[0] && b[0] == c[0] {
        lemma_text_lt_transitive(a.drop_first(), b.drop_first(), c.drop_first());
    }
}

/// Whether `a` sorts strictly before `b`.
pub fn str_lt(a: &str, b: &str) -> (r: bool)
    ensures
        r == text_lt(a@, b@),
{
    let na = a.unicode_len();
    let nb = b.unicode_len();
    let mut i: usize = 0;
    assert(a@.skip(0) =~= a@ && b@.skip(0) =~= b@);
    while i < na && i < nb
        invariant
            na == a@.len(),
            nb == b@.len(),
            i <= na,
            i <= nb,
            text_lt(a@, b@) == text_lt(a@.skip(i as int), b@.skip(i as int)),
        decreases na - i,
    {
        let x = a.get_char(i);
        let y = b.get_char(i);
        assert(a@.skip(i as int)[0] == x);
        assert(b@.skip(i as int)[0] == y);
        if x != y {
            return (x as u32) < (y as u32);
        }
        assert(a@.skip(i as int).drop_first() =~= a@.skip(i + 1));
        assert(b@.skip(i as int).drop_first() =~= b@.skip(i + 1));
        i = i + 1;
    }
    i < nb
}

/// Whether the strings are in order, no one sorting before an earlier one.
pub open spec fn sorted_texts(s: Seq<Seq<char>>) -> bool {
    forall|i: int, j: int| 0 <= i < j < s.len() ==> !text_lt(#[trigger] s[j], #[trigger] s[i])
}

/// The strings of `v` in sorted order, as `sort` leaves them.
pub fn sort_strings(v: Vec<String>) -> (r: Vec<String>)
    ensures
        sorted_texts(crate::text::views(r@)),
        crate::text::views(r@).to_multiset() == crate::text::views(v@).to_multiset(),
{
    let ghost input = crate::text::views(v@);
    let mut out: Vec<String> = Vec::new();
    let mut i: usize = 0;
    assert(crate::text::views(out@) =~= input.take(0));
    while i < v.len()
        invariant
            input == crate::text::views(v@),
            i <= v@.len(),
            sorted_texts(crate::text::views(out@)),
            crate::text::views(out@).to_multiset() == input.take(i as int).to_multiset(),
        decreases v.len() - i,
    {
        let x = v[i].clone();
        let ghost o = crate::text::views(out@);
        let mut pos: usize = 0;
        while pos < out.len() && !str_lt(x.as_str(), out[pos].as_str())
            invariant
                o == crate::text::views(out@),
                pos <= o.len(),
                forall|k: int| 0 <= k < pos ==> !text_lt(x@, #[trigger] o[k]),
            decreases out.len() - pos,
        {
            pos = pos + 1;
        }
        proof {
            assert forall|k: int| pos <= k < o.len() implies !text_lt(#[trigger] o[k], x@) by {
                if text_lt(o[k], x@) {
                    assert(text_lt(x@, o[pos as int]));
                    if k == pos {
                        lemma_text_lt_asymmetric(o[k], x@);
                    } else {
                        lemma_text_lt_transitive(o[k], x@, o[pos as int]);
                    }
                }
            }
        }
        out.insert(pos, x);
        proof {
            let n = crate::text::views(out@);
            assert(n =~= o.insert(pos as int, x@));
            assert forall|a: int, b: int| 0 <= a < b < n.len() implies !text_lt(
                #[trigger] n[b],
                #[trigger] n[a],
            ) by {
                if a < pos && b < pos {
                    assert(n[a] == o[a] && n[b] == o[b]);
                } else if a < pos && b == pos {
                } else if a < pos {
                    assert(n[a] == o[a] && n[b] == o[b - 1]);
                } else if a == pos {
                    assert(n[b] == o[b - 1]);
                } else {
                    assert(n[a] == o[a - 1] && n[b] == o[b - 1]);
                }
            }
            vstd::seq_lib::to_multiset_insert(o, pos as int, x@);
            assert(input.take(i + 1) =~= input.take(i as int).push(x@));
            vstd::seq_lib::to_multiset_build(input.take(i as int), x@);
        }
        i = i + 1;
    }
    assert(input.take(v@.len() as int) =~= input);
    out
}

/// The error when a filesystem holds no source of the language.
pub open spec fn no_sources_error(lang: Lang) -> Seq<char> {
    "No "@ + (match lang {
        Lang::C => "C/C++"@,
        Lang::Rust => "Rust"@,
    }) + " source files found in provided filesystem"@
}

/// The sources to build: every source file of the language under the
/// user's filesystem root `/`, sorted.  A filesystem without one is
/// refused.
pub fn prepare_sources(fs: &Vec<(String, FsNode)>, lang: Lang) -> (r: Result<Vec<String>, String>)
    ensures
        match r {
            Ok(v) => {
                &&& dir_sources(fs@, "/"@, lang).len() > 0
                &&& sorted_texts(crate::text::views(v@))
                &&& crate::text::views(v@).to_multiset() == dir_sources(
                    fs@,
                    "/"@,
                    lang,
                ).to_multiset()
            },
            Err(e) => dir_sources(fs@, "/"@, lang).len() == 0 && e@ == no_sources_error(lang),
        },
{
    let mut sources: Vec<String> = Vec::new();
    let ghost empty = sources@;
    assert(crate::text::views(empty) =~= Seq::<Seq<char>>::empty());
    collect_dir_sources(fs, "/", lang, &mut sources);
    assert(crate::text::views(sources@) =~= dir_sources(fs@, "/"@, lang));
    if sources.len() == 0 {
        let name = match lang {
            Lang::C => "C/C++",
            Lang::Rust => "Rust",
        };
        let e = crate::text::concat3("No ", name, " source files found in provided filesystem");
        return Err(e);
    }
    Ok(sort_strings(sources))
}

} // verus!
