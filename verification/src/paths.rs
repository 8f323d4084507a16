//! Path spellings: dropping `.` components so that `./db/001.sql` and
//! `db/001.sql` compare equal.
use vstd::prelude::*;
use vstd::string::*;
use crate::text::{concat2, ends_with};

verus! {

/// One component of a path, as `Path::components` yields it.
#[derive(Debug, Clone)]
pub enum PathPart {
    RootDir,
    CurDir,
    ParentDir,
    Normal(String),
}

pub enum PathPartView {
    RootDir,
    CurDir,
    ParentDir,
    Normal(Seq<char>),
}

impl View for PathPart {
    type V = PathPartView;

    open spec fn view(&self) -> PathPartView {
        match self {
            PathPart::RootDir => PathPartView::RootDir,
            PathPart::CurDir => PathPartView::CurDir,
            PathPart::ParentDir => PathPartView::ParentDir,
            PathPart::Normal(s) => PathPartView::Normal(s@),
        }
    }
}

pub open spec fn parts_view(s: Seq<PathPart>) -> Seq<PathPartView> {
    s.map_values(|p: PathPart| p@)
}

/// What `Path::components` yields for a path (its parsing of separators,
/// repeated slashes and interior `.` components).
pub uninterp spec fn std_path_components(path: Seq<char>) -> Seq<PathPartView>;

/// `Path::components`, each component converted to a [`PathPart`]. The
/// contract only names the result.
#[verifier::external_body]
fn path_components(path: &str) -> (r: Vec<PathPart>)
    ensures
        parts_view(r@) == std_path_components(path@),
{
    let mut v = Vec::new();
    for c in std::path::Path::new(path).components() {
        v.push(match c {
            std::path::Component::RootDir => PathPart::RootDir,
            std::path::Component::CurDir => PathPart::CurDir,
            std::path::Component::ParentDir => PathPart::ParentDir,
            std::path::Component::Normal(s) => PathPart::Normal(s.to_string_lossy().into_owned()),
            std::path::Component::Prefix(p) => PathPart::Normal(p.as_os_str().to_string_lossy().into_owned()),
        });
    }
    v
}

/// How a component is spelled.
pub open spec fn part_text(p: PathPartView) -> Seq<char> {
    match p {
        PathPartView::RootDir => "/"@,
        PathPartView::CurDir => "."@,
        PathPartView::ParentDir => ".."@,
        PathPartView::Normal(s) => s,
    }
}

/// The path that pushing `p` onto the path `buf` gives: a root replaces
/// the path; other components are adjoined with a `/` unless the path is
/// empty or already ends with one.
pub open spec fn push_part(buf: Seq<char>, p: PathPartView) -> Seq<char> {
    if p is RootDir {
        "/"@
    } else if buf.len() == 0 {
        part_text(p)
    } else if buf.last() == '/' {
        buf + part_text(p)
    } else {
        buf + "/"@ + part_text(p)
    }
}

/// The components pushed in order onto an empty path, `.` components left out.
pub open spec fn join_without_curdir(parts: Seq<PathPartView>) -> Seq<char>
    decreases parts.len(),
{
    if parts.len() == 0 {
        Seq::empty()
    } else {
        let rest = join_without_curdir(parts.drop_last());
        if parts.last() is CurDir {
            rest
        } else {
            push_part(rest, parts.last())
        }
    }
}

/// `path` without its `.` components; `.` when nothing else remains.
pub open spec fn spec_without_curdir(path: Seq<char>) -> Seq<char> {
    let j = join_without_curdir(std_path_components(path));
    if j.len() == 0 {
        "."@
    } else {
        j
    }
}

/// Whether a component is anything but `.`.
pub open spec fn not_curdir(p: PathPartView) -> bool {
    !(p is CurDir)
}

proof fn lemma_join_ignores_curdir(parts: Seq<PathPartView>)
    ensures
        join_without_curdir(parts) == join_without_curdir(parts.filter(|p: PathPartView| not_curdir(p))),
    decreases parts.len(),
{
    reveal(Seq::filter);
    if parts.len() > 0 {
        let pred = |p: PathPartView| not_curdir(p);
        lemma_join_ignores_curdir(parts.drop_last());
        let f = parts.drop_last().filter(pred);
        if pred(parts.last()) {
            assert(f.push(parts.last()).drop_last() =~= f);
        }
    }
}

/// Two spellings of a path whose components agree once the `.` components
/// are dropped (such as `./db/001.sql` and `db/001.sql`) normalize to the
/// same path.
pub proof fn lemma_curdir_spellings_agree(a: Seq<char>, b: Seq<char>)
    requires
        std_path_components(a).filter(|p: PathPartView| not_curdir(p)) == std_path_components(b).filter(
            |p: PathPartView| not_curdir(p),
        ),
    ensures
        spec_without_curdir(a) == spec_without_curdir(b),
{
    lemma_join_ignores_curdir(std_path_components(a));
    lemma_join_ignores_curdir(std_path_components(b));
}

/// The normalized path is never empty: it is `.` when nothing but `.`
/// components remain.
pub proof fn lemma_without_curdir_nonempty(path: Seq<char>)
    ensures
        spec_without_curdir(path).len() > 0,
{
    reveal_strlit(".");
}

/// Drop the `.` components of `path` (in practice a leading `./`), so that
/// two spellings of one relative path compare equal.
pub fn without_curdir_components(path: &str) -> (r: String)
    ensures
        r@ == spec_without_curdir(path@),
{
    let parts = path_components(path);
    let ghost pv = parts_view(parts@);
    let mut buf = String::new();
    proof {
        assert(buf@ =~= join_without_curdir(pv.take(0)));
    }
    let mut i: usize = 0;
    while i < parts.len()
        invariant
            i <= parts@.len(),
            pv == parts_view(parts@),
            buf@ == join_without_curdir(pv.take(i as int)),
        decreases parts.len() - i,
    {
        proof {
            assert(pv.take(i + 1).drop_last() =~= pv.take(i as int));
            assert(pv[i as int] == parts@[i as int]@);
            reveal_strlit("/");
            reveal_strlit(".");
            reveal_strlit("..");
        }
        let text: &str = match &parts[i] {
            PathPart::RootDir => "/",
            PathPart::CurDir => ".",
            PathPart::ParentDir => "..",
            PathPart::Normal(s) => s.as_str(),
        };
        match &parts[i] {
            PathPart::CurDir => {},
            PathPart::RootDir => {
                buf = String::from_str("/");
            },
            _ => {
                if buf.as_str().is_empty() {
                    buf = String::from_str(text);
                } else if ends_with(buf.as_str(), "/") {
                    proof {
                        assert(buf@.subrange(buf@.len() - 1, buf@.len() as int)[0] == '/');
                    }
                    buf = concat2(buf.as_str(), text);
                } else {
                    proof {
                        if buf@.last() == '/' {
                            assert(buf@.subrange(buf@.len() - 1, buf@.len() as int) =~= "/"@);
                        }
                    }
                    let with_sep = concat2(buf.as_str(), "/");
                    buf = concat2(with_sep.as_str(), text);
                }
            },
        }
        i = i + 1;
    }
    proof {
        assert(pv.take(pv.len() as int) =~= pv);
    }
    if buf.as_str().is_empty() {
        String::from_str(".")
    } else {
        buf
    }
}

} // verus!
