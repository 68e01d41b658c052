//! Path helpers that the frontend asks for: joining, the parent directory
//! and the relative path from one path to another.
use vstd::prelude::*;

verus! {

/// The path that `std::path::Path::join` gives for `file` under `dir`.
pub uninterp spec fn path_joined(dir: Seq<char>, file: Seq<char>) -> Seq<char>;

/// The parent that `std::path::Path::parent` gives, as text.
pub uninterp spec fn parent_of(path: Seq<char>) -> Option<Seq<char>>;

/// The path that `relative_path::RelativePath::relative` gives from `from`
/// to `to`, as text.
pub uninterp spec fn relative_of(from: Seq<char>, to: Seq<char>) -> Seq<char>;

/// Relies on `std::path::Path::join`: the joined path depends on the two
/// paths alone. A path built from `&str` values is valid text, so the lossy
/// conversion back to a string loses nothing.
#[verifier::external_body]
pub(crate) fn join_path(dir: &str, file: &str) -> (r: String)
    ensures
        r@ == path_joined(dir@, file@),
{
    std::path::Path::new(dir).join(file).to_string_lossy().into_owned()
}

/// Relies on `std::path::Path::parent`: the parent, or its absence, depends
/// on the path alone.
#[verifier::external_body]
fn path_parent(path: &str) -> (r: Option<String>)
    ensures
        match r {
            Some(p) => parent_of(path@) == Some(p@),
            None => parent_of(path@) is None,
        },
{
    std::path::Path::new(path).parent().map(|p| p.to_string_lossy().into_owned())
}

/// Relies on `relative_path::RelativePath::relative`: the result depends on
/// the two paths alone, and the path from a path to itself is empty (the
/// common components are stripped and nothing is left to traverse).
#[verifier::external_body]
fn relative_path_between(from: &str, to: &str) -> (r: String)
    ensures
        r@ == relative_of(from@, to@),
        from@ == to@ ==> r@.len() == 0,
{
    relative_path::RelativePath::new(from).relative(relative_path::RelativePath::new(to)).to_string()
}

/// The path made of `parts` joined one after another onto an empty path.
pub open spec fn joined_all(parts: Seq<String>) -> Seq<char>
    decreases parts.len(),
{
    if parts.len() == 0 {
        Seq::empty()
    } else {
        path_joined(joined_all(parts.drop_last()), parts.last()@)
    }
}

/// Joins the parts into one path, in order.
pub fn join_all(parts: &Vec<String>) -> (r: String)
    ensures
        r@ == joined_all(parts@),
{
    let mut acc = String::new();
    let mut i: usize = 0;
    while i < parts.len()
        invariant
            i <= parts@.len(),
            acc@ == joined_all(parts@.subrange(0, i as int)),
        decreases parts@.len() - i,
    {
        proof {
            assert(parts@.subrange(0, i + 1).drop_last() =~= parts@.subrange(0, i as int));
        }
        acc = join_path(acc.as_str(), parts[i].as_str());
        i = i + 1;
    }
    proof {
        assert(parts@.subrange(0, parts@.len() as int) =~= parts@);
    }
    acc
}

/// The directory that holds `path`: its parent, or the empty path where it
/// has none.
pub fn dirname(path: &str) -> (r: String)
    ensures
        match parent_of(path@) {
            Some(p) => r@ == p,
            None => r@.len() == 0,
        },
{
    match path_parent(path) {
        Some(p) => p,
        None => String::new(),
    }
}

/// The relative path that leads from `from` to `to`.
pub fn relative(from: &str, to: &str) -> (r: String)
    ensures
        r@ == relative_of(from@, to@),
        from@ == to@ ==> r@.len() == 0,
{
    relative_path_between(from, to)
}

} // verus!
