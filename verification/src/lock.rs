//! The path of the lock file that keeps two clients from starting the proxy
//! at the same time.

use vstd::prelude::*;

verus! {

/// The name that is put under a path to name its lock file.
pub const LOCK_FILE_EXT: &'static str = ".lock";

/// Whether `name` is a plain file name: it is not empty, it is neither `.`
/// nor `..`, and it holds no `/`, no `\` and no `:`.
pub open spec fn is_plain_name(name: Seq<char>) -> bool {
    &&& name.len() > 0
    &&& name != seq!['.']
    &&& name != seq!['.', '.']
    &&& forall|i: int| 0 <= i < name.len() ==> name[i] != '/' && name[i] != '\\' && name[i] != ':'
}

/// Whether `path` has the verbatim prefix `\\?\`, under which one platform
/// rewrites a path when a name is pushed onto it.
pub open spec fn is_verbatim(path: Seq<char>) -> bool {
    path.len() >= 4 && path[0] == '\\' && path[1] == '\\' && path[2] == '?' && path[3] == '\\'
}

/// Whether `r` is `path` with `name` joined to it: the path, at most one
/// separator, and the name.
pub open spec fn is_joined(path: Seq<char>, name: Seq<char>, r: Seq<char>) -> bool {
    exists|separator: Seq<char>| separator.len() <= 1 && r == path + #[trigger] (separator + name)
}

/// Calls `PathBuf::push` on the path with the name. Pushing a plain file
/// name extends the path by one component: the text of the result ends with
/// the name, and it is the path, at most one separator and the name. Which
/// separator, and whether one is needed, is the platform's rule. The second
/// claim leaves out paths with a verbatim prefix, which `push` is documented
/// to normalise.
#[verifier::external_body]
fn push_name(path: &str, name: &str) -> (r: String)
    requires
        is_plain_name(name@),
    ensures
        name@.is_suffix_of(r@),
        !is_verbatim(path@) ==> is_joined(path@, name@, r@),
{
    let mut buf = std::path::PathBuf::from(path);
    buf.push(name);
    buf.to_string_lossy().into_owned()
}

/// The path of the lock file for `path`: the path with [`LOCK_FILE_EXT`]
/// added as a further component. The result ends with that name; and,
/// unless the path has a verbatim prefix, it begins with the path, and at
/// most one separator stands between the two.
pub fn with_lock_ext(path: &str) -> (r: String)
    ensures
        LOCK_FILE_EXT@.is_suffix_of(r@),
        !is_verbatim(path@) ==> {
            &&& path@.is_prefix_of(r@)
            &&& path@.len() + LOCK_FILE_EXT@.len() <= r@.len() <= path@.len() + 1
                + LOCK_FILE_EXT@.len()
            &&& is_joined(path@, LOCK_FILE_EXT@, r@)
        },
{
    proof {
        reveal_strlit(".lock");
        assert(".lock"@.len() == 5);
        assert(".lock"@[0] == '.' && ".lock"@[1] == 'l' && ".lock"@[2] == 'o' && ".lock"@[3] == 'c'
            && ".lock"@[4] == 'k');
    }
    let r = push_name(path, LOCK_FILE_EXT);
    proof {
        if !is_verbatim(path@) {
            let separator = choose|separator: Seq<char>|
                separator.len() <= 1 && r@ == path@ + #[trigger] (separator + LOCK_FILE_EXT@);
            assert(path@ =~= r@.subrange(0, path@.len() as int));
        }
    }
    r
}

} // verus!
