//! Request checking for the static file server.
//!
//! The server exposes the rendered index and the thumbnails under the
//! content root and nothing else.  A request's date and file-name parts
//! are admitted only as single, ordinary path components; anything that
//! could climb out of the root is refused before a path is ever built.

use vstd::prelude::*;
use vstd::string::StrSliceExecFns;
use crate::newsletter::index_path_spec;
use crate::newsletter::thumb_dir_spec;
use crate::text::has_prefix;
use crate::text::str_eq;

verus! {

/// A single ordinary path component: non-empty, free of separators, and
/// not a directory reference.  Joining such a component under a
/// directory can name only an entry of that directory.
pub open spec fn safe_component(s: Seq<char>) -> bool {
    &&& s.len() > 0
    &&& !s.contains('/')
    &&& !s.contains('\\')
    &&& s != ".."@
    &&& s != "."@
}

/// Whether the request part is a single ordinary path component.
pub fn is_safe_component(s: &str) -> (r: bool)
    ensures
        r == safe_component(s@),
{
    let n = s.unicode_len();
    if n == 0 {
        return false;
    }
    let mut i: usize = 0;
    while i < n
        invariant
            i <= n,
            n == s@.len(),
            forall|j: int| 0 <= j < i ==> s@[j] != '/' && s@[j] != '\\',
        decreases n - i,
    {
        let c = s.get_char(i);
        if c == '/' || c == '\\' {
            return false;
        }
        i = i + 1;
    }
    if str_eq(s, "..") || str_eq(s, ".") {
        return false;
    }
    true
}

/// Resolves a request for a day's index page.  The path is built, and a
/// file can be served, exactly when the date is a single ordinary
/// component; the result then lies under the content root by
/// construction.
pub fn index_request_path(content_dir: &str, date: &str) -> (r: Option<String>)
    ensures
        r is Some <==> safe_component(date@),
        r is Some ==> r->Some_0@ == index_path_spec(content_dir@, date@),
{
    if is_safe_component(date) {
        Some(crate::newsletter::index_path(content_dir, date))
    } else {
        None
    }
}

/// Resolves a request for a day's thumbnail.  The path is built exactly
/// when both the date and the file name are single ordinary components.
pub fn thumbnail_request_path(content_dir: &str, date: &str, name: &str) -> (r: Option<String>)
    ensures
        r is Some <==> safe_component(date@) && safe_component(name@),
        r is Some ==> r->Some_0@ == thumb_dir_spec(content_dir@, date@) + seq!['/'] + name@,
{
    if is_safe_component(date) && is_safe_component(name) {
        let base = crate::newsletter::thumb_dir(content_dir, date);
        let r = base.concat("/").concat(name);
        proof {
            reveal_strlit("/");
            assert("/"@ =~= seq!['/']);
            assert(r@ =~= thumb_dir_spec(content_dir@, date@) + seq!['/'] + name@);
        }
        Some(r)
    } else {
        None
    }
}

/// A request part that could traverse upward — one that holds a
/// separator or names the parent directory — is never admitted, so no
/// served path can leave the content root.
pub proof fn lemma_traversal_refused(date: Seq<char>, name: Seq<char>)
    requires
        date.contains('/') || date == ".."@ || name.contains('/') || name == ".."@,
    ensures
        !(safe_component(date) && safe_component(name)),
{
}

/// Every path the server resolves opens with the content root.
pub proof fn lemma_path_under_root(content_dir: Seq<char>, date: Seq<char>, name: Seq<char>)
    ensures
        has_prefix(index_path_spec(content_dir, date), content_dir),
        has_prefix(thumb_dir_spec(content_dir, date) + seq!['/'] + name, content_dir),
{
    assert(index_path_spec(content_dir, date).subrange(0, content_dir.len() as int)
        =~= content_dir);
    assert((thumb_dir_spec(content_dir, date) + seq!['/'] + name).subrange(
        0,
        content_dir.len() as int,
    ) =~= content_dir);
}

} // verus!
