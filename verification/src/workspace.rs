//! Keeping the file tools inside the workspace: where a requested path
//! points, the path once its existing part is resolved, and whether it lies
//! under the workspace root. Paths are lists of components; finding which
//! part of a path exists, and resolving it, is left to the file system.
use vstd::prelude::*;

use crate::text::{concat2, str_eq, string_views};

verus! {

broadcast use vstd::string::group_string_axioms;

/// `path` lies under `root`: the components of `root` begin those of `path`.
pub open spec fn lies_under(path: Seq<Seq<char>>, root: Seq<Seq<char>>) -> bool {
    root.len() <= path.len() && path.take(root.len() as int) == root
}

/// Where a requested path points: itself when absolute, else under the root.
pub open spec fn candidate_path(root: Seq<Seq<char>>, requested: Seq<Seq<char>>, requested_is_absolute: bool) -> Seq<Seq<char>> {
    if requested_is_absolute {
        requested
    } else {
        root + requested
    }
}

/// A copy of a list of strings.
fn copy_components(v: &Vec<String>) -> (r: Vec<String>)
    ensures
        string_views(r@) == string_views(v@),
{
    let mut out: Vec<String> = Vec::new();
    let mut i: usize = 0;
    while i < v.len()
        invariant
            i <= v@.len(),
            string_views(out@) == string_views(v@).take(i as int),
        decreases v@.len() - i,
    {
        let ghost before = out@;
        out.push(v[i].clone());
        proof {
            assert(string_views(out@) =~= string_views(before).push(v@[i as int]@));
            assert(string_views(v@).take(i + 1) =~= string_views(v@).take(i as int).push(v@[i as int]@));
        }
        i = i + 1;
    }
    proof {
        assert(string_views(v@).take(i as int) =~= string_views(v@));
    }
    out
}

/// Appends the components of `tail` to `out`.
fn append_components(out: &mut Vec<String>, tail: &Vec<String>)
    ensures
        string_views(final(out)@) == string_views(old(out)@) + string_views(tail@),
{
    let ghost start = string_views(out@);
    let mut i: usize = 0;
    while i < tail.len()
        invariant
            i <= tail@.len(),
            string_views(out@) == start + string_views(tail@).take(i as int),
        decreases tail@.len() - i,
    {
        let ghost before = out@;
        out.push(tail[i].clone());
        proof {
            assert(string_views(out@) =~= string_views(before).push(tail@[i as int]@));
            assert(string_views(tail@).take(i + 1) =~= string_views(tail@).take(i as int).push(tail@[i as int]@));
        }
        i = i + 1;
    }
    proof {
        assert(string_views(tail@).take(i as int) =~= string_views(tail@));
    }
}

/// Where a requested path points: an absolute path as it is, a relative one
/// joined onto the workspace root.
pub fn workspace_candidate(root: &Vec<String>, requested: &Vec<String>, requested_is_absolute: bool) -> (r:
    Vec<String>)
    ensures
        string_views(r@) == candidate_path(string_views(root@), string_views(requested@), requested_is_absolute),
{
    if requested_is_absolute {
        copy_components(requested)
    } else {
        let mut out = copy_components(root);
        append_components(&mut out, requested);
        out
    }
}

/// A path whose existing part was resolved: that resolved part, then the
/// components that do not exist yet, given from the last one back.
pub fn rejoin_missing_suffix(existing_canonical: &Vec<String>, missing_suffix_rev: &Vec<String>) -> (r: Vec<
    String,
>)
    ensures
        string_views(r@) == string_views(existing_canonical@) + string_views(missing_suffix_rev@).reverse(),
{
    let mut out = copy_components(existing_canonical);
    let ghost start = string_views(out@);
    let ghost rev = string_views(missing_suffix_rev@).reverse();
    let mut i: usize = missing_suffix_rev.len();
    while i > 0
        invariant
            i <= missing_suffix_rev@.len(),
            rev == string_views(missing_suffix_rev@).reverse(),
            string_views(out@) == start + rev.take(missing_suffix_rev@.len() - i),
        decreases i,
    {
        i = i - 1;
        let ghost before = out@;
        out.push(missing_suffix_rev[i].clone());
        proof {
            let n = missing_suffix_rev@.len() as int;
            assert(string_views(out@) =~= string_views(before).push(missing_suffix_rev@[i as int]@));
            assert(rev[n - 1 - i] == missing_suffix_rev@[i as int]@);
            assert(rev.take(n - i) =~= rev.take(n - 1 - i).push(rev[n - 1 - i]));
        }
    }
    proof {
        assert(rev.take(missing_suffix_rev@.len() as int) =~= rev);
    }
    out
}

/// The message given when a path lies outside the workspace.
pub open spec fn outside_message(path_text: Seq<char>, root_text: Seq<char>) -> Seq<char> {
    "path `"@ + path_text + "` nằm ngoài workspace `"@ + root_text + "`"@
}

/// Accepts `path` when it lies under `root`, compared component by component;
/// otherwise fails, naming the path and the workspace by their texts.
pub fn ensure_components_within_workspace(path: &Vec<String>, root: &Vec<String>, path_text: &str, root_text: &str) -> (r:
    Result<(), String>)
    ensures
        r is Ok <==> lies_under(string_views(path@), string_views(root@)),
        r matches Err(m) ==> m@ == outside_message(path_text@, root_text@),
{
    let ghost p = string_views(path@);
    let ghost b = string_views(root@);
    let mut ok = root.len() <= path.len();
    let mut i: usize = 0;
    while ok && i < root.len()
        invariant
            p == string_views(path@),
            b == string_views(root@),
            i <= root@.len(),
            ok ==> root@.len() <= path@.len(),
            ok ==> forall|j: int| 0 <= j < i ==> p[j] == b[j],
            !ok ==> !lies_under(p, b),
        decreases root@.len() - i + (if ok { 1int } else { 0int }),
    {
        if !str_eq(path[i].as_str(), root[i].as_str()) {
            proof {
                assert(p[i as int] != b[i as int]);
                assert(p.take(b.len() as int)[i as int] == p[i as int]);
            }
            ok = false;
        } else {
            i = i + 1;
        }
    }
    if ok {
        proof {
            assert(p.take(b.len() as int) =~= b);
        }
        Ok(())
    } else {
        let mut m = concat2("path `", path_text);
        crate::text::append_str(&mut m, "` nằm ngoài workspace `");
        crate::text::append_str(&mut m, root_text);
        crate::text::append_str(&mut m, "`");
        Err(m)
    }
}

/// The message given when a path has no file name left to strip while
/// looking for its existing part.
pub fn invalid_path_message(candidate_text: &str) -> (r: String)
    ensures
        r@ == "path `"@ + candidate_text@ + "` không hợp lệ"@,
{
    let mut m = concat2("path `", candidate_text);
    crate::text::append_str(&mut m, "` không hợp lệ");
    m
}

/// Where a command runs before its directory is resolved: the workspace root
/// when no directory is asked for (it is used as it is); else the requested
/// directory, which is then resolved and checked like any requested path.
pub fn command_cwd_candidate(root: &Vec<String>, requested: Option<&Vec<String>>, requested_is_absolute: bool) -> (r:
    Vec<String>)
    ensures
        string_views(r@) == match requested {
            Some(p) => candidate_path(string_views(root@), string_views(p@), requested_is_absolute),
            None => string_views(root@),
        },
{
    match requested {
        Some(p) => workspace_candidate(root, p, requested_is_absolute),
        None => copy_components(root),
    }
}

/// The message given when a command's working directory is no directory.
pub fn not_a_directory_message(cwd_text: &str) -> (r: String)
    ensures
        r@ == "cwd `"@ + cwd_text@ + "` không phải thư mục"@,
{
    let mut m = concat2("cwd `", cwd_text);
    crate::text::append_str(&mut m, "` không phải thư mục");
    m
}

/// A relative request points under the root before anything is resolved.
pub proof fn law_relative_request_starts_under_root(root: Seq<Seq<char>>, requested: Seq<Seq<char>>)
    ensures
        lies_under(candidate_path(root, requested, false), root),
{
    assert((root + requested).take(root.len() as int) =~= root);
}

/// A resolved path whose existing part lies under the root lies under it
/// whatever components are re-attached after it; and every path accepted
/// lies under the root, so a file tool reads, writes or runs only inside
/// the workspace.
pub proof fn law_accepted_paths_lie_under_root(
    existing: Seq<Seq<char>>,
    missing_suffix_rev: Seq<Seq<char>>,
    root: Seq<Seq<char>>,
)
    ensures
        lies_under(existing, root) ==> lies_under(existing + missing_suffix_rev.reverse(), root),
        lies_under(existing + missing_suffix_rev.reverse(), root) ==> forall|i: int|
            0 <= i < root.len() ==> (existing + missing_suffix_rev.reverse())[i] == #[trigger] root[i],
{
    let full = existing + missing_suffix_rev.reverse();
    if lies_under(existing, root) {
        assert(full.take(root.len() as int) =~= existing.take(root.len() as int));
    }
    if lies_under(full, root) {
        assert forall|i: int| 0 <= i < root.len() implies full[i] == #[trigger] root[i] by {
            assert(full.take(root.len() as int)[i] == full[i]);
        }
    }
}

} // verus!
