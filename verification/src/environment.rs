//! Keeping an AppImage's bundled search paths away from the system's UxPlay.

use vstd::prelude::*;

verus! {

/// What `std::path::Path::new(path).starts_with(base)` gives: whether `base`
/// is a leading run of whole components of `path`.
pub uninterp spec fn path_starts_with(path: Seq<char>, base: Seq<char>) -> bool;

/// `Path::starts_with`, component-wise. Its contract names the result
/// `path_starts_with(path@, base@)`.
#[verifier::external_body]
fn starts_with_path(path: &str, base: &str) -> (res: bool)
    ensures
        res == path_starts_with(path@, base@),
{
    std::path::Path::new(path).starts_with(base)
}

/// Whether a search path belongs to the host: it is not empty and does not
/// lie inside the AppImage's directory.
pub open spec fn is_host_path(path: Seq<char>, app_dir: Seq<char>) -> bool {
    path.len() > 0 && !path_starts_with(path, app_dir)
}

/// The entries of a search path that belong to the host, in order.
pub open spec fn spec_host_paths(paths: Seq<Seq<char>>, app_dir: Seq<char>) -> Seq<Seq<char>> {
    paths.filter(|p: Seq<char>| is_host_path(p, app_dir))
}

pub open spec fn strings_view(v: Seq<String>) -> Seq<Seq<char>> {
    v.map_values(|s: String| s@)
}

/// The entries of a search path that belong to the host.
pub fn host_paths(paths: &Vec<String>, app_dir: &str) -> (res: Vec<String>)
    ensures
        strings_view(res@) == spec_host_paths(strings_view(paths@), app_dir@),
{
    let ghost pv = strings_view(paths@);
    let mut out: Vec<String> = Vec::new();
    let mut i: usize = 0;
    while i < paths.len()
        invariant
            i <= paths@.len(),
            pv == strings_view(paths@),
            strings_view(out@) == spec_host_paths(pv.take(i as int), app_dir@),
        decreases paths@.len() - i,
    {
        let p = &paths[i];
        proof {
            reveal_with_fuel(Seq::filter, 1);
            assert(pv.take(i + 1).drop_last() =~= pv.take(i as int));
            assert(pv.take(i + 1).last() == p@);
        }
        if !p.as_str().is_empty() && !starts_with_path(p.as_str(), app_dir) {
            let ghost before = strings_view(out@);
            out.push(p.clone());
            assert(strings_view(out@) =~= before.push(p@));
        }
        i = i + 1;
    }
    assert(pv.take(paths@.len() as int) =~= pv);
    out
}

/// Whether a program path (such as GStreamer's plugin scanner) lies inside
/// the AppImage's directory and so must not be passed on.
pub fn is_bundled_path(path: &str, app_dir: &str) -> (res: bool)
    ensures
        res == path_starts_with(path@, app_dir@),
{
    starts_with_path(path, app_dir)
}

} // verus!
