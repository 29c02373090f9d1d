use vstd::prelude::*;

verus! {

/// The path of a bundled asset. Outside a macOS release bundle assets are
/// read from where they lie, so the path is returned unchanged.
pub fn get_bundle_path(path: &str) -> (bundle_path: String)
    ensures
        bundle_path@ == path@,
{
    path.to_string()
}

} // verus!
