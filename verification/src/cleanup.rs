//! Temp artifact cleanup policy. The backend ships as a self-extracting
//! executable that unpacks into directories with a known name prefix under
//! the platform temporary directory; when it is killed rather than exiting
//! normally, those directories stay behind. Only entries this policy accepts
//! may be deleted — never arbitrary files.

use vstd::prelude::*;

use crate::scan::matches_at;

verus! {

/// An entry is an extraction artifact when it is a directory and its name
/// starts with the extraction prefix.
pub open spec fn spec_is_artifact(name: Seq<char>, is_dir: bool) -> bool {
    is_dir && matches_at(name, "_MEI"@, 0)
}

/// Decides whether one entry of the temporary directory is an extraction
/// artifact left behind by the backend and may therefore be deleted.
pub fn is_extraction_artifact(name: &str, is_dir: bool) -> (r: bool)
    ensures
        r == spec_is_artifact(name@, is_dir),
{
    proof {
        reveal_strlit("_MEI");
    }
    if !is_dir {
        return false;
    }
    let n = name.unicode_len();
    if n < 4 {
        return false;
    }
    let hit = name.get_char(0) == '_' && name.get_char(1) == 'M' && name.get_char(2)
        == 'E' && name.get_char(3) == 'I';
    proof {
        if hit {
            assert(name@.subrange(0, 4) =~= "_MEI"@);
        } else {
            if matches_at(name@, "_MEI"@, 0) {
                assert(name@.subrange(0, 4)[0] == '_');
                assert(name@.subrange(0, 4)[1] == 'M');
                assert(name@.subrange(0, 4)[2] == 'E');
                assert(name@.subrange(0, 4)[3] == 'I');
            }
        }
    }
    hit
}

} // verus!
