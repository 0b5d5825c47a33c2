//! Which discovered files are candidate advisory documents.
use vstd::prelude::*;
use vstd::string::StrSliceExecFns;

verus! {

/// A file name whose extension is `json`: it ends in `.json` after a
/// non-empty stem (a name that is only `.json` has no extension).
pub open spec fn json_file_name(name: Seq<char>) -> bool {
    &&& name.len() > 5
    &&& name.subrange(name.len() - 5, name.len() as int) == ".json"@
}

/// Whether a file name marks a candidate advisory document.
pub fn has_json_extension(name: &str) -> (r: bool)
    ensures
        r == json_file_name(name@),
{
    proof {
        reveal_strlit(".json");
    }
    let n = name.unicode_len();
    if n <= 5 {
        return false;
    }
    let ok = name.get_char(n - 5) == '.' && name.get_char(n - 4) == 'j' && name.get_char(n - 3) == 's'
        && name.get_char(n - 2) == 'o' && name.get_char(n - 1) == 'n';
    assert(ok ==> name@.subrange(n - 5, n as int) =~= ".json"@);
    proof {
        if name@.subrange(n - 5, n as int) == ".json"@ {
            assert(name@[n - 5] == name@.subrange(n - 5, n as int)[0]);
            assert(name@[n - 4] == name@.subrange(n - 5, n as int)[1]);
            assert(name@[n - 3] == name@.subrange(n - 5, n as int)[2]);
            assert(name@[n - 2] == name@.subrange(n - 5, n as int)[3]);
            assert(name@[n - 1] == name@.subrange(n - 5, n as int)[4]);
        }
    }
    ok
}

} // verus!
