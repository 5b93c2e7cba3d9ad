//! Extended data: where the extended data of a title lies, and how it is
//! listed.

use vstd::prelude::*;
use crate::file_info::{server_views, ServerFile};
use crate::listing::{found_views, list_files, listed_files, FoundFile};
use crate::title::{join_path, title_dir, title_dir_name};

verus! {

/// The root of all extended data, as a text.
pub open spec fn extdata_root() -> Seq<char> {
    seq!['.', '/', 'e', 'x', 't', 'd', 'a', 't', 'a']
}

/// The root of all extended data.
pub fn get_extdata_dir() -> (dir: String)
    ensures
        dir@ == extdata_root(),
{
    proof {
        reveal_strlit("./extdata");
        assert("./extdata"@ =~= extdata_root());
    }
    String::from_str("./extdata")
}

/// The directory of a title's extended data.
pub fn get_extdata_path(id: u64) -> (dir: String)
    ensures
        dir@ == title_dir(extdata_root(), id),
{
    join_path(get_extdata_dir().as_str(), title_dir_name(id).as_str())
}

/// The listing of a title's extended data, from the files found under its
/// directory.
pub fn v1_get_extdata_info(id: u64, files: &Vec<FoundFile>) -> (r: Vec<ServerFile>)
    ensures
        server_views(r@) == listed_files(found_views(files@), id),
{
    list_files(id, files)
}

} // verus!
