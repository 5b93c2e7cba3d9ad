//! Save data: where the saves of a title lie, and how they are listed.

use vstd::prelude::*;
use crate::file_info::{server_views, ServerFile};
use crate::listing::{found_views, list_files, listed_files, FoundFile};
use crate::title::{join_path, title_dir, title_dir_name};

verus! {

/// The root of all save data, as a text.
pub open spec fn save_root() -> Seq<char> {
    seq!['.', '/', 's', 'a', 'v', 'e', 's']
}

/// The root of all save data.
pub fn get_save_dir() -> (dir: String)
    ensures
        dir@ == save_root(),
{
    proof {
        reveal_strlit("./saves");
        assert("./saves"@ =~= save_root());
    }
    String::from_str("./saves")
}

/// The directory of a title's saves.
pub fn get_save_path(id: u64) -> (dir: String)
    ensures
        dir@ == title_dir(save_root(), id),
{
    join_path(get_save_dir().as_str(), title_dir_name(id).as_str())
}

/// The listing of a title's saves, from the files found under its
/// directory.
pub fn v1_get_save_info(id: u64, files: &Vec<FoundFile>) -> (r: Vec<ServerFile>)
    ensures
        server_views(r@) == listed_files(found_views(files@), id),
{
    list_files(id, files)
}

} // verus!
