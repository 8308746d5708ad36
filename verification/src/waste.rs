//! The waste folders that removed files are moved to.
use vstd::prelude::*;

verus! {

/// One waste folder: its root, the `info` and `files` folders in it,
/// whether it lives on removable media, and the device it lives on.
pub struct WasteFolderProperties {
    pub parent: String,
    pub info: String,
    pub file: String,
    pub is_removable: bool,
    pub dev_num: u64,
}

impl WasteFolderProperties {
    /// Properties with empty paths, not removable, on device 0.
    pub fn new() -> (w: Self)
        ensures
            w.parent@ == Seq::<char>::empty(),
            w.info@ == Seq::<char>::empty(),
            w.file@ == Seq::<char>::empty(),
            !w.is_removable,
            w.dev_num == 0,
    {
        Self {
            parent: String::new(),
            info: String::new(),
            file: String::new(),
            is_removable: false,
            dev_num: 0,
        }
    }
}

impl Default for WasteFolderProperties {
    fn default() -> (w: Self)
        ensures
            w.parent@ == Seq::<char>::empty(),
            w.info@ == Seq::<char>::empty(),
            w.file@ == Seq::<char>::empty(),
            !w.is_removable,
            w.dev_num == 0,
    {
        Self::new()
    }
}

} // verus!
