//! Where a removed file goes in a waste folder.
use vstd::prelude::*;
use crate::libgen::{basename_of, get_basename};
use crate::timestamp::{
    date_text, deletion_date, noclobber_suffix, suffix_text, valid_time, LocalTime,
};
use crate::trashinfo::{trashinfo_destination, Trashinfo};
use crate::utils::encoded;

verus! {

/// The name a removed file gets in the waste folder, and the path it is
/// moved to.
pub struct Removal {
    pub basename: String,
    pub destination: String,
}

impl Removal {
    /// A file goes into the waste folder's `files` folder under its base
    /// name.
    pub fn new(waste_files: &str, file: &str) -> (r: Self)
        ensures
            r.basename@ == basename_of(file@),
            r.destination@ == waste_files@ + "/"@ + basename_of(file@),
    {
        let basename = get_basename(file);
        let mut destination = waste_files.to_string();
        destination.append("/");
        destination.append(basename.as_str());
        Removal { basename, destination }
    }

    /// When the destination is taken, both the name and the destination
    /// get the time suffix.
    pub fn add_noclobber_suffix(&mut self, suffix: &str)
        ensures
            final(self).basename@ == old(self).basename@ + suffix@,
            final(self).destination@ == old(self).destination@ + suffix@,
    {
        self.basename.append(suffix);
        self.destination.append(suffix);
    }
}


/// Where a file removed at time `t` goes: under its base name in the
/// waste folder's `files` folder, with the time suffix added when that
/// place is already taken.
pub fn removal_target(waste_files: &str, file: &str, destination_taken: bool, t: &LocalTime) -> (r:
    Removal)
    requires
        valid_time(*t),
    ensures
        r.basename@ == basename_of(file@) + if destination_taken {
            suffix_text(*t)
        } else {
            Seq::<char>::empty()
        },
        r.destination@ == waste_files@ + "/"@ + r.basename@,
{
    let mut r = Removal::new(waste_files, file);
    if destination_taken {
        let suffix = noclobber_suffix(t);
        r.add_noclobber_suffix(suffix.as_str());
    } else {
        assert(r.basename@ + Seq::<char>::empty() =~= r.basename@);
    }
    r
}

/// What a removal leaves behind once its file is moved: the record to
/// write and where, and the entry for the list of removed files.
pub struct RemovalRecord {
    pub info_file: String,
    pub contents: String,
    pub listed: String,
}

/// After the move of the file at `file_absolute` to `removal`'s place
/// at time `t`: nothing when the move failed; otherwise the record in the
/// waste folder's `info` folder, named after the file's new base name and
/// holding its former path and the deletion date, and the new place for
/// the list.
pub fn record_after_rename(
    removal: &Removal,
    renamed: bool,
    file_absolute: &str,
    waste_info: &str,
    t: &LocalTime,
) -> (r: Option<RemovalRecord>)
    requires
        valid_time(*t),
    ensures
        !renamed ==> r is None,
        renamed ==> (r matches Some(rec) && rec.info_file@ == waste_info@ + "/"@
            + removal.basename@ + ".trashinfo"@ && rec.contents@ == "[Trash Info]"@
            + "\nPath="@ + encoded(file_absolute@) + "\nDeletionDate="@ + date_text(*t)
            + "\n"@ && rec.listed@ == removal.destination@),
{
    if !renamed {
        return None;
    }
    let date = deletion_date(t);
    let contents = Trashinfo::new(file_absolute, date.as_str()).to_contents();
    let info_file = trashinfo_destination(removal.basename.as_str(), waste_info);
    let listed = removal.destination.clone();
    Some(RemovalRecord { info_file, contents, listed })
}

} // verus!
