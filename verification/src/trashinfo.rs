//! `.trashinfo` records in the format of the FreeDesktop.org Trash
//! specification.
use vstd::prelude::*;
use crate::config::ConfigOption;
use crate::text::{
    lemma_replaced_absent, lemma_replaced_front, lemma_replaced_prefix, occurs, occurs_at_pos,
    replace_all, replaced,
};
use crate::utils::{
    decoded, encoded, lemma_decode_encode, percent_decode, percent_encode, DecodeFailure,
    PercentDecodeError,
};

verus! {

/// A `.trashinfo` record: its group header, the path the removed file
/// had, and when it was removed.
pub struct Trashinfo(pub String, pub String, pub String);

impl Trashinfo {
    /// The group header line.
    pub open spec fn header(&self) -> Seq<char> {
        self.0@
    }

    /// The path that the removed file had.
    pub open spec fn path(&self) -> Seq<char> {
        self.1@
    }

    /// The deletion date.
    pub open spec fn deletion_date(&self) -> Seq<char> {
        self.2@
    }

    /// A record with the `[Trash Info]` header.
    pub open spec fn well_formed(&self) -> bool {
        self.header() == "[Trash Info]"@
    }

    /// The record for a file removed from `path_and_filename` at
    /// `deletion_date`.
    pub fn new(path_and_filename: &str, deletion_date: &str) -> (t: Self)
        ensures
            t.well_formed(),
            t.path() == path_and_filename@,
            t.deletion_date() == deletion_date@,
    {
        Self("[Trash Info]".to_string(), path_and_filename.to_string(), deletion_date.to_string())
    }

    /// The text of the `.trashinfo` file: the header, the percent-encoded
    /// path and the deletion date, each on a line of its own.
    pub fn to_contents(&self) -> (s: String)
        ensures
            s@ == self.header() + "\nPath="@ + encoded(self.path()) + "\nDeletionDate="@
                + self.deletion_date() + "\n"@,
    {
        let pct_string = percent_encode(self.1.as_str());
        let mut s = self.0.clone();
        s.append("\nPath=");
        s.append(pct_string.as_str());
        s.append("\nDeletionDate=");
        s.append(self.2.as_str());
        s.append("\n");
        s
    }

    /// The record that a parsed `.trashinfo` file holds: the path on its
    /// second line, percent-decoded, and the deletion date on its third,
    /// taken as written; a malformed escape in the path is an error.
    pub fn from_entries(info: &[ConfigOption]) -> (r: Result<Self, PercentDecodeError>)
        requires
            info@.len() >= 3,
        ensures
            match decoded(info@[1].primary@) {
                Ok(p) => r matches Ok(t) && t.well_formed() && t.path() == p && t.deletion_date()
                    == info@[2].primary@,
                Err(DecodeFailure::MissingChar) => r matches Err(e) && e.0@
                    == "Char missing in encoding."@,
                Err(DecodeFailure::BadHex) => r matches Err(e) && e.0@
                    == "Error parsing hex to char."@,
            },
    {
        let path = percent_decode(info[1].primary.as_str())?;
        Ok(Trashinfo::new(path.as_str(), info[2].primary.as_str()))
    }
}

/// Where a record of `basename` goes in the waste folder's `info` folder.
pub fn trashinfo_destination(basename: &str, waste_info: &str) -> (p: String)
    ensures
        p@ == waste_info@ + "/"@ + basename@ + ".trashinfo"@,
{
    let mut p = waste_info.to_string();
    p.append("/");
    p.append(basename);
    p.append(".trashinfo");
    p
}

/// The record of a file in a waste folder's `files` folder: its path
/// with `.trashinfo` added and the first `/files/` (and any later ones)
/// turned into `/info/`.
pub fn info_path(file_to_restore_path: &str) -> (p: String)
    ensures
        p@ == replaced(file_to_restore_path@ + ".trashinfo"@, "/files/"@, "/info/"@),
{
    let mut full = file_to_restore_path.to_string();
    full.append(".trashinfo");
    proof {
        reveal_strlit("/files/");
    }
    replace_all(full.as_str(), "/files/", "/info/")
}


/// A restore looks for a removed file's record where the removal wrote
/// it: for a waste folder `parent` and a name `basename`, `info_path` of
/// the file's place `parent/files/basename` is the record's place
/// `parent/info/basename.trashinfo` that `trashinfo_destination` gives.
/// This holds when the folder's own path, with `/files` added, holds no
/// `/files/`, and the name holds no `/`.
pub proof fn lemma_restore_finds_record(parent: Seq<char>, basename: Seq<char>)
    requires
        !occurs(parent + "/files"@, "/files/"@),
        forall|i: int| 0 <= i < basename.len() ==> basename[i] != '/',
    ensures
        replaced(parent + "/files"@ + "/"@ + basename + ".trashinfo"@, "/files/"@, "/info/"@)
            == parent + "/info"@ + "/"@ + basename + ".trashinfo"@,
{
    reveal_strlit("/files");
    reveal_strlit("/files/");
    reveal_strlit("/info");
    reveal_strlit("/info/");
    reveal_strlit("/");
    reveal_strlit(".trashinfo");
    let from = "/files/"@;
    let to = "/info/"@;
    let rest = basename + ".trashinfo"@;
    let whole = parent + from + rest;
    assert(whole =~= parent + "/files"@ + "/"@ + basename + ".trashinfo"@);
    assert forall|i: int| 0 <= i < parent.len() implies !occurs_at_pos(
        parent + (from + rest),
        from,
        i,
    ) by {
        if occurs_at_pos(parent + (from + rest), from, i) {
            assert((parent + "/files"@).subrange(i, i + 7) =~= (parent + (from + rest)).subrange(
                i,
                i + 7,
            ));
            assert(occurs_at_pos(parent + "/files"@, from, i));
        }
    }
    lemma_replaced_prefix(parent, from + rest, from, to);
    lemma_replaced_front(rest, from, to);
    assert forall|j: int| !occurs_at_pos(rest, from, j) by {
        if occurs_at_pos(rest, from, j) {
            assert(rest.subrange(j, j + 7)[0] == '/');
            assert(rest[j] == '/');
            if j < basename.len() {
                assert(rest[j] == basename[j]);
            } else {
                assert(rest[j] == ".trashinfo"@[j - basename.len()]);
            }
        }
    }
    lemma_replaced_absent(rest, from, to);
    assert(parent + (from + rest) =~= whole);
    assert(parent + (to + rest) =~= parent + "/info"@ + "/"@ + basename + ".trashinfo"@);
}


/// Reading a record back gives the path it was written for: the `Path=`
/// value that `to_contents` writes for a record decodes, as
/// `from_entries` decodes it, to the record's path.
pub proof fn lemma_record_read_back(t: Trashinfo, path_value: Seq<char>)
    requires
        path_value == encoded(t.path()),
    ensures
        decoded(path_value) == Ok::<Seq<char>, DecodeFailure>(t.path()),
{
    lemma_decode_encode(t.path());
}

} // verus!
