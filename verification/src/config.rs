//! The configuration file: where it is, and what its `WASTE` lines mean.
use vstd::prelude::*;
use crate::text::{replace_all, str_eq};
use crate::waste::WasteFolderProperties;

verus! {

/// One line of a configuration file: the option before `=`, the primary
/// value after it, and the attributes that follow the value.
pub struct ConfigOption {
    pub option: String,
    pub primary: String,
    pub attributes: Vec<String>,
}

/// A configuration line that cannot be used.
#[derive(Debug, Clone, Copy, PartialEq, Eq)]
pub enum ConfigError {
    /// A `WASTE` line has an attribute other than `removable`.
    UnknownAttribute,
}

impl ConfigError {
    /// The message the tool shows for this error.
    pub fn message(&self) -> (s: String)
        ensures
            s@ == "Unknown attribute (try 'removable'"@,
    {
        "Unknown attribute (try 'removable'".to_string()
    }
}

/// Whether a line configures a waste folder.
pub fn is_waste_option(o: &ConfigOption) -> (b: bool)
    ensures
        b == (o.option@ == "WASTE"@),
{
    str_eq(o.option.as_str(), "WASTE")
}

/// Reads the attributes of a `WASTE` line: none means a fixed folder,
/// a first attribute `removable` a folder on removable media, and any
/// other first attribute is an error.
pub fn is_removable(v_attrs: &[String]) -> (r: Result<bool, ConfigError>)
    ensures
        v_attrs@.len() == 0 ==> r == Ok::<bool, ConfigError>(false),
        v_attrs@.len() > 0 && v_attrs@[0]@ == "removable"@ ==> r == Ok::<bool, ConfigError>(true),
        v_attrs@.len() > 0 && v_attrs@[0]@ != "removable"@ ==> r == Err::<bool, ConfigError>(
            ConfigError::UnknownAttribute,
        ),
{
    if v_attrs.len() > 0 {
        if str_eq(v_attrs[0].as_str(), "removable") {
            Ok(true)
        } else {
            Err(ConfigError::UnknownAttribute)
        }
    } else {
        Ok(false)
    }
}

/// The folders of a `WASTE` line: `$HOME` in its value stands for the
/// home directory, and the `info` and `files` folders lie below it.
/// It is not removable and on device 0 until the caller learns more.
pub fn assign_properties(st_option_props: &ConfigOption, homedir: &str) -> (w:
    WasteFolderProperties)
    ensures
        w.parent@ == crate::text::replaced(st_option_props.primary@, "$HOME"@, homedir@),
        w.info@ == w.parent@ + "/info"@,
        w.file@ == w.parent@ + "/files"@,
        !w.is_removable,
        w.dev_num == 0,
{
    let mut waste_properties = WasteFolderProperties::new();
    proof {
        reveal_strlit("$HOME");
    }
    waste_properties.parent = replace_all(st_option_props.primary.as_str(), "$HOME", homedir);
    let mut info = waste_properties.parent.clone();
    info.append("/info");
    waste_properties.info = info;
    let mut file = waste_properties.parent.clone();
    file.append("/files");
    waste_properties.file = file;
    waste_properties
}

/// What the attributes of a `WASTE` line say: removable media or not,
/// or an unknown attribute.
pub open spec fn attribute_meaning(attrs: Seq<String>) -> Result<bool, ConfigError> {
    if attrs.len() == 0 {
        Ok(false)
    } else if attrs[0]@ == "removable"@ {
        Ok(true)
    } else {
        Err(ConfigError::UnknownAttribute)
    }
}

/// The waste folder that one configuration line sets up: none for a line
/// other than `WASTE`; for a `WASTE` line the folders of
/// `assign_properties` and the removability of `is_removable`, or that
/// function's error. The device is 0 until the caller reads it.
pub fn waste_folder(st_option_props: &ConfigOption, homedir: &str) -> (r: Option<
    Result<WasteFolderProperties, ConfigError>,
>)
    ensures
        st_option_props.option@ != "WASTE"@ ==> r is None,
        st_option_props.option@ == "WASTE"@ ==> (r matches Some(x) && match attribute_meaning(
            st_option_props.attributes@,
        ) {
            Ok(b) => x matches Ok(w) && w.parent@ == crate::text::replaced(
                st_option_props.primary@,
                "$HOME"@,
                homedir@,
            ) && w.info@ == w.parent@ + "/info"@ && w.file@ == w.parent@ + "/files"@
                && w.is_removable == b && w.dev_num == 0,
            Err(e) => x == Err::<WasteFolderProperties, ConfigError>(e),
        }),
{
    if !is_waste_option(st_option_props) {
        return None;
    }
    let mut w = assign_properties(st_option_props, homedir);
    match is_removable(st_option_props.attributes.as_slice()) {
        Ok(b) => {
            w.is_removable = b;
            Some(Ok(w))
        },
        Err(e) => Some(Err(e)),
    }
}

/// What one line says of a waste folder: nothing for a line other than
/// `WASTE`; else the folder's root and whether it is removable, or the
/// error in its attributes.
pub open spec fn line_folder(e: ConfigOption, homedir: Seq<char>) -> Option<
    Result<(Seq<char>, bool), ConfigError>,
> {
    if e.option@ != "WASTE"@ {
        None
    } else {
        match attribute_meaning(e.attributes@) {
            Ok(b) => Some(Ok((crate::text::replaced(e.primary@, "$HOME"@, homedir), b))),
            Err(x) => Some(Err(x)),
        }
    }
}

/// The waste folders of a configuration, in the order of its `WASTE`
/// lines (root and removability), or the error of the first line that
/// has one.
pub open spec fn folder_list(entries: Seq<ConfigOption>, homedir: Seq<char>) -> Result<
    Seq<(Seq<char>, bool)>,
    ConfigError,
>
    decreases entries.len(),
{
    if entries.len() == 0 {
        Ok(seq![])
    } else {
        match folder_list(entries.drop_last(), homedir) {
            Err(x) => Err(x),
            Ok(l) => match line_folder(entries.last(), homedir) {
                None => Ok(l),
                Some(Err(x)) => Err(x),
                Some(Ok(f)) => Ok(l.push(f)),
            },
        }
    }
}

/// The folder properties `v` are those of the list `l`: the same roots,
/// `info` and `files` below each, the same removability, device 0.
pub open spec fn describes(v: Seq<WasteFolderProperties>, l: Seq<(Seq<char>, bool)>) -> bool {
    &&& v.len() == l.len()
    &&& forall|i: int|
        0 <= i < v.len() ==> {
            &&& (#[trigger] v[i]).parent@ == l[i].0
            &&& v[i].info@ == l[i].0 + "/info"@
            &&& v[i].file@ == l[i].0 + "/files"@
            &&& v[i].is_removable == l[i].1
            &&& v[i].dev_num == 0
        }
}

/// Once a prefix of the lines has an error, the whole list has it.
proof fn lemma_folder_list_error(entries: Seq<ConfigOption>, homedir: Seq<char>, k: int)
    requires
        0 <= k <= entries.len(),
        folder_list(entries.take(k), homedir) is Err,
    ensures
        folder_list(entries, homedir) == folder_list(entries.take(k), homedir),
    decreases entries.len() - k,
{
    if k == entries.len() {
        assert(entries.take(k) =~= entries);
    } else {
        assert(entries.take(k + 1).drop_last() =~= entries.take(k));
        lemma_folder_list_error(entries, homedir, k + 1);
    }
}

/// The waste folders that a configuration's lines set up, in order, each
/// as `waste_folder` gives it, or the error of the first `WASTE` line
/// with an unknown attribute. The devices are 0 until the caller reads
/// them.
pub fn waste_folders(entries: &[ConfigOption], homedir: &str) -> (r: Result<
    Vec<WasteFolderProperties>,
    ConfigError,
>)
    ensures
        match folder_list(entries@, homedir@) {
            Ok(l) => r matches Ok(v) && describes(v@, l),
            Err(x) => r == Err::<Vec<WasteFolderProperties>, ConfigError>(x),
        },
{
    let mut v: Vec<WasteFolderProperties> = Vec::new();
    let mut i: usize = 0;
    assert(entries@.take(0) =~= Seq::<ConfigOption>::empty());
    while i < entries.len()
        invariant
            i <= entries@.len(),
            folder_list(entries@.take(i as int), homedir@) matches Ok(l) && describes(v@, l),
        decreases entries@.len() - i,
    {
        let ghost prev = folder_list(entries@.take(i as int), homedir@)->Ok_0;
        let ghost before = v@;
        proof {
            assert(entries@.take(i + 1).drop_last() =~= entries@.take(i as int));
            assert(entries@.take(i + 1).last() == entries@[i as int]);
        }
        match waste_folder(&entries[i], homedir) {
            None => {},
            Some(Ok(w)) => {
                v.push(w);
                proof {
                    let l = prev.push((crate::text::replaced(entries@[i as int].primary@, "$HOME"@, homedir@), w.is_removable));
                    assert forall|j: int| 0 <= j < v@.len() implies {
                        &&& (#[trigger] v@[j]).parent@ == l[j].0
                        &&& v@[j].info@ == l[j].0 + "/info"@
                        &&& v@[j].file@ == l[j].0 + "/files"@
                        &&& v@[j].is_removable == l[j].1
                        &&& v@[j].dev_num == 0
                    } by {
                        if j < prev.len() {
                            assert(v@[j] == before[j]);
                        }
                    }
                }
            },
            Some(Err(e)) => {
                proof {
                    lemma_folder_list_error(entries@, homedir@, i + 1);
                }
                return Err(e);
            },
        }
        i = i + 1;
    }
    assert(entries@.take(entries@.len() as int) =~= entries@);
    Ok(v)
}

/// One more line adds its folder at the end of the list, whatever the
/// folder is (removable or not); a line that is not `WASTE` leaves the
/// list as it is, and an error in the new line or before it is the
/// list's error.
pub proof fn lemma_folder_list_append(entries: Seq<ConfigOption>, e: ConfigOption, homedir: Seq<char>)
    ensures
        folder_list(entries.push(e), homedir) == match folder_list(entries, homedir) {
            Err(x) => Err(x),
            Ok(l) => match line_folder(e, homedir) {
                None => Ok(l),
                Some(Err(x)) => Err(x),
                Some(Ok(f)) => Ok(l.push(f)),
            },
        },
{
    assert(entries.push(e).drop_last() =~= entries);
}

/// A well-formed `WASTE` line: its attributes are none, or begin with
/// `removable`.
pub open spec fn good_waste_line(e: ConfigOption) -> bool {
    &&& e.option@ == "WASTE"@
    &&& (e.attributes@.len() == 0 || e.attributes@[0]@ == "removable"@)
}

/// When every line is a well-formed `WASTE` line, the list has one folder
/// per line, in the order of the lines: folder `i` is line `i`'s value
/// with `$HOME` expanded, removable exactly when the line has attributes.
pub proof fn lemma_folder_list_in_line_order(entries: Seq<ConfigOption>, homedir: Seq<char>)
    requires
        forall|i: int| 0 <= i < entries.len() ==> good_waste_line(#[trigger] entries[i]),
    ensures
        folder_list(entries, homedir) matches Ok(l) && l.len() == entries.len() && forall|i: int|
            0 <= i < entries.len() ==> (#[trigger] l[i]).0 == crate::text::replaced(
                entries[i].primary@,
                "$HOME"@,
                homedir,
            ) && l[i].1 == (entries[i].attributes@.len() > 0),
    decreases entries.len(),
{
    if entries.len() > 0 {
        let front = entries.drop_last();
        assert forall|i: int| 0 <= i < front.len() implies good_waste_line(#[trigger] front[i]) by {
            assert(front[i] == entries[i]);
        }
        lemma_folder_list_in_line_order(front, homedir);
        assert(good_waste_line(entries[entries.len() - 1]));
        let l = folder_list(front, homedir)->Ok_0;
        let full = folder_list(entries, homedir)->Ok_0;
        assert forall|i: int| 0 <= i < entries.len() implies (#[trigger] full[i]).0
            == crate::text::replaced(entries[i].primary@, "$HOME"@, homedir) && full[i].1 == (
        entries[i].attributes@.len() > 0) by {
            if i < front.len() {
                assert(full[i] == l[i]);
                assert(front[i] == entries[i]);
            }
        }
    }
}

/// The folder that holds the configuration file: `XDG_CONFIG_HOME` when
/// that variable is set and the tool is not in test mode, and `.config` in
/// the home directory otherwise.
pub open spec fn config_dir(homedir: Seq<char>, test_mode: bool, xdg_config_home: Option<
    Seq<char>,
>) -> Seq<char> {
    match (test_mode, xdg_config_home) {
        (false, Some(x)) => x,
        _ => homedir + "/.config"@,
    }
}

/// The folder that holds the configuration file (see `config_dir`).
pub fn config_home(homedir: &str, test_mode: bool, xdg_config_home: Option<String>) -> (d: String)
    ensures
        d@ == config_dir(homedir@, test_mode, xdg_config_home.deep_view()),
{
    match (test_mode, xdg_config_home) {
        (false, Some(x)) => x,
        _ => {
            let mut d = homedir.to_string();
            d.append("/.config");
            d
        },
    }
}

/// The configuration file: the one asked for, else `rmwrsrc` in the
/// configuration folder.
pub fn get_filename(
    homedir: &str,
    opt_cfg: Option<String>,
    test_mode: bool,
    xdg_config_home: Option<String>,
) -> (f: String)
    ensures
        f@ == match opt_cfg {
            Some(c) => c@,
            None => config_dir(homedir@, test_mode, xdg_config_home.deep_view()) + "/rmwrsrc"@,
        },
{
    match opt_cfg {
        Some(c) => c,
        None => {
            let mut f = config_home(homedir, test_mode, xdg_config_home);
            f.append("/rmwrsrc");
            f
        },
    }
}

} // verus!
