//! The home and data directories the tool works in.
use vstd::prelude::*;

verus! {

/// No home directory could be found.
#[derive(Debug, Clone, Copy, PartialEq, Eq)]
pub enum HomeDirError {
    NotFound,
}

impl HomeDirError {
    /// The message the tool shows for this error.
    pub fn message(&self) -> (s: String)
        ensures
            s@ == "Unable to determine homedir"@,
    {
        "Unable to determine homedir".to_string()
    }
}

/// The home directory: `RMWRS_TEST_HOME` when it is set (`test_home`),
/// else the user's home directory (`home_dir`), else an error.
pub fn get_homedir(test_home: Option<String>, home_dir: Option<String>) -> (r: Result<
    String,
    HomeDirError,
>)
    ensures
        match (test_home, home_dir) {
            (Some(t), _) => r matches Ok(h) && h@ == t@,
            (None, Some(d)) => r matches Ok(h) && h@ == d@,
            (None, None) => r == Err::<String, HomeDirError>(HomeDirError::NotFound),
        },
{
    match test_home {
        Some(t) => Ok(t),
        None => match home_dir {
            Some(d) => Ok(d),
            None => Err(HomeDirError::NotFound),
        },
    }
}

/// The data directory: `rmwrs` in `XDG_DATA_HOME` when that variable is
/// set and the tool is not in test mode, and in `.local/share` in the home
/// directory otherwise.
pub fn get_datadir(homedir: &str, test_mode: bool, xdg_data_home: Option<String>) -> (d: String)
    ensures
        d@ == match (test_mode, xdg_data_home.deep_view()) {
            (false, Some(x)) => x,
            _ => homedir@ + "/.local/share"@,
        } + "/rmwrs"@,
{
    let mut data_home = match (test_mode, xdg_data_home) {
        (false, Some(x)) => x,
        _ => {
            let mut d = homedir.to_string();
            d.append("/.local/share");
            d
        },
    };
    data_home.append("/rmwrs");
    data_home
}

} // verus!
