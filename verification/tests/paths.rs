use rmwrs::libgen::get_basename;
use rmwrs::mrl::mrl_file;
use rmwrs::paths::{get_datadir, get_homedir, HomeDirError};
use rmwrs::removal::Removal;

#[test]
fn check_get_basename() {
    let mut some_basename = r"./test/basename/";
    assert_eq!(get_basename(some_basename), "basename");

    some_basename = r"/./test/basename";
    assert_eq!(get_basename(some_basename), "basename");

    // a filename containing spaces
    some_basename = r"/./test/base name/";
    assert_eq!(get_basename(some_basename), "base name");
}

#[test]
fn basename_without_a_file_name() {
    assert_eq!(get_basename("/"), "/");
    assert_eq!(get_basename("foo/.."), "foo/..");
    assert_eq!(get_basename("plain"), "plain");
    assert_eq!(get_basename("."), ".");
    assert_eq!(get_basename(""), "");
    assert_eq!(get_basename("a/."), "a");
    assert_eq!(get_basename("a//b//"), "b");
    assert_eq!(get_basename("a/./."), "a");
    assert_eq!(get_basename("..a"), "..a");
}

#[test]
fn home_directory() {
    assert_eq!(
        get_homedir(Some("/test".to_string()), Some("/home/u".to_string())),
        Ok("/test".to_string())
    );
    assert_eq!(get_homedir(None, Some("/home/u".to_string())), Ok("/home/u".to_string()));
    assert_eq!(get_homedir(None, None), Err(HomeDirError::NotFound));
    assert_eq!(HomeDirError::NotFound.message(), "Unable to determine homedir");
}

#[test]
fn data_directory() {
    assert_eq!(get_datadir("/home/u", false, Some("/xdg".to_string())), "/xdg/rmwrs");
    assert_eq!(get_datadir("/home/u", true, Some("/xdg".to_string())), "/home/u/.local/share/rmwrs");
    assert_eq!(get_datadir("/home/u", false, None), "/home/u/.local/share/rmwrs");
    assert_eq!(get_datadir("/home/u", true, None), "/home/u/.local/share/rmwrs");
}

#[test]
fn most_recent_list() {
    assert!(mrl_file("/d", &[]).is_none());
    let m = mrl_file("/d", &["/w/files/a".to_string(), "/w/files/b".to_string()]).unwrap();
    assert_eq!(m.path, "/d/mrl");
    assert_eq!(m.contents, "/w/files/a\n/w/files/b\n");
}

#[test]
fn removal_destination_and_suffix() {
    let mut r = Removal::new("/w/files", "/home/u/docs/report.txt");
    assert_eq!(r.basename, "report.txt");
    assert_eq!(r.destination, "/w/files/report.txt");
    r.add_noclobber_suffix("_120000-200723");
    assert_eq!(r.basename, "report.txt_120000-200723");
    assert_eq!(r.destination, "/w/files/report.txt_120000-200723");
}
