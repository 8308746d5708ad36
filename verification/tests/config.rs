use rmwrs::config::{
    assign_properties, config_home, get_filename, is_removable, is_waste_option, waste_folder,
    waste_folders,
    ConfigError, ConfigOption,
};
use rmwrs::waste::WasteFolderProperties;

fn entry(option: &str, primary: &str, attributes: &[&str]) -> ConfigOption {
    ConfigOption {
        option: option.to_string(),
        primary: primary.to_string(),
        attributes: attributes.iter().map(|a| a.to_string()).collect(),
    }
}

#[test]
fn removable_attribute() {
    assert_eq!(is_removable(&[]), Ok(false));
    assert_eq!(is_removable(&["removable".to_string()]), Ok(true));
    assert_eq!(
        is_removable(&["removable".to_string(), "other".to_string()]),
        Ok(true)
    );
    assert_eq!(
        is_removable(&["fixed".to_string()]),
        Err(ConfigError::UnknownAttribute)
    );
    assert_eq!(
        ConfigError::UnknownAttribute.message(),
        "Unknown attribute (try 'removable'"
    );
}

#[test]
fn waste_option_lines() {
    assert!(is_waste_option(&entry("WASTE", "$HOME/.trash", &[])));
    assert!(!is_waste_option(&entry("purge_after", "90", &[])));
    assert!(!is_waste_option(&entry("waste", "x", &[])));
}

#[test]
fn waste_folder_properties() {
    let w = assign_properties(&entry("WASTE", "$HOME/.rmwrs-Trash-test", &["removable"]), "/home/u");
    assert_eq!(w.parent, "/home/u/.rmwrs-Trash-test");
    assert_eq!(w.info, "/home/u/.rmwrs-Trash-test/info");
    assert_eq!(w.file, "/home/u/.rmwrs-Trash-test/files");
    assert!(!w.is_removable);
    assert_eq!(w.dev_num, 0);

    let w = assign_properties(&entry("WASTE", "/mnt/$HOME/$HOME", &[]), "/h");
    assert_eq!(w.parent, "/mnt//h//h");
    let w = assign_properties(&entry("WASTE", "/mnt/$HOM", &[]), "/h");
    assert_eq!(w.parent, "/mnt/$HOM");
}

#[test]
fn new_and_default_waste_folder() {
    for w in [WasteFolderProperties::new(), WasteFolderProperties::default()] {
        assert_eq!(w.parent, "");
        assert_eq!(w.info, "");
        assert_eq!(w.file, "");
        assert!(!w.is_removable);
        assert_eq!(w.dev_num, 0);
    }
}

#[test]
fn configuration_file_location() {
    assert_eq!(config_home("/home/u", false, Some("/xdg".to_string())), "/xdg");
    assert_eq!(config_home("/home/u", true, Some("/xdg".to_string())), "/home/u/.config");
    assert_eq!(config_home("/home/u", false, None), "/home/u/.config");
    assert_eq!(config_home("/home/u", true, None), "/home/u/.config");
    assert_eq!(
        get_filename("/home/u", Some("/tmp/custom".to_string()), false, Some("/xdg".to_string())),
        "/tmp/custom"
    );
    assert_eq!(get_filename("/home/u", None, false, None), "/home/u/.config/rmwrsrc");
    assert_eq!(
        get_filename("/home/u", None, false, Some("/xdg".to_string())),
        "/xdg/rmwrsrc"
    );
    assert_eq!(
        get_filename("/home/u", None, true, Some("/xdg".to_string())),
        "/home/u/.config/rmwrsrc"
    );
}

#[test]
fn waste_folder_of_a_line() {
    assert!(waste_folder(&entry("purge_after", "90", &[]), "/home/u").is_none());
    let w = waste_folder(&entry("WASTE", "$HOME/.trash", &["removable"]), "/home/u")
        .unwrap()
        .unwrap();
    assert_eq!(w.parent, "/home/u/.trash");
    assert_eq!(w.info, "/home/u/.trash/info");
    assert_eq!(w.file, "/home/u/.trash/files");
    assert!(w.is_removable);
    assert_eq!(w.dev_num, 0);
    let w = waste_folder(&entry("WASTE", "/mnt/w", &[]), "/home/u").unwrap().unwrap();
    assert!(!w.is_removable);
    assert_eq!(w.parent, "/mnt/w");
    assert_eq!(
        waste_folder(&entry("WASTE", "/mnt/w", &["fixed"]), "/home/u").unwrap().err(),
        Some(ConfigError::UnknownAttribute)
    );
}

#[test]
fn waste_folders_in_order() {
    let lines = vec![
        entry("purge_after", "90", &[]),
        entry("WASTE", "$HOME/.trash", &["removable"]),
        entry("force_required", "", &[]),
        entry("WASTE", "/mnt/w", &[]),
    ];
    let v = waste_folders(&lines, "/home/u").unwrap();
    assert_eq!(v.len(), 2);
    assert_eq!(v[0].parent, "/home/u/.trash");
    assert_eq!(v[0].info, "/home/u/.trash/info");
    assert_eq!(v[0].file, "/home/u/.trash/files");
    assert!(v[0].is_removable);
    assert_eq!(v[1].parent, "/mnt/w");
    assert!(!v[1].is_removable);
    assert_eq!(v[1].dev_num, 0);

    assert!(waste_folders(&[], "/home/u").unwrap().is_empty());
    let bad = vec![
        entry("WASTE", "/a", &[]),
        entry("WASTE", "/b", &["fixed"]),
        entry("WASTE", "/c", &["also-bad"]),
    ];
    assert_eq!(waste_folders(&bad, "/home/u").err(), Some(ConfigError::UnknownAttribute));
}
