use rmwrs::utils;

#[test]
fn rmw_utils_test_escape_url() {
    assert_eq!(utils::percent_encode("~/foo/bar&/baz boom"), "~/foo/bar%26/baz%20boom");
    assert_eq!(utils::percent_encode("~/hello&there/🐢👀🍻"), "~/hello%26there/🐢👀🍻");
}

#[test]
fn rmw_utils_test_unescape_url() {
    assert_eq!(utils::percent_decode("~/foo/bar%26/baz%20boom").unwrap(), "~/foo/bar&/baz boom");
    assert_eq!(utils::percent_decode("~/hello%26there/🐢👀🍻").unwrap(), "~/hello&there/🐢👀🍻");
}
