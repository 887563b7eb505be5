use tristimg::naming::{find_last, format_data_file_name, parent_of_path, stem_of_path};
use tristimg::numeral::{decimal, push_decimal, zero_pad};

#[test]
fn decimal_writes_zero_as_one_digit() {
    assert_eq!(decimal(0), "0");
}

#[test]
fn decimal_writes_every_digit() {
    assert_eq!(decimal(1234567890), "1234567890");
    assert_eq!(decimal(9), "9");
    assert_eq!(decimal(10), "10");
    assert_eq!(decimal(4294967295), "4294967295");
}

#[test]
fn decimal_writes_the_largest_number() {
    assert_eq!(decimal(u128::MAX), "340282366920938463463374607431768211455");
}

#[test]
fn push_decimal_appends_to_what_is_there() {
    let mut text = String::from("module_");
    push_decimal(&mut text, 12);
    assert_eq!(text, "module_12");
}

#[test]
fn zero_pad_fills_up_to_the_width() {
    assert_eq!(zero_pad(7, 4), "0007");
    assert_eq!(zero_pad(42, 6), "000042");
    assert_eq!(zero_pad(0, 3), "000");
}

#[test]
fn zero_pad_leaves_a_number_of_the_width_alone() {
    assert_eq!(zero_pad(1234, 4), "1234");
}

#[test]
fn zero_pad_never_truncates() {
    assert_eq!(zero_pad(123456, 4), "123456");
    assert_eq!(zero_pad(10, 1), "10");
}

#[test]
fn zero_pad_with_width_zero_writes_the_numeral() {
    assert_eq!(zero_pad(0, 0), "0");
    assert_eq!(zero_pad(305, 0), "305");
}

#[test]
fn zero_pad_agrees_with_the_standard_formatter() {
    for width in 0..9usize {
        for number in [0u128, 1, 9, 10, 99, 100, 12345, 99999999, 100000000] {
            assert_eq!(zero_pad(number, width), format!("{number:0>width$}"));
        }
    }
}

#[test]
fn data_file_name_joins_prefix_number_and_extension() {
    assert_eq!(format_data_file_name("run", 1, 4), "run_0001.h5");
    assert_eq!(format_data_file_name("run", 3, 4), "run_0003.h5");
    assert_eq!(format_data_file_name("scan_17", 120, 6), "scan_17_000120.h5");
}

#[test]
fn data_file_name_keeps_long_numbers_whole() {
    assert_eq!(format_data_file_name("run", 12345, 2), "run_12345.h5");
}

#[test]
fn data_file_name_with_an_empty_prefix() {
    assert_eq!(format_data_file_name("", 5, 3), "_005.h5");
}

#[test]
fn find_last_gives_the_last_occurrence() {
    assert_eq!(find_last("a/b/c", '/'), Some(3));
    assert_eq!(find_last("/abc", '/'), Some(0));
    assert_eq!(find_last("abc/", '/'), Some(3));
}

#[test]
fn find_last_gives_nothing_where_the_character_is_absent() {
    assert_eq!(find_last("abc", '/'), None);
    assert_eq!(find_last("", '/'), None);
}

#[test]
fn find_last_counts_characters_not_bytes() {
    assert_eq!(find_last("é/ü/x", '/'), Some(3));
}

#[test]
fn stem_is_the_file_name_without_its_extension() {
    assert_eq!(stem_of_path("/data/run.nxs"), Some("run".to_string()));
    assert_eq!(stem_of_path("relative/dir/scan_12.nxs"), Some("scan_12".to_string()));
    assert_eq!(stem_of_path("run.nxs"), Some("run".to_string()));
}

#[test]
fn stem_drops_only_the_last_extension() {
    assert_eq!(stem_of_path("/data/run.tar.gz"), Some("run.tar".to_string()));
}

#[test]
fn stem_of_a_name_without_extension_is_the_name() {
    assert_eq!(stem_of_path("/data/run"), Some("run".to_string()));
}

#[test]
fn stem_of_a_name_with_only_a_leading_dot_is_the_name() {
    assert_eq!(stem_of_path("/data/.hidden"), Some(".hidden".to_string()));
    assert_eq!(stem_of_path("/data/.hidden.nxs"), Some(".hidden".to_string()));
}

#[test]
fn stem_of_a_name_that_ends_in_a_dot() {
    assert_eq!(stem_of_path("/data/run."), Some("run".to_string()));
}

#[test]
fn stem_is_missing_from_an_empty_path() {
    assert_eq!(stem_of_path(""), None);
}

#[test]
fn stem_is_missing_from_the_root() {
    assert_eq!(stem_of_path("/"), None);
}

#[test]
fn stem_is_missing_where_the_path_ends_in_a_separator() {
    assert_eq!(stem_of_path("/data/"), None);
}

#[test]
fn stem_is_missing_from_dot_and_dot_dot() {
    assert_eq!(stem_of_path("."), None);
    assert_eq!(stem_of_path(".."), None);
    assert_eq!(stem_of_path("/data/."), None);
    assert_eq!(stem_of_path("/data/.."), None);
}

#[test]
fn stem_agrees_with_the_standard_library_on_file_paths() {
    for path in [
        "/data/run.nxs",
        "run.nxs",
        "a/b/c.d.e",
        "/x/.hidden",
        "/x/.hidden.h5",
        "./run",
        "../up/run.nxs",
        "/x/y.",
        "",
        "/",
        "..",
        "a/..",
    ] {
        let expected = std::path::Path::new(path)
            .file_stem()
            .and_then(|stem| stem.to_str())
            .map(|stem| stem.to_string());
        assert_eq!(stem_of_path(path), expected, "{path}");
    }
}

#[test]
fn parent_is_the_path_up_to_the_last_separator() {
    assert_eq!(parent_of_path("/data/run.nxs"), Some("/data/".to_string()));
    assert_eq!(parent_of_path("a/b/run.nxs"), Some("a/b/".to_string()));
    assert_eq!(parent_of_path("./run.nxs"), Some("./".to_string()));
}

#[test]
fn parent_of_a_file_in_the_root_is_the_root() {
    assert_eq!(parent_of_path("/run.nxs"), Some("/".to_string()));
}

#[test]
fn parent_is_missing_from_a_bare_file_name() {
    assert_eq!(parent_of_path("run.nxs"), None);
    assert_eq!(parent_of_path(""), None);
}
