//! The artifact identifier on concrete paths.

use library_mode::calc_cdylib_name;
use library_mode::artifact::cdylib_name_of_file;

#[test]
fn calc_cdylib_name_is_correct() {
    assert_eq!(
        "uniffi",
        calc_cdylib_name("/path/to/libuniffi.so".into()).unwrap()
    );
    assert_eq!(
        "uniffi",
        calc_cdylib_name("/path/to/libuniffi.dylib".into()).unwrap()
    );
    assert_eq!(
        "uniffi",
        calc_cdylib_name("/path/to/uniffi.dll".into()).unwrap()
    );
}

#[test]
fn other_suffixes_identify_nothing() {
    assert!(calc_cdylib_name("/out/notadll.txt").is_none());
    assert!(calc_cdylib_name("/path/to/libuniffi.a").is_none());
    assert!(calc_cdylib_name("/path/to/uniffi").is_none());
}

#[test]
fn bare_suffix_identifies_nothing() {
    assert!(calc_cdylib_name("/path/to/lib.so").is_none());
    assert!(calc_cdylib_name("/path/to/.dll").is_none());
}

#[test]
fn base_name_without_directory_works() {
    assert_eq!("demo", calc_cdylib_name("libdemo.so").unwrap());
    assert_eq!("demo", cdylib_name_of_file("libdemo.dylib").unwrap());
    assert_eq!("demo", cdylib_name_of_file("demo.dll").unwrap());
    assert!(cdylib_name_of_file("demo.txt").is_none());
}

#[test]
fn lib_prefix_is_stripped_unconditionally() {
    // The documented edge case: a library whose own name begins with
    // `lib` is mis-stripped on the suffix family that has no such
    // convention.
    assert_eq!("uniffi", calc_cdylib_name("/path/to/libuniffi.dll").unwrap());
}

#[test]
fn path_without_file_name_identifies_nothing() {
    assert!(calc_cdylib_name("/path/to/..").is_none());
}
