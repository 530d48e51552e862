use std::path::PathBuf;
use topd::number::is_int;
use topd::options::{
    parse, required_companion, Companion, PURGE, ParseError, ParsedOptions, ADD, DECREASE, DIRECTORY, INCREASE, LIMIT, SORTED,
    SORT_METHOD, STAT, STORE, STORE_NAME, TRUNCATE,
};
use topd::store::{default_store, get_store_path, resolve, StoreError, StoreLocation, StorePath};

fn argv(args: &[&str]) -> Vec<String> {
    args.iter().map(|a| a.to_string()).collect()
}

fn parsed(args: &[&str]) -> ParsedOptions {
    parse(&argv(args)).unwrap()
}

fn parse_err(args: &[&str]) -> ParseError {
    match parse(&argv(args)) {
        Ok(_) => panic!("{:?} parsed", args),
        Err(e) => e,
    }
}

#[test]
fn get_store_path_full() {
    let matches = parsed(&["topd", "--store", "/test/path"]);
    let store_path = get_store_path(&matches).unwrap().to_path_buf();
    assert_eq!(store_path, PathBuf::from("/test/path"));
}

#[test]
fn get_store_path_file() {
    let matches = parsed(&["topd", "--store_name", "test.path"]);
    let store_path = get_store_path(&matches).unwrap().to_path_buf();
    assert!(store_path.to_str().unwrap().ends_with("test.path"));
}

#[test]
fn default_store_named_after_program() {
    let path = default_store(None).unwrap().to_path_buf();
    assert_eq!(path.file_name().unwrap(), "topd.json");
    let named = default_store(Some("other.json".to_string())).unwrap().to_path_buf();
    assert_eq!(named.file_name().unwrap(), "other.json");
    assert_eq!(path.parent(), named.parent());
}

#[test]
fn conflicting_pairs_fail() {
    let pairs: [(&[&str], usize, usize); 5] = [
        (&["topd", "--store", "a", "--store_name", "b"], STORE, STORE_NAME),
        (&["topd", "-i", "3", "-a", "dir"], INCREASE, ADD),
        (&["topd", "-i", "3", "-d", "2", "dir"], INCREASE, DECREASE),
        (&["topd", "-a", "-d", "2", "dir"], ADD, DECREASE),
        (&["topd", "--sorted", "--stat"], SORTED, STAT),
    ];
    for (args, first, second) in pairs.iter() {
        assert_eq!(parse_err(args), ParseError::Conflict { first: *first, second: *second });
    }
}

#[test]
fn conflict_reported_in_either_order() {
    assert_eq!(
        parse_err(&["topd", "--store_name", "b", "--store", "a"]),
        ParseError::Conflict { first: STORE, second: STORE_NAME }
    );
}

#[test]
fn dependents_without_directory_fail() {
    assert_eq!(parse_err(&["topd", "-i", "3"]), ParseError::MissingRequirement { option: INCREASE });
    assert_eq!(parse_err(&["topd", "--add"]), ParseError::MissingRequirement { option: ADD });
    assert_eq!(
        parse_err(&["topd", "--decrease", "2"]),
        ParseError::MissingRequirement { option: DECREASE }
    );
}

#[test]
fn dependents_with_directory_parse() {
    let p = parsed(&["topd", "--add", "/tmp"]);
    assert!(p.is_present(ADD));
    assert_eq!(p.value_of(DIRECTORY), Some("/tmp".to_string()));
    let p = parsed(&["topd", "-i", "4", "/home"]);
    assert_eq!(p.value_of(INCREASE), Some("4".to_string()));
}

#[test]
fn sort_method_accepts_exactly_three() {
    for m in ["frecent", "frequent", "recent"].iter() {
        let p = parsed(&["topd", "--sort_method", m]);
        assert_eq!(p.value_of(SORT_METHOD), Some(m.to_string()));
    }
    for m in ["", "Frecent", "recency", "frecent "].iter() {
        assert_eq!(
            parse_err(&["topd", "--sort_method", m]),
            ParseError::InvalidValue { option: SORT_METHOD, value: m.to_string() }
        );
    }
}

#[test]
fn sort_method_defaults_to_frecent() {
    let p = parsed(&["topd"]);
    assert_eq!(p.value_of(SORT_METHOD), Some("frecent".to_string()));
    assert!(!p.is_present(STORE));
}

#[test]
fn truncate_accepts_signed_integers() {
    assert_eq!(parsed(&["topd", "--truncate", "5"]).value_of(TRUNCATE), Some("5".to_string()));
    assert_eq!(parsed(&["topd", "-T", "-3"]).value_of(TRUNCATE), Some("-3".to_string()));
}

#[test]
fn truncate_rejects_text_naming_it() {
    match parse_err(&["topd", "--truncate", "abc"]) {
        ParseError::InvalidValue { option, value } => {
            assert_eq!(option, TRUNCATE);
            assert!(value.contains("abc"));
        }
        e => panic!("unexpected {:?}", e),
    }
}

#[test]
fn is_int_edges() {
    assert_eq!(is_int("5"), Ok(()));
    assert_eq!(is_int("-3"), Ok(()));
    assert_eq!(is_int("+7"), Ok(()));
    assert_eq!(is_int("9223372036854775807"), Ok(()));
    assert_eq!(is_int("-9223372036854775808"), Ok(()));
    assert_eq!(
        is_int("9223372036854775808"),
        Err("invalid integer 9223372036854775808".to_string())
    );
    assert_eq!(
        is_int("-9223372036854775809"),
        Err("invalid integer -9223372036854775809".to_string())
    );
    assert_eq!(is_int(""), Err("invalid integer ".to_string()));
    assert_eq!(is_int("-"), Err("invalid integer -".to_string()));
    assert_eq!(is_int("12a"), Err("invalid integer 12a".to_string()));
    assert_eq!(is_int(" 1"), Err("invalid integer  1".to_string()));
}

#[test]
fn is_int_message_names_value() {
    assert_eq!(is_int("abc"), Err("invalid integer abc".to_string()));
}

#[test]
fn limit_needs_a_list() {
    assert_eq!(parse_err(&["topd", "--limit", "5"]), ParseError::MissingRequirement { option: LIMIT });
    let p = parsed(&["topd", "--limit", "5", "--sorted"]);
    assert_eq!(p.value_of(LIMIT), Some("5".to_string()));
    assert!(p.is_present(SORTED));
    assert!(parse(&argv(&["topd", "-l", "5", "-s"])).is_ok());
}

#[test]
fn malformed_lists_fail() {
    assert_eq!(parse_err(&["topd", "--bogus"]), ParseError::UnknownArgument { index: 1 });
    assert_eq!(parse_err(&["topd", "-x"]), ParseError::UnknownArgument { index: 1 });
    assert_eq!(parse_err(&["topd", "--store"]), ParseError::MissingValue { option: STORE });
    assert_eq!(parse_err(&["topd", "-P", "--purge"]), ParseError::DuplicateOption { option: 2 });
    assert_eq!(parse_err(&["topd", "a", "b"]), ParseError::ExtraPositional { index: 2 });
}

#[test]
fn resolve_keeps_explicit_path() {
    let r = resolve(StoreLocation::Explicit("/test/path".to_string()), None);
    match r {
        Ok(StorePath::Explicit(p)) => assert_eq!(p, "/test/path"),
        _ => panic!("explicit path not kept"),
    }
}

#[test]
fn resolve_named_file_in_data_dir() {
    let r = resolve(StoreLocation::Named("test.path".to_string()), Some(PathBuf::from("/data")));
    let path = r.unwrap().to_path_buf();
    assert_eq!(path.file_name().unwrap(), "test.path");
    assert_eq!(path.parent().unwrap(), PathBuf::from("/data"));
}

#[test]
fn resolve_default_file_in_data_dir() {
    let r = resolve(StoreLocation::Default, Some(PathBuf::from("/data")));
    let path = r.unwrap().to_path_buf();
    assert_eq!(path, PathBuf::from("/data/topd.json"));
}

#[test]
fn resolve_without_data_dir_fails() {
    assert!(matches!(
        resolve(StoreLocation::Default, None),
        Err(StoreError::NoDataDirectory)
    ));
    assert!(matches!(
        resolve(StoreLocation::Named("x".to_string()), None),
        Err(StoreError::NoDataDirectory)
    ));
}

#[test]
fn long_option_value_after_equals() {
    assert_eq!(parsed(&["topd", "--truncate=-3"]).value_of(TRUNCATE), Some("-3".to_string()));
    assert_eq!(
        parsed(&["topd", "--store=/a=b"]).value_of(STORE),
        Some("/a=b".to_string())
    );
    assert_eq!(
        parse_err(&["topd", "--truncate="]),
        ParseError::InvalidValue { option: TRUNCATE, value: String::new() }
    );
}

#[test]
fn short_values_and_groups() {
    assert_eq!(parsed(&["topd", "-T5"]).value_of(TRUNCATE), Some("5".to_string()));
    let p = parsed(&["topd", "-Pa", "dir"]);
    assert!(p.is_present(PURGE));
    assert!(p.is_present(ADD));
    let p = parsed(&["topd", "-sl", "4"]);
    assert_eq!(p.value_of(LIMIT), Some("4".to_string()));
    assert_eq!(parse_err(&["topd", "-Px"]), ParseError::UnknownArgument { index: 1 });
}

#[test]
fn double_dash_ends_options() {
    let p = parsed(&["topd", "--", "-a"]);
    assert_eq!(p.value_of(DIRECTORY), Some("-a".to_string()));
    assert!(!p.is_present(ADD));
    assert_eq!(parse_err(&["topd", "x", "--", "y"]), ParseError::ExtraPositional { index: 3 });
}

#[test]
fn help_and_version_requests() {
    assert_eq!(parse_err(&["topd", "--help"]), ParseError::HelpRequested);
    assert_eq!(parse_err(&["topd", "-h"]), ParseError::HelpRequested);
    assert_eq!(parse_err(&["topd", "--version"]), ParseError::VersionRequested);
    assert_eq!(parse_err(&["topd", "-V"]), ParseError::VersionRequested);
}

#[test]
fn flag_with_value_fails() {
    assert_eq!(parse_err(&["topd", "--purge=x"]), ParseError::UnexpectedValue { option: PURGE });
}

#[test]
fn companions_named() {
    assert_eq!(required_companion(ADD), Some(Companion::Directory));
    assert_eq!(required_companion(INCREASE), Some(Companion::Directory));
    assert_eq!(required_companion(DECREASE), Some(Companion::Directory));
    assert_eq!(required_companion(LIMIT), Some(Companion::ListsGroup));
    assert_eq!(required_companion(STORE), None);
}
