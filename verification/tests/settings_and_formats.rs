use rs_mod_lua::codec::{
    decode_none, decode_number_text, decode_u64, decode_unit, is_number_marker, parse_i64, Absent,
    DecodeConfig, EncodeConfig, NumberText, U64Decoded,
};
use rs_mod_lua::datetime::{datefmt, timefmt};
use rs_mod_lua::draft::LuaDraft;
use rs_mod_lua::fs::{
    format_octal_mode, parse_octal_mode, seek_target, AttrValue, LfsAttributes, SeekError,
    SeekTarget, StatRecord,
};
use rs_mod_lua::path::LuaPath;

// JSON SCHEMA DRAFTS //

#[test]
fn test_lua_draft() {
    let draft_string = LuaDraft::Draft201909.lua_tostring();

    assert!(draft_string == "Draft201909");

    let draft = LuaDraft::from_name(&draft_string).unwrap();

    assert!(matches!(draft, LuaDraft::Draft201909));
}

#[test]
fn draft_names_and_aliases() {
    assert_eq!(LuaDraft::from_name("draft7"), Some(LuaDraft::Draft7));
    assert_eq!(LuaDraft::from_name("DRAFT4"), Some(LuaDraft::Draft4));
    assert_eq!(LuaDraft::from_name("Draft8"), None);
    assert!(LuaDraft::Draft6.lua_eq(LuaDraft::Draft6));
    assert!(!LuaDraft::Draft6.lua_eq(LuaDraft::Draft7));
    assert_eq!(
        LuaDraft::lua_from_schema_uri("http://json-schema.org/draft-07/schema#"),
        LuaDraft::Draft7
    );
    assert_eq!(
        LuaDraft::Draft4.lua_detect(Some("https://json-schema.org/draft/2020-12/schema")),
        LuaDraft::Draft202012
    );
    assert_eq!(LuaDraft::Draft4.lua_detect(None), LuaDraft::Draft4);
    assert!(LuaDraft::Draft202012.lua_is_known_keyword("prefixItems"));
    assert!(!LuaDraft::Draft4.lua_is_known_keyword("prefixItems"));
}

#[test]
fn keywords_follow_the_draft_table() {
    let all = [LuaDraft::Draft4, LuaDraft::Draft6, LuaDraft::Draft7, LuaDraft::Draft201909, LuaDraft::Draft202012, LuaDraft::Unknown];
    let expect = |k: &str, known: [bool; 6]| {
        for (d, want) in all.iter().zip(known) {
            assert_eq!(d.lua_is_known_keyword(k), want, "{k} in {}", d.lua_tostring());
        }
    };
    expect("type", [true, true, true, true, true, true]);
    expect("id", [true, false, false, false, false, false]);
    expect("$id", [false, true, true, true, true, true]);
    expect("contentMediaType", [false, true, true, true, true, true]);
    expect("if", [false, false, true, true, true, true]);
    expect("contentSchema", [false, false, false, true, true, true]);
    expect("unevaluatedProperties", [false, false, false, true, true, true]);
    expect("$dynamicRef", [false, false, false, false, true, true]);
    expect("nonsense", [false, false, false, false, false, false]);
}

// JSON DECODING SETTINGS //

#[test]
fn it_json_cast_u64_to_f64() {
    let mut config = DecodeConfig::lua_new();
    config.cast_u64_to_f64 = true;

    let v = u64::MAX;

    let res = decode_u64(v, &config);

    assert_eq!(res, U64Decoded::Float(v));
    match res {
        U64Decoded::Float(n) => assert_eq!(n as f64, v as f64),
        _ => unreachable!(),
    }
}

#[test]
fn it_json_err_cast_u64_to_f64() {
    let mut config = DecodeConfig::lua_new();
    config.cast_u64_to_f64 = false;

    let v = u64::MAX;

    let res = decode_u64(v, &config);

    assert_eq!(res, U64Decoded::OutOfRange);
}

#[test]
fn u64_that_fits_stays_an_integer() {
    let config = DecodeConfig::lua_new();
    assert_eq!(decode_u64(99, &config), U64Decoded::Integer(99));
    assert_eq!(decode_u64(i64::MAX as u64, &config), U64Decoded::Integer(i64::MAX));
}

#[test]
fn decode_settings_read_back() {
    let mut config = DecodeConfig::lua_new();
    assert!(config.lua_null());
    assert!(config.lua_array_metatable());
    assert!(!config.lua_cast_u64_to_f64());
    let updated = config.lua_set_null(false);
    assert!(!updated.lua_null());
    assert!(!config.lua_null());
    assert_eq!(decode_unit(&config), Absent::Nil);
    assert_eq!(decode_none(&config), Absent::Nil);
    config.lua_set_null(true);
    assert_eq!(decode_unit(&config), Absent::Null);
    assert_eq!(decode_none(&config), Absent::Null);
    assert!(config.lua_set_cast_u64_to_f64(true).lua_cast_u64_to_f64());
    assert!(!config.lua_set_array_metatable(false).lua_array_metatable());
    assert!(is_number_marker("$serde_json::private::Number", &config));
    assert!(!is_number_marker("number", &config));
}

#[test]
fn encode_settings_read_back() {
    let mut config = EncodeConfig::lua_new();
    assert_eq!(config.lua_indent(), None);
    assert_eq!(config.lua_prefix(), " ");
    assert!(config.lua_deny_unsupported_types());
    assert!(config.lua_deny_recursive_tables());
    assert!(!config.lua_sort_keys());
    assert!(!config.lua_encode_empty_tables_as_array());
    assert!(!config.lua_detect_mixed_tables());
    assert_eq!(config.lua_set_indent(Some(2)).lua_indent(), Some(2));
    assert_eq!(config.lua_set_prefix("--").lua_prefix(), "--");
    assert!(config.lua_set_sort_keys(true).lua_sort_keys());
    assert!(!config.lua_set_deny_unsupported_types(false).lua_deny_unsupported_types());
    assert!(!config.lua_set_deny_recursive_tables(false).lua_deny_recursive_tables());
    assert!(config.lua_set_encode_empty_tables_as_array(true).lua_encode_empty_tables_as_array());
    assert!(config.lua_set_detect_mixed_tables(true).lua_detect_mixed_tables());
    assert_eq!(config.lua_indent(), Some(2));
}

#[test]
fn integers_kept_as_text() {
    assert_eq!(parse_i64("42"), Some(42));
    assert_eq!(parse_i64("-9223372036854775808"), Some(i64::MIN));
    assert_eq!(parse_i64("9223372036854775808"), None);
    assert_eq!(parse_i64("+7"), Some(7));
    assert_eq!(parse_i64(""), None);
    assert_eq!(parse_i64("1.5"), None);
    assert_eq!(decode_number_text("12"), NumberText::Integer(12));
    assert_eq!(decode_number_text("1e3"), NumberText::NotInteger);
}

// DATE AND TIME FILTERS //

#[test]
fn test_minijinja_datefmt_filter() {
    let date = "2000-01-01";
    let ex = "2000-01-01";

    let res = datefmt(Some(date), None, None).unwrap();

    assert_eq!(res, ex, "{} should parse to {}", date, ex);
}

#[test]
fn test_minijinja_datefmt_filter_format() {
    let date: &str = "2000-01-01T11:12:13";
    let ex = "January 1, 2000";
    let fmt = "%B %-d, %Y";

    let res = datefmt(Some(date), Some(fmt), None).unwrap();

    assert_eq!(res, ex, "{} should parse to {}", date, ex);
}

#[test]
fn test_minijinja_datefmt_filter_parse() {
    let date = "2026 1 January";
    let ex = "2026-01-01";
    let patt = "%Y %-d %B";

    let res = datefmt(Some(date), None, Some(vec![patt.to_string()])).unwrap();

    assert_eq!(res, ex, "{} should parse to {}", date, ex);
}

#[test]
fn test_minijinja_timefmt_filter() {
    let time = "2000-01-01T11:12:13";
    let ex = "11:12:13";

    let res = timefmt(Some(time), None, None).unwrap();

    assert_eq!(res, ex, "{} should parse to {}", time, ex);
}

#[test]
fn test_minijinja_timefmt_filter_format() {
    let time = "12:02:31";
    let ex = "31:02:12";
    let fmt = "%S:%M:%H";

    let res = timefmt(Some(time), Some(fmt), None).unwrap();

    assert_eq!(res, ex, "{} should parse to {}", time, ex);
}

#[test]
fn test_minijinja_timefmt_filter_parse() {
    let time = "04 02 09";
    let ex = "02:04:09";
    let patt = "%M %H %S";

    let res = timefmt(Some(time), None, Some(vec![patt.to_string()])).unwrap();

    assert_eq!(res, ex, "{} should parse to {}", time, ex);
}

#[test]
fn date_patterns_are_tried_in_order_then_the_default_parser() {
    let pats = vec!["%d/%m/%Y".to_string(), "%Y %-d %B".to_string()];
    assert_eq!(datefmt(Some("2026 1 January"), None, Some(pats.clone())).unwrap(), "2026-01-01");
    assert_eq!(datefmt(Some("2001-02-03"), None, Some(pats)).unwrap(), "2001-02-03");
    assert!(datefmt(Some("not a date"), None, None).is_err());
    assert_eq!(datefmt(None, None, None).unwrap_err(), "could not parse value as a string");
    assert!(timefmt(Some("not a time"), None, None).is_err());
}

// FILE SYSTEM HELPERS //

#[test]
fn permission_bits_in_octal() {
    assert_eq!(parse_octal_mode("755"), Some(0o755));
    assert_eq!(parse_octal_mode("+644"), Some(0o644));
    assert_eq!(parse_octal_mode("8"), None);
    assert_eq!(parse_octal_mode(""), None);
    assert_eq!(parse_octal_mode("+"), None);
    assert_eq!(parse_octal_mode("37777777777"), Some(u32::MAX));
    assert_eq!(parse_octal_mode("40000000000"), None);
    assert_eq!(format_octal_mode(0o100644), "100644");
    assert_eq!(format_octal_mode(0), "0");
    for mode in [0u32, 7, 8, 0o755, 0o4755, u32::MAX] {
        assert_eq!(parse_octal_mode(&format_octal_mode(mode)), Some(mode));
    }
}

#[test]
fn seek_requests() {
    assert!(matches!(seek_target(Some(5), Some("start")), Ok(SeekTarget::Start(5))));
    assert!(matches!(seek_target(Some(-5), Some("start")), Err(SeekError::OutOfRange)));
    assert!(matches!(seek_target(Some(-5), Some("end")), Ok(SeekTarget::End(-5))));
    assert!(matches!(seek_target(None, Some("current")), Ok(SeekTarget::Current(0))));
    assert!(matches!(seek_target(Some(3), None), Ok(SeekTarget::Current(3))));
    let err = seek_target(Some(1), Some("middle")).unwrap_err();
    assert_eq!(
        err.message(),
        "invalid option. Must be one of `start`, `end`, or `current`: middle"
    );
    assert_eq!(
        SeekError::OutOfRange.message(),
        "out of range integral type conversion attempted"
    );
}

fn stat() -> StatRecord {
    StatRecord {
        dev: 1,
        ino: 2,
        nlink: 3,
        uid: 4,
        gid: 5,
        rdev: 6,
        accessed: Some(7),
        modified: None,
        ctime: -8,
        size: 9,
        mode: 0o100644,
        blocks: Some(10),
        blksize: None,
    }
}

#[test]
fn lfs_attributes_from_a_stat() {
    let a = LfsAttributes::new(&stat());
    assert_eq!(a.dev, 1);
    assert_eq!(a.mode, "");
    assert_eq!(a.access, 7);
    assert_eq!(a.modification, 0);
    assert_eq!(a.change, -8);
    assert_eq!(a.permissions, 0o100644);
    assert_eq!(a.blocks, Some(10));
    assert_eq!(a.target, None);

    let all = a.entries(None);
    let names: Vec<&str> = all.iter().map(|(n, _)| n.as_str()).collect();
    assert_eq!(
        names,
        vec![
            "dev", "ino", "mode", "nlink", "uid", "gid", "rdev", "access", "modification",
            "change", "size", "permissions", "blocks", "blksize", "target"
        ]
    );
    assert!(matches!(all[9].1, AttrValue::Signed(-8)));
    assert!(matches!(all[13].1, AttrValue::Nil));

    let one = a.entries(Some("size"));
    assert_eq!(one.len(), 1);
    assert_eq!(one[0].0, "size");
    assert!(matches!(one[0].1, AttrValue::Unsigned(9)));
    assert!(a.entries(Some("colour")).is_empty());
}

#[test]
fn paths_edit_as_text() {
    let mut p = LuaPath::lua_new();
    assert_eq!(p.lua_tostring(), "");
    assert!(!p.lua_pop());
    assert_eq!(p.lua_tostring(), "");
    p.lua_push(&LuaPath::lua_from("etc"));
    p.lua_push(&LuaPath::lua_from("passwd"));
    let joined = p.lua_tostring();
    assert!(joined.starts_with("etc") && joined.ends_with("passwd"));
    assert!(p.lua_pop());
    assert_eq!(p.lua_tostring(), "etc");
}

#[test]
fn paths_push_and_pop_plain_names() {
    let mut p = LuaPath::lua_new();
    p.lua_push(&LuaPath::lua_from("etc"));
    assert_eq!(p.lua_tostring(), "etc");
    p.lua_push(&LuaPath::lua_from("hosts"));
    let joined = p.lua_tostring();
    assert!(joined == "etc/hosts" || joined == "etc\\hosts");
    let mut q = LuaPath::lua_from("foo/bar");
    assert!(q.lua_pop());
    assert_eq!(q.lua_tostring(), "foo");
    assert!(q.lua_pop());
    assert_eq!(q.lua_tostring(), "");
    assert!(!q.lua_pop());
    let mut a = LuaPath::lua_from("a/b");
    a.lua_push(&LuaPath::lua_from("/etc"));
    assert_eq!(a.lua_tostring(), "/etc");
    let mut r = LuaPath::lua_from("/x");
    assert!(r.lua_pop());
    assert_eq!(r.lua_tostring(), "/");
    assert!(!r.lua_pop());
    assert_eq!(r.lua_tostring(), "/");
}

#[test]
fn path_queries_on_plain_paths() {
    let p = LuaPath::lua_from("foo/bar.txt");
    assert_eq!(p.lua_parent().unwrap().lua_tostring(), "foo");
    assert_eq!(p.lua_file_name(), Some("bar.txt".to_string()));
    assert_eq!(p.lua_file_stem(), Some("bar".to_string()));
    assert_eq!(p.lua_extension(), Some("txt".to_string()));
    assert!(p.lua_is_relative());
    assert!(!p.lua_is_absolute());
    assert!(!p.lua_has_root());
    assert!(p.lua_starts_with(&LuaPath::lua_from("foo")));
    assert!(p.lua_ends_with(&LuaPath::lua_from("bar.txt")));
    assert_eq!(p.lua_strip_prefix("foo").unwrap().lua_tostring(), "bar.txt");
    assert!(p.lua_strip_prefix("baz").is_err());
    assert_eq!(p.lua_with_extension("md").lua_tostring(), "foo/bar.md");
    assert_eq!(p.lua_with_file_name("x").lua_tostring(), "foo/x");
    assert_eq!(LuaPath::lua_from("a").lua_join(&LuaPath::lua_from("/etc")).lua_tostring(), "/etc");
    assert!(LuaPath::lua_new().lua_parent().is_none());
    assert!(LuaPath::lua_from("/").lua_file_name().is_none());
    assert!(LuaPath::lua_from("/x").lua_has_root());
    let names: Vec<String> = p.lua_components().iter().map(|c| c.lua_tostring()).collect();
    assert_eq!(names, vec!["foo".to_string(), "bar.txt".to_string()]);
    let up: Vec<String> = p.lua_ancestors().iter().map(|c| c.lua_tostring()).collect();
    assert_eq!(up, vec!["foo/bar.txt".to_string(), "foo".to_string(), "".to_string()]);
    let mut q = LuaPath::lua_from("notes.txt");
    assert!(q.lua_set_extension("md"));
    assert_eq!(q.lua_tostring(), "notes.md");
    q.lua_set_file_name("other");
    assert_eq!(q.lua_tostring(), "other");
    let mut e = LuaPath::lua_new();
    assert!(!e.lua_set_extension("md"));
}

#[test]
fn path_names_stems_and_extensions() {
    let f = LuaPath::lua_from("foo.rs");
    assert_eq!(f.lua_file_stem(), Some("foo".to_string()));
    assert_eq!(f.lua_extension(), Some("rs".to_string()));
    let t = LuaPath::lua_from("a/foo.tar.gz");
    assert_eq!(t.lua_file_stem(), Some("foo.tar".to_string()));
    assert_eq!(t.lua_extension(), Some("gz".to_string()));
    assert_eq!(t.lua_with_extension("xz").lua_tostring(), "a/foo.tar.xz");
    assert_eq!(t.lua_with_extension("").lua_tostring(), "a/foo.tar");
    let dot = LuaPath::lua_from(".bashrc");
    assert_eq!(dot.lua_file_stem(), Some(".bashrc".to_string()));
    assert_eq!(dot.lua_extension(), None);
    assert_eq!(dot.lua_with_extension("old").lua_tostring(), ".bashrc.old");
    let plain = LuaPath::lua_from("foo");
    assert_eq!(plain.lua_extension(), None);
    assert_eq!(plain.lua_with_extension("rs").lua_tostring(), "foo.rs");
    assert_eq!(plain.lua_with_file_name("bar").lua_tostring(), "bar");
    assert_eq!(LuaPath::lua_new().lua_with_file_name("bar").lua_tostring(), "bar");
    assert_eq!(LuaPath::lua_new().lua_with_extension("rs").lua_tostring(), "");
    assert_eq!(plain.lua_strip_prefix("foo").unwrap().lua_tostring(), "");
    assert!(plain.lua_strip_prefix("fo").is_err());
    assert!(!plain.lua_starts_with(&LuaPath::lua_from("fo")));
    assert!(!plain.lua_ends_with(&LuaPath::lua_from("oo")));
    let up: Vec<String> = plain.lua_ancestors().iter().map(|c| c.lua_tostring()).collect();
    assert_eq!(up, vec!["foo".to_string(), "".to_string()]);
    let parts: Vec<String> = plain.lua_components().iter().map(|c| c.lua_tostring()).collect();
    assert_eq!(parts, vec!["foo".to_string()]);
    assert!(LuaPath::lua_new().lua_components().is_empty());
    let mut set = LuaPath::lua_from("a/b.txt");
    assert!(set.lua_set_extension("md"));
    assert_eq!(set.lua_tostring(), "a/b.md");
}

#[test]
fn path_queries_on_longer_plain_paths() {
    let p = LuaPath::lua_from("a/b/c.txt");
    assert_eq!(p.lua_parent().unwrap().lua_tostring(), "a/b");
    assert_eq!(p.lua_file_name().unwrap(), "c.txt");
    assert_eq!(p.lua_file_stem().unwrap(), "c");
    assert_eq!(p.lua_extension().unwrap(), "txt");
    let comps: Vec<String> = p.lua_components().iter().map(|c| c.lua_tostring()).collect();
    assert_eq!(comps, vec!["a", "b", "c.txt"]);
    let ancestors: Vec<String> = p.lua_ancestors().iter().map(|c| c.lua_tostring()).collect();
    assert_eq!(ancestors, vec!["a/b/c.txt", "a/b", "a", ""]);
    assert_eq!(p.lua_strip_prefix("a").unwrap().lua_tostring(), "b/c.txt");
    assert_eq!(p.lua_strip_prefix("a/b").unwrap().lua_tostring(), "c.txt");
    assert!(p.lua_starts_with(&LuaPath::lua_from("a/b")));
    assert!(p.lua_ends_with(&LuaPath::lua_from("b/c.txt")));
    assert_eq!(p.lua_with_extension("md").lua_tostring(), "a/b/c.md");
    assert_eq!(p.lua_with_file_name("d").lua_tostring(), "a/b/d");

    let abs = LuaPath::lua_from("/usr/lib/x");
    let ancestors: Vec<String> = abs.lua_ancestors().iter().map(|c| c.lua_tostring()).collect();
    assert_eq!(ancestors, vec!["/usr/lib/x", "/usr/lib", "/usr", "/"]);
    assert_eq!(abs.lua_strip_prefix("/usr").unwrap().lua_tostring(), "lib/x");

    let mut q = LuaPath::lua_from("/usr/lib");
    q.lua_push(&LuaPath::lua_from("a/b"));
    assert_eq!(q.lua_tostring(), "/usr/lib/a/b");
    assert!(q.lua_pop());
    assert_eq!(q.lua_tostring(), "/usr/lib/a");
    let mut root = LuaPath::lua_from("/");
    root.lua_push(&LuaPath::lua_from("etc/hosts"));
    assert_eq!(root.lua_tostring(), "/etc/hosts");
}
