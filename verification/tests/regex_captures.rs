use rs_mod_lua::regex::{escape, start_ok, LuaCaptures, LuaMatch, LuaRegex, RawMatch};

fn raw(m: fancy_regex::Match<'_>) -> RawMatch {
    RawMatch { start: m.start(), end: m.end(), text: m.as_str().to_string() }
}

fn captures_of(c: fancy_regex::Captures<'_, str>) -> LuaCaptures {
    LuaCaptures::from_raw(c.iter().map(|g| g.map(raw)).collect())
}

fn names_of(re: &fancy_regex::Regex) -> Vec<Option<String>> {
    re.capture_names().map(|v| v.map(|s| s.to_string())).collect()
}

#[test]
fn test_match_from() {
    let re = fancy_regex::Regex::new(r"\d{3}").unwrap();

    let m = re.find("abc123def").map(|r| r.map(|m| LuaMatch::from_raw(raw(m))));

    assert!(m.is_ok())
}

#[test]
fn test_captures_from() {
    let re = fancy_regex::Regex::new(r"\d{3}").unwrap();

    let c = re.captures("abc123def").map(|r| r.map(captures_of));

    assert!(c.is_ok())
}

#[test]
fn test_captures_get() {
    let re = fancy_regex::Regex::new(r".*(?<digits>\d{3}).*").unwrap();

    let c = re.captures("abc123def").map(|r| r.map(captures_of)).unwrap().unwrap();

    // Note that `get()` is 1-indexed
    assert_eq!(c.lua_get(1).unwrap().text, "abc123def");
    assert_eq!(c.lua_get(2).unwrap().text, "123");
}

#[test]
fn test_captures_name() {
    let re = fancy_regex::Regex::new(r".*(?<digits>\d{3}).*").unwrap();

    let mut c = re.captures("abc123def").map(|r| r.map(captures_of)).unwrap().unwrap();

    assert!(c.lua_name("digits").is_none());

    c.set_names(names_of(&re));

    assert_eq!(c.lua_name("digits").unwrap().text, "123");
}

#[test]
fn test_captures_len() {
    let re = fancy_regex::Regex::new(r".*(?<digits>\d{3}).*").unwrap();

    let c = re.captures("abc123def").map(|r| r.map(captures_of)).unwrap().unwrap();

    assert_eq!(c.lua_len(), 2);
}

#[test]
fn match_offsets_count_from_one() {
    let m = LuaMatch::from_raw(RawMatch { start: 3, end: 6, text: "123".to_string() });
    assert_eq!(m.lua_range(), (4, 7));
    assert_eq!(m.lua_tostring(), "123");
    let far = LuaMatch::from_raw(RawMatch { start: usize::MAX, end: usize::MAX, text: String::new() });
    assert_eq!(far.lua_range(), (usize::MAX, usize::MAX));
}

#[test]
fn captures_get_counts_from_one_and_zero_reads_as_one() {
    let c = LuaCaptures::from_raw(vec![
        Some(RawMatch { start: 0, end: 2, text: "ab".to_string() }),
        None,
    ]);
    assert_eq!(c.lua_get(0).unwrap().text, "ab");
    assert_eq!(c.lua_get(1).unwrap().text, "ab");
    assert!(c.lua_get(2).is_none());
    assert!(c.lua_get(3).is_none());
    assert!(c.get(0).is_some());
    assert!(c.get(5).is_none());
}

#[test]
fn later_names_win() {
    let mut c = LuaCaptures::from_raw(vec![
        Some(RawMatch { start: 0, end: 2, text: "ab".to_string() }),
        Some(RawMatch { start: 0, end: 1, text: "a".to_string() }),
        Some(RawMatch { start: 1, end: 2, text: "b".to_string() }),
    ]);
    c.set_names(vec![None, Some("x".to_string()), Some("x".to_string())]);
    assert_eq!(c.lua_name("x").unwrap().text, "b");
    assert!(c.lua_name("y").is_none());
}

#[test]
fn regex_through_the_library() {
    let re = LuaRegex::lua_new(r".*(?<digits>\d{3}).*").unwrap();
    assert_eq!(re.lua_tostring(), r".*(?<digits>\d{3}).*");
    assert!(re.lua_is_match("abc123def").unwrap());
    assert!(!re.lua_is_match("abcdef").unwrap());

    let c = re.lua_captures_from_pos("abc123def", None).unwrap().unwrap();
    assert_eq!(c.lua_name("digits").unwrap().text, "123");
    assert_eq!(c.lua_name("digits").unwrap().lua_range(), (4, 7));

    let digits = LuaRegex::lua_new(r"\d+").unwrap();
    let m = digits.lua_find_from_pos("a12b345", Some(4)).unwrap().unwrap();
    assert_eq!(m.text, "345");
    assert_eq!(m.lua_range(), (5, 8));
    let first = digits.lua_find_from_pos("a12b345", None).unwrap().unwrap();
    assert_eq!(first.text, "12");
    assert!(digits.lua_find_from_pos("abc", Some(1)).unwrap().is_none());

    assert_eq!(digits.lua_try_replacen("a1b22c333", "#", None).unwrap(), "a#b#c#");
    assert_eq!(digits.lua_try_replacen("a1b22c333", "#", Some(2)).unwrap(), "a#b#c333");

    let comma = LuaRegex::lua_new(",").unwrap();
    assert_eq!(comma.lua_splitn("a,b,c", None).unwrap(), vec!["a", "b", "c"]);
    assert_eq!(comma.lua_splitn("a,b,c", Some(2)).unwrap(), vec!["a", "b,c"]);
}

#[test]
fn regex_compile_error_is_reported() {
    assert!(LuaRegex::lua_new("(").is_err());
}

#[test]
fn escape_quotes_special_characters() {
    assert_eq!(escape("a.b*c"), r"a\.b\*c");
    assert_eq!(escape("plain"), "plain");
    assert_eq!(escape("a\nb"), "a\nb");
    assert_eq!(escape("a.\nb"), "a\\.\\nb");
}

#[test]
fn names_and_numbers_agree() {
    let re = LuaRegex::lua_new(r"(?<a>x)(?<b>y)?").unwrap();
    let c = re.lua_captures_from_pos("xz", None).unwrap().unwrap();
    assert_eq!(c.lua_name("a"), c.lua_get(2));
    assert_eq!(c.lua_name("b"), c.lua_get(3));
    assert!(c.lua_name("b").is_none());
    assert_eq!(c.lua_name("a").unwrap().text, "x");
}

#[test]
fn positions_inside_a_character_or_past_the_end() {
    let word = LuaRegex::lua_new(r"\w").unwrap();
    assert!(!start_ok("éa", Some(2)));
    assert!(start_ok("éa", Some(3)));
    assert!(start_ok("éa", Some(1)));
    assert!(start_ok("éa", None));
    assert!(start_ok("éa", Some(4)));
    assert!(start_ok("a", Some(100)));
    let ahead = LuaRegex::lua_new(r"(?=a)(\w)").unwrap();
    let m = ahead.lua_find_from_pos("éa", Some(3)).unwrap().unwrap();
    assert_eq!((m.start, m.stop, m.text.as_str()), (3, 4, "a"));
    let found = word.lua_find_from_pos("xé", Some(2)).unwrap().unwrap();
    assert_eq!(found.stop - found.start, found.text.len());

    assert!(ahead.lua_find_from_pos("a", Some(100)).unwrap().is_none());
    assert!(ahead.lua_captures_from_pos("a", Some(100)).unwrap().is_none());
    assert!(word.lua_find_from_pos("a", Some(usize::MAX)).unwrap().is_none());
}
