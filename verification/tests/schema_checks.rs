use rs_mod_lua::draft::LuaDraft;
use rs_mod_lua::schema::{
    lua_bundle, lua_dereference, lua_evaluate, lua_is_valid, lua_meta_is_valid, lua_meta_validate, lua_meta_validator_for,
    lua_validate, lua_validator_for, lua_validator_map_for, validity_of, verdict_of,
};

#[test]
fn instance_checked_against_schema() {
    let schema = r#"{"maxLength": 5}"#;
    assert_eq!(lua_is_valid(schema, r#""foo""#), Ok(true));
    assert_eq!(lua_is_valid(schema, r#""foobar""#), Ok(false));
    assert_eq!(lua_validate(schema, r#""foo""#), Ok(()));
    let msg = lua_validate(schema, r#""foobar""#).unwrap_err();
    assert!(msg.contains("foobar"));
}

#[test]
fn schema_that_does_not_compile_is_an_error() {
    assert!(lua_is_valid(r#"{"type": 5}"#, "1").is_err());
    assert!(lua_validate(r#"{"type": 5}"#, "1").is_err());
    assert!(lua_is_valid("{", "1").is_err());
    assert!(lua_is_valid("{}", "[").is_err());
}

#[test]
fn schema_checked_against_its_meta_schema() {
    assert_eq!(lua_meta_is_valid(r#"{"type": "string", "maxLength": 5}"#), Ok(true));
    assert_eq!(lua_meta_validate(r#"{"type": "string"}"#), Ok(()));
    assert_eq!(lua_meta_is_valid(r#"{"type": "invalid_type"}"#), Ok(false));
    assert!(lua_meta_validate(r#"{"type": "invalid_type"}"#).is_err());
    assert!(lua_meta_is_valid("not json").is_err());
}

#[test]
fn check_outcomes_read_as_verdicts() {
    assert_eq!(validity_of(Ok(None)), Ok(true));
    assert_eq!(validity_of(Ok(Some("bad".to_string()))), Ok(false));
    assert_eq!(validity_of(Err("no".to_string())), Err("no".to_string()));
    assert_eq!(verdict_of(Ok(None)), Ok(()));
    assert_eq!(verdict_of(Ok(Some("bad".to_string()))), Err("bad".to_string()));
    assert_eq!(verdict_of(Err("no".to_string())), Err("no".to_string()));
}

#[test]
fn compiled_validators_check_instances() {
    let v = lua_validator_for(r#"{"type": "string", "maxLength": 3}"#).unwrap();
    assert_eq!(v.lua_is_valid(r#""abc""#), Ok(true));
    assert_eq!(v.lua_is_valid("5"), Ok(false));
    assert_eq!(v.lua_validate(r#""abc""#), Ok((true, None)));
    let (ok, msg) = v.lua_validate(r#""abcd""#).unwrap();
    assert!(!ok && msg.unwrap().contains("abcd"));
    assert_eq!(v.lua_errors(r#""abc""#), Ok(vec![]));
    assert_eq!(v.lua_errors("5").unwrap().len(), 1);
    assert!(matches!(v.lua_draft(), Ok(LuaDraft::Draft202012)));
    let e = v.lua_evaluate("5").unwrap();
    assert!(!e.lua_flag());
    assert!(e.lua_list().contains("valid"));
    assert!(e.lua_hierarchical().contains("valid"));
    assert!(!e.lua_errors().unwrap().is_empty());
    assert!(lua_validator_for(r#"{"type": 5}"#).is_err());
}

#[test]
fn validator_maps_hold_each_sub_schema() {
    let m = lua_validator_map_for(r#"{"$defs": {"User": {"type": "object", "required": ["name"]}}}"#).unwrap();
    assert!(m.lua_contains_key("#"));
    assert!(m.lua_contains_key("#/$defs/User"));
    assert!(!m.lua_contains_key("#/nothing"));
    assert!(m.lua_keys().contains(&"#/$defs/User".to_string()));
    let user = m.lua_get("#/$defs/User").unwrap();
    assert_eq!(user.lua_is_valid(r#"{"name": "Alice"}"#), Ok(true));
    assert_eq!(user.lua_is_valid("{}"), Ok(false));
    assert!(m.lua_get("#/nothing").is_none());
}

#[test]
fn bundled_dereferenced_and_meta_validated_schemas() {
    let schema = r##"{"$defs": {"n": {"type": "integer"}}, "$ref": "#/$defs/n"}"##;
    assert!(lua_bundle(schema).is_ok());
    let d = lua_dereference(schema).unwrap();
    assert!(d.contains("integer"));
    let meta = lua_meta_validator_for(r#"{"type": "string"}"#).unwrap();
    assert_eq!(meta.lua_is_valid(r#"{"type": "string"}"#), Ok(true));
    assert_eq!(meta.lua_validate(r#"{"type": 5}"#).unwrap().0, false);
    let e = lua_evaluate(r#"{"minimum": 2}"#, "3").unwrap();
    assert!(e.lua_flag());
}
