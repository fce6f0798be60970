use rs_mod_lua::jinja::{
    compare_outcome, jinja_to_lua_form, lua_returns_form, lua_to_jinja_form, split_keyword_args,
    table_is_array_like, table_lookup_key, value_type_label, JinjaForm, LuaAutoEscape, LuaForm,
    LuaSyntaxConfig, LuaUndefinedBehavior, LuaValueKind, ReturnForm,
};

fn setup() -> mlua::Lua {
    mlua::Lua::new()
}

/// The kind the conversion into the template engine tells a Lua value by.
fn kind_of(value: &mlua::Value) -> LuaValueKind {
    match value {
        mlua::Value::Nil => LuaValueKind::Nil,
        mlua::Value::Table(_) => LuaValueKind::Table,
        mlua::Value::Function(_) => LuaValueKind::Function,
        mlua::Value::UserData(_) => LuaValueKind::UserData,
        v if v.is_null() => LuaValueKind::Null,
        _ => LuaValueKind::Plain,
    }
}

/// Whether a table reads as a sequence, from its keys.
fn array_like(table: &mlua::Table, empty_as_array: Option<bool>) -> bool {
    let mut int_keys = Vec::new();
    let mut others = 0;
    for pair in table.pairs::<mlua::Value, mlua::Value>() {
        match pair.unwrap().0 {
            mlua::Value::Integer(i) => int_keys.push(i),
            _ => others += 1,
        }
    }
    table_is_array_like(&int_keys, others, empty_as_array)
}

// TYPE CONVERSION TESTS //

#[test]
fn test_lua_minijinja_roundtrip_nil() {
    let jinja = lua_to_jinja_form(kind_of(&mlua::Value::Nil), false);
    assert_eq!(jinja, JinjaForm::Undefined);

    let value = jinja_to_lua_form(jinja);
    assert_eq!(value, LuaForm::Single(LuaValueKind::Nil));
}

#[test]
fn test_lua_minijinja_roundtrip_null() {
    let jinja = lua_to_jinja_form(kind_of(&mlua::Value::NULL), false);
    assert_eq!(jinja, JinjaForm::NoneValue);

    let value = jinja_to_lua_form(jinja);
    assert_eq!(value, LuaForm::Single(LuaValueKind::Null));
}

#[test]
fn test_lua_minijinja_roundtrip_table() {
    let lua = setup();
    let table = lua.create_table().unwrap();
    table.set("a", 1).unwrap();

    let jinja = lua_to_jinja_form(LuaValueKind::Table, array_like(&table, None));
    assert_eq!(jinja, JinjaForm::TableObject { array_like: false });

    let value = jinja_to_lua_form(jinja);
    assert_eq!(value, LuaForm::Single(LuaValueKind::Table));
}

#[test]
fn test_lua_minijinja_roundtrip_array() {
    let lua = setup();
    let table = lua.create_table().unwrap();
    table.set(1, "a").unwrap();
    table.set(2, "b").unwrap();

    let jinja = lua_to_jinja_form(kind_of(&mlua::Value::Table(table.clone())), array_like(&table, None));
    assert_eq!(jinja, JinjaForm::TableObject { array_like: true });

    let value = jinja_to_lua_form(jinja);
    assert_eq!(value, LuaForm::Single(LuaValueKind::Table));
}

#[test]
fn test_lua_minijinja_roundtrip_function() {
    let lua = setup();
    let func = lua.create_function(|_: &mlua::Lua, ()| Ok("BOO")).unwrap();

    let jinja = lua_to_jinja_form(kind_of(&mlua::Value::Function(func)), false);
    assert_eq!(jinja, JinjaForm::FunctionObject);

    let value = jinja_to_lua_form(jinja);
    assert_eq!(value, LuaForm::Single(LuaValueKind::Function));
}

struct TestData {}

impl mlua::UserData for TestData {}

#[test]
fn test_lua_minijinja_roundtrip_userdata() {
    let lua = setup();
    let userdata = lua.create_userdata(TestData {}).unwrap();

    let jinja = lua_to_jinja_form(kind_of(&mlua::Value::UserData(userdata)), false);
    assert_eq!(jinja, JinjaForm::UserDataObject);

    let value = jinja_to_lua_form(jinja);
    assert_eq!(value, LuaForm::Single(LuaValueKind::UserData));
}

#[test]
fn test_lua_minijinja_roundtrip_multivalue() {
    let lua = setup();
    let table = lua.create_table().unwrap();
    let func = lua.create_function(|_, ()| Ok(())).unwrap();

    let mv = mlua::MultiValue::from_vec(vec![
        mlua::Value::Table(table.clone()),
        mlua::Value::Function(func.clone()),
        mlua::Value::Integer(1),
    ]);

    assert_eq!(lua_returns_form(mv.len()), ReturnForm::List);
    assert_eq!(jinja_to_lua_form(JinjaForm::MultiValue), LuaForm::Spread);

    let forms: Vec<JinjaForm> = mv.iter().map(|v| lua_to_jinja_form(kind_of(v), false)).collect();
    assert_eq!(forms.len(), 3);
    assert_eq!(forms[0], JinjaForm::TableObject { array_like: false });
    assert_eq!(forms[1], JinjaForm::FunctionObject);
    assert_eq!(forms[2], JinjaForm::Serialized);

    let back: Vec<LuaForm> = forms.iter().map(|f| jinja_to_lua_form(*f)).collect();
    assert_eq!(back.len(), 3);
    assert_eq!(back[0], LuaForm::Single(LuaValueKind::Table));
    assert_eq!(back[1], LuaForm::Single(LuaValueKind::Function));
    assert_eq!(back[2], LuaForm::Serialized);
}

#[test]
fn test_lua_minijinja_roundtrip_kwargs() {
    let lua = setup();
    let table = lua.create_table().unwrap();
    table.set("foo", "bar").unwrap();

    let args = mlua::MultiValue::from_iter(vec![
        mlua::Value::Integer(1),
        mlua::Value::Integer(2),
        mlua::Value::Table(table),
    ]);

    let last_is_table = args.iter().last().unwrap().is_table();
    let (positional, kwargs) = split_keyword_args(args.len(), last_is_table, true);
    assert!(kwargs);
    assert_eq!(positional, 2);
    assert_eq!(
        args.iter().last().unwrap().as_table().unwrap().get::<String>("foo").unwrap(),
        "bar"
    );
}

#[test]
fn test_lua_minijinja_roundtrip_no_kwargs() {
    let lua = setup();
    let table = lua.create_table().unwrap();
    table.set("foo", "bar").unwrap();

    let args = mlua::MultiValue::from_iter(vec![
        mlua::Value::Integer(1),
        mlua::Value::Integer(2),
        mlua::Value::Table(table),
    ]);

    let last_is_table = args.iter().last().unwrap().is_table();
    let (positional, kwargs) = split_keyword_args(args.len(), last_is_table, false);
    assert!(!kwargs);
    assert_eq!(positional, 3);
    assert_eq!(
        lua_to_jinja_form(kind_of(args.iter().last().unwrap()), false),
        JinjaForm::TableObject { array_like: false }
    );
}

// AUTO ESCAPE CONVERSION TESTS //

#[test]
fn test_autoescape_roundtrip_html() {
    let lua_ae_str = LuaAutoEscape::Html.to_lua_str();
    assert_eq!(lua_ae_str, "html");

    let jinja_ae = LuaAutoEscape::from_lua_str(&lua_ae_str, "string").unwrap();
    assert!(matches!(jinja_ae, LuaAutoEscape::Html));
}

#[test]
fn test_autoescape_roundtrip_json() {
    let lua_ae_str = LuaAutoEscape::Json.to_lua_str();
    assert_eq!(lua_ae_str, "json");

    let jinja_ae = LuaAutoEscape::from_lua_str(&lua_ae_str, "string").unwrap();
    assert!(matches!(jinja_ae, LuaAutoEscape::Json));
}

#[test]
fn test_autoescape_roundtrip_none() {
    let lua_ae_str = LuaAutoEscape::NoEscape.to_lua_str();
    assert_eq!(lua_ae_str, "none");

    let jinja_ae = LuaAutoEscape::from_lua_str(&lua_ae_str, "string").unwrap();
    assert!(matches!(jinja_ae, LuaAutoEscape::NoEscape));
}

#[test]
fn test_autoescape_custom() {
    let lua_ae_str = LuaAutoEscape::Custom("test custom".to_string()).to_lua_str();
    assert_eq!(lua_ae_str, "test custom");

    assert!(LuaAutoEscape::from_lua_str(&lua_ae_str, "string").is_err());
}

#[test]
fn test_autoescape_roundtrip_invalid() {
    assert!(LuaAutoEscape::from_lua_str("xml", "string").is_err());
}

#[test]
fn autoescape_names_are_read_whatever_their_case() {
    assert!(matches!(LuaAutoEscape::try_from_str("HTML"), Ok(LuaAutoEscape::Html)));
    assert!(matches!(LuaAutoEscape::try_from_str("Json"), Ok(LuaAutoEscape::Json)));
    let err = LuaAutoEscape::try_from_str("xml").unwrap_err();
    assert_eq!(err.from, "string");
    assert_eq!(err.to, "AutoEscape");
    assert_eq!(
        err.message.as_deref(),
        Some("arguments must be one of 'html', 'json', or 'none': xml")
    );
    let err = LuaAutoEscape::from_lua_str("xml", "number").unwrap_err();
    assert_eq!(err.from, "number");
    assert_eq!(err.message.as_deref(), Some("arguments must be one of 'html', 'json', or 'none'"));
    assert!(matches!(LuaAutoEscape::default_mode(), LuaAutoEscape::NoEscape));
}

// UNDEFINED BEHAVIOR CONVERSION TESTS //

#[test]
fn test_undefined_behavior_roundtrip_chainable() {
    let lua_ae_str = LuaUndefinedBehavior::Chainable.to_lua_str();
    assert_eq!(lua_ae_str, "chainable");

    let jinja_ae = LuaUndefinedBehavior::from_str_typed(&lua_ae_str, "string").unwrap();
    assert_eq!(jinja_ae, LuaUndefinedBehavior::Chainable);
}

#[test]
fn test_undefined_behavior_roundtrip_lenient() {
    let lua_ae_str = LuaUndefinedBehavior::Lenient.to_lua_str();
    assert_eq!(lua_ae_str, "lenient");

    let jinja_ae = LuaUndefinedBehavior::from_str_typed(&lua_ae_str, "string").unwrap();
    assert_eq!(jinja_ae, LuaUndefinedBehavior::Lenient);
}

#[test]
fn test_undefined_behavior_roundtrip_semi_strict() {
    let lua_ae_str = LuaUndefinedBehavior::SemiStrict.to_lua_str();
    assert_eq!(lua_ae_str, "semi-strict");

    let jinja_ae = LuaUndefinedBehavior::from_str_typed(&lua_ae_str, "string").unwrap();
    assert_eq!(jinja_ae, LuaUndefinedBehavior::SemiStrict);
}

#[test]
fn test_undefined_behavior_roundtrip_strict() {
    let lua_ae_str = LuaUndefinedBehavior::Strict.to_lua_str();
    assert_eq!(lua_ae_str, "strict");

    let jinja_ae = LuaUndefinedBehavior::from_str_typed(&lua_ae_str, "string").unwrap();
    assert_eq!(jinja_ae, LuaUndefinedBehavior::Strict);
}

#[test]
fn test_undefined_behavior_roundtrip_invalid() {
    assert!(LuaUndefinedBehavior::from_str_typed("none", "string").is_err());
}

#[test]
fn undefined_behavior_names_whatever_their_case() {
    assert_eq!(LuaUndefinedBehavior::try_from_str("STRICT").unwrap(), LuaUndefinedBehavior::Strict);
    assert_eq!(LuaUndefinedBehavior::default_behavior(), LuaUndefinedBehavior::Lenient);
    let err = LuaUndefinedBehavior::from_str_typed("x", "boolean").unwrap_err();
    assert_eq!(err.from, "boolean");
    assert_eq!(err.to, "UndefinedBehavior");
    assert_eq!(
        err.message.as_deref(),
        Some("arguments must be one of 'chainable', 'lenient', 'semi-strict', or 'strict'")
    );
}

// SYNTAX CONFIG TESTS //

#[test]
fn test_syntax_config() {
    let mut builder = LuaSyntaxConfig::lua_builder();
    builder.lua_block_delimiters("BLOCK_S".to_string(), "BLOCK_E".to_string());
    builder.lua_variable_delimiters("VAR_S".to_string(), "VAR_E".to_string());
    builder.lua_comment_delimiters("COM_S".to_string(), "COM_E".to_string());
    builder.lua_line_statement_prefix("LS".to_string());
    builder.lua_line_comment_prefix("LC".to_string());

    let config = builder.lua_build().unwrap();

    assert_eq!(config.lua_block_delimiters(), ("BLOCK_S".to_string(), "BLOCK_E".to_string()));
    assert_eq!(config.lua_variable_delimiters(), ("VAR_S".to_string(), "VAR_E".to_string()));
    assert_eq!(config.lua_comment_delimiters(), ("COM_S".to_string(), "COM_E".to_string()));
    assert_eq!(config.lua_line_statement_prefix(), Some("LS".to_string()));
    assert_eq!(config.lua_line_comment_prefix(), Some("LC".to_string()));
}

#[test]
fn syntax_config_defaults() {
    let config = LuaSyntaxConfig::lua_builder().lua_build().unwrap();
    assert_eq!(config.lua_block_delimiters(), ("{%".to_string(), "%}".to_string()));
    assert_eq!(config.lua_variable_delimiters(), ("{{".to_string(), "}}".to_string()));
    assert_eq!(config.lua_comment_delimiters(), ("{#".to_string(), "#}".to_string()));
    assert_eq!(config.lua_line_statement_prefix(), None);
    assert_eq!(config.lua_line_comment_prefix(), None);
}

#[test]
fn syntax_config_refused_by_the_engine() {
    let mut builder = LuaSyntaxConfig::lua_builder();
    builder.lua_block_delimiters("".to_string(), "%}".to_string());
    assert_eq!(builder.lua_build().unwrap_err(), "invalid custom delimiters");

    let mut same = LuaSyntaxConfig::lua_builder();
    same.lua_line_statement_prefix("{{".to_string());
    assert_eq!(same.lua_build().unwrap_err(), "invalid custom delimiters");

    let mut twice = LuaSyntaxConfig::lua_builder();
    twice.lua_line_statement_prefix("#".to_string());
    twice.lua_line_comment_prefix("#".to_string());
    assert!(twice.lua_build().is_err());

    let mut apart = LuaSyntaxConfig::lua_builder();
    apart.lua_line_statement_prefix("#".to_string());
    apart.lua_line_comment_prefix("##".to_string());
    assert!(apart.lua_build().is_ok());
}

// ARRAY-LIKE TABLE TESTS //

#[test]
fn test_table_array_like() {
    let lua = setup();
    let table = lua.create_table().unwrap();
    table.set(1, "a").unwrap();
    table.set(2, "b").unwrap();
    table.set(3, "c").unwrap();
    assert!(array_like(&table, None));
}

#[test]
fn test_table_array_like_hole() {
    let lua = setup();
    let table = lua.create_table().unwrap();
    table.set(1, "a").unwrap();
    table.set(3, "c").unwrap();
    assert!(!array_like(&table, None));
}

#[test]
fn test_table_array_like_sparse() {
    let lua = setup();
    let table = lua.create_table().unwrap();
    table.set(3, "c").unwrap();
    assert!(!array_like(&table, None));
}

#[test]
fn test_table_array_like_mixed() {
    let lua = setup();
    let table = lua.create_table().unwrap();
    table.set(1, "a").unwrap();
    table.set("2", "b").unwrap();
    assert!(!array_like(&table, None));
}

#[test]
fn test_table_array_like_empty() {
    let lua = setup();
    let table = lua.create_table().unwrap();
    assert!(!array_like(&table, None));
    assert!(array_like(&table, Some(true)));
}

#[test]
fn array_like_from_keys() {
    assert!(table_is_array_like(&vec![3, 1, 2], 0, None));
    assert!(!table_is_array_like(&vec![1, 3], 1, None));
    assert!(!table_is_array_like(&vec![1, 3], 0, None));
    assert!(!table_is_array_like(&vec![1, 2], 1, None));
    assert!(!table_is_array_like(&vec![], 0, Some(false)));
    assert!(table_is_array_like(&vec![], 0, Some(true)));
    assert!(!table_is_array_like(&vec![], 1, Some(true)));
    assert!(!table_is_array_like(&vec![0, 1], 0, None));
}

#[test]
fn table_with_a_hole_at_its_border_is_not_a_sequence() {
    let lua = setup();
    let table = lua.create_table().unwrap();
    table.set(1, "a").unwrap();
    table.set(2, "b").unwrap();
    table.set(3, "c").unwrap();
    table.set(2, mlua::Value::Nil).unwrap();
    table.set("x", 1).unwrap();
    assert!(!array_like(&table, None));
}

#[test]
fn lookup_keys_and_comparisons() {
    assert_eq!(table_lookup_key(Some(0), true), Some(1));
    assert_eq!(table_lookup_key(Some(0), false), Some(0));
    assert_eq!(table_lookup_key(None, true), None);
    assert_eq!(compare_outcome(true, None), Some(std::cmp::Ordering::Equal));
    assert_eq!(compare_outcome(false, Some(true)), Some(std::cmp::Ordering::Less));
    assert_eq!(compare_outcome(false, Some(false)), Some(std::cmp::Ordering::Greater));
    assert_eq!(compare_outcome(false, None), None);
    assert_eq!(lua_returns_form(0), ReturnForm::Undefined);
    assert_eq!(lua_returns_form(1), ReturnForm::Single);
    assert_eq!(split_keyword_args(0, false, true), (0, false));
}

#[test]
fn wrapped_values_come_back_as_themselves() {
    for kind in [
        LuaValueKind::Nil,
        LuaValueKind::Null,
        LuaValueKind::Table,
        LuaValueKind::Function,
        LuaValueKind::UserData,
    ] {
        assert_eq!(jinja_to_lua_form(lua_to_jinja_form(kind, true)), LuaForm::Single(kind));
    }
    assert_eq!(jinja_to_lua_form(lua_to_jinja_form(LuaValueKind::Plain, false)), LuaForm::Serialized);
}

/// The name Lua gives the type of a plain value.
fn lua_type(value: &mlua::Value) -> &'static str {
    match value {
        mlua::Value::Nil => "nil",
        mlua::Value::Boolean(_) => "boolean",
        mlua::Value::LightUserData(_) => "lightuserdata",
        mlua::Value::Integer(_) => "integer",
        mlua::Value::Number(_) => "number",
        mlua::Value::String(_) => "string",
        mlua::Value::Table(_) => "table",
        mlua::Value::Function(_) => "function",
        mlua::Value::Thread(_) => "thread",
        _ => "userdata",
    }
}

/// What `minijinja.type` reports of a plain Lua value.
fn minijinja_types(value: &mlua::Value) -> String {
    value_type_label(false, None, value.is_null(), lua_type(value))
}

#[test]
fn test_minijinja_types_none() {
    assert_eq!(minijinja_types(&mlua::Value::NULL), "none");
}

#[test]
fn test_minijinja_types_lua() {
    let lua = setup();

    assert_eq!(minijinja_types(&mlua::Value::Nil), "nil");
    assert_eq!(minijinja_types(&mlua::Value::Boolean(true)), "boolean");
    assert_eq!(
        minijinja_types(&mlua::Value::Function(lua.create_function(|_, _: mlua::Value| Ok(())).unwrap())),
        "function"
    );
    assert_eq!(minijinja_types(&mlua::Value::Integer(99)), "integer");
    assert_eq!(minijinja_types(&mlua::Value::Number(99.99)), "number");
    assert_eq!(minijinja_types(&mlua::Value::String(lua.create_string("foo").unwrap())), "string");
    assert_eq!(minijinja_types(&mlua::Value::Table(lua.create_table().unwrap())), "table");
    assert_eq!(
        minijinja_types(&mlua::Value::Thread(
            lua.create_thread(lua.create_function(|_, _: mlua::Value| Ok(())).unwrap()).unwrap()
        )),
        "thread"
    );
}

#[test]
fn type_labels_for_engine_values() {
    assert_eq!(value_type_label(true, Some("userdata"), false, "userdata"), "environment");
    assert_eq!(value_type_label(false, Some("state"), false, "userdata"), "state");
    assert_eq!(value_type_label(false, Some("other"), false, "userdata"), "userdata");
}
