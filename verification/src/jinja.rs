//! The decisions made when values and settings pass between Lua and the
//! template engine: the names of auto-escape modes and undefined-value
//! behaviours, when a Lua table is read as a sequence, how values of each
//! kind cross over, and how comparisons between wrapped values come out.
use vstd::prelude::*;
use vstd::utf8::is_ascii_chars;
use crate::text::{concat, str_is};

verus! {

/// The characters of `s` with each ASCII capital letter made small.
pub open spec fn ascii_lower(s: Seq<char>) -> Seq<char> {
    s.map_values(|c: char| if 'A' <= c <= 'Z' { ((c as u32) + 32) as char } else { c })
}

/// The lower-case form of a string, as `str::to_lowercase` computes it.
pub uninterp spec fn lowercase(s: Seq<char>) -> Seq<char>;

/// Calls `str::to_lowercase`. Its result is named; the contract also states
/// that a string of ASCII characters is lowered letter by letter, as the
/// Unicode case mapping does for ASCII.
#[verifier::external_body]
fn to_lowercase(s: &str) -> (r: String)
    ensures
        r@ == lowercase(s@),
        is_ascii_chars(s@) ==> r@ == ascii_lower(s@),
{
    s.to_lowercase()
}

/// A failed conversion of a Lua value: the type it came from, the type it
/// was meant to become, and what went wrong.
#[derive(Clone, Debug)]
pub struct ConversionError {
    pub from: String,
    pub to: String,
    pub message: Option<String>,
}

/// How template output is escaped.
#[derive(Clone, Debug)]
pub enum LuaAutoEscape {
    Html,
    Json,
    NoEscape,
    Custom(String),
}

/// The auto-escape mode a lower-case name selects.
pub open spec fn auto_escape_named(lower: Seq<char>) -> Option<LuaAutoEscape> {
    if lower == "html"@ {
        Some(LuaAutoEscape::Html)
    } else if lower == "json"@ {
        Some(LuaAutoEscape::Json)
    } else if lower == "none"@ {
        Some(LuaAutoEscape::NoEscape)
    } else {
        None
    }
}

/// The name an auto-escape mode is shown by.
pub open spec fn auto_escape_name(e: LuaAutoEscape) -> Seq<char> {
    match e {
        LuaAutoEscape::Html => "html"@,
        LuaAutoEscape::Json => "json"@,
        LuaAutoEscape::NoEscape => "none"@,
        LuaAutoEscape::Custom(s) => s@,
    }
}

/// Two modes are the same mode.
pub open spec fn same_auto_escape(a: LuaAutoEscape, b: LuaAutoEscape) -> bool {
    match (a, b) {
        (LuaAutoEscape::Html, LuaAutoEscape::Html) => true,
        (LuaAutoEscape::Json, LuaAutoEscape::Json) => true,
        (LuaAutoEscape::NoEscape, LuaAutoEscape::NoEscape) => true,
        (LuaAutoEscape::Custom(x), LuaAutoEscape::Custom(y)) => x@ == y@,
        _ => false,
    }
}

impl LuaAutoEscape {
    /// The mode used when none is set: no escaping.
    pub fn default_mode() -> (r: Self)
        ensures
            r is NoEscape,
    {
        LuaAutoEscape::NoEscape
    }

    /// The mode a name selects once lowered, if any.
    pub fn from_lowercase(lower: &str) -> (r: Option<Self>)
        ensures
            match (r, auto_escape_named(lower@)) {
                (Some(a), Some(b)) => same_auto_escape(a, b),
                (None, None) => true,
                _ => false,
            },
    {
        if str_is(lower, "html") {
            Some(LuaAutoEscape::Html)
        } else if str_is(lower, "json") {
            Some(LuaAutoEscape::Json)
        } else if str_is(lower, "none") {
            Some(LuaAutoEscape::NoEscape)
        } else {
            None
        }
    }

    /// The mode a name selects, whatever its case; the error names the
    /// value that was given.
    pub fn try_from_str(value: &str) -> (r: Result<Self, ConversionError>)
        ensures
            is_ascii_chars(value@) ==> lowercase(value@) == ascii_lower(value@),
            match (r, auto_escape_named(lowercase(value@))) {
                (Ok(a), Some(b)) => same_auto_escape(a, b),
                (Err(e), None) => {
                    &&& e.from@ == "string"@
                    &&& e.to@ == "AutoEscape"@
                    &&& e.message matches Some(m) && m@ == "arguments must be one of 'html', 'json', or 'none': "@ + value@
                },
                _ => false,
            },
    {
        let lower = to_lowercase(value);
        match Self::from_lowercase(lower.as_str()) {
            Some(a) => Ok(a),
            None => Err(ConversionError {
                from: "string".to_owned(),
                to: "AutoEscape".to_owned(),
                message: Some(concat("arguments must be one of 'html', 'json', or 'none': ", value)),
            }),
        }
    }

    /// The mode a Lua value's text selects, whatever its case; the error
    /// names the Lua type the value had.
    pub fn from_lua_str(value: &str, value_type: &str) -> (r: Result<Self, ConversionError>)
        ensures
            is_ascii_chars(value@) ==> lowercase(value@) == ascii_lower(value@),
            match (r, auto_escape_named(lowercase(value@))) {
                (Ok(a), Some(b)) => same_auto_escape(a, b),
                (Err(e), None) => {
                    &&& e.from@ == value_type@
                    &&& e.to@ == "AutoEscape"@
                    &&& e.message matches Some(m) && m@ == "arguments must be one of 'html', 'json', or 'none'"@
                },
                _ => false,
            },
    {
        let lower = to_lowercase(value);
        match Self::from_lowercase(lower.as_str()) {
            Some(a) => Ok(a),
            None => Err(ConversionError {
                from: value_type.to_owned(),
                to: "AutoEscape".to_owned(),
                message: Some("arguments must be one of 'html', 'json', or 'none'".to_owned()),
            }),
        }
    }

    /// The name the mode is shown by in Lua; a custom mode is shown by its own name.
    pub fn to_lua_str(&self) -> (r: String)
        ensures
            r@ == auto_escape_name(*self),
    {
        match self {
            LuaAutoEscape::Html => "html".to_owned(),
            LuaAutoEscape::Json => "json".to_owned(),
            LuaAutoEscape::NoEscape => "none".to_owned(),
            LuaAutoEscape::Custom(s) => s.clone(),
        }
    }
}

/// What the template engine does with a variable that has no value.
#[derive(Clone, Copy, Debug, PartialEq, Eq, Structural)]
pub enum LuaUndefinedBehavior {
    Chainable,
    Lenient,
    SemiStrict,
    Strict,
}

/// The behaviour a lower-case name selects.
pub open spec fn undefined_named(lower: Seq<char>) -> Option<LuaUndefinedBehavior> {
    if lower == "chainable"@ {
        Some(LuaUndefinedBehavior::Chainable)
    } else if lower == "lenient"@ {
        Some(LuaUndefinedBehavior::Lenient)
    } else if lower == "semi-strict"@ {
        Some(LuaUndefinedBehavior::SemiStrict)
    } else if lower == "strict"@ {
        Some(LuaUndefinedBehavior::Strict)
    } else {
        None
    }
}

/// The name a behaviour is shown by.
pub open spec fn undefined_name(u: LuaUndefinedBehavior) -> Seq<char> {
    match u {
        LuaUndefinedBehavior::Chainable => "chainable"@,
        LuaUndefinedBehavior::Lenient => "lenient"@,
        LuaUndefinedBehavior::SemiStrict => "semi-strict"@,
        LuaUndefinedBehavior::Strict => "strict"@,
    }
}

impl LuaUndefinedBehavior {
    /// The behaviour used when none is set.
    pub fn default_behavior() -> (r: Self)
        ensures
            r == LuaUndefinedBehavior::Lenient,
    {
        LuaUndefinedBehavior::Lenient
    }

    /// The behaviour a name selects once lowered, if any.
    pub fn from_lowercase(lower: &str) -> (r: Option<Self>)
        ensures
            r == undefined_named(lower@),
    {
        if str_is(lower, "chainable") {
            Some(LuaUndefinedBehavior::Chainable)
        } else if str_is(lower, "lenient") {
            Some(LuaUndefinedBehavior::Lenient)
        } else if str_is(lower, "semi-strict") {
            Some(LuaUndefinedBehavior::SemiStrict)
        } else if str_is(lower, "strict") {
            Some(LuaUndefinedBehavior::Strict)
        } else {
            None
        }
    }

    /// The behaviour a name selects, whatever its case; `value_type` is the
    /// type the error reports the value as.
    pub fn from_str_typed(value: &str, value_type: &str) -> (r: Result<Self, ConversionError>)
        ensures
            is_ascii_chars(value@) ==> lowercase(value@) == ascii_lower(value@),
            match (r, undefined_named(lowercase(value@))) {
                (Ok(a), Some(b)) => a == b,
                (Err(e), None) => {
                    &&& e.from@ == value_type@
                    &&& e.to@ == "UndefinedBehavior"@
                    &&& e.message matches Some(m) && m@
                        == "arguments must be one of 'chainable', 'lenient', 'semi-strict', or 'strict'"@
                },
                _ => false,
            },
    {
        let lower = to_lowercase(value);
        match Self::from_lowercase(lower.as_str()) {
            Some(u) => Ok(u),
            None => Err(ConversionError {
                from: value_type.to_owned(),
                to: "UndefinedBehavior".to_owned(),
                message: Some(
                    "arguments must be one of 'chainable', 'lenient', 'semi-strict', or 'strict'".to_owned(),
                ),
            }),
        }
    }

    /// The behaviour a string selects, whatever its case.
    pub fn try_from_str(value: &str) -> (r: Result<Self, ConversionError>)
        ensures
            is_ascii_chars(value@) ==> lowercase(value@) == ascii_lower(value@),
            match (r, undefined_named(lowercase(value@))) {
                (Ok(a), Some(b)) => a == b,
                (Err(e), None) => e.from@ == "string"@ && e.to@ == "UndefinedBehavior"@,
                _ => false,
            },
    {
        Self::from_str_typed(value, "string")
    }

    /// The name the behaviour is shown by in Lua.
    pub fn to_lua_str(&self) -> (r: String)
        ensures
            r@ == undefined_name(*self),
    {
        match self {
            LuaUndefinedBehavior::Chainable => "chainable".to_owned(),
            LuaUndefinedBehavior::Lenient => "lenient".to_owned(),
            LuaUndefinedBehavior::SemiStrict => "semi-strict".to_owned(),
            LuaUndefinedBehavior::Strict => "strict".to_owned(),
        }
    }
}

/// The name of a built-in auto-escape mode is ASCII and already lower
/// case, and it selects that mode again: showing a mode to Lua and reading
/// the name back gives the same mode.
pub proof fn law_auto_escape_name_roundtrip(e: LuaAutoEscape)
    requires
        !(e is Custom),
    ensures
        is_ascii_chars(auto_escape_name(e)),
        ascii_lower(auto_escape_name(e)) == auto_escape_name(e),
        auto_escape_named(auto_escape_name(e)) matches Some(b) && same_auto_escape(e, b),
{
    reveal_strlit("html");
    reveal_strlit("json");
    reveal_strlit("none");
    let n = auto_escape_name(e);
    assert(ascii_lower(n) =~= n);
    assert("json"@[0] != "html"@[0]);
    assert("none"@[0] != "html"@[0] && "none"@[0] != "json"@[0]);
}

/// The name of every undefined-value behaviour is ASCII and already lower
/// case, and it selects that behaviour again.
pub proof fn law_undefined_name_roundtrip(u: LuaUndefinedBehavior)
    ensures
        is_ascii_chars(undefined_name(u)),
        ascii_lower(undefined_name(u)) == undefined_name(u),
        undefined_named(undefined_name(u)) == Some(u),
{
    reveal_strlit("chainable");
    reveal_strlit("lenient");
    reveal_strlit("semi-strict");
    reveal_strlit("strict");
    let n = undefined_name(u);
    assert(ascii_lower(n) =~= n);
    assert("lenient"@[0] != "chainable"@[0]);
    assert("semi-strict"@[0] != "chainable"@[0] && "semi-strict"@[0] != "lenient"@[0]);
    assert("strict"@.len() != "semi-strict"@.len());
    assert("strict"@[0] != "chainable"@[0] && "strict"@[0] != "lenient"@[0]);
}

/// The keys `1 ..= n` of a sequence of length `n`.
pub open spec fn seq_keys(n: int) -> Set<int> {
    vstd::set_lib::set_int_range(1, n + 1)
}

/// The integer keys of a table, as a set.
pub open spec fn key_set(int_keys: Seq<i64>) -> Set<int> {
    int_keys.map_values(|k: i64| k as int).to_set()
}

/// Whether a Lua table reads as a sequence: all its keys are the integers
/// `1 ..= n` for some `n >= 1`, with no holes and no other keys; or it is
/// empty and `empty_as_array` asks for an empty table to be a sequence.
pub open spec fn array_like(int_keys: Set<int>, others: nat, empty_as_array: Option<bool>) -> bool {
    ||| others == 0 && exists|n: int| n >= 1 && int_keys == #[trigger] seq_keys(n)
    ||| int_keys.len() == 0 && others == 0 && empty_as_array == Some(true)
}

/// The keys of a table, listed once each, are as many as their set holds.
proof fn lemma_key_set_len(int_keys: Seq<i64>)
    requires
        int_keys.no_duplicates(),
    ensures
        key_set(int_keys).len() == int_keys.len(),
        key_set(int_keys).finite(),
        forall|k: int| key_set(int_keys).contains(k) <==> exists|j: int| 0 <= j < int_keys.len() && int_keys[j] as int == k,
{
    let m = int_keys.map_values(|k: i64| k as int);
    assert forall|i: int, j: int| 0 <= i < m.len() && 0 <= j < m.len() && i != j implies m[i] != m[j] by {
        assert(int_keys[i] != int_keys[j]);
    }
    assert(m.no_duplicates());
    m.unique_seq_to_set();
    assert forall|k: int| key_set(int_keys).contains(k) <==> exists|j: int| 0 <= j < int_keys.len() && int_keys[j] as int == k by {
        if key_set(int_keys).contains(k) {
            let j = choose|j: int| 0 <= j < m.len() && m[j] == k;
            assert(int_keys[j] as int == k);
        }
        if exists|j: int| 0 <= j < int_keys.len() && int_keys[j] as int == k {
            let j = choose|j: int| 0 <= j < int_keys.len() && int_keys[j] as int == k;
            assert(m[j] == k);
        }
    }
}

/// Decides `array_like` for a table from its integer keys, each listed once
/// (as a table holds them), and the number of its entries under other keys:
/// the keys are `1 ..= n` exactly when each of the `n` keys lies in that range.
pub fn table_is_array_like(int_keys: &Vec<i64>, others: usize, empty_as_array: Option<bool>) -> (r: bool)
    requires
        int_keys@.no_duplicates(),
    ensures
        r == array_like(key_set(int_keys@), others as nat, empty_as_array),
{
    let ghost ks = key_set(int_keys@);
    proof {
        lemma_key_set_len(int_keys@);
    }
    let m = int_keys.len();
    if m == 0 {
        proof {
            assert forall|n: int| n >= 1 implies ks != #[trigger] seq_keys(n) by {
                assert(seq_keys(n).contains(1));
            }
        }
        let e = match empty_as_array {
            Some(b) => b,
            None => false,
        };
        return others == 0 && e;
    }
    if others != 0 {
        return false;
    }
    let mut i: usize = 0;
    while i < m
        invariant
            m == int_keys.len(),
            i <= m,
            forall|j: int| 0 <= j < i ==> 1 <= #[trigger] int_keys@[j] && int_keys@[j] <= m,
            ks == key_set(int_keys@),
            ks.finite(),
            ks.len() == m,
            forall|x: int| ks.contains(x) <==> exists|j: int| 0 <= j < int_keys.len() && int_keys@[j] as int == x,
        decreases m - i,
    {
        let k = int_keys[i];
        if k < 1 || (k as u64) > (m as u64) {
            proof {
                if exists|n: int| n >= 1 && ks == #[trigger] seq_keys(n) {
                    let n = choose|n: int| n >= 1 && ks == #[trigger] seq_keys(n);
                    vstd::set_lib::lemma_int_range(1, n + 1);
                    assert(int_keys@[i as int] as int == k as int);
                    assert(ks.contains(k as int));
                    assert(n == m);
                    assert(seq_keys(n).contains(k as int));
                }
            }
            return false;
        }
        i = i + 1;
    }
    proof {
        let range = seq_keys(m as int);
        vstd::set_lib::lemma_int_range(1, m + 1);
        assert forall|x: int| ks.contains(x) implies range.contains(x) by {
            let j = choose|j: int| 0 <= j < int_keys.len() && int_keys@[j] as int == x;
            assert(1 <= int_keys@[j] && int_keys@[j] <= m);
        }
        assert(ks.subset_of(range));
        vstd::set_lib::lemma_subset_equality(ks, range);
        assert(ks =~= range);
    }
    true
}

/// The kinds of Lua value that cross into the template engine differently.
#[derive(Clone, Copy, Debug, PartialEq, Eq, Structural)]
pub enum LuaValueKind {
    Nil,
    Null,
    Table,
    Function,
    UserData,
    /// Booleans, numbers, strings and the rest, which are serialized.
    Plain,
}

/// What a Lua value becomes in the template engine.
#[derive(Clone, Copy, Debug, PartialEq, Eq, Structural)]
pub enum JinjaForm {
    Undefined,
    NoneValue,
    TableObject { array_like: bool },
    FunctionObject,
    UserDataObject,
    MultiValue,
    Serialized,
}

/// What a template-engine value becomes in Lua.
#[derive(Clone, Copy, Debug, PartialEq, Eq, Structural)]
pub enum LuaForm {
    /// One Lua value of the given kind.
    Single(LuaValueKind),
    /// The Lua values of every element, in order.
    Spread,
    /// Whatever serializing the value gives.
    Serialized,
}

/// What a Lua value of a kind becomes in the template engine.
pub open spec fn jinja_form_of(kind: LuaValueKind, array_like: bool) -> JinjaForm {
    match kind {
        LuaValueKind::UserData => JinjaForm::UserDataObject,
        LuaValueKind::Table => JinjaForm::TableObject { array_like },
        LuaValueKind::Function => JinjaForm::FunctionObject,
        LuaValueKind::Nil => JinjaForm::Undefined,
        LuaValueKind::Null => JinjaForm::NoneValue,
        LuaValueKind::Plain => JinjaForm::Serialized,
    }
}

/// What a template-engine value of a form becomes in Lua.
pub open spec fn lua_form_of(form: JinjaForm) -> LuaForm {
    match form {
        JinjaForm::Undefined => LuaForm::Single(LuaValueKind::Nil),
        JinjaForm::NoneValue => LuaForm::Single(LuaValueKind::Null),
        JinjaForm::UserDataObject => LuaForm::Single(LuaValueKind::UserData),
        JinjaForm::TableObject { .. } => LuaForm::Single(LuaValueKind::Table),
        JinjaForm::FunctionObject => LuaForm::Single(LuaValueKind::Function),
        JinjaForm::MultiValue => LuaForm::Spread,
        JinjaForm::Serialized => LuaForm::Serialized,
    }
}

/// How a Lua value crosses into the template engine: tables, functions and
/// userdata are wrapped so that they stay the same Lua values, `nil`
/// becomes undefined, the Lua null becomes none, and the rest is serialized.
pub fn lua_to_jinja_form(kind: LuaValueKind, array_like: bool) -> (r: JinjaForm)
    ensures
        r == jinja_form_of(kind, array_like),
{
    match kind {
        LuaValueKind::UserData => JinjaForm::UserDataObject,
        LuaValueKind::Table => JinjaForm::TableObject { array_like },
        LuaValueKind::Function => JinjaForm::FunctionObject,
        LuaValueKind::Nil => JinjaForm::Undefined,
        LuaValueKind::Null => JinjaForm::NoneValue,
        LuaValueKind::Plain => JinjaForm::Serialized,
    }
}

/// How a template-engine value crosses into Lua: undefined becomes `nil`,
/// none the Lua null, wrapped Lua values become themselves again, a list of
/// returned values is spread, and the rest is serialized.
pub fn jinja_to_lua_form(form: JinjaForm) -> (r: LuaForm)
    ensures
        r == lua_form_of(form),
{
    match form {
        JinjaForm::Undefined => LuaForm::Single(LuaValueKind::Nil),
        JinjaForm::NoneValue => LuaForm::Single(LuaValueKind::Null),
        JinjaForm::UserDataObject => LuaForm::Single(LuaValueKind::UserData),
        JinjaForm::TableObject { .. } => LuaForm::Single(LuaValueKind::Table),
        JinjaForm::FunctionObject => LuaForm::Single(LuaValueKind::Function),
        JinjaForm::MultiValue => LuaForm::Spread,
        JinjaForm::Serialized => LuaForm::Serialized,
    }
}

/// What the values a Lua function returned become: nothing is undefined,
/// one value crosses on its own, several are kept together as a list.
#[derive(Clone, Copy, Debug, PartialEq, Eq, Structural)]
pub enum ReturnForm {
    Undefined,
    Single,
    List,
}

pub fn lua_returns_form(count: usize) -> (r: ReturnForm)
    ensures
        r == if count == 0 {
            ReturnForm::Undefined
        } else if count == 1 {
            ReturnForm::Single
        } else {
            ReturnForm::List
        },
{
    if count == 0 {
        ReturnForm::Undefined
    } else if count == 1 {
        ReturnForm::Single
    } else {
        ReturnForm::List
    }
}

/// How Lua arguments pass to a filter, test or macro: the number passed by
/// position, and whether the last one is passed as keyword arguments. The
/// last argument is taken as keyword arguments when keywords are accepted
/// and it is a table.
pub fn split_keyword_args(count: usize, last_is_table: bool, accept_kwargs: bool) -> (r: (usize, bool))
    ensures
        r == if count > 0 && accept_kwargs && last_is_table {
            ((count - 1) as usize, true)
        } else {
            (count, false)
        },
{
    if count > 0 && accept_kwargs && last_is_table {
        (count - 1, true)
    } else {
        (count, false)
    }
}

/// The key looked up in a wrapped Lua table: an integer key into a
/// sequence is moved up by one, since Lua counts from 1.
pub fn table_lookup_key(int_key: Option<i64>, array_like: bool) -> (r: Option<i64>)
    requires
        array_like ==> (int_key matches Some(k) ==> k < i64::MAX),
    ensures
        r == match int_key {
            Some(k) => if array_like { Some((k + 1) as i64) } else { Some(k) },
            None => None,
        },
{
    match int_key {
        Some(k) => if array_like { Some(k + 1) } else { Some(k) },
        None => None,
    }
}

/// How two wrapped Lua values compare: equal when Lua says so, otherwise by
/// the answer of their `__lt` method, and not at all when it has none.
pub fn compare_outcome(equal: bool, less: Option<bool>) -> (r: Option<std::cmp::Ordering>)
    ensures
        r == if equal {
            Some(std::cmp::Ordering::Equal)
        } else {
            match less {
                Some(true) => Some(std::cmp::Ordering::Less),
                Some(false) => Some(std::cmp::Ordering::Greater),
                None => None,
            }
        },
{
    if equal {
        return Some(std::cmp::Ordering::Equal);
    }
    match less {
        Some(true) => Some(std::cmp::Ordering::Less),
        Some(false) => Some(std::cmp::Ordering::Greater),
        None => None,
    }
}

/// A Lua table, function or userdata, or `nil` or the Lua null, passed into
/// the template engine and back, is again a single value of the same kind.
pub proof fn law_wrapped_values_roundtrip(kind: LuaValueKind, array_like: bool)
    requires
        kind != LuaValueKind::Plain,
    ensures
        lua_form_of(jinja_form_of(kind, array_like)) == LuaForm::Single(kind),
{
}

/// The delimiters and line prefixes of a template syntax. An empty line
/// prefix means the feature is off.
#[derive(Clone, Debug)]
pub struct SyntaxDelims {
    pub block_start: String,
    pub block_end: String,
    pub variable_start: String,
    pub variable_end: String,
    pub comment_start: String,
    pub comment_end: String,
    pub line_statement_prefix: String,
    pub line_comment_prefix: String,
}

/// The settings as contracts speak of them.
pub open spec fn delims_view(d: SyntaxDelims) -> Seq<Seq<char>> {
    seq![
        d.block_start@,
        d.block_end@,
        d.variable_start@,
        d.variable_end@,
        d.comment_start@,
        d.comment_end@,
        d.line_statement_prefix@,
        d.line_comment_prefix@,
    ]
}

/// Whether two start markers can stand together: an empty line prefix is
/// no marker, and markers that are set must differ.
pub open spec fn markers_apart(a: Seq<char>, b: Seq<char>) -> bool {
    a.len() == 0 || b.len() == 0 || a != b
}

/// Whether `minijinja` accepts a syntax (`delims_view` order): every end
/// delimiter and every start delimiter is set, and the start delimiters and
/// the line prefixes that are set are all different.
pub open spec fn syntax_accepts(d: Seq<Seq<char>>) -> bool {
    &&& d[0].len() > 0 && d[1].len() > 0 && d[2].len() > 0
    &&& d[3].len() > 0 && d[4].len() > 0 && d[5].len() > 0
    &&& markers_apart(d[2], d[0]) && markers_apart(d[2], d[4]) && markers_apart(d[0], d[4])
    &&& markers_apart(d[6], d[2]) && markers_apart(d[6], d[0]) && markers_apart(d[6], d[4])
    &&& markers_apart(d[7], d[2]) && markers_apart(d[7], d[0]) && markers_apart(d[7], d[4])
    &&& markers_apart(d[7], d[6])
}

/// Whether `minijinja` refuses a syntax, and with which message.
pub open spec fn syntax_build_error(d: Seq<Seq<char>>) -> Option<Seq<char>> {
    if syntax_accepts(d) {
        None
    } else {
        Some("invalid custom delimiters"@)
    }
}

/// Calls `minijinja::syntax::SyntaxConfigBuilder::build` on a builder set
/// to the given delimiters and prefixes. As its source shows, the default
/// syntax is accepted as it is, and any other passes through
/// `StartMarkerMatcher::new`, which refuses with `ErrorKind::InvalidDelimiter`
/// (shown as "invalid custom delimiters") an empty end or start delimiter
/// and a start marker equal to one before it; the default syntax meets
/// those conditions too.
#[verifier::external_body]
fn check_syntax(d: &SyntaxDelims) -> (r: Option<String>)
    ensures
        (match r {
            Some(e) => Some(e@),
            None => None,
        }) == syntax_build_error(delims_view(*d)),
{
    let mut b = minijinja::syntax::SyntaxConfig::builder();
    b.block_delimiters(d.block_start.clone(), d.block_end.clone());
    b.variable_delimiters(d.variable_start.clone(), d.variable_end.clone());
    b.comment_delimiters(d.comment_start.clone(), d.comment_end.clone());
    b.line_statement_prefix(d.line_statement_prefix.clone());
    b.line_comment_prefix(d.line_comment_prefix.clone());
    b.build().err().map(|e| e.to_string())
}

fn copy_delims(d: &SyntaxDelims) -> (r: SyntaxDelims)
    ensures
        delims_view(r) == delims_view(*d),
{
    SyntaxDelims {
        block_start: d.block_start.clone(),
        block_end: d.block_end.clone(),
        variable_start: d.variable_start.clone(),
        variable_end: d.variable_end.clone(),
        comment_start: d.comment_start.clone(),
        comment_end: d.comment_end.clone(),
        line_statement_prefix: d.line_statement_prefix.clone(),
        line_comment_prefix: d.line_comment_prefix.clone(),
    }
}

/// A template syntax `minijinja` accepted.
#[derive(Debug)]
pub struct LuaSyntaxConfig {
    delims: SyntaxDelims,
}

/// Settings being gathered for a template syntax.
#[derive(Debug)]
pub struct LuaSyntaxConfigBuilder {
    delims: SyntaxDelims,
}

/// The settings of the default syntax: `{% %}`, `{{ }}`, `{# #}`, and no
/// line prefixes.
pub open spec fn default_delims() -> Seq<Seq<char>> {
    seq!["{%"@, "%}"@, "{{"@, "}}"@, "{#"@, "#}"@, ""@, ""@]
}

/// A line prefix as it is reported: none when it is empty.
pub open spec fn prefix_view(p: Seq<char>) -> Option<Seq<char>> {
    if p.len() == 0 { None } else { Some(p) }
}

fn report_prefix(p: &String) -> (r: Option<String>)
    ensures
        match r {
            Some(s) => prefix_view(p@) == Some(s@),
            None => prefix_view(p@) is None,
        },
{
    if p.as_str().is_empty() {
        None
    } else {
        Some(p.clone())
    }
}

impl LuaSyntaxConfigBuilder {
    pub closed spec fn spec_delims(self) -> Seq<Seq<char>> {
        delims_view(self.delims)
    }

    /// Sets the block delimiters.
    pub fn lua_block_delimiters(&mut self, start: String, end: String)
        ensures
            final(self).spec_delims() == old(self).spec_delims().update(0, start@).update(1, end@),
    {
        self.delims.block_start = start;
        self.delims.block_end = end;
        assert(self.spec_delims() =~= old(self).spec_delims().update(0, start@).update(1, end@));
    }

    /// Sets the variable delimiters.
    pub fn lua_variable_delimiters(&mut self, start: String, end: String)
        ensures
            final(self).spec_delims() == old(self).spec_delims().update(2, start@).update(3, end@),
    {
        self.delims.variable_start = start;
        self.delims.variable_end = end;
        assert(self.spec_delims() =~= old(self).spec_delims().update(2, start@).update(3, end@));
    }

    /// Sets the comment delimiters.
    pub fn lua_comment_delimiters(&mut self, start: String, end: String)
        ensures
            final(self).spec_delims() == old(self).spec_delims().update(4, start@).update(5, end@),
    {
        self.delims.comment_start = start;
        self.delims.comment_end = end;
        assert(self.spec_delims() =~= old(self).spec_delims().update(4, start@).update(5, end@));
    }

    /// Sets the line statement prefix.
    pub fn lua_line_statement_prefix(&mut self, prefix: String)
        ensures
            final(self).spec_delims() == old(self).spec_delims().update(6, prefix@),
    {
        self.delims.line_statement_prefix = prefix;
        assert(self.spec_delims() =~= old(self).spec_delims().update(6, prefix@));
    }

    /// Sets the line comment prefix.
    pub fn lua_line_comment_prefix(&mut self, prefix: String)
        ensures
            final(self).spec_delims() == old(self).spec_delims().update(7, prefix@),
    {
        self.delims.line_comment_prefix = prefix;
        assert(self.spec_delims() =~= old(self).spec_delims().update(7, prefix@));
    }

    /// The syntax with the gathered settings, or `minijinja`'s message when
    /// it refuses them.
    pub fn lua_build(&self) -> (r: Result<LuaSyntaxConfig, String>)
        ensures
            match (r, syntax_build_error(self.spec_delims())) {
                (Ok(c), None) => c.spec_delims() == self.spec_delims(),
                (Err(e), Some(m)) => e@ == m,
                _ => false,
            },
    {
        match check_syntax(&self.delims) {
            Some(e) => Err(e),
            None => Ok(LuaSyntaxConfig { delims: copy_delims(&self.delims) }),
        }
    }
}

impl LuaSyntaxConfig {
    pub closed spec fn spec_delims(self) -> Seq<Seq<char>> {
        delims_view(self.delims)
    }

    /// A builder that starts from the default syntax.
    pub fn lua_builder() -> (r: LuaSyntaxConfigBuilder)
        ensures
            r.spec_delims() == default_delims(),
    {
        let r = LuaSyntaxConfigBuilder {
            delims: SyntaxDelims {
                block_start: "{%".to_owned(),
                block_end: "%}".to_owned(),
                variable_start: "{{".to_owned(),
                variable_end: "}}".to_owned(),
                comment_start: "{#".to_owned(),
                comment_end: "#}".to_owned(),
                line_statement_prefix: "".to_owned(),
                line_comment_prefix: "".to_owned(),
            },
        };
        assert(r.spec_delims() =~= default_delims());
        r
    }

    /// The block delimiters.
    pub fn lua_block_delimiters(&self) -> (r: (String, String))
        ensures
            r.0@ == self.spec_delims()[0] && r.1@ == self.spec_delims()[1],
    {
        (self.delims.block_start.clone(), self.delims.block_end.clone())
    }

    /// The variable delimiters.
    pub fn lua_variable_delimiters(&self) -> (r: (String, String))
        ensures
            r.0@ == self.spec_delims()[2] && r.1@ == self.spec_delims()[3],
    {
        (self.delims.variable_start.clone(), self.delims.variable_end.clone())
    }

    /// The comment delimiters.
    pub fn lua_comment_delimiters(&self) -> (r: (String, String))
        ensures
            r.0@ == self.spec_delims()[4] && r.1@ == self.spec_delims()[5],
    {
        (self.delims.comment_start.clone(), self.delims.comment_end.clone())
    }

    /// The line statement prefix, if one is set.
    pub fn lua_line_statement_prefix(&self) -> (r: Option<String>)
        ensures
            match r {
                Some(s) => prefix_view(self.spec_delims()[6]) == Some(s@),
                None => prefix_view(self.spec_delims()[6]) is None,
            },
    {
        report_prefix(&self.delims.line_statement_prefix)
    }

    /// The line comment prefix, if one is set.
    pub fn lua_line_comment_prefix(&self) -> (r: Option<String>)
        ensures
            match r {
                Some(s) => prefix_view(self.spec_delims()[7]) == Some(s@),
                None => prefix_view(self.spec_delims()[7]) is None,
            },
    {
        report_prefix(&self.delims.line_comment_prefix)
    }

    /// The settings of this syntax, for handing to the template engine.
    pub fn delims(&self) -> (r: &SyntaxDelims)
        ensures
            delims_view(*r) == self.spec_delims(),
    {
        &self.delims
    }
}

/// What `minijinja.type` reports of a Lua value.
pub open spec fn type_label(
    is_environment: bool,
    userdata_name: Option<Seq<char>>,
    is_null: bool,
    lua_type: Seq<char>,
) -> Seq<char> {
    if is_environment {
        "environment"@
    } else if userdata_name == Some("state"@) {
        "state"@
    } else if is_null {
        "none"@
    } else {
        lua_type
    }
}

/// The type `minijinja.type` reports of a Lua value: `environment` for a
/// template environment, `state` for a userdata whose type name is `state`
/// (a template state), `none` for the Lua null, and the Lua type's own name
/// otherwise. `userdata_name` is the name a userdata gives its type, if any.
pub fn value_type_label(is_environment: bool, userdata_name: Option<&str>, is_null: bool, lua_type: &str) -> (r: String)
    ensures
        r@ == type_label(
            is_environment,
            match userdata_name {
                Some(n) => Some(n@),
                None => None,
            },
            is_null,
            lua_type@,
        ),
{
    if is_environment {
        return "environment".to_owned();
    }
    match userdata_name {
        Some(n) => {
            if str_is(n, "state") {
                return "state".to_owned();
            }
        },
        None => {},
    }
    if is_null {
        "none".to_owned()
    } else {
        lua_type.to_owned()
    }
}

} // verus!
