//! Settings of the JSON codec, and the choices the JSON decoder
//! makes for each kind of value it reads.
use vstd::prelude::*;
use vstd::string::StringSliceAdditionalSpecFns;
use crate::text::{bytes_of, lemma_bytes_decode, str_is};

verus! {

/// How Lua values are read when encoding: the fields of
/// `mlua::serde::DeserializeOptions`.
#[derive(Clone, Copy, Debug, PartialEq, Eq, Structural)]
pub struct EncodeOptions {
    pub recursion_limit: usize,
    pub deny_unsupported_types: bool,
    pub deny_recursive_tables: bool,
    pub sort_keys: bool,
    pub encode_empty_tables_as_array: bool,
    pub detect_mixed_tables: bool,
}

/// How decoded values are written to Lua: the fields of
/// `mlua::serde::SerializeOptions`.
#[derive(Clone, Copy, Debug, PartialEq, Eq, Structural)]
pub struct DecodeOptions {
    pub recursion_limit: usize,
    pub set_array_metatable: bool,
    pub serialize_none_to_null: bool,
    pub serialize_unit_to_null: bool,
    pub detect_serde_json_arbitrary_precision: bool,
}

/// Reads the fields of `mlua::serde::DeserializeOptions::new()`; its
/// documentation gives the defaults of the switches.
#[verifier::external_body]
fn mlua_encode_defaults() -> (r: EncodeOptions)
    ensures
        r.recursion_limit == 128,
        r.deny_unsupported_types,
        r.deny_recursive_tables,
        !r.sort_keys,
        !r.encode_empty_tables_as_array,
        !r.detect_mixed_tables,
{
    let o = mlua::serde::DeserializeOptions::new();
    EncodeOptions {
        recursion_limit: o.recursion_limit,
        deny_unsupported_types: o.deny_unsupported_types,
        deny_recursive_tables: o.deny_recursive_tables,
        sort_keys: o.sort_keys,
        encode_empty_tables_as_array: o.encode_empty_tables_as_array,
        detect_mixed_tables: o.detect_mixed_tables,
    }
}

/// Reads the fields of `mlua::serde::SerializeOptions::new()`; its
/// documentation gives the defaults of the switches.
#[verifier::external_body]
fn mlua_decode_defaults() -> (r: DecodeOptions)
    ensures
        r.recursion_limit == 128,
        r.set_array_metatable,
        r.serialize_none_to_null,
        r.serialize_unit_to_null,
        !r.detect_serde_json_arbitrary_precision,
{
    let o = mlua::serde::SerializeOptions::new();
    DecodeOptions {
        recursion_limit: o.recursion_limit,
        set_array_metatable: o.set_array_metatable,
        serialize_none_to_null: o.serialize_none_to_null,
        serialize_unit_to_null: o.serialize_unit_to_null,
        detect_serde_json_arbitrary_precision: o.detect_serde_json_arbitrary_precision,
    }
}

/// Settings for encoding Lua values: how they are read, and how the output
/// is indented (`indent` spaces per level, when set, each line starting
/// with `prefix`).
#[derive(Debug)]
pub struct EncodeConfig {
    pub options: EncodeOptions,
    pub indent: Option<usize>,
    pub prefix: String,
}

/// Settings for decoding into Lua values.
#[derive(Clone, Copy, Debug, PartialEq, Eq, Structural)]
pub struct DecodeConfig {
    pub options: DecodeOptions,
    pub cast_u64_to_f64: bool,
}

impl EncodeConfig {
    /// A copy of the settings.
    pub fn duplicate(&self) -> (r: Self)
        ensures
            r.options == self.options,
            r.indent == self.indent,
            r.prefix@ == self.prefix@,
    {
        EncodeConfig { options: self.options, indent: self.indent, prefix: self.prefix.clone() }
    }

    /// The default settings: `mlua`'s, no indentation, and a prefix of one space.
    pub fn lua_new() -> (r: Self)
        ensures
            r.options.recursion_limit == 128,
            r.options.deny_unsupported_types,
            r.options.deny_recursive_tables,
            !r.options.sort_keys,
            !r.options.encode_empty_tables_as_array,
            !r.options.detect_mixed_tables,
            r.indent is None,
            r.prefix@ == " "@,
    {
        EncodeConfig { options: mlua_encode_defaults(), indent: None, prefix: " ".to_owned() }
    }

    pub fn lua_indent(&self) -> (r: Option<usize>)
        ensures
            r == self.indent,
    {
        self.indent
    }

    /// Sets the indentation; returns the updated settings.
    pub fn lua_set_indent(&mut self, indent: Option<usize>) -> (r: Self)
        ensures
            final(self).indent == indent,
            final(self).options == old(self).options,
            final(self).prefix@ == old(self).prefix@,
            r.options == final(self).options,
            r.indent == final(self).indent,
            r.prefix@ == final(self).prefix@,
    {
        self.indent = indent;
        self.duplicate()
    }

    pub fn lua_prefix(&self) -> (r: String)
        ensures
            r@ == self.prefix@,
    {
        self.prefix.clone()
    }

    /// Sets the line prefix; returns the updated settings.
    pub fn lua_set_prefix(&mut self, prefix: &str) -> (r: Self)
        ensures
            final(self).prefix@ == prefix@,
            final(self).options == old(self).options,
            final(self).indent == old(self).indent,
            r.options == final(self).options,
            r.indent == final(self).indent,
            r.prefix@ == final(self).prefix@,
    {
        self.prefix = prefix.to_owned();
        self.duplicate()
    }

    pub fn lua_deny_unsupported_types(&self) -> (r: bool)
        ensures
            r == self.options.deny_unsupported_types,
    {
        self.options.deny_unsupported_types
    }

    /// Sets whether values Lua cannot encode are an error; returns the updated settings.
    pub fn lua_set_deny_unsupported_types(&mut self, enable: bool) -> (r: Self)
        ensures
            final(self).options == (EncodeOptions { deny_unsupported_types: enable, ..old(self).options }),
            final(self).indent == old(self).indent,
            final(self).prefix@ == old(self).prefix@,
            r.options == final(self).options,
            r.indent == final(self).indent,
            r.prefix@ == final(self).prefix@,
    {
        self.options.deny_unsupported_types = enable;
        self.duplicate()
    }

    pub fn lua_deny_recursive_tables(&self) -> (r: bool)
        ensures
            r == self.options.deny_recursive_tables,
    {
        self.options.deny_recursive_tables
    }

    /// Sets whether tables that hold themselves are an error; returns the updated settings.
    pub fn lua_set_deny_recursive_tables(&mut self, enable: bool) -> (r: Self)
        ensures
            final(self).options == (EncodeOptions { deny_recursive_tables: enable, ..old(self).options }),
            final(self).indent == old(self).indent,
            final(self).prefix@ == old(self).prefix@,
            r.options == final(self).options,
            r.indent == final(self).indent,
            r.prefix@ == final(self).prefix@,
    {
        self.options.deny_recursive_tables = enable;
        self.duplicate()
    }

    pub fn lua_sort_keys(&self) -> (r: bool)
        ensures
            r == self.options.sort_keys,
    {
        self.options.sort_keys
    }

    /// Sets whether table keys are written in order; returns the updated settings.
    pub fn lua_set_sort_keys(&mut self, enable: bool) -> (r: Self)
        ensures
            final(self).options == (EncodeOptions { sort_keys: enable, ..old(self).options }),
            final(self).indent == old(self).indent,
            final(self).prefix@ == old(self).prefix@,
            r.options == final(self).options,
            r.indent == final(self).indent,
            r.prefix@ == final(self).prefix@,
    {
        self.options.sort_keys = enable;
        self.duplicate()
    }

    pub fn lua_encode_empty_tables_as_array(&self) -> (r: bool)
        ensures
            r == self.options.encode_empty_tables_as_array,
    {
        self.options.encode_empty_tables_as_array
    }

    /// Sets whether empty tables are written as arrays; returns the updated settings.
    pub fn lua_set_encode_empty_tables_as_array(&mut self, enable: bool) -> (r: Self)
        ensures
            final(self).options == (EncodeOptions { encode_empty_tables_as_array: enable, ..old(self).options }),
            final(self).indent == old(self).indent,
            final(self).prefix@ == old(self).prefix@,
            r.options == final(self).options,
            r.indent == final(self).indent,
            r.prefix@ == final(self).prefix@,
    {
        self.options.encode_empty_tables_as_array = enable;
        self.duplicate()
    }

    pub fn lua_detect_mixed_tables(&self) -> (r: bool)
        ensures
            r == self.options.detect_mixed_tables,
    {
        self.options.detect_mixed_tables
    }

    /// Sets whether tables with both kinds of keys are written as maps; returns the updated settings.
    pub fn lua_set_detect_mixed_tables(&mut self, enable: bool) -> (r: Self)
        ensures
            final(self).options == (EncodeOptions { detect_mixed_tables: enable, ..old(self).options }),
            final(self).indent == old(self).indent,
            final(self).prefix@ == old(self).prefix@,
            r.options == final(self).options,
            r.indent == final(self).indent,
            r.prefix@ == final(self).prefix@,
    {
        self.options.detect_mixed_tables = enable;
        self.duplicate()
    }
}

impl DecodeConfig {
    /// The default settings: `mlua`'s, reading `serde_json`'s exact numbers,
    /// and refusing integers too large for Lua.
    pub fn lua_new() -> (r: Self)
        ensures
            r.options.recursion_limit == 128,
            r.options.set_array_metatable,
            r.options.serialize_none_to_null,
            r.options.serialize_unit_to_null,
            r.options.detect_serde_json_arbitrary_precision,
            !r.cast_u64_to_f64,
    {
        let mut options = mlua_decode_defaults();
        options.detect_serde_json_arbitrary_precision = true;
        DecodeConfig { options, cast_u64_to_f64: false }
    }

    /// Whether JSON null becomes the Lua null value (rather than `nil`).
    pub fn lua_null(&self) -> (r: bool)
        ensures
            r == (self.options.serialize_unit_to_null && self.options.serialize_none_to_null),
    {
        self.options.serialize_unit_to_null && self.options.serialize_none_to_null
    }

    /// Sets whether JSON null becomes the Lua null value; returns the updated settings.
    pub fn lua_set_null(&mut self, enable: bool) -> (r: Self)
        ensures
            final(self).options == (DecodeOptions {
                serialize_unit_to_null: enable,
                serialize_none_to_null: enable,
                ..old(self).options
            }),
            final(self).cast_u64_to_f64 == old(self).cast_u64_to_f64,
            r == *final(self),
    {
        self.options.serialize_unit_to_null = enable;
        self.options.serialize_none_to_null = enable;
        *self
    }

    pub fn lua_cast_u64_to_f64(&self) -> (r: bool)
        ensures
            r == self.cast_u64_to_f64,
    {
        self.cast_u64_to_f64
    }

    /// Sets whether integers too large for Lua become floats; returns the updated settings.
    pub fn lua_set_cast_u64_to_f64(&mut self, enable: bool) -> (r: Self)
        ensures
            final(self).cast_u64_to_f64 == enable,
            final(self).options == old(self).options,
            r == *final(self),
    {
        self.cast_u64_to_f64 = enable;
        *self
    }

    pub fn lua_array_metatable(&self) -> (r: bool)
        ensures
            r == self.options.set_array_metatable,
    {
        self.options.set_array_metatable
    }

    /// Sets whether decoded arrays are marked as arrays; returns the updated settings.
    pub fn lua_set_array_metatable(&mut self, enable: bool) -> (r: Self)
        ensures
            final(self).options == (DecodeOptions { set_array_metatable: enable, ..old(self).options }),
            final(self).cast_u64_to_f64 == old(self).cast_u64_to_f64,
            r == *final(self),
    {
        self.options.set_array_metatable = enable;
        *self
    }
}

/// Setting JSON null to decode as the Lua null value and reading the
/// setting back gives what was set, whatever the settings were.
pub proof fn law_null_setting_reads_back(before: DecodeConfig, enable: bool)
    ensures
        ({
            let after = DecodeConfig {
                options: DecodeOptions {
                    serialize_unit_to_null: enable,
                    serialize_none_to_null: enable,
                    ..before.options
                },
                ..before
            };
            after.options.serialize_unit_to_null && after.options.serialize_none_to_null
        }) == enable,
{
}

/// What an absent JSON value becomes in Lua.
#[derive(Clone, Copy, Debug, PartialEq, Eq, Structural)]
pub enum Absent {
    /// The Lua null value.
    Null,
    /// `nil`.
    Nil,
}

/// What a JSON `null` read as a unit becomes.
pub fn decode_unit(config: &DecodeConfig) -> (r: Absent)
    ensures
        r == if config.options.serialize_unit_to_null { Absent::Null } else { Absent::Nil },
{
    if config.options.serialize_unit_to_null { Absent::Null } else { Absent::Nil }
}

/// What a JSON `null` read as a missing option becomes.
pub fn decode_none(config: &DecodeConfig) -> (r: Absent)
    ensures
        r == if config.options.serialize_none_to_null { Absent::Null } else { Absent::Nil },
{
    if config.options.serialize_none_to_null { Absent::Null } else { Absent::Nil }
}

/// What an unsigned JSON integer becomes in Lua.
#[derive(Clone, Copy, Debug, PartialEq, Eq, Structural)]
pub enum U64Decoded {
    /// A Lua integer.
    Integer(i64),
    /// A Lua float, nearest to the integer.
    Float(u64),
    /// An error: the integer does not fit a Lua integer.
    OutOfRange,
}

/// An unsigned integer that fits a Lua integer stays an integer; a larger
/// one becomes a float when the settings ask for it, and is an error otherwise.
pub fn decode_u64(v: u64, config: &DecodeConfig) -> (r: U64Decoded)
    ensures
        r == if v <= i64::MAX {
            U64Decoded::Integer(v as i64)
        } else if config.cast_u64_to_f64 {
            U64Decoded::Float(v)
        } else {
            U64Decoded::OutOfRange
        },
{
    if v <= i64::MAX as u64 {
        U64Decoded::Integer(v as i64)
    } else if config.cast_u64_to_f64 {
        U64Decoded::Float(v)
    } else {
        U64Decoded::OutOfRange
    }
}

/// Whether a map entry is `serde_json`'s marker for a number kept as text.
pub fn is_number_marker(key: &str, config: &DecodeConfig) -> (r: bool)
    ensures
        r == (config.options.detect_serde_json_arbitrary_precision && key@ == "$serde_json::private::Number"@),
{
    config.options.detect_serde_json_arbitrary_precision && str_is(key, "$serde_json::private::Number")
}

/// The digit a character stands for.
pub open spec fn digit_value(c: u8) -> int {
    c as int - '0' as int
}

pub open spec fn is_digit(c: u8) -> bool {
    0x30 <= c <= 0x39
}

/// Every character of `d` is a decimal digit.
pub open spec fn all_digits(d: Seq<u8>) -> bool {
    forall|i: int| 0 <= i < d.len() ==> is_digit(#[trigger] d[i])
}

/// The characters of a number after its sign, if it has one.
pub open spec fn unsigned_part(b: Seq<u8>) -> Seq<u8> {
    if b.len() > 0 && (b[0] == 0x2d || b[0] == 0x2b) { b.drop_first() } else { b }
}

/// The number written by the decimal digits `d`.
pub open spec fn digits_value(d: Seq<u8>) -> int
    decreases d.len(),
{
    if d.len() == 0 {
        0
    } else {
        digits_value(d.drop_last()) * 10 + digit_value(d.last())
    }
}

/// The integer a text spells, the way `str::parse::<i64>` reads it: an
/// optional `+` or `-`, then one or more decimal digits, with the value in
/// range.
pub open spec fn spelled_i64(b: Seq<u8>) -> Option<i64> {
    if unsigned_part(b).len() == 0 || !all_digits(unsigned_part(b)) {
        None
    } else if b[0] == 0x2d {
        if -digits_value(unsigned_part(b)) >= i64::MIN { Some((-digits_value(unsigned_part(b))) as i64) } else { None }
    } else {
        if digits_value(unsigned_part(b)) <= i64::MAX { Some(digits_value(unsigned_part(b)) as i64) } else { None }
    }
}

proof fn lemma_digits_value_nonneg(d: Seq<u8>)
    requires
        forall|i: int| 0 <= i < d.len() ==> is_digit(#[trigger] d[i]),
    ensures
        digits_value(d) >= 0,
    decreases d.len(),
{
    if d.len() > 0 {
        lemma_digits_value_nonneg(d.drop_last());
    }
}

/// The integer a text spells, if it spells one that fits an `i64`.
pub fn parse_i64(s: &str) -> (r: Option<i64>)
    ensures
        r == spelled_i64(bytes_of(s@)),
{
    let b = s.as_bytes();
    proof {
        lemma_bytes_decode(s@);
    }
    let ghost bv = b@;
    assert(bv == bytes_of(s@));
    if b.len() == 0 {
        return None;
    }
    let neg = b[0] == 0x2d;
    let signed = b[0] == 0x2d || b[0] == 0x2b;
    let first: usize = if signed { 1 } else { 0 };
    let ghost d = unsigned_part(bv);
    assert(d =~= bv.subrange(first as int, bv.len() as int));
    if first == b.len() {
        return None;
    }
    // Magnitudes are gathered as `u64`, which holds `|i64::MIN|`.
    let limit: u64 = if neg { 9223372036854775808u64 } else { 9223372036854775807u64 };
    let mut acc: u64 = 0;
    let mut i: usize = first;
    let mut overflow = false;
    while i < b.len()
        invariant
            first <= i <= b.len(),
            b@ == bv,
            d == unsigned_part(bv),
            bv == bytes_of(s@),
            d == bv.subrange(first as int, bv.len() as int),
            first == (if signed { 1usize } else { 0usize }),
            signed == (bv[0] == 0x2d || bv[0] == 0x2b),
            neg == (bv[0] == 0x2d),
            bv.len() > 0,
            forall|k: int| 0 <= k < i - first ==> is_digit(#[trigger] d[k]),
            !overflow ==> acc == digits_value(d.subrange(0, i - first)) && acc <= limit,
            overflow ==> digits_value(d.subrange(0, i - first)) > limit,
            limit == (if neg { 9223372036854775808u64 } else { 9223372036854775807u64 }),
        decreases b.len() - i,
    {
        let c = b[i];
        if c < 0x30 || c > 0x39 {
            assert(d[i - first] == c);
            assert(!is_digit(d[i - first]));
            assert(!all_digits(d));
            assert(spelled_i64(bv) is None);
            return None;
        }
        assert(d.subrange(0, i + 1 - first).drop_last() =~= d.subrange(0, i - first));
        assert(d.subrange(0, i + 1 - first).last() == c);
        proof {
            lemma_digits_value_nonneg(d.subrange(0, i - first));
        }
        if !overflow {
            let digit = (c - 0x30) as u64;
            if acc > (limit - digit) / 10 {
                overflow = true;
                assert(acc * 10 + digit > limit) by (nonlinear_arith)
                    requires
                        acc > (limit - digit) / 10,
                        digit <= 9,
                        limit >= 9,
                ;
            } else {
                assert(acc * 10 + digit <= limit) by (nonlinear_arith)
                    requires
                        acc <= (limit - digit) / 10,
                        digit <= 9,
                        limit >= 9,
                ;
                acc = acc * 10 + digit;
            }
        } else {
            assert(digits_value(d.subrange(0, i + 1 - first)) >= digits_value(d.subrange(0, i - first))
                * 10) by (nonlinear_arith)
                requires
                    digits_value(d.subrange(0, i + 1 - first)) == digits_value(d.subrange(0, i - first)) * 10
                        + digit_value(c),
                    is_digit(c),
            ;
            assert(digits_value(d.subrange(0, i - first)) * 10 > limit) by (nonlinear_arith)
                requires
                    digits_value(d.subrange(0, i - first)) > limit,
            ;
        }
        i = i + 1;
    }
    assert(d.subrange(0, i - first) =~= d);
    if overflow {
        return None;
    }
    if neg {
        if acc == 9223372036854775808u64 {
            Some(i64::MIN)
        } else {
            Some(0 - (acc as i64))
        }
    } else {
        Some(acc as i64)
    }
}

/// What the text of a number kept by `serde_json` becomes: an integer when
/// it spells one that fits, otherwise whatever reading it as a float gives.
#[derive(Clone, Copy, Debug, PartialEq, Eq, Structural)]
pub enum NumberText {
    Integer(i64),
    NotInteger,
}

pub fn decode_number_text(text: &str) -> (r: NumberText)
    ensures
        r == match spelled_i64(bytes_of(text@)) {
            Some(v) => NumberText::Integer(v),
            None => NumberText::NotInteger,
        },
{
    match parse_i64(text) {
        Some(v) => NumberText::Integer(v),
        None => NumberText::NotInteger,
    }
}

} // verus!
