//! The JSON Schema drafts a validator can follow, their names, and what
//! `jsonschema` knows of each.
use vstd::prelude::*;
use crate::text::str_is;

verus! {

/// A JSON Schema draft.
#[derive(Clone, Copy, Debug, PartialEq, Eq, Structural)]
pub enum LuaDraft {
    Draft201909,
    Draft202012,
    Draft4,
    Draft6,
    Draft7,
    Unknown,
}

/// The name a draft is shown by.
pub open spec fn draft_name(d: LuaDraft) -> Seq<char> {
    match d {
        LuaDraft::Draft201909 => "Draft201909"@,
        LuaDraft::Draft202012 => "Draft202012"@,
        LuaDraft::Draft4 => "Draft4"@,
        LuaDraft::Draft6 => "Draft6"@,
        LuaDraft::Draft7 => "Draft7"@,
        LuaDraft::Unknown => "Unknown"@,
    }
}

/// The draft a name refers to: each draft's own name, and for the numbered
/// drafts also the same name in capitals or in lower case.
pub open spec fn draft_from_name(n: Seq<char>) -> Option<LuaDraft> {
    if n == "Draft201909"@ || n == "DRAFT201909"@ || n == "draft201909"@ {
        Some(LuaDraft::Draft201909)
    } else if n == "Draft202012"@ || n == "DRAFT202012"@ || n == "draft202012"@ {
        Some(LuaDraft::Draft202012)
    } else if n == "Draft4"@ || n == "DRAFT4"@ || n == "draft4"@ {
        Some(LuaDraft::Draft4)
    } else if n == "Draft6"@ || n == "DRAFT6"@ || n == "draft6"@ {
        Some(LuaDraft::Draft6)
    } else if n == "Draft7"@ || n == "DRAFT7"@ || n == "draft7"@ {
        Some(LuaDraft::Draft7)
    } else if n == "Unknown"@ {
        Some(LuaDraft::Unknown)
    } else {
        None
    }
}

/// A text with its trailing `#` characters removed.
pub open spec fn trim_hashes(s: Seq<char>) -> Seq<char>
    decreases s.len(),
{
    if s.len() > 0 && s.last() == '#' {
        trim_hashes(s.drop_last())
    } else {
        s
    }
}

/// The draft `jsonschema` reads from a `$schema` URI: the URI of a known
/// draft's meta-schema (over `https` or `http`, with any trailing `#`
/// removed) names that draft, the version-less one names the current draft
/// (2020-12), and any other names none.
pub open spec fn schema_uri_draft(uri: Seq<char>) -> LuaDraft {
    let u = trim_hashes(uri);
    if u == "https://json-schema.org/draft/2020-12/schema"@ || u == "http://json-schema.org/draft/2020-12/schema"@ {
        LuaDraft::Draft202012
    } else if u == "https://json-schema.org/draft/2019-09/schema"@ || u == "http://json-schema.org/draft/2019-09/schema"@ {
        LuaDraft::Draft201909
    } else if u == "https://json-schema.org/draft-07/schema"@ || u == "http://json-schema.org/draft-07/schema"@ {
        LuaDraft::Draft7
    } else if u == "https://json-schema.org/draft-06/schema"@ || u == "http://json-schema.org/draft-06/schema"@ {
        LuaDraft::Draft6
    } else if u == "https://json-schema.org/draft-04/schema"@ || u == "http://json-schema.org/draft-04/schema"@ {
        LuaDraft::Draft4
    } else if u == "https://json-schema.org/schema"@ || u == "http://json-schema.org/schema"@ {
        LuaDraft::Draft202012
    } else {
        LuaDraft::Unknown
    }
}

/// The keywords every draft has.
pub open spec fn common_keyword(k: Seq<char>) -> bool {
    ||| k == "$ref"@
    ||| k == "$schema"@
    ||| k == "additionalItems"@
    ||| k == "additionalProperties"@
    ||| k == "allOf"@
    ||| k == "anyOf"@
    ||| k == "definitions"@
    ||| k == "dependencies"@
    ||| k == "enum"@
    ||| k == "exclusiveMaximum"@
    ||| k == "exclusiveMinimum"@
    ||| k == "format"@
    ||| k == "items"@
    ||| k == "maxItems"@
    ||| k == "maxLength"@
    ||| k == "maxProperties"@
    ||| k == "maximum"@
    ||| k == "minItems"@
    ||| k == "minLength"@
    ||| k == "minProperties"@
    ||| k == "minimum"@
    ||| k == "multipleOf"@
    ||| k == "not"@
    ||| k == "oneOf"@
    ||| k == "pattern"@
    ||| k == "patternProperties"@
    ||| k == "properties"@
    ||| k == "required"@
    ||| k == "type"@
    ||| k == "uniqueItems"@
}

/// The keywords that came with draft 2019-09.
pub open spec fn keyword_since_2019(k: Seq<char>) -> bool {
    ||| k == "$anchor"@
    ||| k == "$defs"@
    ||| k == "$recursiveAnchor"@
    ||| k == "$recursiveRef"@
    ||| k == "dependentRequired"@
    ||| k == "dependentSchemas"@
    ||| k == "maxContains"@
    ||| k == "minContains"@
    ||| k == "unevaluatedItems"@
    ||| k == "unevaluatedProperties"@
}

/// Whether `jsonschema` counts `k` as a keyword of draft `d`: the common
/// keywords in every draft; `id` in draft 4 only; `$id`, `const`,
/// `contains`, `propertyNames`, `contentEncoding` and `contentMediaType`
/// from draft 6 on; `if`, `then` and `else` from draft 7 on;
/// `contentSchema` and the keywords of 2019-09 from that draft on; and
/// `$dynamicAnchor`, `$dynamicRef` and `prefixItems` in 2020-12 only. A
/// draft not recognised counts as the latest.
pub open spec fn draft_knows_keyword(d: LuaDraft, k: Seq<char>) -> bool {
    let since_6 = !(d is Draft4);
    let since_7 = since_6 && !(d is Draft6);
    let since_2019 = since_7 && !(d is Draft7);
    let latest = d is Draft202012 || d is Unknown;
    ||| common_keyword(k)
    ||| k == "id"@ && d is Draft4
    ||| (k == "$id"@ || k == "const"@ || k == "contains"@ || k == "propertyNames"@ || k == "contentEncoding"@ || k == "contentMediaType"@) && since_6
    ||| (k == "else"@ || k == "if"@ || k == "then"@) && since_7
    ||| (k == "contentSchema"@ || keyword_since_2019(k)) && since_2019
    ||| (k == "$dynamicAnchor"@ || k == "$dynamicRef"@ || k == "prefixItems"@) && latest
}

/// Calls `jsonschema::Draft::from_schema_uri`; the contract states the
/// mapping its source makes from URIs to drafts.
#[verifier::external_body]
fn from_schema_uri(uri: &str) -> (r: LuaDraft)
    ensures
        r == schema_uri_draft(uri@),
{
    match jsonschema::Draft::from_schema_uri(uri) {
        jsonschema::Draft::Draft201909 => LuaDraft::Draft201909,
        jsonschema::Draft::Draft202012 => LuaDraft::Draft202012,
        jsonschema::Draft::Draft4 => LuaDraft::Draft4,
        jsonschema::Draft::Draft6 => LuaDraft::Draft6,
        jsonschema::Draft::Draft7 => LuaDraft::Draft7,
        _ => LuaDraft::Unknown,
    }
}

/// Calls `jsonschema::Draft::is_known_keyword`; the contract states the
/// table of keywords per draft that its source matches on.
#[verifier::external_body]
fn is_known_keyword(d: LuaDraft, keyword: &str) -> (r: bool)
    ensures
        r == draft_knows_keyword(d, keyword@),
{
    let draft = match d {
        LuaDraft::Draft201909 => jsonschema::Draft::Draft201909,
        LuaDraft::Draft202012 => jsonschema::Draft::Draft202012,
        LuaDraft::Draft4 => jsonschema::Draft::Draft4,
        LuaDraft::Draft6 => jsonschema::Draft::Draft6,
        LuaDraft::Draft7 => jsonschema::Draft::Draft7,
        LuaDraft::Unknown => jsonschema::Draft::Unknown,
    };
    draft.is_known_keyword(keyword)
}

impl LuaDraft {
    /// The draft's name.
    pub fn lua_tostring(&self) -> (r: String)
        ensures
            r@ == draft_name(*self),
    {
        let name = match self {
            LuaDraft::Draft201909 => "Draft201909",
            LuaDraft::Draft202012 => "Draft202012",
            LuaDraft::Draft4 => "Draft4",
            LuaDraft::Draft6 => "Draft6",
            LuaDraft::Draft7 => "Draft7",
            LuaDraft::Unknown => "Unknown",
        };
        name.to_owned()
    }

    /// Whether two drafts are the same draft.
    pub fn lua_eq(&self, other: LuaDraft) -> (r: bool)
        ensures
            r == (*self == other),
    {
        *self == other
    }

    /// The draft a name refers to, if any.
    pub fn from_name(name: &str) -> (r: Option<LuaDraft>)
        ensures
            r == draft_from_name(name@),
    {
        if str_is(name, "Draft201909") || str_is(name, "DRAFT201909") || str_is(name, "draft201909") {
            Some(LuaDraft::Draft201909)
        } else if str_is(name, "Draft202012") || str_is(name, "DRAFT202012") || str_is(
            name,
            "draft202012",
        ) {
            Some(LuaDraft::Draft202012)
        } else if str_is(name, "Draft4") || str_is(name, "DRAFT4") || str_is(name, "draft4") {
            Some(LuaDraft::Draft4)
        } else if str_is(name, "Draft6") || str_is(name, "DRAFT6") || str_is(name, "draft6") {
            Some(LuaDraft::Draft6)
        } else if str_is(name, "Draft7") || str_is(name, "DRAFT7") || str_is(name, "draft7") {
            Some(LuaDraft::Draft7)
        } else if str_is(name, "Unknown") {
            Some(LuaDraft::Unknown)
        } else {
            None
        }
    }

    /// The draft `jsonschema` reads from a `$schema` URI.
    pub fn lua_from_schema_uri(uri: &str) -> (r: LuaDraft)
        ensures
            r == schema_uri_draft(uri@),
    {
        from_schema_uri(uri)
    }

    /// Whether `keyword` is a keyword of this draft.
    pub fn lua_is_known_keyword(&self, keyword: &str) -> (r: bool)
        ensures
            r == draft_knows_keyword(*self, keyword@),
    {
        is_known_keyword(*self, keyword)
    }

    /// The draft named by the `$schema` of a schema, or this draft when the
    /// schema names none.
    pub fn lua_detect(&self, schema_uri: Option<&str>) -> (r: LuaDraft)
        ensures
            r == match schema_uri {
                Some(u) => schema_uri_draft(u@),
                None => *self,
            },
    {
        match schema_uri {
            Some(u) => from_schema_uri(u),
            None => *self,
        }
    }
}

/// Reading back the name a draft is shown by gives the same draft.
pub proof fn law_draft_name_roundtrip(d: LuaDraft)
    ensures
        draft_from_name(draft_name(d)) == Some(d),
{
    reveal_strlit("Draft201909");
    reveal_strlit("DRAFT201909");
    reveal_strlit("draft201909");
    reveal_strlit("Draft202012");
    reveal_strlit("DRAFT202012");
    reveal_strlit("draft202012");
    reveal_strlit("Draft4");
    reveal_strlit("DRAFT4");
    reveal_strlit("draft4");
    reveal_strlit("Draft6");
    reveal_strlit("DRAFT6");
    reveal_strlit("draft6");
    reveal_strlit("Draft7");
    reveal_strlit("DRAFT7");
    reveal_strlit("draft7");
    reveal_strlit("Unknown");
    match d {
        LuaDraft::Draft201909 => {},
        LuaDraft::Draft202012 => {
            assert("Draft202012"@[7] != "Draft201909"@[7]);
            assert("Draft202012"@[1] != "DRAFT201909"@[1]);
            assert("Draft202012"@[0] != "draft201909"@[0]);
        },
        LuaDraft::Draft4 => {
            assert("Draft4"@.len() != "Draft201909"@.len());
            assert("Draft4"@.len() != "Draft202012"@.len());
        },
        LuaDraft::Draft6 => {
            assert("Draft6"@.len() != "Draft201909"@.len());
            assert("Draft6"@.len() != "Draft202012"@.len());
            assert("Draft6"@[5] != "Draft4"@[5]);
            assert("Draft6"@[0] != "DRAFT4"@[0] || "Draft6"@[1] != "DRAFT4"@[1]);
            assert("Draft6"@[0] != "draft4"@[0]);
        },
        LuaDraft::Draft7 => {
            assert("Draft7"@.len() != "Draft201909"@.len());
            assert("Draft7"@.len() != "Draft202012"@.len());
            assert("Draft7"@[5] != "Draft4"@[5]);
            assert("Draft7"@[1] != "DRAFT4"@[1]);
            assert("Draft7"@[0] != "draft4"@[0]);
            assert("Draft7"@[5] != "Draft6"@[5]);
            assert("Draft7"@[1] != "DRAFT6"@[1]);
            assert("Draft7"@[0] != "draft6"@[0]);
        },
        LuaDraft::Unknown => {
            assert("Unknown"@.len() != "Draft201909"@.len());
            assert("Unknown"@.len() != "Draft202012"@.len());
            assert("Unknown"@.len() != "Draft4"@.len());
            assert("Unknown"@.len() != "Draft6"@.len());
            assert("Unknown"@.len() != "Draft7"@.len());
        },
    }
}

/// A `$schema` URI names the same draft with or without a trailing `#`.
pub proof fn law_schema_uri_ignores_trailing_hash(uri: Seq<char>)
    ensures
        schema_uri_draft(uri.push('#')) == schema_uri_draft(uri),
{
    assert(uri.push('#').drop_last() =~= uri);
}


/// A letter's capital form; other characters are left as they are.
pub open spec fn ascii_upper_char(c: char) -> char {
    if 'a' <= c && c <= 'z' {
        ((c as int) - 32) as char
    } else {
        c
    }
}

/// A letter's lower-case form; other characters are left as they are.
pub open spec fn ascii_lower_char(c: char) -> char {
    if 'A' <= c && c <= 'Z' {
        ((c as int) + 32) as char
    } else {
        c
    }
}

/// A text with every ASCII letter in capitals.
pub open spec fn ascii_upper(s: Seq<char>) -> Seq<char> {
    Seq::new(s.len(), |i: int| ascii_upper_char(s[i]))
}

/// A text with every ASCII letter in lower case.
pub open spec fn ascii_lower(s: Seq<char>) -> Seq<char> {
    Seq::new(s.len(), |i: int| ascii_lower_char(s[i]))
}

/// Every numbered draft is also named by its name in capitals and by its
/// name in lower case.
pub proof fn law_numbered_draft_names_in_either_case(d: LuaDraft)
    requires
        d != LuaDraft::Unknown,
    ensures
        draft_from_name(ascii_upper(draft_name(d))) == Some(d),
        draft_from_name(ascii_lower(draft_name(d))) == Some(d),
{
    reveal_strlit("Draft201909");
    reveal_strlit("DRAFT201909");
    reveal_strlit("draft201909");
    reveal_strlit("Draft202012");
    reveal_strlit("DRAFT202012");
    reveal_strlit("draft202012");
    reveal_strlit("Draft4");
    reveal_strlit("DRAFT4");
    reveal_strlit("draft4");
    reveal_strlit("Draft6");
    reveal_strlit("DRAFT6");
    reveal_strlit("draft6");
    reveal_strlit("Draft7");
    reveal_strlit("DRAFT7");
    reveal_strlit("draft7");
    match d {
        LuaDraft::Draft201909 => {
            assert(ascii_upper("Draft201909"@) =~= "DRAFT201909"@);
            assert(ascii_lower("Draft201909"@) =~= "draft201909"@);
            assert("DRAFT201909"@[0] != "Draft201909"@[0] || "DRAFT201909"@[1] != "Draft201909"@[1]);
            assert("draft201909"@[0] != "Draft201909"@[0]);
            assert("draft201909"@[0] != "DRAFT201909"@[0]);
        },
        LuaDraft::Draft202012 => {
            assert(ascii_upper("Draft202012"@) =~= "DRAFT202012"@);
            assert(ascii_lower("Draft202012"@) =~= "draft202012"@);
            assert("DRAFT202012"@[7] != "Draft201909"@[7]);
            assert("DRAFT202012"@[7] != "DRAFT201909"@[7]);
            assert("DRAFT202012"@[7] != "draft201909"@[7]);
            assert("draft202012"@[7] != "Draft201909"@[7]);
            assert("draft202012"@[7] != "DRAFT201909"@[7]);
            assert("draft202012"@[7] != "draft201909"@[7]);
            assert("DRAFT202012"@[1] != "Draft202012"@[1]);
            assert("draft202012"@[0] != "Draft202012"@[0]);
            assert("draft202012"@[0] != "DRAFT202012"@[0]);
        },
        LuaDraft::Draft4 => {
            assert(ascii_upper("Draft4"@) =~= "DRAFT4"@);
            assert(ascii_lower("Draft4"@) =~= "draft4"@);
            assert("DRAFT4"@.len() != "Draft201909"@.len());
            assert("DRAFT4"@.len() != "Draft202012"@.len());
            assert("draft4"@.len() != "Draft201909"@.len());
            assert("draft4"@.len() != "Draft202012"@.len());
            assert("DRAFT4"@[1] != "Draft4"@[1]);
            assert("draft4"@[0] != "Draft4"@[0]);
            assert("draft4"@[0] != "DRAFT4"@[0]);
        },
        LuaDraft::Draft6 => {
            assert(ascii_upper("Draft6"@) =~= "DRAFT6"@);
            assert(ascii_lower("Draft6"@) =~= "draft6"@);
            assert("DRAFT6"@.len() != "Draft201909"@.len());
            assert("DRAFT6"@.len() != "Draft202012"@.len());
            assert("draft6"@.len() != "Draft201909"@.len());
            assert("draft6"@.len() != "Draft202012"@.len());
            assert("DRAFT6"@[5] != "Draft4"@[5]);
            assert("DRAFT6"@[5] != "DRAFT4"@[5]);
            assert("DRAFT6"@[5] != "draft4"@[5]);
            assert("draft6"@[5] != "Draft4"@[5]);
            assert("draft6"@[5] != "DRAFT4"@[5]);
            assert("draft6"@[5] != "draft4"@[5]);
            assert("DRAFT6"@[1] != "Draft6"@[1]);
            assert("draft6"@[0] != "Draft6"@[0]);
            assert("draft6"@[0] != "DRAFT6"@[0]);
        },
        LuaDraft::Draft7 => {
            assert(ascii_upper("Draft7"@) =~= "DRAFT7"@);
            assert(ascii_lower("Draft7"@) =~= "draft7"@);
            assert("DRAFT7"@.len() != "Draft201909"@.len());
            assert("DRAFT7"@.len() != "Draft202012"@.len());
            assert("draft7"@.len() != "Draft201909"@.len());
            assert("draft7"@.len() != "Draft202012"@.len());
            assert("DRAFT7"@[5] != "Draft4"@[5]);
            assert("DRAFT7"@[5] != "DRAFT4"@[5]);
            assert("DRAFT7"@[5] != "draft4"@[5]);
            assert("draft7"@[5] != "Draft4"@[5]);
            assert("draft7"@[5] != "DRAFT4"@[5]);
            assert("draft7"@[5] != "draft4"@[5]);
            assert("DRAFT7"@[5] != "Draft6"@[5]);
            assert("DRAFT7"@[5] != "DRAFT6"@[5]);
            assert("DRAFT7"@[5] != "draft6"@[5]);
            assert("draft7"@[5] != "Draft6"@[5]);
            assert("draft7"@[5] != "DRAFT6"@[5]);
            assert("draft7"@[5] != "draft6"@[5]);
            assert("DRAFT7"@[1] != "Draft7"@[1]);
            assert("draft7"@[0] != "Draft7"@[0]);
            assert("draft7"@[0] != "DRAFT7"@[0]);
        },
        LuaDraft::Unknown => {},
    }
}

} // verus!
