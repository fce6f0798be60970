//! Checking JSON documents against JSON Schemas, and schemas against their
//! meta-schemas. Documents cross as JSON text; `jsonschema` compiles the
//! schema (detecting its draft) and reports the first violation.
use vstd::prelude::*;
use crate::draft::LuaDraft;
use crate::text::str_is;

verus! {

/// What checking the instance `instance_json` against the schema
/// `schema_json` gives: `Err` with a message when a text is not JSON or the
/// schema does not compile, otherwise the message of the first violation,
/// if any. With the crate's network and file resolvers switched off, this
/// depends on the two texts alone.
pub uninterp spec fn schema_check(schema_json: Seq<char>, instance_json: Seq<char>) -> Result<Option<Seq<char>>, Seq<char>>;

/// What checking the schema `schema_json` against the meta-schema of its
/// draft gives, in the same shape as `schema_check`.
pub uninterp spec fn meta_check(schema_json: Seq<char>) -> Result<Option<Seq<char>>, Seq<char>>;

/// A check's outcome as contracts speak of it.
pub open spec fn check_view(r: Result<Option<String>, String>) -> Result<Option<Seq<char>>, Seq<char>> {
    match r {
        Ok(Some(m)) => Ok(Some(m@)),
        Ok(None) => Ok(None),
        Err(e) => Err(e@),
    }
}

/// Parses both texts with `serde_json::from_str`, compiles the schema with
/// `jsonschema::validator_for` (which reports a schema it cannot compile as
/// an error rather than panicking, as `jsonschema::is_valid` would) and
/// validates the instance with `Validator::validate`; each error is given by
/// its message.
#[verifier::external_body]
fn check_json(schema_json: &str, instance_json: &str) -> (r: Result<Option<String>, String>)
    ensures
        check_view(r) == schema_check(schema_json@, instance_json@),
{
    let schema: serde_json::Value = serde_json::from_str(schema_json).map_err(|e| e.to_string())?;
    let instance: serde_json::Value = serde_json::from_str(instance_json).map_err(|e| e.to_string())?;
    let validator = jsonschema::validator_for(&schema).map_err(|e| e.to_string())?;
    Ok(validator.validate(&instance).err().map(|e| e.to_string()))
}

/// Parses the text with `serde_json::from_str`, builds the validator of its
/// meta-schema with `jsonschema::meta::validator_for` (an error when the
/// meta-schema cannot be resolved) and validates the schema with
/// `MetaValidator::validate`; each error is given by its message.
#[verifier::external_body]
fn check_meta(schema_json: &str) -> (r: Result<Option<String>, String>)
    ensures
        check_view(r) == meta_check(schema_json@),
{
    let schema: serde_json::Value = serde_json::from_str(schema_json).map_err(|e| e.to_string())?;
    let validator = jsonschema::meta::validator_for(&schema).map_err(|e| e.to_string())?;
    Ok(validator.validate(&schema).err().map(|e| e.to_string()))
}

/// What compiling the schema `schema_json` gives: nothing, or the message
/// of the error (the text is not JSON, or the schema does not compile).
pub uninterp spec fn schema_compile_error(schema_json: Seq<char>) -> Option<Seq<char>>;

/// The pointers of the sub-schemas `jsonschema::validator_map_for` compiles
/// validators for, or the message of its error.
pub uninterp spec fn map_pointer_set(schema_json: Seq<char>) -> Result<Set<Seq<char>>, Seq<char>>;

/// Whether `validator_map_for` compiles the schema `schema_json` and holds
/// a validator for the sub-schema at `pointer`: the wrappers that look a
/// pointer up in the map need it, as `ValidatorMap`'s index panics on a
/// pointer it does not hold.
pub open spec fn in_map(schema_json: Seq<char>, pointer: Seq<char>) -> bool {
    map_pointer_set(schema_json) matches Ok(ps) && ps.contains(pointer)
}

/// `schema_check` for the sub-schema at `pointer` of `schema_json`, with
/// references resolved from the whole schema.
pub uninterp spec fn map_check(schema_json: Seq<char>, pointer: Seq<char>, instance_json: Seq<char>) -> Result<
    Option<Seq<char>>,
    Seq<char>,
>;

/// The messages of every violation of the schema by the instance, in the
/// order `Validator::iter_errors` gives them, or the message of an error
/// that kept the check from being made.
pub uninterp spec fn schema_errors(schema_json: Seq<char>, instance_json: Seq<char>) -> Result<Seq<Seq<char>>, Seq<char>>;

/// `schema_errors` for the sub-schema at `pointer`.
pub uninterp spec fn map_errors(schema_json: Seq<char>, pointer: Seq<char>, instance_json: Seq<char>) -> Result<
    Seq<Seq<char>>,
    Seq<char>,
>;

/// What `Validator::evaluate` reports of the instance: whether it is valid,
/// and the list and hierarchical outputs as JSON text.
pub uninterp spec fn schema_evaluation(schema_json: Seq<char>, instance_json: Seq<char>) -> Result<
    (bool, Seq<char>, Seq<char>),
    Seq<char>,
>;

/// `schema_evaluation` for the sub-schema at `pointer`.
pub uninterp spec fn map_evaluation(schema_json: Seq<char>, pointer: Seq<char>, instance_json: Seq<char>) -> Result<
    (bool, Seq<char>, Seq<char>),
    Seq<char>,
>;

/// The annotation entries of the evaluation of the instance.
pub uninterp spec fn schema_annotations(schema_json: Seq<char>, instance_json: Seq<char>) -> Result<
    Seq<(Seq<char>, Option<Seq<char>>, Seq<char>, Seq<char>)>,
    Seq<char>,
>;

/// `schema_annotations` for the sub-schema at `pointer`.
pub uninterp spec fn map_annotations(schema_json: Seq<char>, pointer: Seq<char>, instance_json: Seq<char>) -> Result<
    Seq<(Seq<char>, Option<Seq<char>>, Seq<char>, Seq<char>)>,
    Seq<char>,
>;

/// The error entries of the evaluation of the instance.
pub uninterp spec fn schema_eval_errors(schema_json: Seq<char>, instance_json: Seq<char>) -> Result<
    Seq<(Seq<char>, Option<Seq<char>>, Seq<char>, Seq<char>)>,
    Seq<char>,
>;

/// `schema_eval_errors` for the sub-schema at `pointer`.
pub uninterp spec fn map_eval_errors(schema_json: Seq<char>, pointer: Seq<char>, instance_json: Seq<char>) -> Result<
    Seq<(Seq<char>, Option<Seq<char>>, Seq<char>, Seq<char>)>,
    Seq<char>,
>;

/// The draft the compiled schema applies.
pub uninterp spec fn schema_draft(schema_json: Seq<char>) -> Result<LuaDraft, Seq<char>>;

/// `schema_draft` for the validator of the sub-schema at `pointer`.
pub uninterp spec fn map_draft(schema_json: Seq<char>, pointer: Seq<char>) -> Result<LuaDraft, Seq<char>>;

/// The schema with every external resource it refers to bundled in, as
/// JSON text, or the message of the error.
pub uninterp spec fn schema_bundle(schema_json: Seq<char>) -> Result<Seq<char>, Seq<char>>;

/// The schema with its references replaced by what they refer to, as JSON
/// text, or the message of the error.
pub uninterp spec fn schema_dereference(schema_json: Seq<char>) -> Result<Seq<char>, Seq<char>>;

/// What building the validator of the meta-schema of `schema_json` gives:
/// nothing, or the message of the error.
pub uninterp spec fn meta_validator_error(schema_json: Seq<char>) -> Option<Seq<char>>;

/// Checking `other_json` against the meta-schema of `schema_json`, in the
/// shape of `schema_check`.
pub uninterp spec fn meta_validator_check(schema_json: Seq<char>, other_json: Seq<char>) -> Result<
    Option<Seq<char>>,
    Seq<char>,
>;

pub open spec fn text_view(r: Result<String, String>) -> Result<Seq<char>, Seq<char>> {
    match r {
        Ok(s) => Ok(s@),
        Err(e) => Err(e@),
    }
}

pub open spec fn texts_view(r: Result<Vec<String>, String>) -> Result<Seq<Seq<char>>, Seq<char>> {
    match r {
        Ok(v) => Ok(v@.map_values(|s: String| s@)),
        Err(e) => Err(e@),
    }
}

pub open spec fn error_view(r: Option<String>) -> Option<Seq<char>> {
    match r {
        Some(e) => Some(e@),
        None => None,
    }
}

/// One entry of an evaluation: where in the schema and in the instance it
/// arose, and its annotations (as JSON text) or error message.
#[derive(Clone, Debug)]
pub struct SchemaEntry {
    pub schema_location: String,
    pub absolute_keyword_location: Option<String>,
    pub instance_location: String,
    pub detail: String,
}

pub open spec fn entry_view(e: SchemaEntry) -> (Seq<char>, Option<Seq<char>>, Seq<char>, Seq<char>) {
    (e.schema_location@, error_view(e.absolute_keyword_location), e.instance_location@, e.detail@)
}

pub open spec fn entries_view(r: Result<Vec<SchemaEntry>, String>) -> Result<
    Seq<(Seq<char>, Option<Seq<char>>, Seq<char>, Seq<char>)>,
    Seq<char>,
> {
    match r {
        Ok(v) => Ok(v@.map_values(|e: SchemaEntry| entry_view(e))),
        Err(e) => Err(e@),
    }
}

/// The outputs of an evaluation: whether the instance is valid, and the
/// list and hierarchical outputs as JSON text.
#[derive(Clone, Debug)]
pub struct EvaluationOutput {
    pub valid: bool,
    pub list_json: String,
    pub hierarchical_json: String,
}

pub open spec fn output_view(r: Result<EvaluationOutput, String>) -> Result<(bool, Seq<char>, Seq<char>), Seq<char>> {
    match r {
        Ok(o) => Ok((o.valid, o.list_json@, o.hierarchical_json@)),
        Err(e) => Err(e@),
    }
}

/// Parses the schema with `serde_json::from_str` and compiles it with
/// `jsonschema::validator_for`, giving the error's message if either fails.
#[verifier::external_body]
fn compile_json(schema_json: &str) -> (r: Option<String>)
    ensures
        error_view(r) == schema_compile_error(schema_json@),
{
    let schema: serde_json::Value = match serde_json::from_str(schema_json) {
        Ok(v) => v,
        Err(e) => return Some(e.to_string()),
    };
    jsonschema::validator_for(&schema).err().map(|e| e.to_string())
}

/// Parses the schema and builds `jsonschema::validator_map_for`, giving the
/// pointers of its validators (`ValidatorMap::keys`, in the order the map
/// yields them, which each process seeds anew: the contract states the set).
#[verifier::external_body]
fn map_pointers(schema_json: &str) -> (r: Result<Vec<String>, String>)
    ensures
        match (r, map_pointer_set(schema_json@)) {
            (Ok(v), Ok(set)) => v@.map_values(|s: String| s@).to_set() == set && v@.map_values(
                |s: String| s@,
            ).no_duplicates(),
            (Err(e), Err(f)) => e@ == f,
            _ => false,
        },
{
    let schema: serde_json::Value = serde_json::from_str(schema_json).map_err(|e| e.to_string())?;
    let map = jsonschema::validator_map_for(&schema).map_err(|e| e.to_string())?;
    Ok(map.keys().map(|k| k.to_string()).collect())
}

/// `check_json` for the validator `jsonschema::validator_map_for` compiles
/// for the sub-schema at `pointer`.
#[verifier::external_body]
fn check_json_at(schema_json: &str, pointer: &str, instance_json: &str) -> (r: Result<Option<String>, String>)
    requires
        in_map(schema_json@, pointer@),
    ensures
        check_view(r) == map_check(schema_json@, pointer@, instance_json@),
{
    let schema: serde_json::Value = serde_json::from_str(schema_json).map_err(|e| e.to_string())?;
    let instance: serde_json::Value = serde_json::from_str(instance_json).map_err(|e| e.to_string())?;
    let map = jsonschema::validator_map_for(&schema).map_err(|e| e.to_string())?;
    let v = &map[pointer];
    Ok(v.validate(&instance).err().map(|e| e.to_string()))
}

/// Parses both texts, compiles the schema and lists the messages of
/// `Validator::iter_errors`; the contract also claims, from its
/// documentation, that there are none exactly when the instance is valid.
#[verifier::external_body]
fn errors_json(schema_json: &str, instance_json: &str) -> (r: Result<Vec<String>, String>)
    ensures
        texts_view(r) == schema_errors(schema_json@, instance_json@),
        r matches Ok(v) ==> (v.len() == 0 <==> schema_check(schema_json@, instance_json@) == Ok::<
            Option<Seq<char>>,
            Seq<char>,
        >(None)),
{
    let schema: serde_json::Value = serde_json::from_str(schema_json).map_err(|e| e.to_string())?;
    let instance: serde_json::Value = serde_json::from_str(instance_json).map_err(|e| e.to_string())?;
    let v = jsonschema::validator_for(&schema).map_err(|e| e.to_string())?;
    Ok(v.iter_errors(&instance).map(|e| e.to_string()).collect())
}

/// `errors_json` for the validator of the sub-schema at `pointer`.
#[verifier::external_body]
fn errors_json_at(schema_json: &str, pointer: &str, instance_json: &str) -> (r: Result<Vec<String>, String>)
    requires
        in_map(schema_json@, pointer@),
    ensures
        texts_view(r) == map_errors(schema_json@, pointer@, instance_json@),
        r matches Ok(v) ==> (v.len() == 0 <==> map_check(schema_json@, pointer@, instance_json@) == Ok::<
            Option<Seq<char>>,
            Seq<char>,
        >(None)),
{
    let schema: serde_json::Value = serde_json::from_str(schema_json).map_err(|e| e.to_string())?;
    let instance: serde_json::Value = serde_json::from_str(instance_json).map_err(|e| e.to_string())?;
    let map = jsonschema::validator_map_for(&schema).map_err(|e| e.to_string())?;
    let v = &map[pointer];
    Ok(v.iter_errors(&instance).map(|e| e.to_string()).collect())
}

/// Parses both texts, compiles the schema and evaluates the instance with
/// `Validator::evaluate`, giving its flag (`flag().valid`) and its list and
/// hierarchical outputs as JSON text; the contract also claims that the
/// flag agrees with `validate`.
#[verifier::external_body]
fn evaluate_json(schema_json: &str, instance_json: &str) -> (r: Result<EvaluationOutput, String>)
    ensures
        output_view(r) == schema_evaluation(schema_json@, instance_json@),
        r matches Ok(o) ==> (o.valid <==> schema_check(schema_json@, instance_json@) == Ok::<
            Option<Seq<char>>,
            Seq<char>,
        >(None)),
{
    let schema: serde_json::Value = serde_json::from_str(schema_json).map_err(|e| e.to_string())?;
    let instance: serde_json::Value = serde_json::from_str(instance_json).map_err(|e| e.to_string())?;
    let e = jsonschema::validator_for(&schema).map_err(|e| e.to_string())?.evaluate(&instance);
    let list_json = serde_json::to_string(&e.list()).map_err(|e| e.to_string())?;
    let hierarchical_json = serde_json::to_string(&e.hierarchical()).map_err(|e| e.to_string())?;
    Ok(EvaluationOutput { valid: e.flag().valid, list_json, hierarchical_json })
}

/// `evaluate_json` for the validator of the sub-schema at `pointer`.
#[verifier::external_body]
fn evaluate_json_at(schema_json: &str, pointer: &str, instance_json: &str) -> (r: Result<EvaluationOutput, String>)
    requires
        in_map(schema_json@, pointer@),
    ensures
        output_view(r) == map_evaluation(schema_json@, pointer@, instance_json@),
        r matches Ok(o) ==> (o.valid <==> map_check(schema_json@, pointer@, instance_json@) == Ok::<
            Option<Seq<char>>,
            Seq<char>,
        >(None)),
{
    let schema: serde_json::Value = serde_json::from_str(schema_json).map_err(|e| e.to_string())?;
    let instance: serde_json::Value = serde_json::from_str(instance_json).map_err(|e| e.to_string())?;
    let map = jsonschema::validator_map_for(&schema).map_err(|e| e.to_string())?;
    let e = map[pointer].evaluate(&instance);
    let list_json = serde_json::to_string(&e.list()).map_err(|e| e.to_string())?;
    let hierarchical_json = serde_json::to_string(&e.hierarchical()).map_err(|e| e.to_string())?;
    Ok(EvaluationOutput { valid: e.flag().valid, list_json, hierarchical_json })
}

/// Lists the annotation entries of `Evaluation::iter_annotations` for the validator of the whole schema,
/// each annotation given as JSON text.
#[verifier::external_body]
fn annotations_json(schema_json: &str, instance_json: &str) -> (r: Result<Vec<SchemaEntry>, String>)
    ensures
        entries_view(r) == schema_annotations(schema_json@, instance_json@),
{
    let schema: serde_json::Value = serde_json::from_str(schema_json).map_err(|e| e.to_string())?;
    let instance: serde_json::Value = serde_json::from_str(instance_json).map_err(|e| e.to_string())?;
    let e = jsonschema::validator_for(&schema).map_err(|e| e.to_string())?.evaluate(&instance);
    Ok(e.iter_annotations().map(|a| SchemaEntry {
        schema_location: a.schema_location.to_string(),
        absolute_keyword_location: a.absolute_keyword_location.map(|u| u.as_str().to_string()),
        instance_location: a.instance_location.as_str().to_string(),
        detail: a.annotations.value().to_string(),
    }).collect())
}

/// Lists the error entries of `Evaluation::iter_errors` for the validator of the whole schema.
#[verifier::external_body]
fn eval_errors_json(schema_json: &str, instance_json: &str) -> (r: Result<Vec<SchemaEntry>, String>)
    ensures
        entries_view(r) == schema_eval_errors(schema_json@, instance_json@),
{
    let schema: serde_json::Value = serde_json::from_str(schema_json).map_err(|e| e.to_string())?;
    let instance: serde_json::Value = serde_json::from_str(instance_json).map_err(|e| e.to_string())?;
    let e = jsonschema::validator_for(&schema).map_err(|e| e.to_string())?.evaluate(&instance);
    Ok(e.iter_errors().map(|a| SchemaEntry {
        schema_location: a.schema_location.to_string(),
        absolute_keyword_location: a.absolute_keyword_location.map(|u| u.as_str().to_string()),
        instance_location: a.instance_location.as_str().to_string(),
        detail: a.error.message().to_string(),
    }).collect())
}

/// Parses the schema, compiles it and gives `Validator::draft` for the validator of the whole schema.
#[verifier::external_body]
fn draft_json(schema_json: &str) -> (r: Result<LuaDraft, String>)
    ensures
        match r {
            Ok(d) => Ok(d),
            Err(e) => Err(e@),
        } == schema_draft(schema_json@),
{
    let schema: serde_json::Value = serde_json::from_str(schema_json).map_err(|e| e.to_string())?;
    let v = jsonschema::validator_for(&schema).map_err(|e| e.to_string())?;
    Ok(match v.draft() {
        jsonschema::Draft::Draft201909 => LuaDraft::Draft201909,
        jsonschema::Draft::Draft202012 => LuaDraft::Draft202012,
        jsonschema::Draft::Draft4 => LuaDraft::Draft4,
        jsonschema::Draft::Draft6 => LuaDraft::Draft6,
        jsonschema::Draft::Draft7 => LuaDraft::Draft7,
        _ => LuaDraft::Unknown,
    })
}

/// Lists the annotation entries of `Evaluation::iter_annotations` for the validator of the sub-schema at `pointer`,
/// each annotation given as JSON text.
#[verifier::external_body]
fn annotations_json_at(schema_json: &str, pointer: &str, instance_json: &str) -> (r: Result<Vec<SchemaEntry>, String>)
    requires
        in_map(schema_json@, pointer@),
    ensures
        entries_view(r) == map_annotations(schema_json@, pointer@, instance_json@),
{
    let schema: serde_json::Value = serde_json::from_str(schema_json).map_err(|e| e.to_string())?;
    let instance: serde_json::Value = serde_json::from_str(instance_json).map_err(|e| e.to_string())?;
    let map = jsonschema::validator_map_for(&schema).map_err(|e| e.to_string())?;
    let e = map[pointer].evaluate(&instance);
    Ok(e.iter_annotations().map(|a| SchemaEntry {
        schema_location: a.schema_location.to_string(),
        absolute_keyword_location: a.absolute_keyword_location.map(|u| u.as_str().to_string()),
        instance_location: a.instance_location.as_str().to_string(),
        detail: a.annotations.value().to_string(),
    }).collect())
}

/// Lists the error entries of `Evaluation::iter_errors` for the validator of the sub-schema at `pointer`.
#[verifier::external_body]
fn eval_errors_json_at(schema_json: &str, pointer: &str, instance_json: &str) -> (r: Result<Vec<SchemaEntry>, String>)
    requires
        in_map(schema_json@, pointer@),
    ensures
        entries_view(r) == map_eval_errors(schema_json@, pointer@, instance_json@),
{
    let schema: serde_json::Value = serde_json::from_str(schema_json).map_err(|e| e.to_string())?;
    let instance: serde_json::Value = serde_json::from_str(instance_json).map_err(|e| e.to_string())?;
    let map = jsonschema::validator_map_for(&schema).map_err(|e| e.to_string())?;
    let e = map[pointer].evaluate(&instance);
    Ok(e.iter_errors().map(|a| SchemaEntry {
        schema_location: a.schema_location.to_string(),
        absolute_keyword_location: a.absolute_keyword_location.map(|u| u.as_str().to_string()),
        instance_location: a.instance_location.as_str().to_string(),
        detail: a.error.message().to_string(),
    }).collect())
}

/// Parses the schema, compiles it and gives `Validator::draft` for the validator of the sub-schema at `pointer`.
#[verifier::external_body]
fn draft_json_at(schema_json: &str, pointer: &str) -> (r: Result<LuaDraft, String>)
    requires
        in_map(schema_json@, pointer@),
    ensures
        match r {
            Ok(d) => Ok(d),
            Err(e) => Err(e@),
        } == map_draft(schema_json@, pointer@),
{
    let schema: serde_json::Value = serde_json::from_str(schema_json).map_err(|e| e.to_string())?;
    let map = jsonschema::validator_map_for(&schema).map_err(|e| e.to_string())?;
    let v = &map[pointer];
    Ok(match v.draft() {
        jsonschema::Draft::Draft201909 => LuaDraft::Draft201909,
        jsonschema::Draft::Draft202012 => LuaDraft::Draft202012,
        jsonschema::Draft::Draft4 => LuaDraft::Draft4,
        jsonschema::Draft::Draft6 => LuaDraft::Draft6,
        jsonschema::Draft::Draft7 => LuaDraft::Draft7,
        _ => LuaDraft::Unknown,
    })
}

/// Parses the schema and bundles its external resources with
/// `jsonschema::bundle`, giving the result as JSON text.
#[verifier::external_body]
fn bundle_json(schema_json: &str) -> (r: Result<String, String>)
    ensures
        text_view(r) == schema_bundle(schema_json@),
{
    let schema: serde_json::Value = serde_json::from_str(schema_json).map_err(|e| e.to_string())?;
    let bundled = jsonschema::bundle(&schema).map_err(|e| e.to_string())?;
    serde_json::to_string(&bundled).map_err(|e| e.to_string())
}

/// Parses the schema and replaces its references with
/// `jsonschema::dereference`, giving the result as JSON text.
#[verifier::external_body]
fn dereference_json(schema_json: &str) -> (r: Result<String, String>)
    ensures
        text_view(r) == schema_dereference(schema_json@),
{
    let schema: serde_json::Value = serde_json::from_str(schema_json).map_err(|e| e.to_string())?;
    let resolved = jsonschema::dereference(&schema).map_err(|e| e.to_string())?;
    serde_json::to_string(&resolved).map_err(|e| e.to_string())
}

/// Parses the schema and builds the validator of its meta-schema with
/// `jsonschema::meta::validator_for`, giving the error's message if either
/// fails.
#[verifier::external_body]
fn meta_compile_json(schema_json: &str) -> (r: Option<String>)
    ensures
        error_view(r) == meta_validator_error(schema_json@),
{
    let schema: serde_json::Value = match serde_json::from_str(schema_json) {
        Ok(v) => v,
        Err(e) => return Some(e.to_string()),
    };
    jsonschema::meta::validator_for(&schema).err().map(|e| e.to_string())
}

/// Checks `other_json` with `MetaValidator::validate` against the
/// meta-schema `jsonschema::meta::validator_for` finds for `schema_json`.
#[verifier::external_body]
fn meta_check_with(schema_json: &str, other_json: &str) -> (r: Result<Option<String>, String>)
    ensures
        check_view(r) == meta_validator_check(schema_json@, other_json@),
{
    let schema: serde_json::Value = serde_json::from_str(schema_json).map_err(|e| e.to_string())?;
    let other: serde_json::Value = serde_json::from_str(other_json).map_err(|e| e.to_string())?;
    let v = jsonschema::meta::validator_for(&schema).map_err(|e| e.to_string())?;
    Ok(v.validate(&other).err().map(|e| e.to_string()))
}

/// Whether a check found the document valid; the error of a check that
/// could not be made.
pub open spec fn validity(c: Result<Option<Seq<char>>, Seq<char>>) -> Result<bool, Seq<char>> {
    match c {
        Ok(m) => Ok(m is None),
        Err(e) => Err(e),
    }
}

/// A check as a pass or a failure: the message of the first violation, or
/// the error of a check that could not be made.
pub open spec fn verdict(c: Result<Option<Seq<char>>, Seq<char>>) -> Result<(), Seq<char>> {
    match c {
        Ok(None) => Ok(()),
        Ok(Some(m)) => Err(m),
        Err(e) => Err(e),
    }
}

pub open spec fn bool_view(r: Result<bool, String>) -> Result<bool, Seq<char>> {
    match r {
        Ok(b) => Ok(b),
        Err(e) => Err(e@),
    }
}

pub open spec fn unit_view(r: Result<(), String>) -> Result<(), Seq<char>> {
    match r {
        Ok(()) => Ok(()),
        Err(e) => Err(e@),
    }
}

/// Whether the outcome of a check says the document is valid.
pub fn validity_of(check: Result<Option<String>, String>) -> (r: Result<bool, String>)
    ensures
        bool_view(r) == validity(check_view(check)),
{
    match check {
        Ok(m) => Ok(m.is_none()),
        Err(e) => Err(e),
    }
}

/// The outcome of a check as a pass or a failure with its message.
pub fn verdict_of(check: Result<Option<String>, String>) -> (r: Result<(), String>)
    ensures
        unit_view(r) == verdict(check_view(check)),
{
    match check {
        Ok(None) => Ok(()),
        Ok(Some(m)) => Err(m),
        Err(e) => Err(e),
    }
}

/// Whether the JSON document `instance_json` satisfies the schema
/// `schema_json`; an error when a text is not JSON or the schema does not
/// compile.
pub fn lua_is_valid(schema_json: &str, instance_json: &str) -> (r: Result<bool, String>)
    ensures
        bool_view(r) == validity(schema_check(schema_json@, instance_json@)),
{
    validity_of(check_json(schema_json, instance_json))
}

/// Checks the JSON document `instance_json` against the schema
/// `schema_json`: `Ok` when it satisfies it, otherwise the message of the
/// first violation, or of the error that kept the check from being made.
pub fn lua_validate(schema_json: &str, instance_json: &str) -> (r: Result<(), String>)
    ensures
        unit_view(r) == verdict(schema_check(schema_json@, instance_json@)),
{
    verdict_of(check_json(schema_json, instance_json))
}

/// Whether the schema `schema_json` satisfies the meta-schema of its draft;
/// an error when the text is not JSON or the meta-schema cannot be resolved.
pub fn lua_meta_is_valid(schema_json: &str) -> (r: Result<bool, String>)
    ensures
        bool_view(r) == validity(meta_check(schema_json@)),
{
    validity_of(check_meta(schema_json))
}

/// Checks the schema `schema_json` against the meta-schema of its draft:
/// `Ok` when it satisfies it, otherwise the message of the first violation
/// or of the error that kept the check from being made.
pub fn lua_meta_validate(schema_json: &str) -> (r: Result<(), String>)
    ensures
        unit_view(r) == verdict(meta_check(schema_json@)),
{
    verdict_of(check_meta(schema_json))
}

/// A compiled schema, seen as the JSON text of the schema and, for one
/// taken from a validator map, the pointer of its sub-schema. Each check
/// compiles the schema again: the compiled validator cannot be held here.
#[derive(Debug)]
pub struct LuaValidator {
    schema: String,
    pointer: Option<String>,
}

impl LuaValidator {
    /// A validator taken from a map looks up a pointer the map holds.
    #[verifier::type_invariant]
    spec fn pointer_in_map(self) -> bool {
        self.pointer matches Some(p) ==> in_map(self.schema@, p@)
    }
}

impl View for LuaValidator {
    type V = (Seq<char>, Option<Seq<char>>);

    closed spec fn view(&self) -> (Seq<char>, Option<Seq<char>>) {
        (self.schema@, error_view(self.pointer))
    }
}

/// The check a validator makes of an instance.
pub open spec fn check_of(v: (Seq<char>, Option<Seq<char>>), instance_json: Seq<char>) -> Result<Option<Seq<char>>, Seq<char>> {
    match v.1 {
        None => schema_check(v.0, instance_json),
        Some(p) => map_check(v.0, p, instance_json),
    }
}

/// The violations a validator finds in an instance.
pub open spec fn errors_of(v: (Seq<char>, Option<Seq<char>>), instance_json: Seq<char>) -> Result<Seq<Seq<char>>, Seq<char>> {
    match v.1 {
        None => schema_errors(v.0, instance_json),
        Some(p) => map_errors(v.0, p, instance_json),
    }
}

/// What a validator's evaluation of an instance reports.
pub open spec fn evaluation_of(v: (Seq<char>, Option<Seq<char>>), instance_json: Seq<char>) -> Result<(bool, Seq<char>, Seq<char>), Seq<char>> {
    match v.1 {
        None => schema_evaluation(v.0, instance_json),
        Some(p) => map_evaluation(v.0, p, instance_json),
    }
}

/// The draft a validator applies.
pub open spec fn draft_of(v: (Seq<char>, Option<Seq<char>>)) -> Result<LuaDraft, Seq<char>> {
    match v.1 {
        None => schema_draft(v.0),
        Some(p) => map_draft(v.0, p),
    }
}

/// A validator's answer as `validate` gives it to Lua: `true` with no
/// message when the instance is valid, otherwise `false` with the message
/// of the first violation.
pub open spec fn answer_view(r: Result<(bool, Option<String>), String>) -> Result<(bool, Option<Seq<char>>), Seq<char>> {
    match r {
        Ok((b, m)) => Ok((b, error_view(m))),
        Err(e) => Err(e@),
    }
}

pub open spec fn answer(c: Result<Option<Seq<char>>, Seq<char>>) -> Result<(bool, Option<Seq<char>>), Seq<char>> {
    match c {
        Ok(m) => Ok((m is None, m)),
        Err(e) => Err(e),
    }
}

/// A check's outcome as the pair `validate` gives to Lua.
fn answer_of(check: Result<Option<String>, String>) -> (r: Result<(bool, Option<String>), String>)
    ensures
        answer_view(r) == answer(check_view(check)),
{
    match check {
        Ok(None) => Ok((true, None)),
        Ok(Some(m)) => Ok((false, Some(m))),
        Err(e) => Err(e),
    }
}

/// Compiles the schema `schema_json`: the validator, or the message of the
/// error when the text is not JSON or the schema does not compile.
pub fn lua_validator_for(schema_json: &str) -> (r: Result<LuaValidator, String>)
    ensures
        match r {
            Ok(v) => schema_compile_error(schema_json@) is None && v@ == (schema_json@, None::<Seq<char>>),
            Err(e) => schema_compile_error(schema_json@) == Some(e@),
        },
{
    match compile_json(schema_json) {
        Some(e) => Err(e),
        None => Ok(LuaValidator { schema: schema_json.to_owned(), pointer: None }),
    }
}

impl LuaValidator {
    /// A copy of the validator.
    pub fn duplicate(&self) -> (r: LuaValidator)
        ensures
            r@ == self@,
    {
        proof {
            use_type_invariant(self);
        }
        let pointer = match &self.pointer {
            Some(p) => Some(p.clone()),
            None => None,
        };
        LuaValidator { schema: self.schema.clone(), pointer }
    }

    /// Whether the instance `instance_json` satisfies the schema.
    pub fn lua_is_valid(&self, instance_json: &str) -> (r: Result<bool, String>)
        ensures
            bool_view(r) == validity(check_of(self@, instance_json@)),
    {
        proof {
            use_type_invariant(self);
        }
        match &self.pointer {
            None => validity_of(check_json(self.schema.as_str(), instance_json)),
            Some(p) => validity_of(check_json_at(self.schema.as_str(), p.as_str(), instance_json)),
        }
    }

    /// Checks the instance: `true` with no message when it satisfies the
    /// schema, otherwise `false` with the message of the first violation.
    pub fn lua_validate(&self, instance_json: &str) -> (r: Result<(bool, Option<String>), String>)
        ensures
            answer_view(r) == answer(check_of(self@, instance_json@)),
    {
        proof {
            use_type_invariant(self);
        }
        match &self.pointer {
            None => answer_of(check_json(self.schema.as_str(), instance_json)),
            Some(p) => answer_of(check_json_at(self.schema.as_str(), p.as_str(), instance_json)),
        }
    }

    /// The messages of every violation of the schema by the instance.
    pub fn lua_errors(&self, instance_json: &str) -> (r: Result<Vec<String>, String>)
        ensures
            texts_view(r) == errors_of(self@, instance_json@),
            r matches Ok(v) ==> (v.len() == 0 <==> check_of(self@, instance_json@) == Ok::<
                Option<Seq<char>>,
                Seq<char>,
            >(None)),
    {
        proof {
            use_type_invariant(self);
        }
        match &self.pointer {
            None => errors_json(self.schema.as_str(), instance_json),
            Some(p) => errors_json_at(self.schema.as_str(), p.as_str(), instance_json),
        }
    }

    /// Evaluates the instance against the schema.
    pub fn lua_evaluate(&self, instance_json: &str) -> (r: Result<LuaEvaluation, String>)
        ensures
            match r {
                Ok(e) => {
                    &&& evaluation_of(self@, instance_json@) == Ok::<(bool, Seq<char>, Seq<char>), Seq<char>>(
                        e.spec_output(),
                    )
                    &&& e.spec_source() == (self@, instance_json@)
                    &&& (e.spec_output().0 <==> check_of(self@, instance_json@) == Ok::<
                        Option<Seq<char>>,
                        Seq<char>,
                    >(None))
                },
                Err(m) => evaluation_of(self@, instance_json@) == Err::<(bool, Seq<char>, Seq<char>), Seq<char>>(m@),
            },
    {
        proof {
            use_type_invariant(self);
        }
        let out = match &self.pointer {
            None => evaluate_json(self.schema.as_str(), instance_json),
            Some(p) => evaluate_json_at(self.schema.as_str(), p.as_str(), instance_json),
        };
        match out {
            Ok(output) => Ok(LuaEvaluation { validator: self.duplicate(), instance: instance_json.to_owned(), output }),
            Err(e) => Err(e),
        }
    }

    /// The draft the validator applies.
    pub fn lua_draft(&self) -> (r: Result<LuaDraft, String>)
        ensures
            match r {
                Ok(d) => Ok(d),
                Err(e) => Err(e@),
            } == draft_of(self@),
    {
        proof {
            use_type_invariant(self);
        }
        match &self.pointer {
            None => draft_json(self.schema.as_str()),
            Some(p) => draft_json_at(self.schema.as_str(), p.as_str()),
        }
    }
}

/// The outcome of evaluating an instance: its flag and its list and
/// hierarchical outputs, with the annotation and error entries read on demand.
#[derive(Debug)]
pub struct LuaEvaluation {
    validator: LuaValidator,
    instance: String,
    output: EvaluationOutput,
}

impl LuaEvaluation {
    /// The validator and the instance evaluated.
    pub closed spec fn spec_source(self) -> ((Seq<char>, Option<Seq<char>>), Seq<char>) {
        (self.validator@, self.instance@)
    }

    /// Whether the instance is valid, and the list and hierarchical outputs.
    pub closed spec fn spec_output(self) -> (bool, Seq<char>, Seq<char>) {
        (self.output.valid, self.output.list_json@, self.output.hierarchical_json@)
    }

    /// Whether the instance is valid.
    pub fn lua_flag(&self) -> (r: bool)
        ensures
            r == self.spec_output().0,
    {
        self.output.valid
    }

    /// The list output, as JSON text.
    pub fn lua_list(&self) -> (r: String)
        ensures
            r@ == self.spec_output().1,
    {
        self.output.list_json.clone()
    }

    /// The hierarchical output, as JSON text.
    pub fn lua_hierarchical(&self) -> (r: String)
        ensures
            r@ == self.spec_output().2,
    {
        self.output.hierarchical_json.clone()
    }

    /// The annotation entries of the evaluation.
    pub fn lua_annotations(&self) -> (r: Result<Vec<SchemaEntry>, String>)
        ensures
            entries_view(r) == match self.spec_source().0.1 {
                None => schema_annotations(self.spec_source().0.0, self.spec_source().1),
                Some(p) => map_annotations(self.spec_source().0.0, p, self.spec_source().1),
            },
    {
        proof {
            use_type_invariant(&self.validator);
        }
        match &self.validator.pointer {
            None => annotations_json(self.validator.schema.as_str(), self.instance.as_str()),
            Some(p) => annotations_json_at(self.validator.schema.as_str(), p.as_str(), self.instance.as_str()),
        }
    }

    /// The error entries of the evaluation.
    pub fn lua_errors(&self) -> (r: Result<Vec<SchemaEntry>, String>)
        ensures
            entries_view(r) == match self.spec_source().0.1 {
                None => schema_eval_errors(self.spec_source().0.0, self.spec_source().1),
                Some(p) => map_eval_errors(self.spec_source().0.0, p, self.spec_source().1),
            },
    {
        proof {
            use_type_invariant(&self.validator);
        }
        match &self.validator.pointer {
            None => eval_errors_json(self.validator.schema.as_str(), self.instance.as_str()),
            Some(p) => eval_errors_json_at(self.validator.schema.as_str(), p.as_str(), self.instance.as_str()),
        }
    }
}

/// Evaluates the instance `instance_json` against the schema `schema_json`:
/// what `lua_validator_for` and `LuaValidator::lua_evaluate` give.
pub fn lua_evaluate(schema_json: &str, instance_json: &str) -> (r: Result<LuaEvaluation, String>)
    ensures
        match r {
            Ok(e) => {
                &&& schema_evaluation(schema_json@, instance_json@) == Ok::<(bool, Seq<char>, Seq<char>), Seq<char>>(
                    e.spec_output(),
                )
                &&& e.spec_source() == ((schema_json@, None::<Seq<char>>), instance_json@)
            },
            Err(m) => schema_compile_error(schema_json@) == Some(m@) || schema_evaluation(schema_json@, instance_json@)
                == Err::<(bool, Seq<char>, Seq<char>), Seq<char>>(m@),
        },
{
    match lua_validator_for(schema_json) {
        Ok(v) => v.lua_evaluate(instance_json),
        Err(e) => Err(e),
    }
}

/// The validators `jsonschema::validator_map_for` compiles for every
/// sub-schema of a schema, seen as the schema's text and their pointers.
#[derive(Debug)]
pub struct LuaValidatorMap {
    schema: String,
    pointers: Vec<String>,
}

impl LuaValidatorMap {
    /// The pointers are those `validator_map_for` compiles validators for,
    /// each once.
    #[verifier::type_invariant]
    spec fn pointers_of_map(self) -> bool {
        &&& map_pointer_set(self.schema@) == Ok::<Set<Seq<char>>, Seq<char>>(self.spec_pointers().to_set())
        &&& self.spec_pointers().no_duplicates()
    }

    pub closed spec fn spec_schema(self) -> Seq<char> {
        self.schema@
    }

    /// The pointers of the sub-schemas, each once.
    pub closed spec fn spec_pointers(self) -> Seq<Seq<char>> {
        self.pointers@.map_values(|s: String| s@)
    }

    /// The validator of the sub-schema at `pointer`, if the map has one.
    pub fn lua_get(&self, pointer: &str) -> (r: Option<LuaValidator>)
        ensures
            r is Some <==> self.spec_pointers().contains(pointer@),
            r matches Some(v) ==> v@ == (self.spec_schema(), Some(pointer@)),
    {
        proof {
            use_type_invariant(self);
        }
        if self.lua_contains_key(pointer) {
            Some(LuaValidator { schema: self.schema.clone(), pointer: Some(pointer.to_owned()) })
        } else {
            None
        }
    }

    /// Whether the map has a validator for the sub-schema at `pointer`.
    pub fn lua_contains_key(&self, pointer: &str) -> (r: bool)
        ensures
            r == self.spec_pointers().contains(pointer@),
    {
        let mut i: usize = 0;
        while i < self.pointers.len()
            invariant
                i <= self.pointers.len(),
                forall|k: int| 0 <= k < i ==> self.spec_pointers()[k] != pointer@,
            decreases self.pointers.len() - i,
        {
            if str_is(self.pointers[i].as_str(), pointer) {
                assert(self.spec_pointers()[i as int] == pointer@);
                return true;
            }
            i = i + 1;
        }
        false
    }

    /// The pointers of the sub-schemas the map holds validators for.
    pub fn lua_keys(&self) -> (r: Vec<String>)
        ensures
            r@.map_values(|s: String| s@) == self.spec_pointers(),
    {
        let mut out: Vec<String> = Vec::new();
        let mut i: usize = 0;
        while i < self.pointers.len()
            invariant
                i <= self.pointers.len(),
                out@.map_values(|s: String| s@) == self.spec_pointers().subrange(0, i as int),
            decreases self.pointers.len() - i,
        {
            let p = self.pointers[i].clone();
            assert(p@ == self.spec_pointers()[i as int]);
            let ghost prev = out@;
            out.push(p);
            assert(out@.map_values(|s: String| s@) =~= prev.map_values(|s: String| s@).push(p@));
            assert(self.spec_pointers().subrange(0, i + 1) =~= self.spec_pointers().subrange(0, i as int).push(
                p@,
            ));
            i = i + 1;
        }
        assert(self.spec_pointers().subrange(0, i as int) =~= self.spec_pointers());
        out
    }
}

/// Compiles validators for every sub-schema of `schema_json`: the map,
/// whose pointers are those `jsonschema` compiles, or the error's message.
pub fn lua_validator_map_for(schema_json: &str) -> (r: Result<LuaValidatorMap, String>)
    ensures
        match (r, map_pointer_set(schema_json@)) {
            (Ok(m), Ok(set)) => m.spec_schema() == schema_json@ && m.spec_pointers().to_set() == set
                && m.spec_pointers().no_duplicates(),
            (Err(e), Err(f)) => e@ == f,
            _ => false,
        },
{
    match map_pointers(schema_json) {
        Ok(pointers) => Ok(LuaValidatorMap { schema: schema_json.to_owned(), pointers }),
        Err(e) => Err(e),
    }
}

/// The schema with its external resources bundled in, as JSON text.
pub fn lua_bundle(schema_json: &str) -> (r: Result<String, String>)
    ensures
        text_view(r) == schema_bundle(schema_json@),
{
    bundle_json(schema_json)
}

/// The schema with its references replaced by what they refer to, as JSON text.
pub fn lua_dereference(schema_json: &str) -> (r: Result<String, String>)
    ensures
        text_view(r) == schema_dereference(schema_json@),
{
    dereference_json(schema_json)
}

/// The validator of a schema's meta-schema, seen as the schema's text.
#[derive(Clone, Debug)]
pub struct LuaMetaValidator {
    schema: String,
}

impl View for LuaMetaValidator {
    type V = Seq<char>;

    closed spec fn view(&self) -> Seq<char> {
        self.schema@
    }
}

/// Builds the validator of the meta-schema of `schema_json`, or gives the
/// message of the error.
pub fn lua_meta_validator_for(schema_json: &str) -> (r: Result<LuaMetaValidator, String>)
    ensures
        match r {
            Ok(v) => meta_validator_error(schema_json@) is None && v@ == schema_json@,
            Err(e) => meta_validator_error(schema_json@) == Some(e@),
        },
{
    match meta_compile_json(schema_json) {
        Some(e) => Err(e),
        None => Ok(LuaMetaValidator { schema: schema_json.to_owned() }),
    }
}

impl LuaMetaValidator {
    /// Whether the schema `other_json` satisfies the meta-schema.
    pub fn lua_is_valid(&self, other_json: &str) -> (r: Result<bool, String>)
        ensures
            bool_view(r) == validity(meta_validator_check(self@, other_json@)),
    {
        validity_of(meta_check_with(self.schema.as_str(), other_json))
    }

    /// Checks the schema `other_json` against the meta-schema: `true` with
    /// no message when it satisfies it, otherwise `false` with the message.
    pub fn lua_validate(&self, other_json: &str) -> (r: Result<(bool, Option<String>), String>)
        ensures
            answer_view(r) == answer(meta_validator_check(self@, other_json@)),
    {
        answer_of(meta_check_with(self.schema.as_str(), other_json))
    }
}

/// A document the check accepts is valid, and one it rejects for a
/// violation is invalid: the two questions agree on every pair of texts.
pub proof fn law_validate_agrees_with_is_valid(schema_json: Seq<char>, instance_json: Seq<char>)
    ensures
        (verdict(schema_check(schema_json, instance_json)) is Ok) <==> (validity(
            schema_check(schema_json, instance_json),
        ) == Ok::<bool, Seq<char>>(true)),
{
}

} // verus!
