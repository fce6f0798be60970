//! A grammar compiled at run time, and the parses it makes. `pest` limits
//! the calls a parse may make with a setting shared by the whole process, so
//! the outcome of compiling or parsing is not a function of the texts alone:
//! the contracts state what holds of every outcome, and
//! `pairs_from_parse` states exactly what is built from one.
use std::rc::Rc;
use std::sync::Arc;
use vstd::prelude::*;
use crate::pairs::{infos_view, pair_infos, run_fits, run_spans_in, tokens_view, LuaPair, LuaPairs, PairInfo, RawToken};
use crate::text::str_is;

verus! {

#[verifier::external_type_specification]
#[verifier::external_body]
pub struct ExPestVm(pest_vm::Vm);

/// A compiled grammar, with the names of the rules it can be asked to parse
/// from besides `pest`'s built-in ones.
pub struct LuaPestVm {
    vm: Arc<pest_vm::Vm>,
    rules: Vec<String>,
}

/// The rules `pest_vm::Vm::parse` knows without a grammar: those its rule
/// dispatch matches by name before it looks the rule up.
pub open spec fn builtin_rule(rule: Seq<char>) -> bool {
    ||| rule == "ANY"@
    ||| rule == "EOI"@
    ||| rule == "SOI"@
    ||| rule == "PEEK"@
    ||| rule == "PEEK_ALL"@
    ||| rule == "POP"@
    ||| rule == "POP_ALL"@
    ||| rule == "DROP"@
    ||| rule == "ASCII_DIGIT"@
    ||| rule == "ASCII_NONZERO_DIGIT"@
    ||| rule == "ASCII_BIN_DIGIT"@
    ||| rule == "ASCII_OCT_DIGIT"@
    ||| rule == "ASCII_HEX_DIGIT"@
    ||| rule == "ASCII_ALPHA_LOWER"@
    ||| rule == "ASCII_ALPHA_UPPER"@
    ||| rule == "ASCII_ALPHA"@
    ||| rule == "ASCII_ALPHANUMERIC"@
    ||| rule == "ASCII"@
    ||| rule == "NEWLINE"@
}

/// Compiles `grammar` with `pest_meta::parse_and_optimize` and
/// `pest_vm::Vm::new`, keeping beside the grammar the name of each of its
/// rules and the Unicode property names `pest::unicode::unicode_property_names`
/// lists (which the VM resolves with `pest::unicode::by_name`). This is the
/// one place a `LuaPestVm` is made, so its names are always those of its
/// grammar. The errors are the messages of `pest_meta`'s errors, of which an
/// error result always holds at least one (every error path of
/// `parse_and_optimize` returns a non-empty list).
///
/// Not stated: whether a grammar compiles, and with which messages. Reading
/// the grammar is itself a `pest` parse, bounded by the process-wide call
/// limit, so the outcome is not a function of the text alone.
#[verifier::external_body]
fn compile_grammar(grammar: &str) -> (r: Result<LuaPestVm, Vec<String>>)
    ensures
        r matches Err(e) ==> e.len() > 0,
{
    match pest_meta::parse_and_optimize(grammar) {
        Ok((_, rules)) => {
            let mut names: Vec<String> = rules.iter().map(|r| r.name.clone()).collect();
            names.extend(pest::unicode::unicode_property_names().map(|n| n.to_string()));
            Ok(LuaPestVm { vm: Arc::new(pest_vm::Vm::new(rules)), rules: names })
        },
        Err(errs) => Err(errs.iter().map(|e| e.to_string()).collect()),
    }
}

/// Parses `input` from `rule` with `pest_vm::Vm::parse`, giving the tokens of
/// the parse (`Pairs::tokens`) and the tag, line and column of each node in
/// pre-order (`Pairs::flatten`), or the message of `pest`'s error. The rule
/// must be one the grammar knows: `Vm::parse` panics with "undefined rule"
/// on any other.
///
/// Not stated: the outcome, which also depends on the process-wide call limit.
#[verifier::external_body]
fn parse_raw(this: &LuaPestVm, rule: &str, input: &str) -> (r: Result<(Vec<RawToken>, Vec<PairInfo>), String>)
    requires
        this.defines(rule@),
{
    let pairs = this.vm.parse(rule, input).map_err(|e| e.to_string())?;
    let toks = pairs.clone().tokens().map(|t| match t {
        pest::Token::Start { rule, pos } => RawToken { opens: true, rule: rule.to_string(), pos: pos.pos() },
        pest::Token::End { rule, pos } => RawToken { opens: false, rule: rule.to_string(), pos: pos.pos() },
    });
    let infos = pairs.flatten().map(|p| (p.as_node_tag().map(|s| s.to_string()), p.line_col()));
    Ok((toks.collect(), infos.map(|(tag, (line, col))| PairInfo { tag, line, col }).collect()))
}

/// Whether `rule` is one of `pest`'s built-in rules.
fn is_builtin_rule(rule: &str) -> (r: bool)
    ensures
        r == builtin_rule(rule@),
{
    str_is(rule, "ANY") || str_is(rule, "EOI") || str_is(rule, "SOI") || str_is(rule, "PEEK")
        || str_is(rule, "PEEK_ALL") || str_is(rule, "POP") || str_is(rule, "POP_ALL") || str_is(rule, "DROP")
        || str_is(rule, "ASCII_DIGIT") || str_is(rule, "ASCII_NONZERO_DIGIT") || str_is(rule, "ASCII_BIN_DIGIT")
        || str_is(rule, "ASCII_OCT_DIGIT") || str_is(rule, "ASCII_HEX_DIGIT") || str_is(rule, "ASCII_ALPHA_LOWER")
        || str_is(rule, "ASCII_ALPHA_UPPER") || str_is(rule, "ASCII_ALPHA") || str_is(rule, "ASCII_ALPHANUMERIC")
        || str_is(rule, "ASCII") || str_is(rule, "NEWLINE")
}

/// What a parse gives in Lua: the run of trees its tokens describe, or the
/// error's message. The run is built whenever the tokens and node details
/// describe a run of well formed nodes over `input`, as every parse `pest`
/// makes does; only tokens that describe none are reported as an error.
pub fn pairs_from_parse(input: &str, parsed: Result<(Vec<RawToken>, Vec<PairInfo>), String>) -> (r: Result<
    LuaPairs,
    String,
>)
    ensures
        match parsed {
            Err(e) => r matches Err(f) && f@ == e@,
            Ok((toks, infos)) => match r {
                Ok(ps) => {
                    &&& ps.wf()
                    &&& ps.spec_input() == input@
                    &&& ps.spec_idx() == 0
                    &&& ps.tokens() == tokens_view(toks@)
                    &&& pair_infos(ps.flat()) == infos_view(infos@)
                    &&& ps.spec_start() <= ps.spec_stop() ==> ps.span_valid()
                },
                Err(f) => f@ == "the parse tokens do not form a tree"@,
            },
        },
        parsed matches Ok((toks, infos)) && (exists|all: Seq<LuaPair>, lo: int, hi: int|
            run_fits(all, lo, hi, tokens_view(toks@), 0, toks.len() as int, infos_view(infos@), 0, infos.len() as int)
                && run_spans_in(all, lo, hi, input@)) ==> r is Ok,
{
    match parsed {
        Err(e) => Err(e),
        Ok((toks, infos)) => {
            let shared = Rc::new(input.to_owned());
            match LuaPairs::from_tokens(&shared, &toks, &infos) {
                Some(ps) => Ok(ps),
                None => Err("the parse tokens do not form a tree".to_owned()),
            }
        },
    }
}

impl LuaPestVm {
    /// The compiled grammar the value holds.
    pub closed spec fn spec_vm(self) -> pest_vm::Vm {
        *self.vm
    }

    /// The names of the grammar's rules and of the Unicode properties.
    pub closed spec fn spec_rules(self) -> Seq<Seq<char>> {
        self.rules@.map_values(|n: String| n@)
    }

    /// Whether the grammar can be asked to parse from `rule`.
    pub open spec fn defines(self, rule: Seq<char>) -> bool {
        builtin_rule(rule) || self.spec_rules().contains(rule)
    }

    /// Whether the grammar can be asked to parse from `rule`: the test a
    /// caller makes before `lua_parse` and `lua_validate`.
    pub fn lua_defines(&self, rule: &str) -> (r: bool)
        ensures
            r == self.defines(rule@),
    {
        if is_builtin_rule(rule) {
            return true;
        }
        let mut i: usize = 0;
        while i < self.rules.len()
            invariant
                i <= self.rules.len(),
                forall|k: int| 0 <= k < i ==> self.spec_rules()[k] != rule@,
            decreases self.rules.len() - i,
        {
            if str_is(self.rules[i].as_str(), rule) {
                assert(self.spec_rules()[i as int] == rule@);
                return true;
            }
            i = i + 1;
        }
        assert(!self.spec_rules().contains(rule@)) by {
            if self.spec_rules().contains(rule@) {
                let k = choose|k: int| 0 <= k < self.spec_rules().len() && self.spec_rules()[k] == rule@;
                assert(self.spec_rules()[k] != rule@);
            }
        }
        false
    }

    /// Compiles `grammar`: the compiled grammar, or the messages of the
    /// errors found in it; exactly one of the two is given.
    pub fn lua_new(grammar: &str) -> (r: (Option<LuaPestVm>, Option<Vec<String>>))
        ensures
            r.0 is Some <==> r.1 is None,
            r.1 matches Some(e) ==> e.len() > 0,
    {
        match compile_grammar(grammar) {
            Ok(vm) => (Some(vm), None),
            Err(errs) => (None, Some(errs)),
        }
    }

    /// The compiled grammar.
    pub fn vm(&self) -> (r: &pest_vm::Vm)
        ensures
            *r == self.spec_vm(),
    {
        &*self.vm
    }

    /// Parses `input` from `rule`, giving the run of trees the parse made;
    /// each node holds the whole input.
    pub fn lua_parse(&self, rule: &str, input: &str) -> (r: Result<LuaPairs, String>)
        requires
            self.defines(rule@),
        ensures
            r matches Ok(ps) ==> ps.wf() && ps.spec_input() == input@ && ps.spec_idx() == 0 && (ps.spec_start()
                <= ps.spec_stop() ==> ps.span_valid()),
    {
        pairs_from_parse(input, parse_raw(self, rule, input))
    }

    /// Whether `input` parses from `rule`, with the error's message when it
    /// does not.
    pub fn lua_validate(&self, rule: &str, input: &str) -> (r: (bool, Option<String>))
        requires
            self.defines(rule@),
        ensures
            r.0 <==> r.1 is None,
    {
        match parse_raw(self, rule, input) {
            Ok(_) => (true, None),
            Err(e) => (false, Some(e)),
        }
    }
}

} // verus!
