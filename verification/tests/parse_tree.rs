use std::rc::Rc;

use rs_mod_lua::lines::{LuaLinesIter, LuaSpan};
use rs_mod_lua::pairs::{LuaPair, LuaPairs, PairInfo, RawToken};
use rs_mod_lua::vm::{pairs_from_parse, LuaPestVm};

const GRAMMAR: &str = r#"
    field = { (ASCII_DIGIT | "." | "-")+ }
    record = { #tag = field ~ ("," ~ field)* }
    "#;

const INPUT: &str = "65279,1179403647,1463895090";

fn setup() -> pest_vm::Vm {
    let (_, rules) = pest_meta::parse_and_optimize(GRAMMAR).unwrap();
    pest_vm::Vm::new(rules)
}

/// A node built from what `pest` reports of a pair.
fn lua_pair(input: &Rc<String>, pair: pest::iterators::Pair<'_, &str>) -> LuaPair {
    let span = pair.as_span();
    let rule = pair.as_rule().to_string();
    let node_tag = pair.as_node_tag().map(|s| s.to_string());
    let (line, col) = pair.line_col();
    let inner = lua_pairs(input, pair.into_inner());
    LuaPair::new(input, span.start(), span.end(), rule, node_tag, line, col, inner)
}

/// A cursor built from what `pest` reports of a run of pairs.
fn lua_pairs(input: &Rc<String>, pairs: pest::iterators::Pairs<'_, &str>) -> LuaPairs {
    let nodes = pairs.map(|p| lua_pair(input, p)).collect::<Vec<_>>();
    LuaPairs::new(input, nodes)
}

/// The cursor the library builds from its own parse of `INPUT`.
fn parsed_run() -> LuaPairs {
    let (vm, errs) = LuaPestVm::lua_new(GRAMMAR);
    assert!(errs.is_none());
    vm.unwrap().lua_parse("record", INPUT).unwrap()
}

fn drain(mut ps: LuaPairs) -> Vec<LuaPair> {
    let mut out = vec![];
    while let Some(p) = ps.next() {
        out.push(p);
    }
    out
}

#[test]
fn test_iteration() {
    let vm = setup();

    let input = Rc::new(INPUT.to_string());
    let pairs = vm.parse("record", INPUT).unwrap();
    let lua_pairs_run = parsed_run();

    let mapped_pairs = pairs.map(|p| lua_pair(&input, p)).collect::<Vec<_>>();

    assert_eq!(drain(lua_pairs_run), mapped_pairs)
}

#[test]
fn test_next() {
    let vm = setup();

    let input = Rc::new(INPUT.to_string());
    let mut pairs = vm.parse("record", INPUT).unwrap();
    let mut run = parsed_run();

    let mut pest_vec = vec![];
    while let Some(p) = pairs.next() {
        pest_vec.push(lua_pair(&input, p))
    }

    let mut lua_vec = vec![];
    while let Some(p) = run.lua_next() {
        lua_vec.push(p)
    }

    assert_eq!(lua_vec, pest_vec)
}

#[test]
fn test_next_back() {
    let vm = setup();

    let input = Rc::new(INPUT.to_string());
    let mut pairs = vm.parse("record", INPUT).unwrap();
    let mut run = parsed_run();

    let mut pest_vec = vec![];
    while let Some(p) = pairs.next_back() {
        pest_vec.push(lua_pair(&input, p))
    }

    let mut lua_vec = vec![];
    while let Some(p) = run.lua_next_back() {
        lua_vec.push(p)
    }

    assert_eq!(lua_vec, pest_vec)
}

#[test]
fn test_flat_iteration() {
    let vm = setup();

    let input = Rc::new(INPUT.to_string());
    let pairs = vm.parse("record", INPUT).unwrap();
    let run = parsed_run();

    let mapped_pairs = pairs.flatten().map(|p| lua_pair(&input, p)).collect::<Vec<_>>();

    assert_eq!(drain(run.flatten_into()), mapped_pairs)
}

#[test]
fn test_flat_next() {
    let vm = setup();

    let input = Rc::new(INPUT.to_string());
    let pairs = vm.parse("record", INPUT).unwrap();
    let run = parsed_run();

    let mut flat_pairs = pairs.flatten();
    let mut pest_vec = vec![];
    while let Some(p) = flat_pairs.next() {
        pest_vec.push(lua_pair(&input, p))
    }

    let mut flat_run = run.lua_flatten();
    let mut lua_vec = vec![];
    while let Some(p) = flat_run.next() {
        lua_vec.push(p)
    }

    assert_eq!(lua_vec, pest_vec)
}

#[test]
fn test_flat_next_back() {
    let vm = setup();

    let input = Rc::new(INPUT.to_string());
    let pairs = vm.parse("record", INPUT).unwrap();
    let run = parsed_run();

    let mut flat_pairs = pairs.flatten();
    let mut pest_vec = vec![];
    while let Some(p) = flat_pairs.next_back() {
        pest_vec.push(lua_pair(&input, p))
    }

    let mut flat_run = run.flatten_into();
    let mut lua_vec = vec![];
    while let Some(p) = flat_run.next_back() {
        lua_vec.push(p)
    }

    assert_eq!(lua_vec, pest_vec)
}

#[test]
fn pair_accessors() {
    let vm = setup();
    let input = Rc::new(INPUT.to_string());
    let pairs = vm.parse("record", INPUT).unwrap();
    let mut run = lua_pairs(&input, pairs);

    assert!(!run.lua_is_empty());
    assert_eq!(run.lua_as_str(), INPUT);
    assert_eq!(run.lua_get_input(), INPUT);
    let record = run.lua_peek().unwrap();
    assert_eq!(record.lua_as_rule(), "record");
    assert_eq!(record.lua_start(), 0);
    assert_eq!(record.lua_stop(), INPUT.len());
    assert_eq!(record.lua_as_str(), INPUT);
    assert_eq!(record.lua_line_col(), (1, 1));
    assert_eq!(record.lua_as_node_tag(), None);
    assert_eq!(record.lua_get_input(), INPUT);

    let mut fields = record.lua_pairs().unwrap();
    assert_eq!(fields.len(), 3);
    let first = fields.lua_next().unwrap();
    assert_eq!(first.lua_as_rule(), "field");
    assert_eq!(first.lua_as_str(), "65279");
    let tagged = LuaPair::new(&input, 0, 5, "field".to_string(), Some("tag".to_string()), 1, 1, LuaPairs::new(&input, vec![]));
    assert_eq!(tagged.lua_as_node_tag(), Some("tag".to_string()));
    assert_eq!(tagged.lua_as_str(), "65279");
    assert!(first.lua_pairs().is_none());
    let last = fields.lua_next_back().unwrap();
    assert_eq!(last.lua_as_str(), "1463895090");
    assert_eq!(last.lua_line_col(), (1, 18));
    assert_eq!(fields.len(), 1);
    assert_eq!(fields.lua_next().unwrap().lua_as_str(), "1179403647");
    assert!(fields.lua_next().is_none());
    assert!(fields.lua_next_back().is_none());
    assert!(fields.lua_is_empty());

    let _ = run.lua_next();
    assert!(run.lua_is_empty());
    assert!(run.lua_peek().is_none());
}

#[test]
fn flattening_childless_run_keeps_it() {
    let input = Rc::new("ab".to_string());
    let empty = LuaPairs::new(&input, vec![]);
    let a = LuaPair::new(&input, 0, 1, "x".to_string(), None, 1, 1, LuaPairs::new(&input, vec![]));
    let b = LuaPair::new(&input, 1, 2, "y".to_string(), None, 1, 2, LuaPairs::new(&input, vec![]));
    let run = LuaPairs::new(&input, vec![a.clone(), b.clone()]);
    assert_eq!(drain(run.lua_flatten()), vec![a, b]);
    assert_eq!(run.lua_as_str(), "ab");
    assert!(empty.lua_is_empty());
    assert_eq!(empty.lua_as_str(), "");
}

#[test]
fn cursor_hands_out_each_node_once_from_either_end() {
    let input = Rc::new("abc".to_string());
    let node = |i: usize| LuaPair::new(&input, i, i + 1, "x".to_string(), None, 1, i + 1, LuaPairs::new(&input, vec![]));
    let (a, b, c) = (node(0), node(1), node(2));
    let mut run = LuaPairs::new(&input, vec![a.clone(), b.clone(), c.clone()]);
    assert_eq!(run.lua_next(), Some(a));
    assert_eq!(run.lua_next_back(), Some(c));
    assert_eq!(run.len(), 1);
    assert_eq!(run.lua_next_back(), Some(b));
    assert_eq!(run.lua_next(), None);
    assert_eq!(run.lua_next_back(), None);
    assert!(run.lua_is_empty());
}

#[test]
fn test_line_iteration() {
    let input = "one\ntwo\nthree";

    let span = pest::Span::new(input, 0, input.len()).unwrap();
    let ex = span
        .lines_span()
        .map(|s| LuaSpan { start: s.start(), end: s.end(), text: s.as_str().to_string() })
        .collect::<Vec<_>>();

    let mut lines = LuaLinesIter::from_span(input.to_string(), 0, input.len());
    let mut res = vec![];
    while let Some(l) = lines.next() {
        res.push(l);
    }

    assert_eq!(ex, res)
}

#[test]
fn lines_are_consecutive_and_cover_the_span() {
    let input = "ab\ncd\n\nef";
    let mut lines = LuaLinesIter::from_span(input.to_string(), 4, 8);
    let first = lines.next().unwrap();
    assert_eq!((first.start, first.end, first.text.as_str()), (3, 6, "cd\n"));
    let second = lines.next().unwrap();
    assert_eq!((second.start, second.end, second.text.as_str()), (6, 7, "\n"));
    let third = lines.next().unwrap();
    assert_eq!((third.start, third.end, third.text.as_str()), (7, 9, "ef"));
    assert!(lines.next().is_none());

    let mut empty = LuaLinesIter::from_span(String::new(), 0, 0);
    assert!(empty.next().is_none());
}

#[test]
fn grammar_parses_into_the_same_tree_as_pest() {
    let (vm, errs) = LuaPestVm::lua_new(GRAMMAR);
    assert!(errs.is_none());
    let vm = vm.unwrap();

    let input = Rc::new(INPUT.to_string());
    let expected = lua_pairs(&input, setup().parse("record", INPUT).unwrap());
    let parsed = vm.lua_parse("record", INPUT).unwrap();
    assert_eq!(drain(parsed.lua_flatten()), drain(expected.lua_flatten()));

    assert_eq!(vm.lua_validate("record", INPUT), (true, None));
    let (ok, msg) = vm.lua_validate("record", "abc");
    assert!(!ok);
    assert!(msg.is_some());
    assert!(vm.lua_parse("record", "abc").is_err());
}

#[test]
fn grammar_knows_its_rules_and_the_builtins() {
    let (vm, _) = LuaPestVm::lua_new(GRAMMAR);
    let vm = vm.unwrap();
    assert!(vm.lua_defines("record"));
    assert!(vm.lua_defines("ASCII_DIGIT"));
    assert!(vm.lua_defines("EOI"));
    assert!(vm.lua_defines("LETTER"));
    assert!(!vm.lua_defines("no_such_rule"));
    assert!(!vm.lua_defines(""));
    assert_eq!(vm.lua_validate("ASCII_DIGIT", "7"), (true, None));
}

#[test]
fn bad_grammar_reports_errors() {
    let (vm, errs) = LuaPestVm::lua_new("field = { ");
    assert!(vm.is_none());
    assert!(!errs.unwrap().is_empty());
}

fn tok(opens: bool, rule: &str, pos: usize) -> RawToken {
    RawToken { opens, rule: rule.to_string(), pos }
}

fn info(line: usize, col: usize) -> PairInfo {
    PairInfo { tag: None, line, col }
}

#[test]
fn trees_from_tokens() {
    let toks = vec![
        tok(true, "a", 0),
        tok(true, "b", 0),
        tok(false, "b", 1),
        tok(false, "a", 2),
        tok(true, "c", 2),
        tok(false, "c", 3),
    ];
    let infos = vec![info(1, 1), info(1, 1), info(1, 3)];
    let run = pairs_from_parse("xyz", Ok((toks.clone(), infos.clone()))).unwrap();
    let flat = drain(run.lua_flatten());
    let rules: Vec<String> = flat.iter().map(|p| p.lua_as_rule()).collect();
    assert_eq!(rules, vec!["a", "b", "c"]);
    assert_eq!(flat[0].lua_as_str(), "xy");
    assert_eq!(flat[1].lua_as_str(), "x");
    assert_eq!(flat[2].lua_line_col(), (1, 3));
    assert_eq!(run.lua_as_str(), "xyz");

    let unbalanced = vec![tok(true, "a", 0)];
    assert!(pairs_from_parse("x", Ok((unbalanced, vec![info(1, 1)]))).is_err());
    let crossed = vec![tok(true, "a", 0), tok(false, "b", 1)];
    assert!(pairs_from_parse("x", Ok((crossed, vec![info(1, 1)]))).is_err());
    assert!(pairs_from_parse("xyz", Ok((toks, vec![info(1, 1)]))).is_err());
    assert_eq!(pairs_from_parse("x", Err("bad".to_string())).unwrap_err(), "bad");
    assert!(pairs_from_parse("", Ok((vec![], vec![]))).unwrap().lua_is_empty());
}
