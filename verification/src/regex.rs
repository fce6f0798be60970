//! Regular expressions with one-based positions, as Lua indexes strings.
//!
//! Matching itself is done by `fancy_regex`; this module turns its zero-based
//! byte offsets into one-based ones, keeps capture groups addressable by
//! number and by name, and maps the positions callers pass in.
use vstd::prelude::*;
use vstd::utf8::{is_char_boundary, is_char_boundary_iff_not_is_continuation_byte, is_char_boundary_start_end_of_seq};
use crate::text::{bytes_of, is_char_range, lemma_bytes_decode};

verus! {

/// A match as `fancy_regex` reports it: zero-based byte offsets and the text.
#[derive(Clone, Debug, PartialEq)]
pub struct RawMatch {
    pub start: usize,
    pub end: usize,
    pub text: String,
}

/// The part of a `RawMatch` that contracts speak of.
pub open spec fn raw_view(m: RawMatch) -> (usize, usize, Seq<char>) {
    (m.start, m.end, m.text@)
}

/// A match with one-based offsets: `start` is the position of its first
/// byte and `stop` the position just past its last byte.
#[derive(Debug, PartialEq)]
pub struct LuaMatch {
    pub start: usize,
    pub stop: usize,
    pub text: String,
}

/// The part of a `LuaMatch` that contracts speak of.
pub open spec fn match_view(m: LuaMatch) -> (usize, usize, Seq<char>) {
    (m.start, m.stop, m.text@)
}

/// One added to an offset, stopping at the largest `usize`.
pub open spec fn plus_one(x: usize) -> usize {
    if x < usize::MAX { (x + 1) as usize } else { usize::MAX }
}

/// One taken from a position, stopping at zero.
pub open spec fn minus_one(x: usize) -> usize {
    if x > 0 { (x - 1) as usize } else { 0 }
}

/// The one-based form of a raw match.
pub open spec fn lua_view(m: (usize, usize, Seq<char>)) -> (usize, usize, Seq<char>) {
    (plus_one(m.0), plus_one(m.1), m.2)
}

impl LuaMatch {
    /// Converts a raw match to one-based offsets.
    pub fn from_raw(m: RawMatch) -> (r: Self)
        ensures
            match_view(r) == lua_view(raw_view(m)),
    {
        LuaMatch { start: m.start.saturating_add(1), stop: m.end.saturating_add(1), text: m.text }
    }

    /// The matched text.
    pub fn lua_tostring(&self) -> (r: String)
        ensures
            r@ == self.text@,
    {
        self.text.clone()
    }

    /// The match's one-based start and stop.
    pub fn lua_range(&self) -> (r: (usize, usize))
        ensures
            r == (self.start, self.stop),
    {
        (self.start, self.stop)
    }

    /// A copy of the match.
    pub fn duplicate(&self) -> (r: Self)
        ensures
            match_view(r) == match_view(*self),
    {
        LuaMatch { start: self.start, stop: self.stop, text: self.text.clone() }
    }
}

pub open spec fn opt_match_view(m: Option<LuaMatch>) -> Option<(usize, usize, Seq<char>)> {
    match m {
        Some(x) => Some(match_view(x)),
        None => None,
    }
}

pub open spec fn opt_raw_lua_view(m: Option<RawMatch>) -> Option<(usize, usize, Seq<char>)> {
    match m {
        Some(x) => Some(lua_view(raw_view(x))),
        None => None,
    }
}

/// The groups of one match, in the order the pattern opens them (group 0
/// is the whole match), and the names of the named groups.
#[derive(Debug)]
pub struct LuaCaptures {
    matches: Vec<Option<LuaMatch>>,
    names: Vec<(String, usize)>,
}

/// The group a name is bound to in a list of bindings, if any.
pub open spec fn lookup(names: Seq<(Seq<char>, usize)>, name: Seq<char>) -> Option<usize>
    decreases names.len(),
{
    if names.len() == 0 {
        None
    } else if names.last().0 == name {
        Some(names.last().1)
    } else {
        lookup(names.drop_last(), name)
    }
}

/// The group each name is bound to after binding, in order, every group
/// in `names[0 .. k]` that has a name; a later group wins over an earlier one.
pub open spec fn bind_names(names: Seq<Option<Seq<char>>>, k: int, name: Seq<char>) -> Option<usize>
    decreases k,
{
    if k <= 0 {
        None
    } else if names[k - 1] == Some(name) {
        Some((k - 1) as usize)
    } else {
        bind_names(names, k - 1, name)
    }
}

impl LuaCaptures {
    /// The groups, group 0 first.
    pub closed spec fn spec_matches(self) -> Seq<Option<(usize, usize, Seq<char>)>> {
        self.matches@.map_values(|m: Option<LuaMatch>| opt_match_view(m))
    }

    /// The bindings of names to groups, oldest first.
    pub closed spec fn spec_names(self) -> Seq<(Seq<char>, usize)> {
        self.names@.map_values(|p: (String, usize)| (p.0@, p.1))
    }

    /// The group a name refers to, if any.
    pub open spec fn name_index(self, name: Seq<char>) -> Option<usize> {
        lookup(self.spec_names(), name)
    }

    /// Builds the captures of one match from its raw groups; no names are bound yet.
    pub fn from_raw(groups: Vec<Option<RawMatch>>) -> (r: Self)
        ensures
            r.spec_matches() == groups@.map_values(|m: Option<RawMatch>| opt_raw_lua_view(m)),
            r.spec_names() == Seq::<(Seq<char>, usize)>::empty(),
    {
        let ghost g = groups@;
        let mut matches: Vec<Option<LuaMatch>> = Vec::new();
        let mut groups = groups;
        while groups.len() != 0
            invariant
                matches.len() + groups.len() == g.len(),
                groups@ == g.subrange(matches.len() as int, g.len() as int),
                forall|i: int|
                    0 <= i < matches.len() ==> opt_match_view(#[trigger] matches@[i])
                        == opt_raw_lua_view(g[i]),
            decreases groups.len(),
        {
            let m = groups.remove(0);
            assert(m == g[matches.len() as int]);
            match m {
                Some(raw) => matches.push(Some(LuaMatch::from_raw(raw))),
                None => matches.push(None),
            }
            assert(groups@ =~= g.subrange(matches.len() as int, g.len() as int));
        }
        let r = LuaCaptures { matches, names: Vec::new() };
        assert(r.spec_matches() =~= g.map_values(|m: Option<RawMatch>| opt_raw_lua_view(m)));
        assert(r.spec_names() =~= Seq::<(Seq<char>, usize)>::empty());
        r
    }

    /// Group `index`, counting from 0, if it exists and took part in the match.
    pub fn get(&self, index: usize) -> (r: Option<LuaMatch>)
        ensures
            opt_match_view(r) == (if index < self.spec_matches().len() {
                self.spec_matches()[index as int]
            } else {
                None
            }),
    {
        if index >= self.matches.len() {
            return None;
        }
        match &self.matches[index] {
            Some(m) => Some(m.duplicate()),
            None => None,
        }
    }

    /// Binds the name of every named group to that group's number; a name
    /// given to several groups ends up bound to the last of them.
    pub fn set_names(&mut self, names: Vec<Option<String>>)
        ensures
            final(self).spec_matches() == old(self).spec_matches(),
            forall|name: Seq<char>|
                #[trigger] final(self).name_index(name) == (match bind_names(
                    names@.map_values(|n: Option<String>| opt_str_view(n)),
                    names.len() as int,
                    name,
                ) {
                    Some(i) => Some(i),
                    None => old(self).name_index(name),
                }),
    {
        let ghost nv = names@.map_values(|n: Option<String>| opt_str_view(n));
        let mut i: usize = 0;
        while i < names.len()
            invariant
                0 <= i <= names.len(),
                nv == names@.map_values(|n: Option<String>| opt_str_view(n)),
                self.spec_matches() == old(self).spec_matches(),
                forall|name: Seq<char>|
                    #[trigger] self.name_index(name) == (match bind_names(nv, i as int, name) {
                        Some(j) => Some(j),
                        None => old(self).name_index(name),
                    }),
            decreases names.len() - i,
        {
            let ghost prev_self = *self;
            match &names[i] {
                Some(n) => {
                    let ghost prev = self.spec_names();
                    self.names.push((n.clone(), i));
                    assert(self.spec_names() =~= prev.push((n@, i)));
                    assert(self.spec_names().drop_last() =~= prev);
                    assert(nv[i as int] == Some(n@));
                    assert forall|name: Seq<char>|
                        #[trigger] self.name_index(name) == (match bind_names(nv, i + 1, name) {
                            Some(j) => Some(j),
                            None => old(self).name_index(name),
                        }) by {
                        assert(prev_self.name_index(name) == lookup(prev, name));
                    }
                },
                None => {
                    assert(nv[i as int] == None::<Seq<char>>);
                    assert forall|name: Seq<char>|
                        #[trigger] self.name_index(name) == (match bind_names(nv, i + 1, name) {
                            Some(j) => Some(j),
                            None => old(self).name_index(name),
                        }) by {
                        assert(prev_self.name_index(name) == self.name_index(name));
                    }
                },
            }
            i = i + 1;
        }
    }

    /// The group Lua's `get` gives for `index`, counting from 1 (0 is read as 1).
    pub open spec fn group_at(self, index: usize) -> Option<(usize, usize, Seq<char>)> {
        if minus_one(index) < self.spec_matches().len() {
            self.spec_matches()[minus_one(index) as int]
        } else {
            None
        }
    }

    /// The group Lua's `name` gives for `name`.
    pub open spec fn group_named(self, name: Seq<char>) -> Option<(usize, usize, Seq<char>)> {
        match self.name_index(name) {
            Some(i) => if i < self.spec_matches().len() {
                self.spec_matches()[i as int]
            } else {
                None
            },
            None => None,
        }
    }

    /// Group `index`, counting from 1 as Lua does (0 is read as 1).
    pub fn lua_get(&self, index: usize) -> (r: Option<LuaMatch>)
        ensures
            opt_match_view(r) == self.group_at(index),
    {
        self.get(index.saturating_sub(1))
    }

    /// The group bound to `name`, if it took part in the match.
    pub fn lua_name(&self, name: &str) -> (r: Option<LuaMatch>)
        ensures
            opt_match_view(r) == self.group_named(name@),
    {
        let key: String = name.to_owned();
        let mut k = self.names.len();
        assert(self.spec_names().subrange(0, k as int) =~= self.spec_names());
        while k > 0
            invariant
                k <= self.names.len(),
                key@ == name@,
                lookup(self.spec_names(), name@) == lookup(self.spec_names().subrange(0, k as int), name@),
            decreases k,
        {
            let ghost sub = self.spec_names().subrange(0, k as int);
            assert(sub.drop_last() =~= self.spec_names().subrange(0, k - 1));
            assert(sub.last() == (self.names@[k - 1].0@, self.names@[k - 1].1));
            let same = self.names[k - 1].0 == key;
            if same {
                assert(sub.last().0 == name@);
                assert(lookup(sub, name@) == Some(sub.last().1));
                return self.get(self.names[k - 1].1);
            }
            assert(sub.last().0 != name@);
            assert(lookup(sub, name@) == lookup(sub.drop_last(), name@));
            k = k - 1;
        }
        None
    }

    /// Number of groups, counting group 0.
    pub fn lua_len(&self) -> (r: usize)
        ensures
            r == self.spec_matches().len(),
    {
        self.matches.len()
    }
}

pub open spec fn opt_str_view(n: Option<String>) -> Option<Seq<char>> {
    match n {
        Some(s) => Some(s@),
        None => None,
    }
}

#[verifier::external_type_specification]
#[verifier::external_body]
pub struct ExFancyRegex(fancy_regex::Regex);

/// The outcome of an operation as contracts speak of it: the value, or the
/// text of the error `fancy_regex` reported.
pub open spec fn outcome<T, V>(r: Result<T, String>, f: spec_fn(T) -> V) -> Result<V, Seq<char>> {
    match r {
        Ok(v) => Ok(f(v)),
        Err(e) => Err(e@),
    }
}

pub open spec fn opt_raw_view(m: Option<RawMatch>) -> Option<(usize, usize, Seq<char>)> {
    match m {
        Some(x) => Some(raw_view(x)),
        None => None,
    }
}

pub open spec fn groups_view(g: Vec<Option<RawMatch>>) -> Seq<Option<(usize, usize, Seq<char>)>> {
    g@.map_values(|m: Option<RawMatch>| opt_raw_view(m))
}

pub open spec fn strings_view(v: Vec<String>) -> Seq<Seq<char>> {
    v@.map_values(|s: String| s@)
}

/// What compiling `pattern` yields: nothing, or the text of the error.
pub uninterp spec fn regex_compile_error(pattern: Seq<char>) -> Option<Seq<char>>;

/// Whether the regex compiled from `pattern` matches somewhere in `hay`.
pub uninterp spec fn regex_is_match(pattern: Seq<char>, hay: Seq<char>) -> Result<bool, Seq<char>>;

/// The leftmost match of the regex compiled from `pattern` in `hay` at or
/// after byte `pos`.
pub uninterp spec fn regex_find_from_pos(pattern: Seq<char>, hay: Seq<char>, pos: usize) -> Result<
    Option<(usize, usize, Seq<char>)>,
    Seq<char>,
>;

/// The groups of the leftmost match of the regex compiled from `pattern` in
/// `hay` at or after byte `pos`.
pub uninterp spec fn regex_captures_from_pos(pattern: Seq<char>, hay: Seq<char>, pos: usize) -> Result<
    Option<Seq<Option<(usize, usize, Seq<char>)>>>,
    Seq<char>,
>;

/// The name of each group of the regex compiled from `pattern`, group 0 first.
pub uninterp spec fn regex_capture_names(pattern: Seq<char>) -> Seq<Option<Seq<char>>>;

/// `text` with at most `limit` matches (all of them when `limit` is 0) replaced by `rep`.
pub uninterp spec fn regex_replacen(pattern: Seq<char>, text: Seq<char>, limit: usize, rep: Seq<char>) -> Result<
    Seq<char>,
    Seq<char>,
>;

/// The pieces of `target` between the matches of the regex.
pub uninterp spec fn regex_split(pattern: Seq<char>, target: Seq<char>) -> Result<Seq<Seq<char>>, Seq<char>>;

/// The pieces of `target` between the matches of the regex, at most `limit` of them.
pub uninterp spec fn regex_splitn(pattern: Seq<char>, target: Seq<char>, limit: usize) -> Result<
    Seq<Seq<char>>,
    Seq<char>,
>;

/// A character with a meaning in a pattern.
pub open spec fn is_special(c: char) -> bool {
    ||| c == '\\' || c == '.' || c == '+' || c == '*' || c == '?'
    ||| c == '(' || c == ')' || c == '|' || c == '[' || c == ']'
    ||| c == '{' || c == '}' || c == '^' || c == '$' || c == '#'
}

/// How one character is written in a quoted pattern: a backslash and the
/// usual letter for a line feed, tab or carriage return, a backslash before
/// a special character, and any other character as it is.
pub open spec fn quote_char(c: char) -> Seq<char> {
    if c == '\n' {
        seq!['\\', 'n']
    } else if c == '\t' {
        seq!['\\', 't']
    } else if c == '\r' {
        seq!['\\', 'r']
    } else if is_special(c) {
        seq!['\\', c]
    } else {
        seq![c]
    }
}

/// Every character of `s` written as `quote_char` writes it.
pub open spec fn quote_all(s: Seq<char>) -> Seq<char>
    decreases s.len(),
{
    if s.len() == 0 {
        seq![]
    } else {
        quote_all(s.drop_last()) + quote_char(s.last())
    }
}

/// `text` quoted for use in a pattern: unchanged when it holds no special
/// character, otherwise every character quoted.
pub open spec fn regex_escape(text: Seq<char>) -> Seq<char> {
    if exists|i: int| 0 <= i < text.len() && is_special(#[trigger] text[i]) {
        quote_all(text)
    } else {
        text
    }
}

/// A compiled regular expression, seen as the pattern it was compiled from.
pub struct LuaRegex {
    inner: fancy_regex::Regex,
    pattern: Ghost<Seq<char>>,
}

impl View for LuaRegex {
    type V = Seq<char>;

    closed spec fn view(&self) -> Seq<char> {
        self.pattern@
    }
}

/// Calls `fancy_regex::Regex::new`; the contract claims that whether it
/// fails, and with which message, depends on the pattern alone.
#[verifier::external_body]
fn compile(patt: &str) -> (r: Result<fancy_regex::Regex, String>)
    ensures
        (match r {
            Ok(_) => None,
            Err(e) => Some(e@),
        }) == regex_compile_error(patt@),
{
    fancy_regex::Regex::new(patt).map_err(|e| e.to_string())
}

/// Calls `fancy_regex::Regex::as_str`, which its documentation says returns
/// the pattern the regex was compiled from.
#[verifier::external_body]
fn pattern_of(re: &LuaRegex) -> (r: String)
    ensures
        r@ == re@,
{
    re.inner.as_str().to_string()
}

/// Calls `fancy_regex::Regex::is_match`; the contract claims the outcome
/// depends on the pattern and the haystack alone.
#[verifier::external_body]
fn is_match(re: &LuaRegex, hay: &str) -> (r: Result<bool, String>)
    ensures
        outcome(r, |b: bool| b) == regex_is_match(re@, hay@),
{
    re.inner.is_match(hay).map_err(|e| e.to_string())
}

/// A byte offset of `hay` at which a search may start: past the end, where
/// nothing is found, or on a character boundary. `fancy_regex` starts its
/// search at the offset as given, and `Match::as_str` slices the haystack at
/// the offsets found, which panics inside a character.
pub open spec fn start_allowed(hay: Seq<char>, pos: usize) -> bool {
    pos > bytes_of(hay).len() || is_char_boundary(bytes_of(hay), pos as int)
}

/// The raw match covers whole characters of `hay` and its text is the
/// bytes it covers, as `Match::as_str` slices them.
pub open spec fn raw_in(hay: Seq<char>, m: RawMatch) -> bool {
    &&& is_char_range(bytes_of(hay), m.start as int, m.end as int)
    &&& bytes_of(m.text@) == bytes_of(hay).subrange(m.start as int, m.end as int)
}

/// Calls `fancy_regex::Regex::find_from_pos`; the contract claims the
/// outcome depends on the pattern, the haystack and the position alone, and
/// that the text of a match is the slice of the haystack between its offsets
/// (`Match::as_str`). The position must be one the search may start at.
#[verifier::external_body]
fn find_from_pos(re: &LuaRegex, hay: &str, pos: usize) -> (r: Result<Option<RawMatch>, String>)
    requires
        start_allowed(hay@, pos),
    ensures
        outcome(r, |m: Option<RawMatch>| opt_raw_view(m)) == regex_find_from_pos(re@, hay@, pos),
        r matches Ok(Some(m)) ==> raw_in(hay@, m),
{
    re.inner
        .find_from_pos(hay, pos)
        .map(|o| o.map(|m| RawMatch { start: m.start(), end: m.end(), text: m.as_str().to_string() }))
        .map_err(|e| e.to_string())
}

/// Calls `fancy_regex::Regex::captures_from_pos` and lists the groups of
/// the match; the contract claims the outcome depends on the pattern, the
/// haystack and the position alone, and that the text of each group is the
/// slice of the haystack between its offsets (`Match::as_str`). The position
/// must be one the search may start at.
#[verifier::external_body]
fn captures_from_pos(re: &LuaRegex, hay: &str, pos: usize) -> (r: Result<Option<Vec<Option<RawMatch>>>, String>)
    requires
        start_allowed(hay@, pos),
    ensures
        outcome(r, |c: Option<Vec<Option<RawMatch>>>| match c {
            Some(g) => Some(groups_view(g)),
            None => None,
        }) == regex_captures_from_pos(re@, hay@, pos),
        r matches Ok(Some(g)) ==> forall|i: int| 0 <= i < g.len() ==> (#[trigger] g@[i] matches Some(m) ==> raw_in(hay@, m)),
{
    let conv = |m: fancy_regex::Match| RawMatch { start: m.start(), end: m.end(), text: m.as_str().to_string() };
    re.inner
        .captures_from_pos(hay, pos)
        .map(|o| o.map(|c| c.iter().map(|g| g.map(conv)).collect()))
        .map_err(|e| e.to_string())
}

/// Calls `fancy_regex::Regex::capture_names`; the contract claims the names
/// depend on the pattern alone.
#[verifier::external_body]
fn capture_names(re: &LuaRegex) -> (r: Vec<Option<String>>)
    ensures
        r@.map_values(|n: Option<String>| opt_str_view(n)) == regex_capture_names(re@),
{
    re.inner.capture_names().map(|v| v.map(|s| s.to_string())).collect()
}

/// Calls `fancy_regex::Regex::try_replacen`; the contract claims the outcome
/// depends on the pattern, the text, the limit and the replacement alone.
#[verifier::external_body]
fn try_replacen(re: &LuaRegex, text: &str, limit: usize, rep: &str) -> (r: Result<String, String>)
    ensures
        outcome(r, |s: String| s@) == regex_replacen(re@, text@, limit, rep@),
{
    re.inner.try_replacen(text, limit, rep).map(|s| s.to_string()).map_err(|e| e.to_string())
}

/// Calls `fancy_regex::Regex::split` and collects the pieces; the contract
/// claims the outcome depends on the pattern and the target alone.
#[verifier::external_body]
fn split(re: &LuaRegex, target: &str) -> (r: Result<Vec<String>, String>)
    ensures
        outcome(r, |v: Vec<String>| strings_view(v)) == regex_split(re@, target@),
{
    re.inner.split(target).map(|r| r.map(|s| s.to_string())).collect::<Result<Vec<String>, _>>().map_err(|e| e.to_string())
}

/// Calls `fancy_regex::Regex::splitn` and collects the pieces; the contract
/// claims the outcome depends on the pattern, the target and the limit alone.
#[verifier::external_body]
fn splitn(re: &LuaRegex, target: &str, limit: usize) -> (r: Result<Vec<String>, String>)
    ensures
        outcome(r, |v: Vec<String>| strings_view(v)) == regex_splitn(re@, target@, limit),
{
    re.inner.splitn(target, limit).map(|r| r.map(|s| s.to_string())).collect::<Result<Vec<String>, _>>().map_err(|e| e.to_string())
}

/// Calls `fancy_regex::escape`, which, as its source shows, gives the text
/// itself when it holds no special character and otherwise writes each
/// character as `push_quoted` does (`quote_char`).
#[verifier::external_body]
fn escape_text(text: &str) -> (r: String)
    ensures
        r@ == regex_escape(text@),
{
    fancy_regex::escape(text).to_string()
}

/// Quotes every character of `text` that has a meaning in a pattern.
pub fn escape(text: &str) -> (r: String)
    ensures
        r@ == regex_escape(text@),
{
    escape_text(text)
}

/// The zero-based byte offset a one-based start position refers to; a
/// missing position means the start of the text.
pub open spec fn start_offset(start: Option<usize>) -> usize {
    match start {
        Some(s) => minus_one(s),
        None => 0,
    }
}

/// Whether a search of `hay` may start at the one-based position `start`:
/// the test a caller makes before `lua_find_from_pos` and
/// `lua_captures_from_pos`.
pub fn start_ok(hay: &str, start: Option<usize>) -> (r: bool)
    ensures
        r == start_allowed(hay@, start_offset(start)),
{
    let pos: usize = match start {
        Some(s) => s.saturating_sub(1),
        None => 0,
    };
    let b = hay.as_bytes();
    proof {
        lemma_bytes_decode(hay@);
        is_char_boundary_start_end_of_seq(b@);
    }
    if pos > b.len() {
        return true;
    }
    if pos == b.len() {
        return true;
    }
    proof {
        is_char_boundary_iff_not_is_continuation_byte(b@, pos as int);
    }
    let c = b[pos];
    !(0x80 <= c && c <= 0xbf)
}

impl LuaRegex {
    /// Compiles `patt`.
    pub fn lua_new(patt: &str) -> (r: Result<LuaRegex, String>)
        ensures
            (match r {
                Ok(_) => None,
                Err(e) => Some(e@),
            }) == regex_compile_error(patt@),
            r matches Ok(re) ==> re@ == patt@,
    {
        match compile(patt) {
            Ok(inner) => Ok(LuaRegex { inner, pattern: Ghost(patt@) }),
            Err(e) => Err(e),
        }
    }

    /// The pattern the regex was compiled from.
    pub fn lua_tostring(&self) -> (r: String)
        ensures
            r@ == self@,
    {
        pattern_of(self)
    }

    /// Whether the regex matches somewhere in `hay`.
    pub fn lua_is_match(&self, hay: &str) -> (r: Result<bool, String>)
        ensures
            outcome(r, |b: bool| b) == regex_is_match(self@, hay@),
    {
        is_match(self, hay)
    }

    /// The leftmost match at or after the one-based position `start`
    /// (the start of the text when missing), with one-based offsets.
    pub fn lua_find_from_pos(&self, hay: &str, start: Option<usize>) -> (r: Result<Option<LuaMatch>, String>)
        requires
            start_allowed(hay@, start_offset(start)),
        ensures
            r matches Ok(Some(m)) ==> m.start <= m.stop && (m.stop < usize::MAX ==> bytes_of(m.text@).len()
                == m.stop - m.start),
            outcome(r, |m: Option<LuaMatch>| opt_match_view(m)) == (match regex_find_from_pos(
                self@,
                hay@,
                start_offset(start),
            ) {
                Ok(Some(m)) => Ok(Some(lua_view(m))),
                Ok(None) => Ok(None),
                Err(e) => Err(e),
            }),
    {
        let start = match start {
            Some(s) => s,
            None => 1,
        };
        let start = start.saturating_sub(1);
        match find_from_pos(self, hay, start) {
            Ok(Some(m)) => {
                proof {
                    assert(bytes_of(m.text@).len() == m.end - m.start);
                }
                Ok(Some(LuaMatch::from_raw(m)))
            },
            Ok(None) => Ok(None),
            Err(e) => Err(e),
        }
    }

    /// The groups of the leftmost match at or after the one-based position
    /// `start` (the start of the text when missing), with the names of the
    /// named groups bound.
    pub fn lua_captures_from_pos(&self, hay: &str, start: Option<usize>) -> (r: Result<Option<LuaCaptures>, String>)
        requires
            start != Some(0usize),
            start_allowed(hay@, start_offset(start)),
        ensures
            match (r, regex_captures_from_pos(self@, hay@, start_offset(start))) {
                (Ok(Some(c)), Ok(Some(g))) => {
                    &&& c.spec_matches() == g.map_values(|m: Option<(usize, usize, Seq<char>)>| match m {
                        Some(x) => Some(lua_view(x)),
                        None => None,
                    })
                    &&& forall|name: Seq<char>| #[trigger] c.name_index(name) == bind_names(
                        regex_capture_names(self@),
                        regex_capture_names(self@).len() as int,
                        name,
                    )
                },
                (Ok(None), Ok(None)) => true,
                (Err(e), Err(f)) => e@ == f,
                _ => false,
            },
    {
        let start = match start {
            Some(s) => s,
            None => 1,
        };
        match captures_from_pos(self, hay, start - 1) {
            Ok(Some(groups)) => {
                let ghost g = groups@;
                let mut c = LuaCaptures::from_raw(groups);
                let names = capture_names(self);
                c.set_names(names);
                proof {
                    assert(c.spec_matches() =~= groups_view(groups).map_values(
                        |m: Option<(usize, usize, Seq<char>)>| match m {
                            Some(x) => Some(lua_view(x)),
                            None => None,
                        },
                    ));
                }
                Ok(Some(c))
            },
            Ok(None) => Ok(None),
            Err(e) => Err(e),
        }
    }

    /// `text` with at most `limit` matches replaced by `rep`; all of them when
    /// `limit` is missing or 0.
    pub fn lua_try_replacen(&self, text: &str, rep: &str, limit: Option<usize>) -> (r: Result<String, String>)
        ensures
            outcome(r, |s: String| s@) == regex_replacen(
                self@,
                text@,
                match limit {
                    Some(l) => l,
                    None => 0,
                },
                rep@,
            ),
    {
        let limit = match limit {
            Some(l) => l,
            None => 0,
        };
        try_replacen(self, text, limit, rep)
    }

    /// The pieces of `target` between matches, at most `limit` of them when given.
    pub fn lua_splitn(&self, target: &str, limit: Option<usize>) -> (r: Result<Vec<String>, String>)
        ensures
            outcome(r, |v: Vec<String>| strings_view(v)) == match limit {
                Some(l) => regex_splitn(self@, target@, l),
                None => regex_split(self@, target@),
            },
    {
        match limit {
            Some(l) => splitn(self, target, l),
            None => split(self, target),
        }
    }
}

/// Asking for a group by its name gives what asking by its number (counted
/// from 1, as Lua does) gives.
pub proof fn law_name_and_number_agree(c: LuaCaptures, name: Seq<char>, i: usize)
    requires
        c.name_index(name) == Some(i),
        i < usize::MAX,
    ensures
        c.group_named(name) == c.group_at((i + 1) as usize),
{
}

} // verus!
