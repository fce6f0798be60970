//! A file-system path held as text, edited the way `std::path::PathBuf`
//! edits it. How a path is split into components depends on the platform,
//! so the contracts state only what holds on every platform.
use vstd::prelude::*;

verus! {

/// A path, as the text it is written with.
#[derive(Clone, Debug)]
pub struct LuaPath {
    pub text: String,
}

/// A path component written only with ASCII letters, digits, `.`, `_` and
/// `-`: it holds no separator, root or prefix on any platform.
pub open spec fn plain_name(s: Seq<char>) -> bool {
    &&& s.len() > 0
    &&& forall|i: int|
        0 <= i < s.len() ==> {
            let c = #[trigger] s[i];
            ('a' <= c <= 'z') || ('A' <= c <= 'Z') || ('0' <= c <= '9') || c == '.' || c == '_' || c == '-'
        }
}

/// A plain name other than `.`, which path parsing keeps as a component
/// of its own wherever it stands.
pub open spec fn plain_component(s: Seq<char>) -> bool {
    plain_name(s) && s != seq!['.']
}

/// A path written only with the characters of plain names and `/`, not
/// starting with `//`: it has no prefix on any platform (no drive letter,
/// no UNC or verbatim prefix).
pub open spec fn unprefixed(s: Seq<char>) -> bool {
    &&& forall|i: int|
        0 <= i < s.len() ==> {
            let c = #[trigger] s[i];
            c == '/' || ('a' <= c <= 'z') || ('A' <= c <= 'Z') || ('0' <= c <= '9') || c == '.' || c == '_' || c == '-'
        }
    &&& !(s.len() >= 2 && s[0] == '/' && s[1] == '/')
}

/// The position of the last `/` in `t`, or -1 when it has none.
pub open spec fn last_slash(t: Seq<char>) -> int
    decreases t.len(),
{
    if t.len() == 0 {
        -1
    } else if t.last() == '/' {
        t.len() - 1
    } else {
        last_slash(t.drop_last())
    }
}

/// `last_slash` is -1 or the position of a `/`.
pub proof fn lemma_last_slash(t: Seq<char>)
    ensures
        -1 <= last_slash(t) < t.len(),
        last_slash(t) >= 0 ==> t[last_slash(t)] == '/',
    decreases t.len(),
{
    if t.len() > 0 && t.last() != '/' {
        lemma_last_slash(t.drop_last());
    }
}

/// Plain components joined by single `/`s: a relative path that reads the
/// same on every platform.
pub open spec fn plain_relative(t: Seq<char>) -> bool
    decreases t.len(),
{
    let k = last_slash(t);
    if k < 0 {
        plain_component(t)
    } else {
        proof {
            lemma_last_slash(t);
        }
        plain_component(t.subrange(k + 1, t.len() as int)) && plain_relative(t.subrange(0, k))
    }
}

/// A plain relative path, or one with `/` in front of it: a path without a
/// prefix or a trailing separator, whose components are the same on every
/// platform.
pub open spec fn plain_path(t: Seq<char>) -> bool {
    plain_relative(t) || (t.len() > 0 && t[0] == '/' && plain_relative(t.drop_first()))
}

/// The text before the last component of a plain path: empty when it has
/// one component, `/` when it is `/` and one component.
pub open spec fn parent_text(t: Seq<char>) -> Seq<char> {
    let k = last_slash(t);
    if k < 0 {
        Seq::empty()
    } else if k == 0 {
        seq!['/']
    } else {
        t.subrange(0, k)
    }
}

/// The last component of a plain path.
pub open spec fn last_component(t: Seq<char>) -> Seq<char> {
    t.subrange(last_slash(t) + 1, t.len() as int)
}

/// What extending `base` by `tail` gives where the documentation of
/// `PathBuf::push` settles it on every platform: the empty path extended by
/// `tail` is `tail`; a `tail` that starts at the root replaces a `base`
/// that has no prefix; `/` extended by a plain relative path is the two
/// run together; and a plain path extended by a plain relative path is the
/// two joined by one separator.
pub open spec fn pushed_as_documented(base: Seq<char>, tail: Seq<char>, r: Seq<char>) -> bool {
    &&& base.len() == 0 ==> r == tail
    &&& unprefixed(base) && tail.len() > 0 && tail[0] == '/' ==> r == tail
    &&& base == seq!['/'] && plain_relative(tail) ==> r == base + tail
    &&& plain_path(base) && plain_relative(tail) ==> (r == base.push('/') + tail || r == base.push('\\') + tail)
}

/// `t` is a plain path and a plain relative path joined by the `/` at `i`.
pub open spec fn splits_at(t: Seq<char>, i: int) -> bool {
    &&& 0 <= i < t.len()
    &&& t[i] == '/'
    &&& plain_path(t.subrange(0, i))
    &&& plain_relative(t.subrange(i + 1, t.len() as int))
}

/// What `PathBuf::pop` gives for `t`, where its documentation settles it on
/// every platform: whether there is a parent, and the text left.
pub open spec fn documented_pop(t: Seq<char>) -> Option<(bool, Seq<char>)> {
    if t.len() == 0 || t == seq!['/'] {
        Some((false, t))
    } else if plain_name(t) {
        Some((true, Seq::empty()))
    } else if plain_path(t) {
        Some((true, parent_text(t)))
    } else {
        None
    }
}

/// Appends `tail` to `base` as `std::path::PathBuf::push` does.
///
/// Claimed, from the documentation of `push` ("extends `self` with `path`",
/// with its examples that build a path from `PathBuf::new()` and that join
/// `/tmp` and `file.bk` into `/tmp/file.bk`; "if `path` is absolute, it
/// replaces the current path", and on Windows a `path` with a root but no
/// prefix "replaces everything except for the prefix (if any) of `self`"):
/// extending the empty path gives `tail`, a `tail` that starts with `/`
/// replaces a `base` without a prefix, and extending one plain name by
/// another puts a separator between them. Not stated: the text in the other cases, and which separator
/// (`/`, or `\` on Windows) is used; both follow rules that differ between
/// platforms, so no name (which would claim the same result everywhere)
/// ties the result to the arguments either.
#[verifier::external_body]
fn pathbuf_push(base: &str, tail: &str) -> (r: String)
    ensures
        pushed_as_documented(base@, tail@, r@),
{
    let mut b = std::path::PathBuf::from(base);
    b.push(tail);
    b.to_string_lossy().into_owned()
}

/// Truncates `base` to its parent as `std::path::PathBuf::pop` does, giving
/// whether it did.
///
/// Claimed, from the documentation of `pop` and `Path::parent`: when there
/// is no parent (the empty path, and a path that ends in a root such as
/// `/`), `pop` returns `false` and leaves the path as it was; otherwise it
/// truncates the path to its parent, which for the cases `documented_pop`
/// lists (plain paths such as `foo`, `foo/bar/baz` and `/foo/bar`, the
/// forms of the documentation's own examples) is the text before the last
/// component. Not stated: the parent of other paths, which depends on the
/// platform's separators and prefixes.
#[verifier::external_body]
fn pathbuf_pop(base: &str) -> (r: (bool, String))
    ensures
        !r.0 ==> r.1@ == base@,
        documented_pop(base@) matches Some(o) ==> r.0 == o.0 && r.1@ == o.1,
{
    let mut b = std::path::PathBuf::from(base);
    let popped = b.pop();
    (popped, b.to_string_lossy().into_owned())
}

/// Calls `std::path::Path::join`, which adjoins `tail` to `base` as
/// `PathBuf::push` does (its documentation refers there); the contract
/// claims what `pushed_as_documented` states of `push`.
#[verifier::external_body]
fn path_join(base: &str, tail: &str) -> (r: String)
    ensures
        pushed_as_documented(base@, tail@, r@),
{
    std::path::Path::new(base).join(tail).to_string_lossy().into_owned()
}

/// Calls `std::path::Path::parent`, which gives the path `PathBuf::pop`
/// truncates to, and nothing where `pop` returns `false`; the contract
/// claims the cases `documented_pop` settles.
#[verifier::external_body]
fn path_parent(base: &str) -> (r: Option<String>)
    ensures
        documented_pop(base@) matches Some(o) ==> (match r {
            Some(p) => o.0 && p@ == o.1,
            None => !o.0,
        }),
{
    std::path::Path::new(base).parent().map(|p| p.to_string_lossy().into_owned())
}

/// The last component of `t` where the documentation of
/// `Path::file_name` settles it on every platform: none for the empty path
/// and for `/`, and the last component of a plain path.
pub open spec fn documented_file_name(t: Seq<char>) -> Option<Option<Seq<char>>> {
    if t.len() == 0 || t == seq!['/'] {
        Some(None)
    } else if plain_path(t) {
        Some(Some(last_component(t)))
    } else {
        None
    }
}

/// Calls `std::path::Path::file_name`; the contract claims the cases
/// `documented_file_name` settles (the documentation's examples
/// `tmp/foo.txt` and `/`, and "returns `None` if the path terminates in
/// `..`", which a plain component other than `..` does not).
#[verifier::external_body]
fn path_file_name(base: &str) -> (r: Option<String>)
    ensures
        match documented_file_name(base@) {
            Some(o) => o != Some(seq!['.', '.']) ==> match r {
                Some(n) => o == Some(n@),
                None => o is None,
            },
            None => true,
        },
{
    std::path::Path::new(base).file_name().map(|s| s.to_string_lossy().into_owned())
}

/// A plain component that names a file: any but `..`, which is a step up.
pub open spec fn plain_file(s: Seq<char>) -> bool {
    plain_component(s) && s != seq!['.', '.']
}

/// The position of the last `.` in `name`, or -1 when it has none.
pub open spec fn last_dot(name: Seq<char>) -> int
    decreases name.len(),
{
    if name.len() == 0 {
        -1
    } else if name.last() == '.' {
        name.len() - 1
    } else {
        last_dot(name.drop_last())
    }
}

/// The stem of a file name, as `Path::file_stem` documents it: the whole
/// name when it has no `.` or only a leading one, otherwise what comes
/// before the last `.`.
pub open spec fn stem_of(name: Seq<char>) -> Seq<char> {
    if last_dot(name) <= 0 {
        name
    } else {
        name.subrange(0, last_dot(name))
    }
}

/// The extension of a file name, as `Path::extension` documents it: none
/// when it has no `.` or only a leading one, otherwise what comes after the
/// last `.`.
pub open spec fn extension_of(name: Seq<char>) -> Option<Seq<char>> {
    if last_dot(name) <= 0 {
        None
    } else {
        Some(name.subrange(last_dot(name) + 1, name.len() as int))
    }
}

/// The file name of `t` where `documented_file_name` settles it and it is
/// not `..` (which `file_name` never gives): `Some(None)` when there is none.
pub open spec fn settled_file_name(t: Seq<char>) -> Option<Option<Seq<char>>> {
    match documented_file_name(t) {
        Some(o) => if o == Some(seq!['.', '.']) {
            None
        } else {
            Some(o)
        },
        None => None,
    }
}

/// An extension `PathBuf::set_extension` accepts: one without a path
/// separator (on any platform), since it panics on one.
pub open spec fn no_separator(ext: Seq<char>) -> bool {
    forall|i: int| 0 <= i < ext.len() ==> #[trigger] ext[i] != '/' && ext[i] != '\\'
}

/// `t` with the extension of its file name set to `ext`, where the
/// documentation of `set_extension` settles it: the text before the file
/// name, the stem, then `.` and `ext` unless `ext` is empty; a path without
/// a file name is left as it is.
pub open spec fn with_extension_of(t: Seq<char>, ext: Seq<char>) -> Option<Seq<char>> {
    match settled_file_name(t) {
        Some(None) => Some(t),
        Some(Some(n)) => Some(
            t.subrange(0, t.len() - n.len()) + stem_of(n) + (if ext.len() == 0 {
                Seq::<char>::empty()
            } else {
                seq!['.'] + ext
            }),
        ),
        None => None,
    }
}

/// What setting the file name of `t` to `name` gives, where the
/// documentation of `set_file_name` settles it: with no file name it pushes
/// `name`, and otherwise it pops and then pushes `name`.
pub open spec fn file_name_set_as_documented(t: Seq<char>, name: Seq<char>, r: Seq<char>) -> bool {
    match settled_file_name(t) {
        Some(None) => pushed_as_documented(t, name, r),
        Some(Some(_)) => match documented_pop(t) {
            Some((true, p)) => pushed_as_documented(p, name, r),
            _ => true,
        },
        None => true,
    }
}

/// The parent of a path other than the empty one and `/` is shorter than it.
pub proof fn lemma_parent_shorter(t: Seq<char>)
    requires
        t.len() > 0,
        t != seq!['/'],
    ensures
        parent_text(t).len() < t.len(),
{
    lemma_last_slash(t);
    if last_slash(t) == 0 && t.len() == 1 {
        assert(t =~= seq!['/']);
    }
}

/// The ancestors of `t` (itself, then each parent in turn) where the
/// documentation of `Path::ancestors` and `Path::parent` settles them: a
/// plain name, `.` among them, has the empty path as its parent, and each
/// plain path the text before its last component.
pub open spec fn documented_ancestors(t: Seq<char>) -> Option<Seq<Seq<char>>>
    decreases t.len(),
{
    if t.len() == 0 || t == seq!['/'] {
        Some(seq![t])
    } else if plain_name(t) {
        Some(seq![t, Seq::<char>::empty()])
    } else if plain_path(t) {
        proof {
            lemma_parent_shorter(t);
        }
        match documented_ancestors(parent_text(t)) {
            Some(rest) => Some(seq![t] + rest),
            None => None,
        }
    } else {
        None
    }
}

/// The components of a plain relative path: its names, in order.
pub open spec fn relative_components(t: Seq<char>) -> Seq<Seq<char>>
    decreases t.len(),
{
    let k = last_slash(t);
    if k < 0 {
        seq![t]
    } else {
        proof {
            lemma_last_slash(t);
        }
        relative_components(t.subrange(0, k)).push(t.subrange(k + 1, t.len() as int))
    }
}

/// The components of `t` where `Path::components` settles them on every
/// platform: none for the empty path, and the names of a plain relative
/// path.
pub open spec fn documented_components(t: Seq<char>) -> Option<Seq<Seq<char>>> {
    if t.len() == 0 {
        Some(Seq::empty())
    } else if plain_relative(t) {
        Some(relative_components(t))
    } else {
        None
    }
}

pub open spec fn texts(v: Seq<String>) -> Seq<Seq<char>> {
    v.map_values(|s: String| s@)
}

/// Calls `std::path::Path::file_stem`; the contract claims, from its
/// documentation, the stem of the file name wherever `settled_file_name`
/// gives the file name.
#[verifier::external_body]
fn path_file_stem(base: &str) -> (r: Option<String>)
    ensures
        settled_file_name(base@) matches Some(o) ==> (match (r, o) {
            (Some(s), Some(n)) => s@ == stem_of(n),
            (None, None) => true,
            _ => false,
        }),
{
    std::path::Path::new(base).file_stem().map(|s| s.to_string_lossy().into_owned())
}

/// Calls `std::path::Path::extension`; the contract claims, from its
/// documentation, the extension of the file name wherever
/// `settled_file_name` gives the file name.
#[verifier::external_body]
fn path_extension(base: &str) -> (r: Option<String>)
    ensures
        settled_file_name(base@) matches Some(o) ==> (match o {
            Some(n) => match (r, extension_of(n)) {
                (Some(e), Some(x)) => e@ == x,
                (None, None) => true,
                _ => false,
            },
            None => r is None,
        }),
{
    std::path::Path::new(base).extension().map(|s| s.to_string_lossy().into_owned())
}

/// Calls `std::path::Path::is_absolute`; the contract claims, from its
/// documentation, that the empty path and a plain name are not absolute.
/// Not stated: other paths, whose reading depends on the platform.
#[verifier::external_body]
fn path_is_absolute(base: &str) -> (r: bool)
    ensures
        base@.len() == 0 || plain_name(base@) ==> !r,
{
    std::path::Path::new(base).is_absolute()
}

/// Calls `std::path::Path::has_root`; the contract claims, from its
/// documentation (on Unix a path has a root when it begins with `/`; on
/// Windows when it begins with a separator), that a path starting with `/`
/// has one and that a plain name has none.
#[verifier::external_body]
fn path_has_root(base: &str) -> (r: bool)
    ensures
        base@.len() > 0 && base@[0] == '/' ==> r,
        plain_name(base@) ==> !r,
{
    std::path::Path::new(base).has_root()
}

/// The text of a successful result.
pub open spec fn ok_text(r: Result<String, String>) -> Option<Seq<char>> {
    match r {
        Ok(s) => Some(s@),
        Err(_) => None,
    }
}

/// Calls `std::path::Path::strip_prefix`, giving the error's message; the
/// contract claims, from its documentation (a path stripped of itself is
/// empty; only whole components match), the cases of plain paths: one
/// stripped of its leading components is the rest, and a plain component is
/// no prefix of another.
#[verifier::external_body]
fn path_strip_prefix(base: &str, prefix: &str) -> (r: Result<String, String>)
    ensures
        prefix@ == base@ ==> ok_text(r) == Some(Seq::<char>::empty()),
        forall|i: int|
            splits_at(base@, i) && prefix@ == base@.subrange(0, i) ==> ok_text(r) == Some(
                base@.subrange(i + 1, base@.len() as int),
            ),
        plain_component(base@) && plain_component(prefix@) && prefix@ != base@ ==> ok_text(r) is None,
{
    std::path::Path::new(base)
        .strip_prefix(prefix)
        .map(|p| p.to_string_lossy().into_owned())
        .map_err(|e| e.to_string())
}

/// Calls `std::path::Path::starts_with`; the contract claims, from its
/// documentation ("only considers whole path components to match"), that
/// every path starts with the empty path and with itself, a plain path with
/// its leading components, and that a plain component starts with another
/// one exactly when they are the same.
#[verifier::external_body]
fn path_starts_with(base: &str, prefix: &str) -> (r: bool)
    ensures
        prefix@.len() == 0 ==> r,
        prefix@ == base@ ==> r,
        forall|i: int| splits_at(base@, i) && prefix@ == base@.subrange(0, i) ==> r,
        plain_component(base@) && plain_component(prefix@) ==> (r <==> prefix@ == base@),
{
    std::path::Path::new(base).starts_with(prefix)
}

/// Calls `std::path::Path::ends_with`; the contract claims, from its
/// documentation ("only considers whole path components to match"), that
/// every path ends with itself, a plain path with its trailing components,
/// and that a plain component ends with another one exactly when they are
/// the same.
#[verifier::external_body]
fn path_ends_with(base: &str, suffix: &str) -> (r: bool)
    ensures
        suffix@ == base@ ==> r,
        forall|i: int| splits_at(base@, i) && suffix@ == base@.subrange(i + 1, base@.len() as int) ==> r,
        plain_component(base@) && plain_component(suffix@) ==> (r <==> suffix@ == base@),
{
    std::path::Path::new(base).ends_with(suffix)
}

/// Calls `std::path::Path::with_file_name`, which sets the file name of a
/// copy as `PathBuf::set_file_name` does; the contract claims
/// `file_name_set_as_documented`.
#[verifier::external_body]
fn path_with_file_name(base: &str, name: &str) -> (r: String)
    ensures
        file_name_set_as_documented(base@, name@, r@),
{
    std::path::Path::new(base).with_file_name(name).to_string_lossy().into_owned()
}

/// Calls `std::path::Path::with_extension`, which sets the extension of a
/// copy as `PathBuf::set_extension` does; the contract claims
/// `with_extension_of`. The extension must hold no path separator: as its
/// documentation says, `set_extension` panics on one.
#[verifier::external_body]
fn path_with_extension(base: &str, ext: &str) -> (r: String)
    requires
        no_separator(ext@),
    ensures
        with_extension_of(base@, ext@) matches Some(t) ==> r@ == t,
{
    std::path::Path::new(base).with_extension(ext).to_string_lossy().into_owned()
}

/// Calls `std::path::PathBuf::set_extension`, giving whether it changed the
/// path and the path that results; the contract claims, from its
/// documentation, that it returns `false` and leaves a path without a file
/// name as it was, and otherwise returns `true` with `with_extension_of`.
/// The extension must hold no path separator, on which it panics.
#[verifier::external_body]
fn pathbuf_set_extension(base: &str, ext: &str) -> (r: (bool, String))
    requires
        no_separator(ext@),
    ensures
        settled_file_name(base@) matches Some(o) ==> (r.0 <==> o is Some),
        with_extension_of(base@, ext@) matches Some(t) ==> r.1@ == t,
{
    let mut b = std::path::PathBuf::from(base);
    let changed = b.set_extension(ext);
    (changed, b.to_string_lossy().into_owned())
}

/// Calls `std::path::Path::ancestors` and collects what it yields; the
/// contract claims `documented_ancestors`.
#[verifier::external_body]
fn path_ancestors(base: &str) -> (r: Vec<String>)
    ensures
        documented_ancestors(base@) matches Some(v) ==> texts(r@) == v,
{
    std::path::Path::new(base).ancestors().map(|p| p.to_string_lossy().into_owned()).collect()
}

/// Calls `std::path::Path::components` and collects the text of each; the
/// contract claims `documented_components`.
#[verifier::external_body]
fn path_components(base: &str) -> (r: Vec<String>)
    ensures
        documented_components(base@) matches Some(v) ==> texts(r@) == v,
{
    std::path::Path::new(base).components().map(|c| c.as_os_str().to_string_lossy().into_owned()).collect()
}

impl LuaPath {
    /// The path's text.
    pub fn lua_tostring(&self) -> (r: String)
        ensures
            r@ == self.text@,
    {
        self.text.clone()
    }

    /// The empty path.
    pub fn lua_new() -> (r: Self)
        ensures
            r.text@ == Seq::<char>::empty(),
    {
        LuaPath { text: String::new() }
    }

    /// The path written by `path`.
    pub fn lua_from(path: &str) -> (r: Self)
        ensures
            r.text@ == path@,
    {
        LuaPath { text: path.to_owned() }
    }

    /// Extends the path with `path`, as `PathBuf::push` does: the empty
    /// path becomes `path`, a `path` starting with `/` replaces a path
    /// without a prefix, `/` is followed directly by a plain relative path,
    /// and a plain path extended by a plain relative path gets one separator
    /// between them; the text in other cases follows the platform's rules,
    /// which no clause states.
    pub fn lua_push(&mut self, path: &LuaPath)
        ensures
            pushed_as_documented(old(self).text@, path.text@, final(self).text@),
    {
        let joined = pathbuf_push(self.text.as_str(), path.text.as_str());
        self.text = joined;
    }

    /// Truncates the path to its parent, giving whether there was one; a
    /// path with no parent (the empty one, `/`) is left as it was, and the
    /// parent of a plain path is the text before its last component (for
    /// `foo`, `foo/bar/baz` and `/foo`: the empty path, `foo/bar` and `/`).
    pub fn lua_pop(&mut self) -> (r: bool)
        ensures
            !r ==> final(self).text@ == old(self).text@,
            documented_pop(old(self).text@) matches Some(o) ==> r == o.0 && final(self).text@ == o.1,
    {
        let (popped, rest) = pathbuf_pop(self.text.as_str());
        self.text = rest;
        popped
    }
    /// The path with `path` adjoined, as `push` would leave it.
    pub fn lua_join(&self, path: &LuaPath) -> (r: LuaPath)
        ensures
            pushed_as_documented(self.text@, path.text@, r.text@),
    {
        LuaPath { text: path_join(self.text.as_str(), path.text.as_str()) }
    }

    /// The path without its last component, if it has one: what `pop`
    /// would leave where it returns `true`.
    pub fn lua_parent(&self) -> (r: Option<LuaPath>)
        ensures
            documented_pop(self.text@) matches Some(o) ==> (match r {
                Some(p) => o.0 && p.text@ == o.1,
                None => !o.0,
            }),
    {
        match path_parent(self.text.as_str()) {
            Some(p) => Some(LuaPath { text: p }),
            None => None,
        }
    }

    /// The last component of the path, unless it is `..` or there is none.
    pub fn lua_file_name(&self) -> (r: Option<String>)
        ensures
            match documented_file_name(self.text@) {
                Some(o) => o != Some(seq!['.', '.']) ==> match r {
                    Some(n) => o == Some(n@),
                    None => o is None,
                },
                None => true,
            },
    {
        path_file_name(self.text.as_str())
    }

    /// The file name without its extension.
    pub fn lua_file_stem(&self) -> (r: Option<String>)
        ensures
            settled_file_name(self.text@) matches Some(o) ==> (match (r, o) {
                (Some(s), Some(n)) => s@ == stem_of(n),
                (None, None) => true,
                _ => false,
            }),
    {
        path_file_stem(self.text.as_str())
    }

    /// The extension of the file name.
    pub fn lua_extension(&self) -> (r: Option<String>)
        ensures
            settled_file_name(self.text@) matches Some(o) ==> (match o {
                Some(n) => match (r, extension_of(n)) {
                    (Some(e), Some(x)) => e@ == x,
                    (None, None) => true,
                    _ => false,
                },
                None => r is None,
            }),
    {
        path_extension(self.text.as_str())
    }

    /// Whether the path is absolute; the empty path and a plain name are not.
    pub fn lua_is_absolute(&self) -> (r: bool)
        ensures
            self.text@.len() == 0 || plain_name(self.text@) ==> !r,
    {
        path_is_absolute(self.text.as_str())
    }

    /// Whether the path is relative: exactly when it is not absolute.
    pub fn lua_is_relative(&self) -> (r: bool)
        ensures
            self.text@.len() == 0 || plain_name(self.text@) ==> r,
    {
        !path_is_absolute(self.text.as_str())
    }

    /// Whether the path has a root; one starting with `/` has, a plain name has not.
    pub fn lua_has_root(&self) -> (r: bool)
        ensures
            self.text@.len() > 0 && self.text@[0] == '/' ==> r,
            plain_name(self.text@) ==> !r,
    {
        path_has_root(self.text.as_str())
    }

    /// The path with `base` taken off its front, or the message of the
    /// error when `base` is not a prefix of it: a path stripped of itself is
    /// empty, a plain path stripped of its leading components is the rest
    /// (`a/b/c` stripped of `a` is `b/c`), and a plain component is not a
    /// prefix of another one.
    pub fn lua_strip_prefix(&self, base: &str) -> (r: Result<LuaPath, String>)
        ensures
            base@ == self.text@ ==> (r matches Ok(p) && p.text@.len() == 0),
            forall|i: int|
                splits_at(self.text@, i) && base@ == self.text@.subrange(0, i) ==> (r matches Ok(p) && p.text@
                    == self.text@.subrange(i + 1, self.text@.len() as int)),
            plain_component(self.text@) && plain_component(base@) && base@ != self.text@ ==> r is Err,
    {
        match path_strip_prefix(self.text.as_str(), base) {
            Ok(p) => Ok(LuaPath { text: p }),
            Err(e) => Err(e),
        }
    }

    /// Whether the path starts with the whole components of `base`: every
    /// path starts with the empty path and with itself, a plain path with its
    /// leading components, and a plain component starts with another exactly
    /// when they are the same.
    pub fn lua_starts_with(&self, base: &LuaPath) -> (r: bool)
        ensures
            base.text@.len() == 0 ==> r,
            base.text@ == self.text@ ==> r,
            forall|i: int| splits_at(self.text@, i) && base.text@ == self.text@.subrange(0, i) ==> r,
            plain_component(self.text@) && plain_component(base.text@) ==> (r <==> base.text@ == self.text@),
    {
        path_starts_with(self.text.as_str(), base.text.as_str())
    }

    /// Whether the path ends with the whole components of `child`: every
    /// path ends with itself, a plain path with its trailing components, and
    /// a plain component ends with another exactly when they are the same.
    pub fn lua_ends_with(&self, child: &LuaPath) -> (r: bool)
        ensures
            child.text@ == self.text@ ==> r,
            forall|i: int|
                splits_at(self.text@, i) && child.text@ == self.text@.subrange(i + 1, self.text@.len() as int)
                    ==> r,
            plain_component(self.text@) && plain_component(child.text@) ==> (r <==> child.text@ == self.text@),
    {
        path_ends_with(self.text.as_str(), child.text.as_str())
    }

    /// The path with its file name replaced by `file_name`: a plain file
    /// name is replaced outright, and a path without a file name gets
    /// `file_name` pushed onto it.
    pub fn lua_with_file_name(&self, file_name: &str) -> (r: LuaPath)
        ensures
            file_name_set_as_documented(self.text@, file_name@, r.text@),
    {
        LuaPath { text: path_with_file_name(self.text.as_str(), file_name) }
    }

    /// The path with the extension of its file name set to `extension`
    /// (removed when it is empty); a path without a file name is left as it
    /// is. The extension holds no path separator.
    pub fn lua_with_extension(&self, extension: &str) -> (r: LuaPath)
        requires
            no_separator(extension@),
        ensures
            with_extension_of(self.text@, extension@) matches Some(t) ==> r.text@ == t,
    {
        LuaPath { text: path_with_extension(self.text.as_str(), extension) }
    }

    /// Replaces the file name by `file_name`, as `with_file_name` gives it.
    pub fn lua_set_file_name(&mut self, file_name: &str)
        ensures
            file_name_set_as_documented(old(self).text@, file_name@, final(self).text@),
    {
        let next = path_with_file_name(self.text.as_str(), file_name);
        self.text = next;
    }

    /// Sets the extension of the file name to `extension`, giving whether
    /// the path has a file name to change; a path without one is left as it
    /// was. The extension holds no path separator.
    pub fn lua_set_extension(&mut self, extension: &str) -> (r: bool)
        requires
            no_separator(extension@),
        ensures
            settled_file_name(old(self).text@) matches Some(o) ==> (r <==> o is Some),
            with_extension_of(old(self).text@, extension@) matches Some(t) ==> final(self).text@ == t,
    {
        let (changed, next) = pathbuf_set_extension(self.text.as_str(), extension);
        self.text = next;
        changed
    }

    /// Paths with the given texts, in order.
    fn paths_of(names: Vec<String>) -> (r: Vec<LuaPath>)
        ensures
            r.len() == names.len(),
            forall|i: int| 0 <= i < r.len() ==> (#[trigger] r@[i]).text@ == names@[i]@,
    {
        let mut out: Vec<LuaPath> = Vec::new();
        let mut i: usize = 0;
        while i < names.len()
            invariant
                i <= names.len(),
                out.len() == i,
                forall|j: int| 0 <= j < i ==> (#[trigger] out@[j]).text@ == names@[j]@,
            decreases names.len() - i,
        {
            out.push(LuaPath { text: names[i].clone() });
            i = i + 1;
        }
        out
    }

    /// The path and each of its parents in turn: `[name, ""]` for a plain
    /// name, `[a/b/c, a/b, a, ""]` and `[/a/b, /a, /]` for plain paths.
    pub fn lua_ancestors(&self) -> (r: Vec<LuaPath>)
        ensures
            documented_ancestors(self.text@) matches Some(v) ==> (r.len() == v.len() && forall|i: int|
                0 <= i < r.len() ==> (#[trigger] r@[i]).text@ == v[i]),
    {
        let names = path_ancestors(self.text.as_str());
        let ghost nv = names@;
        let out = Self::paths_of(names);
        proof {
            assert forall|i: int| 0 <= i < out.len() implies (#[trigger] out@[i]).text@ == texts(nv)[i] by {}
        }
        out
    }

    /// The components of the path, each as a path: none for the empty path,
    /// and `[a, b, c]` for the plain relative path `a/b/c`.
    pub fn lua_components(&self) -> (r: Vec<LuaPath>)
        ensures
            documented_components(self.text@) matches Some(v) ==> (r.len() == v.len() && forall|i: int|
                0 <= i < r.len() ==> (#[trigger] r@[i]).text@ == v[i]),
    {
        let names = path_components(self.text.as_str());
        let ghost nv = names@;
        let out = Self::paths_of(names);
        proof {
            assert forall|i: int| 0 <= i < out.len() implies (#[trigger] out@[i]).text@ == texts(nv)[i] by {}
        }
        out
    }
}

} // verus!
