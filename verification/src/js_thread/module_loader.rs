//! Naming the modules that a script imports: `jsr:` and `npm:` specifiers
//! become `https` addresses, and the kind of a module is told from its
//! address or from the content type it came with.

use vstd::prelude::*;

use crate::text::{
    all_digits, append_chars, chars_of, find_first, find_last, index_of, join, last_index_of,
    lemma_last_index_of, only_digits, same_text, slice_of, split, split_at_each, starts_with,
    string_of, strip_all, trim, trimmed, without_leading,
};
use crate::ui::widget_manager::option_name;

verus! {

/// Whether `segment` looks like a version: before its first hyphen it holds
/// three runs of digits with a point between one and the next.
pub open spec fn version_like(segment: Seq<char>) -> bool {
    let core = segment.take(index_of(segment, '-'));
    let parts = split(core, '.');
    parts.len() == 3 && all_digits(parts[0]) && all_digits(parts[1]) && all_digits(parts[2])
}

/// Whether `segment` looks like a version.
pub fn is_version_like(segment: &str) -> (yes: bool)
    ensures
        yes == version_like(segment@),
{
    let chars = chars_of(segment);
    let hyphen = find_first(&chars, '-');
    let core = slice_of(&chars, 0, hyphen);
    assert(core@ =~= segment@.take(index_of(segment@, '-')));
    let parts = split_at_each(&core, '.');
    parts.len() == 3 && only_digits(&parts[0]) && only_digits(&parts[1]) && only_digits(&parts[2])
}

/// The part of `segment` before its last `@`, or all of it where it has none.
pub open spec fn name_part(segment: Seq<char>) -> Seq<char> {
    if last_index_of(segment, '@') >= 0 {
        segment.take(last_index_of(segment, '@'))
    } else {
        segment
    }
}

/// The part of `segment` behind its last `@`, if it has one.
pub open spec fn version_part(segment: Seq<char>) -> Option<Seq<char>> {
    if last_index_of(segment, '@') >= 0 {
        Some(segment.skip(last_index_of(segment, '@') + 1))
    } else {
        None
    }
}

/// Cuts `segment` at its last `@` into a name and a version.
fn name_and_version(segment: &Vec<char>) -> (parts: (Vec<char>, Option<Vec<char>>))
    ensures
        parts.0@ == name_part(segment@),
        match parts.1 {
            Some(version) => version_part(segment@) == Some(version@),
            None => version_part(segment@) is None,
        },
{
    proof {
        lemma_last_index_of(segment@, '@');
    }
    match find_last(segment, '@') {
        Some(at) => {
            let name = slice_of(segment, 0, at);
            let version = slice_of(segment, at + 1, segment.len());
            assert(name@ =~= segment@.take(at as int));
            assert(version@ =~= segment@.skip(at + 1));
            (name, Some(version))
        },
        None => {
            let name = slice_of(segment, 0, segment.len());
            assert(name@ =~= segment@);
            (name, None)
        },
    }
}

/// The scope, the package, the version and the path inside the package that
/// the path `path` of a `jsr.io` address names: `/@scope/package@version/..`.
/// `None` where the path has no two segments, the first does not start
/// with `@`, or the package has no name.
pub open spec fn jsr_path(path: Seq<char>) -> Option<
    (Seq<char>, Seq<char>, Option<Seq<char>>, Option<Seq<char>>),
> {
    let segments = split(strip_all(path, seq!['/']), '/');
    if segments.len() < 2 {
        None
    } else if !(segments[0].len() > 0 && segments[0][0] == '@') {
        None
    } else if name_part(segments[1]).len() == 0 {
        None
    } else {
        Some(
            (
                segments[0],
                name_part(segments[1]),
                version_part(segments[1]),
                if segments.len() > 2 {
                    Some(join(segments.skip(2), '/'))
                } else {
                    None
                },
            ),
        )
    }
}

/// The values of the four parts of a `jsr.io` path.
pub open spec fn jsr_path_view(parts: Option<(String, String, Option<String>, Option<String>)>)
    -> Option<(Seq<char>, Seq<char>, Option<Seq<char>>, Option<Seq<char>>)> {
    match parts {
        Some((scope, package, version, subpath)) => Some(
            (scope@, package@, option_name(version), option_name(subpath)),
        ),
        None => None,
    }
}

/// The pieces from `from` on, joined with `sep`.
fn join_from(pieces: &Vec<Vec<char>>, from: usize, sep: char) -> (text: String)
    requires
        from <= pieces.len(),
    ensures
        text@ == join(Seq::new(pieces@.len(), |i: int| pieces@[i]@).skip(from as int), sep),
{
    let ghost all = Seq::new(pieces@.len(), |i: int| pieces@[i]@);
    let mut text = String::new();
    let mut i: usize = from;
    assert(all.skip(from as int).take(0) =~= Seq::<Seq<char>>::empty());
    while i < pieces.len()
        invariant
            from <= i <= pieces.len(),
            all == Seq::new(pieces@.len(), |k: int| pieces@[k]@),
            text@ == join(all.skip(from as int).take(i - from), sep),
        decreases pieces.len() - i,
    {
        let ghost done = all.skip(from as int).take(i - from);
        let ghost next = all.skip(from as int).take(i - from + 1);
        proof {
            assert(next.drop_last() =~= done);
            assert(next.last() == pieces@[i as int]@);
        }
        if i > from {
            text.push(sep);
        }
        append_chars(&mut text, &pieces[i]);
        i += 1;
        assert(text@ =~= join(next, sep));
    }
    assert(all.skip(from as int).take(pieces.len() - from) =~= all.skip(from as int));
    text
}

/// Reads the path of a `jsr.io` address: the scope, the package, the
/// version where one is given, and the path inside the package where there
/// is one.
pub fn parse_jsr_path(path: &str) -> (parts: Option<
    (String, String, Option<String>, Option<String>),
>)
    ensures
        jsr_path_view(parts) == jsr_path(path@),
{
    let chars = chars_of(path);
    let mut slash: Vec<char> = Vec::new();
    slash.push('/');
    assert(slash@ =~= seq!['/']);
    let trimmed = without_leading(&chars, &slash);
    let segments = split_at_each(&trimmed, '/');
    let ghost all = split(strip_all(path@, seq!['/']), '/');
    if segments.len() < 2 {
        return None;
    }
    if !(segments[0].len() > 0 && segments[0][0] == '@') {
        return None;
    }
    let (package, version) = name_and_version(&segments[1]);
    if package.len() == 0 {
        return None;
    }
    let subpath = if segments.len() > 2 {
        assert(Seq::new(segments@.len(), |i: int| segments@[i]@) =~= all);
        Some(join_from(&segments, 2, '/'))
    } else {
        None
    };
    let version = match version {
        Some(v) => Some(string_of(&v)),
        None => None,
    };
    Some((string_of(&segments[0]), string_of(&package), version, subpath))
}

/// Why a `jsr:` specifier names no package.
#[derive(Debug, Clone, Copy, PartialEq, Eq, Structural)]
pub enum JsrError {
    /// The specifier does not start with `jsr:`.
    NotJsr,
    /// No `@scope` stands behind `jsr:`.
    MissingScope,
    /// No package stands behind the scope.
    MissingPackage,
    /// The package has no name before its version.
    MissingPackageName,
}

impl JsrError {
    /// What is wrong, in words.
    pub fn message(&self) -> (text: String)
        ensures
            text@ == match *self {
                JsrError::NotJsr => "Not a jsr: specifier"@,
                JsrError::MissingScope => "jsr: specifier must start with @scope/package"@,
                JsrError::MissingPackage => "jsr: specifier must be @scope/package"@,
                JsrError::MissingPackageName => "jsr: specifier missing package name"@,
            },
    {
        match self {
            JsrError::NotJsr => "Not a jsr: specifier".to_owned(),
            JsrError::MissingScope => "jsr: specifier must start with @scope/package".to_owned(),
            JsrError::MissingPackage => "jsr: specifier must be @scope/package".to_owned(),
            JsrError::MissingPackageName => "jsr: specifier missing package name".to_owned(),
        }
    }
}

/// The part of `s` behind its first `c`; empty where it has none.
pub open spec fn after_first(s: Seq<char>, c: char) -> Seq<char> {
    if index_of(s, c) < s.len() {
        s.skip(index_of(s, c) + 1)
    } else {
        Seq::empty()
    }
}

/// `sep` and `part`, or nothing where `part` is empty.
pub open spec fn optional_part(sep: char, part: Seq<char>) -> Seq<char> {
    if part.len() > 0 {
        seq![sep] + part
    } else {
        Seq::empty()
    }
}

/// The `jsr.io` address for scope, package, version and path inside the
/// package; an empty version or path is left out.
pub open spec fn jsr_address(
    scope: Seq<char>,
    package: Seq<char>,
    version: Seq<char>,
    subpath: Seq<char>,
) -> Seq<char> {
    "https://jsr.io/"@ + scope + seq!['/'] + package + optional_part('@', version) + optional_part(
        '/',
        subpath,
    )
}

/// The `https` address that the specifier `jsr:@scope/package@version/path`
/// stands for, with the version and the path where they are given, or why
/// the specifier stands for none.
pub open spec fn jsr_url(specifier: Seq<char>) -> Result<Seq<char>, JsrError> {
    let rest = strip_all(specifier.skip("jsr:"@.len() as int), seq!['/']);
    let scope = rest.take(index_of(rest, '/'));
    let after_scope = after_first(rest, '/');
    let package_and_version = after_scope.take(index_of(after_scope, '/'));
    if !"jsr:"@.is_prefix_of(specifier) {
        Err(JsrError::NotJsr)
    } else if !(rest.len() > 0 && rest[0] == '@') {
        Err(JsrError::MissingScope)
    } else if after_scope.len() == 0 {
        Err(JsrError::MissingPackage)
    } else if name_part(package_and_version).len() == 0 {
        Err(JsrError::MissingPackageName)
    } else {
        Ok(
            jsr_address(
                scope,
                name_part(package_and_version),
                match version_part(package_and_version) {
                    Some(v) => v,
                    None => Seq::empty(),
                },
                after_first(after_scope, '/'),
            ),
        )
    }
}

/// Appends `sep` and `part` to `out`, or nothing where `part` is empty.
fn append_optional(out: &mut String, sep: char, part: &Vec<char>)
    ensures
        final(out)@ == old(out)@ + optional_part(sep, part@),
{
    if part.len() > 0 {
        out.push(sep);
        append_chars(out, part);
        assert(out@ =~= old(out)@ + optional_part(sep, part@));
    } else {
        assert(old(out)@ + Seq::<char>::empty() =~= old(out)@);
    }
}

/// The part of `v` behind its first `c`; empty where it has none.
fn rest_after_first(v: &Vec<char>, c: char) -> (rest: Vec<char>)
    ensures
        rest@ == after_first(v@, c),
{
    let at = find_first(v, c);
    if at < v.len() {
        let rest = slice_of(v, at + 1, v.len());
        assert(rest@ =~= v@.skip(at + 1));
        rest
    } else {
        Vec::new()
    }
}

/// The part of `v` before its first `c`; all of it where it has none.
fn part_before_first(v: &Vec<char>, c: char) -> (part: Vec<char>)
    ensures
        part@ == v@.take(index_of(v@, c)),
{
    let at = find_first(v, c);
    let part = slice_of(v, 0, at);
    assert(part@ =~= v@.take(at as int));
    part
}

/// Resolves a `jsr:` specifier to the text of its `https` address on
/// `jsr.io`.
pub fn resolve_jsr_specifier(specifier: &str) -> (url: Result<String, JsrError>)
    ensures
        match url {
            Ok(text) => jsr_url(specifier@) == Ok::<Seq<char>, JsrError>(text@),
            Err(e) => jsr_url(specifier@) == Err::<Seq<char>, JsrError>(e),
        },
{
    let chars = chars_of(specifier);
    let word = chars_of("jsr:");
    if !starts_with(&chars, &word) {
        return Err(JsrError::NotJsr);
    }
    let behind = slice_of(&chars, word.len(), chars.len());
    assert(behind@ =~= specifier@.skip("jsr:"@.len() as int));
    let mut slash: Vec<char> = Vec::new();
    slash.push('/');
    assert(slash@ =~= seq!['/']);
    let rest = without_leading(&behind, &slash);
    if !(rest.len() > 0 && rest[0] == '@') {
        return Err(JsrError::MissingScope);
    }
    let scope = part_before_first(&rest, '/');
    let after_scope = rest_after_first(&rest, '/');
    if after_scope.len() == 0 {
        return Err(JsrError::MissingPackage);
    }
    let package_and_version = part_before_first(&after_scope, '/');
    let subpath = rest_after_first(&after_scope, '/');
    let (package, version) = name_and_version(&package_and_version);
    if package.len() == 0 {
        return Err(JsrError::MissingPackageName);
    }
    let version = match version {
        Some(v) => v,
        None => Vec::new(),
    };
    let mut text = "https://jsr.io/".to_owned();
    append_chars(&mut text, &scope);
    text.push('/');
    append_chars(&mut text, &package);
    append_optional(&mut text, '@', &version);
    append_optional(&mut text, '/', &subpath);
    assert(text@ =~= jsr_address(scope@, package@, version@, subpath@));
    Ok(text)
}

/// The `https` address on `esm.sh` that the specifier `npm:package` stands
/// for; `None` where the specifier does not start with `npm:`.
pub open spec fn npm_url(specifier: Seq<char>) -> Option<Seq<char>> {
    if "npm:"@.is_prefix_of(specifier) {
        Some("https://esm.sh/"@ + specifier.skip("npm:"@.len() as int))
    } else {
        None
    }
}

/// Resolves an `npm:` specifier to the text of its `https` address on
/// `esm.sh`.
pub fn resolve_npm_specifier(specifier: &str) -> (url: Option<String>)
    ensures
        option_name(url) == npm_url(specifier@),
{
    let chars = chars_of(specifier);
    let word = chars_of("npm:");
    if !starts_with(&chars, &word) {
        return None;
    }
    let rest = slice_of(&chars, word.len(), chars.len());
    assert(rest@ =~= specifier@.skip("npm:"@.len() as int));
    let mut text = "https://esm.sh/".to_owned();
    append_chars(&mut text, &rest);
    Some(text)
}

/// Whether an address with the scheme `scheme`, the host `host` and the path
/// `path` names a package on `jsr.io` rather than a file of one: it is an
/// `https` address of `jsr.io` whose path starts with a scope and a package
/// and does not go on with a version.
pub open spec fn jsr_package_entry(
    scheme: Seq<char>,
    host: Option<Seq<char>>,
    path: Seq<char>,
) -> bool {
    let segments = split(strip_all(path, seq!['/']), '/');
    &&& scheme == "https"@
    &&& host == Some("jsr.io"@)
    &&& segments.len() >= 2
    &&& segments[0].len() > 0 && segments[0][0] == '@'
    &&& !(segments.len() >= 3 && version_like(segments[2]))
}

/// Whether an address names a package on `jsr.io` rather than a file of one.
pub fn is_jsr_package_entry_url(scheme: &str, host: Option<&str>, path: &str) -> (yes: bool)
    ensures
        yes == jsr_package_entry(
            scheme@,
            match host {
                Some(h) => Some(h@),
                None => None,
            },
            path@,
        ),
{
    if !same_text(scheme, "https") {
        return false;
    }
    match host {
        Some(h) => {
            if !same_text(h, "jsr.io") {
                return false;
            }
        },
        None => {
            return false;
        },
    }
    let chars = chars_of(path);
    let mut slash: Vec<char> = Vec::new();
    slash.push('/');
    assert(slash@ =~= seq!['/']);
    let trimmed = without_leading(&chars, &slash);
    let segments = split_at_each(&trimmed, '/');
    if segments.len() < 2 {
        return false;
    }
    if !(segments[0].len() > 0 && segments[0][0] == '@') {
        return false;
    }
    if segments.len() >= 3 && is_version_like(string_of(&segments[2]).as_str()) {
        return false;
    }
    true
}

/// The kind of source that a module holds.
#[derive(Debug, Clone, Copy, PartialEq, Eq, Structural)]
pub enum MediaType {
    JavaScript,
    Jsx,
    Mjs,
    Cjs,
    TypeScript,
    Mts,
    Cts,
    Dts,
    Dmts,
    Dcts,
    Tsx,
    Css,
    Json,
    Html,
    Sql,
    Wasm,
    SourceMap,
    Unknown,
}

/// How the engine takes a module in.
#[derive(Debug, Clone, Copy, PartialEq, Eq, Structural)]
pub enum ModuleType {
    JavaScript,
    Json,
}

/// The part of `path` behind its last point; all of it where it has none.
pub open spec fn extension_of(path: Seq<char>) -> Seq<char> {
    path.skip(last_index_of(path, '.') + 1)
}

/// The kind that the address tells: by the extension of its path, and for
/// an `http` or `https` address without a telling extension TypeScript.
pub open spec fn media_type_of(path: Seq<char>, scheme: Seq<char>) -> MediaType {
    let ext = extension_of(path);
    if ext == "ts"@ || ext == "mts"@ || ext == "cts"@ {
        MediaType::TypeScript
    } else if ext == "tsx"@ {
        MediaType::Tsx
    } else if ext == "js"@ || ext == "mjs"@ || ext == "cjs"@ {
        MediaType::JavaScript
    } else if ext == "jsx"@ {
        MediaType::Jsx
    } else if ext == "json"@ {
        MediaType::Json
    } else if scheme == "https"@ || scheme == "http"@ {
        MediaType::TypeScript
    } else {
        MediaType::Unknown
    }
}

/// The kind of the module at an address with the path `path` and the scheme
/// `scheme`.
pub fn media_type_from_specifier(path: &str, scheme: &str) -> (kind: MediaType)
    ensures
        kind == media_type_of(path@, scheme@),
{
    let chars = chars_of(path);
    proof {
        lemma_last_index_of(chars@, '.');
    }
    let from = match find_last(&chars, '.') {
        Some(at) => at + 1,
        None => 0,
    };
    let tail = slice_of(&chars, from, chars.len());
    assert(tail@ =~= extension_of(path@));
    let ext = string_of(&tail);
    let ext = ext.as_str();
    if same_text(ext, "ts") || same_text(ext, "mts") || same_text(ext, "cts") {
        MediaType::TypeScript
    } else if same_text(ext, "tsx") {
        MediaType::Tsx
    } else if same_text(ext, "js") || same_text(ext, "mjs") || same_text(ext, "cjs") {
        MediaType::JavaScript
    } else if same_text(ext, "jsx") {
        MediaType::Jsx
    } else if same_text(ext, "json") {
        MediaType::Json
    } else if same_text(scheme, "https") || same_text(scheme, "http") {
        MediaType::TypeScript
    } else {
        MediaType::Unknown
    }
}

/// The kind that the content type `content_type` tells: by what stands
/// before its first semicolon, without the white space around it; where that
/// tells nothing, by the address.
pub open spec fn media_type_of_content(
    content_type: Seq<char>,
    path: Seq<char>,
    scheme: Seq<char>,
) -> MediaType {
    let ct = trim(content_type.take(index_of(content_type, ';')));
    if ct == "application/typescript"@ || ct == "text/typescript"@ {
        MediaType::TypeScript
    } else if ct == "application/javascript"@ || ct == "text/javascript"@ || ct
        == "application/x-javascript"@ {
        MediaType::JavaScript
    } else if ct == "application/json"@ || ct == "text/json"@ {
        MediaType::Json
    } else if ct == "text/tsx"@ {
        MediaType::Tsx
    } else if ct == "text/jsx"@ {
        MediaType::Jsx
    } else {
        media_type_of(path, scheme)
    }
}

/// The kind of the module that came with the content type `content_type`
/// from an address with the path `path` and the scheme `scheme`.
pub fn media_type_from_content_type(content_type: &str, path: &str, scheme: &str) -> (kind:
    MediaType)
    ensures
        kind == media_type_of_content(content_type@, path@, scheme@),
{
    let chars = chars_of(content_type);
    let first = part_before_first(&chars, ';');
    let ct = string_of(&trimmed(&first));
    let ct = ct.as_str();
    if same_text(ct, "application/typescript") || same_text(ct, "text/typescript") {
        MediaType::TypeScript
    } else if same_text(ct, "application/javascript") || same_text(ct, "text/javascript")
        || same_text(ct, "application/x-javascript") {
        MediaType::JavaScript
    } else if same_text(ct, "application/json") || same_text(ct, "text/json") {
        MediaType::Json
    } else if same_text(ct, "text/tsx") {
        MediaType::Tsx
    } else if same_text(ct, "text/jsx") {
        MediaType::Jsx
    } else {
        media_type_from_specifier(path, scheme)
    }
}

/// How a module of the kind `kind` is taken in, and whether its source is
/// transpiled first: JavaScript as it is, JSX and every TypeScript kind
/// after transpiling, JSON as JSON. Any other kind is taken as JavaScript
/// where the module is remote, and is not taken at all where it is local.
pub open spec fn module_plan(kind: MediaType, remote: bool) -> Option<(ModuleType, bool)> {
    match kind {
        MediaType::JavaScript | MediaType::Mjs | MediaType::Cjs => Some(
            (ModuleType::JavaScript, false),
        ),
        MediaType::Jsx => Some((ModuleType::JavaScript, true)),
        MediaType::TypeScript | MediaType::Mts | MediaType::Cts | MediaType::Dts | MediaType::Dmts
        | MediaType::Dcts | MediaType::Tsx => Some((ModuleType::JavaScript, true)),
        MediaType::Json => Some((ModuleType::Json, false)),
        _ => if remote {
            Some((ModuleType::JavaScript, false))
        } else {
            None
        },
    }
}

/// How a module of the kind `kind` is taken in, and whether its source is
/// transpiled first.
pub fn plan_module(kind: MediaType, remote: bool) -> (plan: Option<(ModuleType, bool)>)
    ensures
        plan == module_plan(kind, remote),
{
    match kind {
        MediaType::JavaScript | MediaType::Mjs | MediaType::Cjs => Some(
            (ModuleType::JavaScript, false),
        ),
        MediaType::Jsx => Some((ModuleType::JavaScript, true)),
        MediaType::TypeScript | MediaType::Mts | MediaType::Cts | MediaType::Dts | MediaType::Dmts
        | MediaType::Dcts | MediaType::Tsx => Some((ModuleType::JavaScript, true)),
        MediaType::Json => Some((ModuleType::Json, false)),
        _ => if remote {
            Some((ModuleType::JavaScript, false))
        } else {
            None
        },
    }
}

/// How a specifier is resolved.
#[derive(Debug, Clone, Copy, PartialEq, Eq, Structural)]
pub enum Resolution {
    /// An `npm:` specifier: through `esm.sh`.
    Npm,
    /// A `jsr:` specifier: through `jsr.io`.
    Jsr,
    /// An `http` or `https` address: as it is.
    Address,
    /// Anything else: as an import relative to the referrer.
    Import,
}

/// How the specifier `specifier` is resolved: by what it starts with.
pub open spec fn resolution_of(specifier: Seq<char>) -> Resolution {
    if "npm:"@.is_prefix_of(specifier) {
        Resolution::Npm
    } else if "jsr:"@.is_prefix_of(specifier) {
        Resolution::Jsr
    } else if "https://"@.is_prefix_of(specifier) || "http://"@.is_prefix_of(specifier) {
        Resolution::Address
    } else {
        Resolution::Import
    }
}

/// How the specifier `specifier` is resolved.
pub fn resolution_for(specifier: &str) -> (how: Resolution)
    ensures
        how == resolution_of(specifier@),
{
    let chars = chars_of(specifier);
    if starts_with(&chars, &chars_of("npm:")) {
        Resolution::Npm
    } else if starts_with(&chars, &chars_of("jsr:")) {
        Resolution::Jsr
    } else if starts_with(&chars, &chars_of("https://")) || starts_with(
        &chars,
        &chars_of("http://"),
    ) {
        Resolution::Address
    } else {
        Resolution::Import
    }
}

/// The address of the description of the package `scope/package`.
pub open spec fn package_meta_address(scope: Seq<char>, package: Seq<char>) -> Seq<char> {
    "https://jsr.io/"@ + scope + seq!['/'] + package + "/meta.json"@
}

/// The address of the description of the version `version` of the package
/// `scope/package`.
pub open spec fn version_meta_address(
    scope: Seq<char>,
    package: Seq<char>,
    version: Seq<char>,
) -> Seq<char> {
    "https://jsr.io/"@ + scope + seq!['/'] + package + seq!['/'] + version + "_meta.json"@
}

/// The key under which a package lists what it exports for the path
/// `subpath` inside it: `.` for the package itself.
pub open spec fn export_key_of(subpath: Option<Seq<char>>) -> Seq<char> {
    match subpath {
        Some(path) => if path.len() > 0 {
            "./"@ + path
        } else {
            "."@
        },
        None => "."@,
    }
}

/// The address of the module that the package exports as `target`: the
/// target is taken relative to the version's directory.
pub open spec fn module_address(
    scope: Seq<char>,
    package: Seq<char>,
    version: Seq<char>,
    target: Seq<char>,
) -> Seq<char> {
    "https://jsr.io/"@ + scope + seq!['/'] + package + seq!['/'] + version + seq!['/'] + strip_all(
        strip_all(target, "./"@),
        seq!['/'],
    )
}

/// The address of the description of the package `scope/package`.
pub fn jsr_package_meta_url(scope: &str, package: &str) -> (url: String)
    ensures
        url@ == package_meta_address(scope@, package@),
{
    let mut url = "https://jsr.io/".to_owned();
    url.append(scope);
    url.push('/');
    url.append(package);
    url.append("/meta.json");
    assert(url@ =~= package_meta_address(scope@, package@));
    url
}

/// The address of the description of the version `version` of the package
/// `scope/package`.
pub fn jsr_version_meta_url(scope: &str, package: &str, version: &str) -> (url: String)
    ensures
        url@ == version_meta_address(scope@, package@, version@),
{
    let mut url = "https://jsr.io/".to_owned();
    url.append(scope);
    url.push('/');
    url.append(package);
    url.push('/');
    url.append(version);
    url.append("_meta.json");
    assert(url@ =~= version_meta_address(scope@, package@, version@));
    url
}

/// The version to load: the one the address asks for, else the latest that
/// the package names.
pub fn jsr_version(requested: Option<String>, latest: Option<String>) -> (version: Option<String>)
    ensures
        version == match requested {
            Some(v) => Some(v),
            None => latest,
        },
{
    match requested {
        Some(v) => Some(v),
        None => latest,
    }
}

/// The key under which a package lists what it exports for the path
/// `subpath` inside it.
pub fn jsr_export_key(subpath: &Option<String>) -> (key: String)
    ensures
        key@ == export_key_of(option_name(*subpath)),
{
    match subpath {
        Some(path) => {
            if chars_of(path.as_str()).len() > 0 {
                let mut key = "./".to_owned();
                key.append(path.as_str());
                key
            } else {
                ".".to_owned()
            }
        },
        None => ".".to_owned(),
    }
}

/// The address of the module that the package exports as `target`.
pub fn jsr_module_url(scope: &str, package: &str, version: &str, target: &str) -> (url: String)
    ensures
        url@ == module_address(scope@, package@, version@, target@),
{
    let mut slash: Vec<char> = Vec::new();
    slash.push('/');
    assert(slash@ =~= seq!['/']);
    let relative = without_leading(&without_leading(&chars_of(target), &chars_of("./")), &slash);
    let mut url = "https://jsr.io/".to_owned();
    url.append(scope);
    url.push('/');
    url.append(package);
    url.push('/');
    url.append(version);
    url.push('/');
    append_chars(&mut url, &relative);
    assert(url@ =~= module_address(scope@, package@, version@, target@));
    url
}

} // verus!
