//! The per-plugin manifest: a JSON object whose required member `name` is a
//! non-empty string. The grammar is stated by spec functions over character
//! sequences and the executable parser is proved to follow it exactly.
//!
//! The object's other members may be strings or bare scalar tokens (numbers,
//! `true`, `false`, `null`); string escapes are the single-character JSON
//! escapes. A `name` member that is not a string rejects the manifest.

use vstd::prelude::*;
use vstd::string::StringExecFns;
use crate::errors::PluginError;
use crate::text::push_char;

verus! {

/// A parsed manifest: the plugin's non-empty name, from which both the
/// module filename and the registry key are derived.
pub struct PluginManifest {
    pub name: String,
}

/// The platform whose dynamic-library naming convention applies.
#[derive(Clone, Copy, Debug, PartialEq, Eq, Structural)]
pub enum Platform {
    Windows,
    MacOs,
    Linux,
}

/// JSON insignificant whitespace.
pub open spec fn is_json_ws(c: char) -> bool {
    c == ' ' || c == '\n' || c == '\r' || c == '\t'
}

/// First position at or after `i` holding no whitespace.
pub open spec fn skip_ws(s: Seq<char>, i: int) -> int
    decreases s.len() - i
        when 0 <= i <= s.len()
{
    if i < s.len() && is_json_ws(s[i]) {
        skip_ws(s, i + 1)
    } else {
        i
    }
}

pub proof fn lemma_skip_ws_bounds(s: Seq<char>, i: int)
    requires
        0 <= i <= s.len(),
    ensures
        i <= skip_ws(s, i) <= s.len(),
    decreases s.len() - i,
{
    if i < s.len() && is_json_ws(s[i]) {
        lemma_skip_ws_bounds(s, i + 1);
    }
}

/// The character a single-character JSON escape stands for, if any.
pub open spec fn unescape(c: char) -> Option<char> {
    if c == '"' {
        Some('"')
    } else if c == '\\' {
        Some('\\')
    } else if c == '/' {
        Some('/')
    } else if c == 'b' {
        Some('\u{0008}')
    } else if c == 'f' {
        Some('\u{000c}')
    } else if c == 'n' {
        Some('\n')
    } else if c == 'r' {
        Some('\r')
    } else if c == 't' {
        Some('\t')
    } else {
        None
    }
}

/// Decodes a JSON string body beginning at `i`, just after the opening
/// quote, onto the accumulator; yields the decoded text and the position
/// just after the closing quote. Control characters and unknown escapes
/// reject the string.
pub open spec fn parse_string_body(s: Seq<char>, i: int, acc: Seq<char>) -> Option<
    (Seq<char>, int),
>
    decreases s.len() - i
        when 0 <= i <= s.len()
{
    if i >= s.len() {
        None
    } else if s[i] == '"' {
        Some((acc, i + 1))
    } else if s[i] == '\\' {
        if i + 1 < s.len() {
            match unescape(s[i + 1]) {
                Some(c) => parse_string_body(s, i + 2, acc.push(c)),
                None => None,
            }
        } else {
            None
        }
    } else if (s[i] as u32) < 32 {
        None
    } else {
        parse_string_body(s, i + 1, acc.push(s[i]))
    }
}

pub proof fn lemma_parse_string_body_bounds(s: Seq<char>, i: int, acc: Seq<char>)
    requires
        0 <= i <= s.len(),
    ensures
        parse_string_body(s, i, acc) matches Some(r) ==> i < r.1 <= s.len(),
    decreases s.len() - i,
{
    if i < s.len() && s[i] != '"' {
        if s[i] == '\\' {
            if i + 1 < s.len() {
                match unescape(s[i + 1]) {
                    Some(c) => lemma_parse_string_body_bounds(s, i + 2, acc.push(c)),
                    None => {},
                }
            }
        } else if (s[i] as u32) < 32 {
        } else {
            lemma_parse_string_body_bounds(s, i + 1, acc.push(s[i]));
        }
    }
}

/// A character a bare scalar token (a number, `true`, `false`, `null`) may
/// hold.
pub open spec fn is_scalar_char(c: char) -> bool {
    (('0' as u32) <= (c as u32) && (c as u32) <= ('9' as u32)) || c == '-' || c == '+' || c == '.'
        || (('a' as u32) <= (c as u32) && (c as u32) <= ('z' as u32)) || c == 'E'
}

/// First position at or after `i` past a run of scalar characters.
pub open spec fn skip_scalar(s: Seq<char>, i: int) -> int
    decreases s.len() - i
        when 0 <= i <= s.len()
{
    if i < s.len() && is_scalar_char(s[i]) {
        skip_scalar(s, i + 1)
    } else {
        i
    }
}

pub proof fn lemma_skip_scalar_bounds(s: Seq<char>, i: int)
    requires
        0 <= i <= s.len(),
    ensures
        i <= skip_scalar(s, i) <= s.len(),
    decreases s.len() - i,
{
    if i < s.len() && is_scalar_char(s[i]) {
        lemma_skip_scalar_bounds(s, i + 1);
    }
}

/// Parses one member value at `i`: a string yields its decoded text, a bare
/// scalar token yields no text; anything else rejects the document. Yields
/// the position just after the value.
pub open spec fn parse_value(s: Seq<char>, i: int) -> Option<(Option<Seq<char>>, int)> {
    if 0 <= i < s.len() && s[i] == '"' {
        match parse_string_body(s, i + 1, Seq::empty()) {
            Some(r) => Some((Some(r.0), r.1)),
            None => None,
        }
    } else if 0 <= i < s.len() && is_scalar_char(s[i]) {
        Some((None, skip_scalar(s, i)))
    } else {
        None
    }
}

pub proof fn lemma_parse_value_bounds(s: Seq<char>, i: int)
    requires
        0 <= i <= s.len(),
    ensures
        parse_value(s, i) matches Some(r) ==> i < r.1 <= s.len(),
{
    if 0 <= i < s.len() && s[i] == '"' {
        lemma_parse_string_body_bounds(s, i + 1, Seq::empty());
    } else if 0 <= i < s.len() && is_scalar_char(s[i]) {
        lemma_skip_scalar_bounds(s, i + 1);
        assert(skip_scalar(s, i) == skip_scalar(s, i + 1));
    }
}

/// Parses the members of the manifest object from `i`, the position of a
/// member's opening quote, keeping the value of the `name` member once
/// seen. Yields that value and the position just after the closing brace.
/// A `name` member that is repeated, or whose value is not a string,
/// rejects the document.
pub open spec fn parse_members(s: Seq<char>, i: int, found: Option<Seq<char>>) -> Option<
    (Option<Seq<char>>, int),
>
    decreases s.len() - i
        when 0 <= i <= s.len()
        via parse_members_decreases
{
    if i < s.len() && s[i] == '"' {
        match parse_string_body(s, i + 1, Seq::empty()) {
            Some(key_r) => {
                let j1 = skip_ws(s, key_r.1);
                if j1 < s.len() && s[j1] == ':' {
                    let j2 = skip_ws(s, j1 + 1);
                    match parse_value(s, j2) {
                        Some(val_r) => {
                            if key_r.0 == "name"@ && (val_r.0 is None || found is Some) {
                                None
                            } else {
                                let found2 = if key_r.0 == "name"@ {
                                    val_r.0
                                } else {
                                    found
                                };
                                let j4 = skip_ws(s, val_r.1);
                                if j4 < s.len() && s[j4] == '}' {
                                    Some((found2, j4 + 1))
                                } else if j4 < s.len() && s[j4] == ',' {
                                    parse_members(s, skip_ws(s, j4 + 1), found2)
                                } else {
                                    None
                                }
                            }
                        },
                        None => None,
                    }
                } else {
                    None
                }
            },
            None => None,
        }
    } else {
        None
    }
}

#[via_fn]
proof fn parse_members_decreases(s: Seq<char>, i: int, found: Option<Seq<char>>) {
    if 0 <= i < s.len() && s[i] == '"' {
        lemma_parse_string_body_bounds(s, i + 1, Seq::empty());
        match parse_string_body(s, i + 1, Seq::empty()) {
            Some(key_r) => {
                lemma_skip_ws_bounds(s, key_r.1);
                let j1 = skip_ws(s, key_r.1);
                if j1 < s.len() && s[j1] == ':' {
                    lemma_skip_ws_bounds(s, j1 + 1);
                    let j2 = skip_ws(s, j1 + 1);
                    lemma_parse_value_bounds(s, j2);
                    match parse_value(s, j2) {
                        Some(val_r) => {
                            lemma_skip_ws_bounds(s, val_r.1);
                            let j4 = skip_ws(s, val_r.1);
                            if j4 < s.len() {
                                lemma_skip_ws_bounds(s, j4 + 1);
                            }
                        },
                        None => {},
                    }
                }
            },
            None => {},
        }
    }
}

/// The name the manifest text denotes: the decoded value of the `name`
/// member of the single JSON object the text holds, provided the document
/// is well formed, nothing but whitespace follows the object, and the name
/// is a non-empty string. Everything else denotes no name.
pub open spec fn manifest_name(s: Seq<char>) -> Option<Seq<char>> {
    let i0 = skip_ws(s, 0);
    if i0 < s.len() && s[i0] == '{' {
        let i1 = skip_ws(s, i0 + 1);
        match parse_members(s, i1, None) {
            Some(r) => {
                if skip_ws(s, r.1) == s.len() {
                    match r.0 {
                        Some(n) => if n.len() > 0 {
                            Some(n)
                        } else {
                            None
                        },
                        None => None,
                    }
                } else {
                    None
                }
            },
            None => None,
        }
    } else {
        None
    }
}

fn ws_char(c: char) -> (b: bool)
    ensures
        b == is_json_ws(c),
{
    c == ' ' || c == '\n' || c == '\r' || c == '\t'
}

fn scalar_char(c: char) -> (b: bool)
    ensures
        b == is_scalar_char(c),
{
    (('0' <= c) && (c <= '9')) || c == '-' || c == '+' || c == '.' || (('a' <= c) && (c <= 'z'))
        || c == 'E'
}

fn unescape_exec(c: char) -> (r: Option<char>)
    ensures
        r == unescape(c),
{
    if c == '"' {
        Some('"')
    } else if c == '\\' {
        Some('\\')
    } else if c == '/' {
        Some('/')
    } else if c == 'b' {
        Some('\u{0008}')
    } else if c == 'f' {
        Some('\u{000c}')
    } else if c == 'n' {
        Some('\n')
    } else if c == 'r' {
        Some('\r')
    } else if c == 't' {
        Some('\t')
    } else {
        None
    }
}

fn skip_ws_exec(s: &Vec<char>, i: usize) -> (r: usize)
    requires
        i <= s@.len(),
    ensures
        r == skip_ws(s@, i as int),
        i <= r <= s@.len(),
{
    let mut j = i;
    while j < s.len() && ws_char(s[j])
        invariant
            i <= j <= s@.len(),
            skip_ws(s@, i as int) == skip_ws(s@, j as int),
        decreases s@.len() - j,
    {
        j += 1;
    }
    j
}

fn skip_scalar_exec(s: &Vec<char>, i: usize) -> (r: usize)
    requires
        i <= s@.len(),
    ensures
        r == skip_scalar(s@, i as int),
        i <= r <= s@.len(),
{
    let mut j = i;
    while j < s.len() && scalar_char(s[j])
        invariant
            i <= j <= s@.len(),
            skip_scalar(s@, i as int) == skip_scalar(s@, j as int),
        decreases s@.len() - j,
    {
        j += 1;
    }
    j
}

/// The spec-level text of an optional string.
pub open spec fn option_string_view(f: Option<String>) -> Option<Seq<char>> {
    match f {
        Some(x) => Some(x@),
        None => None,
    }
}

fn parse_string_exec(s: &Vec<char>, start: usize) -> (r: Option<(String, usize)>)
    requires
        start <= s@.len(),
    ensures
        match r {
            Some(p) => parse_string_body(s@, start as int, Seq::empty()) == Some(
                (p.0@, p.1 as int),
            ) && start < p.1 <= s@.len(),
            None => parse_string_body(s@, start as int, Seq::empty()) is None,
        },
{
    let mut out = String::new();
    let mut i = start;
    loop
        invariant
            start <= i <= s@.len(),
            parse_string_body(s@, start as int, Seq::empty()) == parse_string_body(
                s@,
                i as int,
                out@,
            ),
        decreases s@.len() - i,
    {
        if i >= s.len() {
            return None;
        }
        let c = s[i];
        if c == '"' {
            return Some((out, i + 1));
        }
        if c == '\\' {
            if i + 1 >= s.len() {
                return None;
            }
            match unescape_exec(s[i + 1]) {
                Some(d) => {
                    push_char(&mut out, d);
                    i += 2;
                },
                None => {
                    return None;
                },
            }
        } else if (c as u32) < 32 {
            return None;
        } else {
            push_char(&mut out, c);
            i += 1;
        }
    }
}

fn parse_value_exec(s: &Vec<char>, i: usize) -> (r: Option<(Option<String>, usize)>)
    requires
        i <= s@.len(),
    ensures
        match r {
            Some(p) => parse_value(s@, i as int) == Some((option_string_view(p.0), p.1 as int))
                && i < p.1 <= s@.len(),
            None => parse_value(s@, i as int) is None,
        },
{
    if i < s.len() && s[i] == '"' {
        match parse_string_exec(s, i + 1) {
            Some(p) => Some((Some(p.0), p.1)),
            None => None,
        }
    } else if i < s.len() && scalar_char(s[i]) {
        let j = skip_scalar_exec(s, i);
        proof {
            assert(skip_scalar(s@, i as int) == skip_scalar(s@, i + 1));
            lemma_skip_scalar_bounds(s@, i + 1);
        }
        Some((None, j))
    } else {
        None
    }
}

fn parse_members_exec(s: &Vec<char>, start: usize) -> (r: Option<(Option<String>, usize)>)
    requires
        start <= s@.len(),
    ensures
        match r {
            Some(p) => parse_members(s@, start as int, None) == Some(
                (option_string_view(p.0), p.1 as int),
            ) && p.1 <= s@.len(),
            None => parse_members(s@, start as int, None) is None,
        },
{
    let name_key: String = "name".to_owned();
    let mut found: Option<String> = None;
    let mut i = start;
    loop
        invariant
            start <= i <= s@.len(),
            name_key@ == "name"@,
            parse_members(s@, start as int, None) == parse_members(
                s@,
                i as int,
                option_string_view(found),
            ),
        decreases s@.len() - i,
    {
        if !(i < s.len() && s[i] == '"') {
            return None;
        }
        let key = match parse_string_exec(s, i + 1) {
            Some(p) => p,
            None => {
                return None;
            },
        };
        let j1 = skip_ws_exec(s, key.1);
        if !(j1 < s.len() && s[j1] == ':') {
            return None;
        }
        let j2 = skip_ws_exec(s, j1 + 1);
        let val = match parse_value_exec(s, j2) {
            Some(p) => p,
            None => {
                return None;
            },
        };
        let is_name = key.0 == name_key;
        if is_name && (val.0.is_none() || found.is_some()) {
            return None;
        }
        let found2: Option<String> = if is_name {
            val.0
        } else {
            found
        };
        let j4 = skip_ws_exec(s, val.1);
        if j4 < s.len() && s[j4] == '}' {
            return Some((found2, j4 + 1));
        } else if j4 < s.len() && s[j4] == ',' {
            let j5 = skip_ws_exec(s, j4 + 1);
            found = found2;
            i = j5;
        } else {
            return None;
        }
    }
}

/// Parses a manifest from the characters of its descriptor text.
///
/// Returns the manifest exactly when the text denotes a name: a well-formed
/// object whose `name` member is a non-empty string. Everything else is a
/// parse error.
pub fn parse_manifest(text: &Vec<char>) -> (r: Result<PluginManifest, PluginError>)
    ensures
        match r {
            Ok(m) => manifest_name(text@) == Some(m.name@),
            Err(e) => manifest_name(text@) is None && e == PluginError::ManifestParseError,
        },
{
    let i0 = skip_ws_exec(text, 0);
    if !(i0 < text.len() && text[i0] == '{') {
        return Err(PluginError::ManifestParseError);
    }
    let i1 = skip_ws_exec(text, i0 + 1);
    let members = match parse_members_exec(text, i1) {
        Some(p) => p,
        None => {
            return Err(PluginError::ManifestParseError);
        },
    };
    let j = skip_ws_exec(text, members.1);
    if j != text.len() {
        return Err(PluginError::ManifestParseError);
    }
    match members.0 {
        Some(n) => {
            if n.as_str().is_empty() {
                Err(PluginError::ManifestParseError)
            } else {
                Ok(PluginManifest { name: n })
            }
        },
        None => Err(PluginError::ManifestParseError),
    }
}

/// Everything the load pipeline derives from a manifest before any module
/// is touched: the registry key and the module filename to open.
pub struct LoadPlan {
    pub name: String,
    pub library_file: String,
}

/// Derives the load plan of one plugin directory from its descriptor text:
/// the manifest's name and the module filename the platform convention
/// gives it. Fails exactly when the text denotes no name.
pub fn plan_load(text: &Vec<char>, platform: Platform) -> (r: Result<LoadPlan, PluginError>)
    ensures
        match r {
            Ok(p) => manifest_name(text@) == Some(p.name@) && p.library_file@ == "lib"@ + p.name@
                + "."@ + library_extension(platform),
            Err(e) => manifest_name(text@) is None && e == PluginError::ManifestParseError,
        },
{
    match parse_manifest(text) {
        Ok(m) => {
            let library_file = get_library_path(m.name.as_str(), platform);
            Ok(LoadPlan { name: m.name, library_file })
        },
        Err(e) => Err(e),
    }
}

/// The texts of a batch of descriptor files.
pub open spec fn batch_view(ts: Seq<Vec<char>>) -> Seq<Seq<char>> {
    ts.map_values(|t: Vec<char>| t@)
}

/// How many texts of the batch denote no name.
pub open spec fn failure_count(ts: Seq<Seq<char>>) -> nat
    decreases ts.len(),
{
    if ts.len() == 0 {
        0
    } else {
        failure_count(ts.drop_last()) + (if manifest_name(ts.last()) is None {
            1nat
        } else {
            0nat
        })
    }
}

/// Plans the load of every directory of a batch from its descriptor text.
/// Each failure is confined to its own slot, so one bad manifest never
/// aborts the batch: every other text still yields its plan, and the
/// failures are counted.
pub fn plan_batch(texts: &Vec<Vec<char>>, platform: Platform) -> (r: (Vec<Option<LoadPlan>>, usize))
    ensures
        r.0@.len() == texts@.len(),
        forall|k: int|
            0 <= k < texts@.len() ==> match #[trigger] r.0@[k] {
                Some(p) => manifest_name(texts@[k]@) == Some(p.name@) && p.library_file@ == "lib"@
                    + p.name@ + "."@ + library_extension(platform),
                None => manifest_name(texts@[k]@) is None,
            },
        r.1 == failure_count(batch_view(texts@)),
{
    let mut plans: Vec<Option<LoadPlan>> = Vec::new();
    let mut failures: usize = 0;
    let mut i: usize = 0;
    while i < texts.len()
        invariant
            i <= texts@.len(),
            plans@.len() == i,
            failures <= i,
            forall|k: int|
                0 <= k < i ==> match #[trigger] plans@[k] {
                    Some(p) => manifest_name(texts@[k]@) == Some(p.name@) && p.library_file@
                        == "lib"@ + p.name@ + "."@ + library_extension(platform),
                    None => manifest_name(texts@[k]@) is None,
                },
            failures == failure_count(batch_view(texts@).take(i as int)),
        decreases texts@.len() - i,
    {
        proof {
            assert(batch_view(texts@).take(i + 1).drop_last() =~= batch_view(texts@).take(i as int));
            assert(batch_view(texts@).take(i + 1).last() == texts@[i as int]@);
        }
        match plan_load(&texts[i], platform) {
            Ok(p) => {
                plans.push(Some(p));
            },
            Err(_) => {
                plans.push(None);
                failures += 1;
            },
        }
        i += 1;
    }
    proof {
        assert(batch_view(texts@).take(texts@.len() as int) =~= batch_view(texts@));
    }
    (plans, failures)
}

/// A batch where every text denotes a name reports no failure.
pub proof fn lemma_batch_all_ok(ts: Seq<Seq<char>>)
    requires
        forall|i: int| 0 <= i < ts.len() ==> (#[trigger] manifest_name(ts[i])) is Some,
    ensures
        failure_count(ts) == 0,
    decreases ts.len(),
{
    if ts.len() > 0 {
        lemma_batch_all_ok(ts.drop_last());
    }
}

/// Partial-failure isolation: in a batch with exactly one text that denotes
/// no name, exactly one failure is reported; every other plugin of the
/// batch still gets its plan.
pub proof fn lemma_batch_single_failure(ts: Seq<Seq<char>>, k: int)
    requires
        0 <= k < ts.len(),
        manifest_name(ts[k]) is None,
        forall|i: int| 0 <= i < ts.len() && i != k ==> (#[trigger] manifest_name(ts[i])) is Some,
    ensures
        failure_count(ts) == 1,
    decreases ts.len(),
{
    if k == ts.len() - 1 {
        lemma_batch_all_ok(ts.drop_last());
    } else {
        lemma_batch_single_failure(ts.drop_last(), k);
    }
}

/// The dynamic-library extension each platform uses.
pub open spec fn library_extension(p: Platform) -> Seq<char> {
    match p {
        Platform::Windows => "dll"@,
        Platform::MacOs => "dylib"@,
        Platform::Linux => "so"@,
    }
}

/// The module filename the platform naming convention derives from a plugin
/// name: a `lib` prefix and the platform's extension.
pub fn get_library_path(plugin_name: &str, platform: Platform) -> (r: String)
    ensures
        r@ == "lib"@ + plugin_name@ + "."@ + library_extension(platform),
{
    let mut s: String = "lib".to_owned();
    s.append(plugin_name);
    s.append(".");
    match platform {
        Platform::Windows => s.append("dll"),
        Platform::MacOs => s.append("dylib"),
        Platform::Linux => s.append("so"),
    }
    s
}

} // verus!
