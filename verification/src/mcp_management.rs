//! MCP tool catalog management: identifiers, paths, tool ids, the interface catalog, and which
//! catalog items a list query shows.

use vstd::prelude::*;
use crate::errors::{has_permission, ActorContext, ControlPlaneError};
use crate::json::{spec_as_array, spec_as_str, views, JsonSpec, JsonValue};
use crate::outside::{
    os_random_u32, regex_accepts, regex_compiles, regex_finds, regex_is_match, uuid_hyphenated,
    uuid_to_hyphenated,
};
use crate::text::{
    ascii_lower, char_from_ascii_code, char_is_ascii_alphanumeric, char_to_ascii_lowercase,
    chars_of, is_ascii_alphanumeric, is_blank, is_blank_text, join, join_strings, split_words,
    starts_with, str_eq, string_from_chars, string_views, to_string, utf8_byte_len,
    utf8_len_exceeds, words, is_sep, Separator,
};

verus! {

/// Longest identifier or path, in bytes.
pub const MAX_IDENTIFIER_BYTES: usize = 255;

pub open spec fn identifier_ok(value: Seq<char>) -> bool {
    !is_blank(value) && utf8_byte_len(value) <= MAX_IDENTIFIER_BYTES
}

/// An identifier is not blank and takes at most 255 bytes.
pub fn validate_identifier(value: &str, field: &'static str) -> (r: Result<(), ControlPlaneError>)
    ensures
        identifier_ok(value@) ==> r is Ok,
        !identifier_ok(value@) ==> r == Err::<(), _>(ControlPlaneError::InvalidInput(field)),
{
    if is_blank_text(value) || utf8_len_exceeds(value, MAX_IDENTIFIER_BYTES) {
        return Err(ControlPlaneError::InvalidInput(field));
    }
    Ok(())
}

pub open spec fn path_ok(value: Seq<char>) -> bool {
    value.len() > 0 && value[0] == '/' && utf8_byte_len(value) <= MAX_IDENTIFIER_BYTES
}

/// A path starts with `/` and takes at most 255 bytes.
pub fn validate_path(value: &str) -> (r: Result<(), ControlPlaneError>)
    ensures
        path_ok(value@) ==> r is Ok,
        !path_ok(value@) ==> r == Err::<(), _>(ControlPlaneError::InvalidInput("path")),
{
    let starts = starts_with(value, "/");
    proof {
        reveal_strlit("/");
        if value@.len() > 0 && value@[0] == '/' {
            assert(value@.take(1) =~= "/"@);
        }
        if starts {
            assert(value@.take(1)[0] == value@[0]);
        }
    }
    if !starts || utf8_len_exceeds(value, MAX_IDENTIFIER_BYTES) {
        return Err(ControlPlaneError::InvalidInput("path"));
    }
    Ok(())
}

/// A count setting must be positive.
pub fn validate_positive(value: i32, field: &'static str) -> (r: Result<(), ControlPlaneError>)
    ensures
        value > 0 ==> r is Ok,
        value <= 0 ==> r == Err::<(), _>(ControlPlaneError::InvalidInput(field)),
{
    if value <= 0 {
        return Err(ControlPlaneError::InvalidInput(field));
    }
    Ok(())
}

pub open spec fn one_of(value: Seq<char>, allowed: Seq<&str>) -> bool {
    exists|i: int| 0 <= i < allowed.len() && allowed[i]@ == value
}

/// A setting must take one of its allowed values.
pub fn validate_allowed_value(value: &str, field: &'static str, allowed_values: &[&str]) -> (r:
    Result<(), ControlPlaneError>)
    ensures
        one_of(value@, allowed_values@) ==> r is Ok,
        !one_of(value@, allowed_values@) ==> r == Err::<(), _>(
            ControlPlaneError::InvalidInput(field),
        ),
{
    if !crate::text::is_one_of(value, allowed_values) {
        return Err(ControlPlaneError::InvalidInput(field));
    }
    Ok(())
}

/// The fields a list result may return.
pub open spec fn list_field_allowed(field: Seq<char>) -> bool {
    field == "id"@ || field == "type"@ || field == "item_kind"@ || field == "path"@ || field
        == "name"@ || field == "description_short"@ || field == "children_count"@ || field
        == "risk_level"@
}

pub open spec fn list_return_fields_ok(value: JsonSpec) -> bool {
    match spec_as_array(value) {
        None => false,
        Some(items) => {
            &&& items.len() > 0
            &&& forall|i: int|
                0 <= i < items.len() ==> (#[trigger] spec_as_str(items[i])) is Some
                    && list_field_allowed(spec_as_str(items[i])->0)
            &&& forall|i: int, j: int|
                0 <= i < j < items.len() ==> spec_as_str(#[trigger] items[i]) != spec_as_str(
                    #[trigger] items[j],
                )
        },
    }
}

fn list_field_is_allowed(field: &str) -> (b: bool)
    ensures
        b == list_field_allowed(field@),
{
    str_eq(field, "id") || str_eq(field, "type") || str_eq(field, "item_kind") || str_eq(
        field,
        "path",
    ) || str_eq(field, "name") || str_eq(field, "description_short") || str_eq(
        field,
        "children_count",
    ) || str_eq(field, "risk_level")
}

/// The list return fields are a non-empty array of distinct allowed field names.
#[verifier::loop_isolation(false)]
pub fn validate_list_return_fields(value: &JsonValue) -> (r: Result<(), ControlPlaneError>)
    ensures
        list_return_fields_ok(value@) ==> r is Ok,
        !list_return_fields_ok(value@) ==> r == Err::<(), _>(
            ControlPlaneError::InvalidInput("list_return_fields"),
        ),
{
    let fields = match value.as_array() {
        Some(fields) => fields,
        None => {
            return Err(ControlPlaneError::InvalidInput("list_return_fields"));
        },
    };
    if fields.len() == 0 {
        return Err(ControlPlaneError::InvalidInput("list_return_fields"));
    }
    let ghost items = views(fields@);
    let mut seen: Vec<&str> = Vec::new();
    let mut i: usize = 0;
    while i < fields.len()
        invariant
            items == views(fields@),
            spec_as_array(value@) == Some(items),
            items.len() > 0,
            i <= fields.len(),
            seen@.len() == i,
            forall|k: int|
                0 <= k < i ==> spec_as_str(#[trigger] items[k]) == Some(seen@[k]@)
                    && list_field_allowed(seen@[k]@),
            forall|a: int, b: int| 0 <= a < b < i ==> seen@[a]@ != seen@[b]@,
        decreases fields.len() - i,
    {
        assert(items[i as int] == fields@[i as int]@);
        let field = match fields[i].as_str() {
            Some(field) => field,
            None => {
                return Err(ControlPlaneError::InvalidInput("list_return_fields"));
            },
        };
        if !list_field_is_allowed(field) {
            return Err(ControlPlaneError::InvalidInput("list_return_fields"));
        }
        let mut j: usize = 0;
        while j < seen.len()
            invariant
                j <= seen@.len(),
                forall|k: int| 0 <= k < j ==> seen@[k]@ != field@,
            decreases seen.len() - j,
        {
            if str_eq(seen[j], field) {
                proof {
                    assert(spec_as_str(items[j as int]) == Some(seen@[j as int]@));
                    assert(spec_as_str(items[j as int]) == spec_as_str(items[i as int]));
                }
                return Err(ControlPlaneError::InvalidInput("list_return_fields"));
            }
            j = j + 1;
        }
        seen.push(field);
        i = i + 1;
    }
    proof {
        assert forall|a: int, b: int| 0 <= a < b < items.len() implies spec_as_str(
            #[trigger] items[a],
        ) != spec_as_str(#[trigger] items[b]) by {
            assert(seen@[a]@ != seen@[b]@);
        }
    }
    Ok(())
}

/// A tool-id character: lower-case ASCII letters and digits stay, anything else is `_`.
pub open spec fn tool_id_char(c: char) -> char {
    if is_ascii_alphanumeric(c) {
        ascii_lower(c)
    } else {
        '_'
    }
}

pub open spec fn tool_id_chars(s: Seq<char>) -> Seq<char> {
    s.map_values(|c: char| tool_id_char(c))
}

/// A tool-id part: its characters mapped, and the runs of `_` between them reduced to one.
pub open spec fn tool_id_part(s: Seq<char>) -> Seq<char> {
    join(words(tool_id_chars(s), Separator::Char('_')), "_"@)
}

/// Whether a text is made only of lower-case ASCII letters and digits.
pub open spec fn lower_alphanumeric(s: Seq<char>) -> bool {
    forall|i: int| 0 <= i < s.len() ==> ('0' <= #[trigger] s[i] <= '9') || ('a' <= s[i] <= 'z')
}

proof fn lemma_words_without_separator(s: Seq<char>, sep: char)
    requires
        s.len() > 0,
        forall|i: int| 0 <= i < s.len() ==> #[trigger] s[i] != sep,
    ensures
        words(s, Separator::Char(sep)) == seq![s],
    decreases s.len(),
{
    if s.len() > 1 {
        let p = s.drop_last();
        assert forall|i: int| 0 <= i < p.len() implies #[trigger] p[i] != sep by {
            assert(p[i] == s[i]);
        }
        lemma_words_without_separator(p, sep);
        let w = words(p, Separator::Char(sep));
        assert(w == seq![p]);
        assert(!is_sep(Separator::Char(sep), s.last()));
        assert(!is_sep(Separator::Char(sep), s[s.len() - 2]));
        assert(w.drop_last() =~= Seq::<Seq<char>>::empty());
        assert(w.last().push(s.last()) =~= s);
        assert(w.drop_last().push(s) =~= seq![s]);
    } else {
        assert(s.drop_last() =~= Seq::<char>::empty());
        assert(words(s.drop_last(), Separator::Char(sep)) == Seq::<Seq<char>>::empty());
        assert(!is_sep(Separator::Char(sep), s.last()));
        assert(seq![s.last()] =~= s);
        assert(Seq::<Seq<char>>::empty().push(seq![s.last()]) =~= seq![s]);
    }
}

/// Lower-case ASCII letters and digits are kept as they are: a part made only of them is its own
/// normal form, digits included.
pub proof fn law_alphanumeric_part_is_kept(s: Seq<char>)
    requires
        s.len() > 0,
        lower_alphanumeric(s),
    ensures
        tool_id_part(s) == s,
{
    assert(tool_id_chars(s) =~= s) by {
        assert forall|i: int| 0 <= i < s.len() implies #[trigger] tool_id_chars(s)[i] == s[i] by {
            assert(('0' <= s[i] <= '9') || ('a' <= s[i] <= 'z'));
        }
    }
    assert forall|i: int| 0 <= i < s.len() implies #[trigger] s[i] != '_' by {
        assert(('0' <= s[i] <= '9') || ('a' <= s[i] <= 'z'));
    }
    lemma_words_without_separator(s, '_');
}

/// Upper-case letters become lower-case: a part and its lower-cased text normalize alike.
pub proof fn law_part_ignores_ascii_case(s: Seq<char>)
    ensures
        tool_id_part(s) == tool_id_part(s.map_values(|c: char| ascii_lower(c))),
{
    let l = s.map_values(|c: char| ascii_lower(c));
    assert(tool_id_chars(s) =~= tool_id_chars(l)) by {
        assert forall|i: int| 0 <= i < s.len() implies #[trigger] tool_id_chars(s)[i] == tool_id_chars(l)[i] by {
            let c = s[i];
            if 'A' <= c <= 'Z' {
                assert(ascii_lower(c) == ((c as u32) + 32) as char);
                assert('a' <= ascii_lower(c) <= 'z') by {
                    assert(((c as u32) + 32) as char == ((c as u32) + 32) as char);
                }
            }
        }
    }
}

/// Normalizes one part of a tool id.
pub fn normalize_tool_id_part(value: &str) -> (out: String)
    ensures
        out@ == tool_id_part(value@),
        value@.len() > 0 && lower_alphanumeric(value@) ==> out@ == value@,
{
    proof {
        if value@.len() > 0 && lower_alphanumeric(value@) {
            law_alphanumeric_part_is_kept(value@);
        }
    }
    let chars = chars_of(value);
    let mut mapped = String::new();
    let mut i: usize = 0;
    while i < chars.len()
        invariant
            chars@ == value@,
            i <= chars.len(),
            mapped@ == tool_id_chars(value@.take(i as int)),
        decreases chars.len() - i,
    {
        let c = chars[i];
        if char_is_ascii_alphanumeric(c) {
            mapped.push(char_to_ascii_lowercase(c));
        } else {
            mapped.push('_');
        }
        assert(value@.take(i + 1) =~= value@.take(i as int).push(c));
        assert(mapped@ =~= tool_id_chars(value@.take(i + 1)));
        i = i + 1;
    }
    assert(value@.take(chars.len() as int) =~= value@);
    let parts = split_words(mapped.as_str(), Separator::Char('_'));
    join_strings(&parts, "_")
}

/// The letters of a generated short id, indexed from 0 to 62.
pub open spec fn short_id_symbol(i: int) -> char {
    if i < 26 {
        (65 + i) as char
    } else if i < 52 {
        (97 + i - 26) as char
    } else if i < 62 {
        (48 + i - 52) as char
    } else {
        '_'
    }
}

/// Number of letters a short id is drawn from.
pub const SHORT_ID_ALPHABET_LEN: u32 = 63;

fn short_id_letter(index: u32) -> (c: char)
    requires
        index < 63,
    ensures
        c == short_id_symbol(index as int),
{
    if index < 26 {
        char_from_ascii_code(65 + index)
    } else if index < 52 {
        char_from_ascii_code(97 + index - 26)
    } else if index < 62 {
        char_from_ascii_code(48 + index - 52)
    } else {
        '_'
    }
}

pub open spec fn is_short_id_letter(c: char) -> bool {
    exists|i: int| 0 <= i < 63 && c == #[trigger] short_id_symbol(i)
}

pub open spec fn is_short_id(s: Seq<char>) -> bool {
    &&& s.len() == 8
    &&& forall|k: int| 0 <= k < 8 ==> is_short_id_letter(#[trigger] s[k])
}

/// Eight letters drawn at random from `A-Z`, `a-z`, `0-9` and `_`.
pub fn generate_short_id() -> (out: String)
    ensures
        is_short_id(out@),
{
    let mut out = String::new();
    let mut k: u32 = 0;
    while k < 8
        invariant
            k <= 8,
            out@.len() == k,
            forall|m: int| 0 <= m < k ==> is_short_id_letter(#[trigger] out@[m]),
        decreases 8 - k,
    {
        let index = os_random_u32() % SHORT_ID_ALPHABET_LEN;
        let c = short_id_letter(index);
        out.push(c);
        assert(out@[k as int] == short_id_symbol(index as int));
        assert(is_short_id_letter(out@[k as int]));
        k = k + 1;
    }
    out
}

/// The candidate tool id: the path segments and the words of the name, each normalized,
/// the empty ones dropped, joined with `_`.
pub open spec fn tool_id_candidate(path: Option<Seq<char>>, name: Seq<char>) -> Seq<char> {
    let path_parts = match path {
        Some(p) => words(p, Separator::Char('/')),
        None => seq![],
    };
    let parts = (path_parts + words(name, Separator::Whitespace)).map_values(
        |p: Seq<char>| tool_id_part(p),
    ).filter(|p: Seq<char>| p.len() > 0);
    join(parts, "_"@)
}

/// The first `n` characters of a text (all of it when it is shorter).
pub open spec fn first_chars(s: Seq<char>, n: int) -> Seq<char> {
    if s.len() <= n {
        s
    } else {
        s.take(n)
    }
}

/// A readable tool id made from the suggested path and the name, cut to 255 characters; when
/// nothing usable is left, a generated short id.
pub fn readable_tool_id(path: Option<&str>, name: &str) -> (out: String)
    ensures
        tool_id_candidate(crate::json::opt_str_view(path), name@).len() > 0 ==> out@
            == first_chars(tool_id_candidate(crate::json::opt_str_view(path), name@), 255),
        tool_id_candidate(crate::json::opt_str_view(path), name@).len() == 0 ==> is_short_id(
            out@,
        ),
{
    let mut parts: Vec<String> = match path {
        Some(p) => split_words(p, Separator::Char('/')),
        None => Vec::new(),
    };
    let name_words = split_words(name, Separator::Whitespace);
    let ghost all = string_views(parts@) + string_views(name_words@);
    let mut i: usize = 0;
    while i < name_words.len()
        invariant
            i <= name_words.len(),
            string_views(parts@) + string_views(name_words@.skip(i as int)) == all,
        decreases name_words.len() - i,
    {
        let w = name_words[i].clone();
        proof {
            assert(string_views(name_words@.skip(i as int)) =~= seq![w@] + string_views(
                name_words@.skip(i + 1),
            ));
        }
        parts.push(w);
        assert(string_views(parts@) =~= string_views(parts@.drop_last()).push(w@));
        i = i + 1;
    }
    assert(string_views(name_words@.skip(i as int)) =~= Seq::<Seq<char>>::empty());
    assert(string_views(parts@) =~= all);
    let ghost mapped = all.map_values(|p: Seq<char>| tool_id_part(p));
    let mut kept: Vec<String> = Vec::new();
    let mut j: usize = 0;
    while j < parts.len()
        invariant
            j <= parts.len(),
            string_views(parts@) == all,
            mapped == all.map_values(|p: Seq<char>| tool_id_part(p)),
            string_views(kept@) == mapped.take(j as int).filter(|p: Seq<char>| p.len() > 0),
        decreases parts.len() - j,
    {
        let part = normalize_tool_id_part(parts[j].as_str());
        proof {
            assert(mapped.take(j + 1) =~= mapped.take(j as int).push(part@));
            mapped.take(j as int).lemma_filter_push(part@, |p: Seq<char>| p.len() > 0);
        }
        if !part.as_str().is_empty() {
            kept.push(part);
            assert(string_views(kept@) =~= string_views(kept@.drop_last()).push(
                kept@.last()@,
            ));
        }
        j = j + 1;
    }
    assert(mapped.take(parts.len() as int) =~= mapped);
    let candidate = join_strings(&kept, "_");
    if candidate.as_str().is_empty() {
        generate_short_id()
    } else {
        let chars = chars_of(candidate.as_str());
        if chars.len() <= 255 {
            candidate
        } else {
            string_from_chars(&chars, 0, 255)
        }
    }
}

/// Whether a catalog path lies at or under the base path (`/` covers every path).
pub open spec fn spec_path_matches(base: Seq<char>, candidate: Seq<char>) -> bool {
    base == "/"@ || candidate == base || (candidate.len() > base.len() && candidate.take(
        base.len() as int,
    ) == base && candidate[base.len() as int] == '/')
}

pub fn path_matches(base_path: &str, candidate: &str) -> (b: bool)
    ensures
        b == spec_path_matches(base_path@, candidate@),
{
    if str_eq(base_path, "/") || str_eq(candidate, base_path) {
        return true;
    }
    let c = chars_of(candidate);
    let b = chars_of(base_path);
    if c.len() <= b.len() {
        return false;
    }
    if !starts_with(candidate, base_path) {
        return false;
    }
    c[b.len()] == '/'
}

/// The rest of a candidate path below the base path.
pub open spec fn relative_rest(base: Seq<char>, candidate: Seq<char>) -> Seq<char> {
    if base == "/"@ {
        candidate
    } else {
        candidate.skip(base.len() as int)
    }
}

/// How many levels below the base path a candidate lies: the number of non-empty `/`-separated
/// segments left of it once the base is removed.
pub open spec fn spec_list_relative_depth(base: Seq<char>, candidate: Seq<char>) -> Option<i32> {
    if !spec_path_matches(base, candidate) {
        None
    } else if candidate == base {
        Some(0)
    } else {
        Some(words(relative_rest(base, candidate), Separator::Char('/')).len() as i32)
    }
}

pub fn list_relative_depth(base_path: &str, candidate: &str) -> (r: Option<i32>)
    ensures
        r == spec_list_relative_depth(base_path@, candidate@),
{
    if !path_matches(base_path, candidate) {
        return None;
    }
    if str_eq(candidate, base_path) {
        return Some(0);
    }
    let rest = if str_eq(base_path, "/") {
        to_string(candidate)
    } else {
        let c = chars_of(candidate);
        let b = chars_of(base_path);
        proof {
            reveal_strlit("/");
        }
        if b.len() > c.len() {
            return None;
        }
        string_from_chars(&c, b.len(), c.len())
    };
    proof {
        if !(base_path@ == "/"@) {
            assert(candidate@.skip(base_path@.len() as int) =~= candidate@.subrange(
                base_path@.len() as int,
                candidate@.len() as int,
            ));
        }
    }
    let segments = split_words(rest.as_str(), Separator::Char('/'));
    Some(segments.len() as i32)
}

/// A path filter from a list query, holding a pattern that `regex` compiles.
pub struct PathRegexFilter {
    pattern: String,
}

impl PathRegexFilter {
    pub closed spec fn pattern(self) -> Seq<char> {
        self.pattern@
    }

    #[verifier::type_invariant]
    closed spec fn compiles(self) -> bool {
        regex_accepts(self.pattern@)
    }

    /// Whether the pattern finds a match in the text.
    pub fn is_match(&self, text: &str) -> (b: bool)
        ensures
            b == regex_finds(self.pattern(), text@),
    {
        proof {
            use_type_invariant(self);
        }
        regex_is_match(self.pattern.as_str(), text)
    }
}

pub open spec fn regex_filter_ok(pattern: Seq<char>, regex_enabled: bool, regex_max_length: i32) -> bool {
    regex_enabled && regex_max_length >= 0 && pattern.len() <= regex_max_length
        && regex_accepts(pattern)
}

/// Compiles the path filter of a list query. No pattern gives no filter; a pattern is refused
/// when filters are disabled, when it has more characters than allowed, or when it does not
/// compile.
pub fn compile_list_path_regex(
    pattern: Option<&str>,
    regex_enabled: bool,
    regex_max_length: i32,
) -> (r: Result<Option<PathRegexFilter>, ControlPlaneError>)
    ensures
        pattern is None ==> r matches Ok(None),
        pattern is Some && regex_filter_ok(pattern->0@, regex_enabled, regex_max_length) ==> (
        r matches Ok(Some(f)) && f.pattern() == pattern->0@),
        pattern is Some && !regex_filter_ok(pattern->0@, regex_enabled, regex_max_length) ==> r
            == Err::<Option<PathRegexFilter>, _>(ControlPlaneError::InvalidInput("path_regex")),
{
    let pattern = match pattern {
        Some(pattern) => pattern,
        None => {
            return Ok(None);
        },
    };
    if !regex_enabled {
        return Err(ControlPlaneError::InvalidInput("path_regex"));
    }
    if regex_max_length < 0 {
        return Err(ControlPlaneError::InvalidInput("path_regex"));
    }
    let count = chars_of(pattern).len();
    if count > regex_max_length as usize {
        return Err(ControlPlaneError::InvalidInput("path_regex"));
    }
    if !regex_compiles(pattern) {
        return Err(ControlPlaneError::InvalidInput("path_regex"));
    }
    Ok(Some(PathRegexFilter { pattern: to_string(pattern) }))
}

pub open spec fn spec_query_matches(
    base: Seq<char>,
    candidate: Seq<char>,
    max_depth: i32,
    filter: Option<Seq<char>>,
) -> bool {
    match spec_list_relative_depth(base, candidate) {
        None => false,
        Some(depth) => depth <= max_depth && match filter {
            Some(p) => regex_finds(p, candidate),
            None => true,
        },
    }
}

pub open spec fn filter_pattern(filter: Option<&PathRegexFilter>) -> Option<Seq<char>> {
    match filter {
        Some(f) => Some(f.pattern()),
        None => None,
    }
}

/// Whether a catalog path is shown by a list query: it lies under the base path no deeper than
/// the maximum depth, and the path filter, when there is one, matches it.
pub fn path_matches_list_query(
    base_path: &str,
    candidate: &str,
    max_depth: i32,
    path_regex_filter: Option<&PathRegexFilter>,
) -> (b: bool)
    ensures
        b == spec_query_matches(base_path@, candidate@, max_depth, filter_pattern(path_regex_filter)),
{
    let depth = match list_relative_depth(base_path, candidate) {
        Some(depth) => depth,
        None => {
            return false;
        },
    };
    if depth > max_depth {
        return false;
    }
    match path_regex_filter {
        Some(f) => f.is_match(candidate),
        None => true,
    }
}

/// Whether an actor may read the MCP catalog.
pub open spec fn may_view(actor: ActorContext) -> bool {
    actor.is_root || has_permission(actor, "mcp_management.view.all"@) || has_permission(
        actor,
        "mcp_management.manage.all"@,
    )
}

/// Whether an actor may change the MCP catalog.
pub open spec fn may_manage(actor: ActorContext) -> bool {
    actor.is_root || has_permission(actor, "mcp_management.manage.all"@)
}

pub fn authorize_view(actor: &ActorContext) -> (r: Result<(), ControlPlaneError>)
    ensures
        may_view(*actor) ==> r is Ok,
        !may_view(*actor) ==> r == Err::<(), _>(
            ControlPlaneError::PermissionDenied("permission_denied"),
        ),
{
    if actor.is_root || actor.has_permission("mcp_management.view.all") || actor.has_permission(
        "mcp_management.manage.all",
    ) {
        return Ok(());
    }
    Err(ControlPlaneError::PermissionDenied("permission_denied"))
}

pub fn authorize_manage(actor: &ActorContext) -> (r: Result<(), ControlPlaneError>)
    ensures
        may_manage(*actor) ==> r is Ok,
        !may_manage(*actor) ==> r == Err::<(), _>(
            ControlPlaneError::PermissionDenied("permission_denied"),
        ),
{
    if actor.is_root || actor.has_permission("mcp_management.manage.all") {
        return Ok(());
    }
    Err(ControlPlaneError::PermissionDenied("permission_denied"))
}

/// Whether a tool description check passes: always when the tool does not require a
/// description id, otherwise only when the given id is the tool's current one.
fn description_check_accepted(des_id_required: bool, current_des_id: &str, des_id: Option<&str>) -> (b: bool)
    ensures
        b == (!des_id_required || (des_id matches Some(d) && d@ == current_des_id@)),
{
    if !des_id_required {
        return true;
    }
    match des_id {
        Some(d) => str_eq(d, current_des_id),
        None => false,
    }
}

/// How risky calling an MCP tool is.
#[derive(Debug, Clone, Copy, PartialEq, Eq, Structural)]
pub enum McpRiskLevel {
    Low,
    Medium,
    High,
}

/// A backend interface that an MCP tool can be bound to.
pub struct McpInterfaceCatalogEntry {
    pub interface_id: String,
    pub name: String,
    pub short_description: String,
    pub parameter_schema: JsonValue,
    pub result_schema: JsonValue,
    pub permission_code: Option<String>,
    pub risk_level: McpRiskLevel,
    pub bindable: bool,
    pub disabled_reason: Option<String>,
}

/// The plain facts of a catalog entry.
pub struct InterfaceFacts {
    pub interface_id: Seq<char>,
    pub name: Seq<char>,
    pub short_description: Seq<char>,
    pub parameter_schema: JsonSpec,
    pub result_schema: JsonSpec,
    pub permission_code: Option<Seq<char>>,
    pub risk_level: McpRiskLevel,
    pub bindable: bool,
    pub disabled_reason: Option<Seq<char>>,
}

pub open spec fn entry_facts(e: McpInterfaceCatalogEntry) -> InterfaceFacts {
    InterfaceFacts {
        interface_id: e.interface_id@,
        name: e.name@,
        short_description: e.short_description@,
        parameter_schema: e.parameter_schema@,
        result_schema: e.result_schema@,
        permission_code: crate::json::opt_string_view(e.permission_code),
        risk_level: e.risk_level,
        bindable: e.bindable,
        disabled_reason: crate::json::opt_string_view(e.disabled_reason),
    }
}

pub const SYSTEM_RUNTIME_PROFILE_INTERFACE: &'static str = "settings.system_runtime.get_profile";

pub const PERMISSION_CATALOG_INTERFACE: &'static str = "settings.permission_catalog.list";

pub const FILE_STORAGES_INTERFACE: &'static str = "settings.file_storages.list";

/// `{"type": <name>}`.
pub open spec fn typed_schema(name: Seq<char>) -> JsonSpec {
    JsonSpec::Object(seq![("type"@, JsonSpec::Str(name))])
}

/// An object schema that admits no other properties, with the properties given.
pub open spec fn closed_object_schema(properties: Option<JsonSpec>) -> JsonSpec {
    match properties {
        Some(p) => JsonSpec::Object(
            seq![
                ("type"@, JsonSpec::Str("object"@)),
                ("properties"@, p),
                ("additionalProperties"@, JsonSpec::Bool(false)),
            ],
        ),
        None => JsonSpec::Object(
            seq![
                ("type"@, JsonSpec::Str("object"@)),
                ("additionalProperties"@, JsonSpec::Bool(false)),
            ],
        ),
    }
}

/// `{"type": "array", "items": {"type": "object"}}`.
pub open spec fn array_of_objects_schema() -> JsonSpec {
    JsonSpec::Object(
        seq![("type"@, JsonSpec::Str("array"@)), ("items"@, typed_schema("object"@))],
    )
}

/// The interface catalog, entry by entry.
pub open spec fn catalog_facts() -> Seq<InterfaceFacts> {
    seq![
        InterfaceFacts {
            interface_id: SYSTEM_RUNTIME_PROFILE_INTERFACE@,
            name: "Get system runtime profile"@,
            short_description: "Read system runtime topology and locale profile."@,
            parameter_schema: closed_object_schema(
                Some(JsonSpec::Object(seq![("locale"@, typed_schema("string"@))])),
            ),
            result_schema: typed_schema("object"@),
            permission_code: Some("system_runtime.view.all"@),
            risk_level: McpRiskLevel::High,
            bindable: true,
            disabled_reason: None,
        },
        InterfaceFacts {
            interface_id: PERMISSION_CATALOG_INTERFACE@,
            name: "List permission catalog"@,
            short_description: "Read the backend permission catalog."@,
            parameter_schema: closed_object_schema(None),
            result_schema: array_of_objects_schema(),
            permission_code: Some("role_permission.view.all"@),
            risk_level: McpRiskLevel::Medium,
            bindable: true,
            disabled_reason: None,
        },
        InterfaceFacts {
            interface_id: FILE_STORAGES_INTERFACE@,
            name: "List file storages"@,
            short_description: "Read configured file storage backends; disabled until root-only service contract exposes an explicit permission path."@,
            parameter_schema: closed_object_schema(None),
            result_schema: array_of_objects_schema(),
            permission_code: None,
            risk_level: McpRiskLevel::Medium,
            bindable: false,
            disabled_reason: Some("root_only_service_contract"@),
        },
    ]
}

fn json_text(s: &str) -> (v: JsonValue)
    ensures
        v@ == JsonSpec::Str(s@),
{
    JsonValue::Str(to_string(s))
}

fn typed_schema_value(name: &str) -> (v: JsonValue)
    ensures
        v@ == typed_schema(name@),
{
    let mut entries: Vec<(String, JsonValue)> = Vec::new();
    entries.push((to_string("type"), json_text(name)));
    proof {
        crate::json::lemma_object_view(entries);
        assert(crate::json::entry_views(entries@) =~= typed_schema(name@)->Object_0);
    }
    JsonValue::Object(entries)
}

fn closed_object_schema_value(properties: Option<JsonValue>) -> (v: JsonValue)
    ensures
        v@ == closed_object_schema(crate::json::opt_json_view(properties)),
{
    let mut entries: Vec<(String, JsonValue)> = Vec::new();
    entries.push((to_string("type"), json_text("object")));
    let ghost p = crate::json::opt_json_view(properties);
    match properties {
        Some(p) => entries.push((to_string("properties"), p)),
        None => {},
    }
    entries.push((to_string("additionalProperties"), JsonValue::Bool(false)));
    proof {
        crate::json::lemma_object_view(entries);
        assert(crate::json::entry_views(entries@) =~= closed_object_schema(p)->Object_0);
    }
    JsonValue::Object(entries)
}

fn array_of_objects_schema_value() -> (v: JsonValue)
    ensures
        v@ == array_of_objects_schema(),
{
    let mut entries: Vec<(String, JsonValue)> = Vec::new();
    entries.push((to_string("type"), json_text("array")));
    entries.push((to_string("items"), typed_schema_value("object")));
    proof {
        crate::json::lemma_object_view(entries);
        assert(crate::json::entry_views(entries@) =~= array_of_objects_schema()->Object_0);
    }
    JsonValue::Object(entries)
}

/// The backend interfaces that MCP tools can be bound to.
pub fn interface_catalog_entries() -> (entries: Vec<McpInterfaceCatalogEntry>)
    ensures
        entries@.len() == catalog_facts().len(),
        forall|i: int|
            0 <= i < entries@.len() ==> entry_facts(#[trigger] entries@[i]) == catalog_facts()[i],
{
    let mut locale: Vec<(String, JsonValue)> = Vec::new();
    locale.push((to_string("locale"), typed_schema_value("string")));
    proof {
        crate::json::lemma_object_view(locale);
        assert(crate::json::entry_views(locale@) =~= seq![("locale"@, typed_schema("string"@))]);
    }
    let mut entries: Vec<McpInterfaceCatalogEntry> = Vec::new();
    entries.push(
        McpInterfaceCatalogEntry {
            interface_id: to_string(SYSTEM_RUNTIME_PROFILE_INTERFACE),
            name: to_string("Get system runtime profile"),
            short_description: to_string("Read system runtime topology and locale profile."),
            parameter_schema: closed_object_schema_value(Some(JsonValue::Object(locale))),
            result_schema: typed_schema_value("object"),
            permission_code: Some(to_string("system_runtime.view.all")),
            risk_level: McpRiskLevel::High,
            bindable: true,
            disabled_reason: None,
        },
    );
    entries.push(
        McpInterfaceCatalogEntry {
            interface_id: to_string(PERMISSION_CATALOG_INTERFACE),
            name: to_string("List permission catalog"),
            short_description: to_string("Read the backend permission catalog."),
            parameter_schema: closed_object_schema_value(None),
            result_schema: array_of_objects_schema_value(),
            permission_code: Some(to_string("role_permission.view.all")),
            risk_level: McpRiskLevel::Medium,
            bindable: true,
            disabled_reason: None,
        },
    );
    entries.push(
        McpInterfaceCatalogEntry {
            interface_id: to_string(FILE_STORAGES_INTERFACE),
            name: to_string("List file storages"),
            short_description: to_string(
                "Read configured file storage backends; disabled until root-only service contract exposes an explicit permission path.",
            ),
            parameter_schema: closed_object_schema_value(None),
            result_schema: array_of_objects_schema_value(),
            permission_code: None,
            risk_level: McpRiskLevel::Medium,
            bindable: false,
            disabled_reason: Some(to_string("root_only_service_contract")),
        },
    );
    proof {
        assert(entry_facts(entries@[0]) == catalog_facts()[0]);
        assert(entry_facts(entries@[1]) == catalog_facts()[1]);
        assert(entry_facts(entries@[2]) == catalog_facts()[2]);
    }
    entries
}

/// The position of the first catalog entry with this interface id.
pub open spec fn catalog_position(interface_id: Seq<char>) -> Option<int> {
    if interface_id == SYSTEM_RUNTIME_PROFILE_INTERFACE@ {
        Some(0)
    } else if interface_id == PERMISSION_CATALOG_INTERFACE@ {
        Some(1)
    } else if interface_id == FILE_STORAGES_INTERFACE@ {
        Some(2)
    } else {
        None
    }
}

/// The catalog entry a tool is bound to: unknown interfaces are not found, and interfaces that
/// are not bindable are refused.
pub fn bindable_interface(interface_id: &str) -> (r: Result<
    McpInterfaceCatalogEntry,
    ControlPlaneError,
>)
    ensures
        catalog_position(interface_id@) is None ==> r == Err::<McpInterfaceCatalogEntry, _>(
            ControlPlaneError::NotFound("mcp_interface"),
        ),
        catalog_position(interface_id@) is Some && !catalog_facts()[catalog_position(
            interface_id@,
        )->0].bindable ==> r == Err::<McpInterfaceCatalogEntry, _>(
            ControlPlaneError::InvalidInput("interface_id"),
        ),
        catalog_position(interface_id@) is Some && catalog_facts()[catalog_position(
            interface_id@,
        )->0].bindable ==> r is Ok && entry_facts(r->Ok_0) == catalog_facts()[catalog_position(
            interface_id@,
        )->0],
{
    let mut entries = interface_catalog_entries();
    let mut i: usize = 0;
    while i < entries.len()
        invariant
            entries@.len() == 3,
            i <= 3,
            forall|k: int| 0 <= k < 3 ==> entry_facts(#[trigger] entries@[k]) == catalog_facts()[k],
            forall|k: int| 0 <= k < i ==> entries@[k].interface_id@ != interface_id@,
        decreases 3 - i,
    {
        if str_eq(entries[i].interface_id.as_str(), interface_id) {
            proof {
                assert(entry_facts(entries@[0]).interface_id == catalog_facts()[0].interface_id);
                assert(entry_facts(entries@[1]).interface_id == catalog_facts()[1].interface_id);
                assert(entry_facts(entries@[2]).interface_id == catalog_facts()[2].interface_id);
                assert(catalog_position(interface_id@) == Some(i as int));
            }
            let entry = entries.remove(i);
            proof {
                assert(entry_facts(entry) == catalog_facts()[i as int]);
            }
            if !entry.bindable {
                return Err(ControlPlaneError::InvalidInput("interface_id"));
            }
            return Ok(entry);
        }
        i = i + 1;
    }
    proof {
        assert(entry_facts(entries@[0]).interface_id == catalog_facts()[0].interface_id);
        assert(entry_facts(entries@[1]).interface_id == catalog_facts()[1].interface_id);
        assert(entry_facts(entries@[2]).interface_id == catalog_facts()[2].interface_id);
    }
    Err(ControlPlaneError::NotFound("mcp_interface"))
}

#[derive(Debug, Clone, Copy, PartialEq, Eq, Structural)]
pub enum McpInstanceStatus {
    Enabled,
    Disabled,
}

#[derive(Debug, Clone, Copy, PartialEq, Eq, Structural)]
pub enum McpToolStatus {
    Enabled,
    Disabled,
}

#[derive(Debug, Clone, Copy, PartialEq, Eq, Structural)]
pub enum McpListItemKind {
    Group,
    Tool,
}

/// A group of an MCP instance's tool directory.
pub struct McpGroupRecord {
    pub id: u128,
    pub instance_record_id: u128,
    pub path: String,
    pub display_name: String,
    pub description_short: Option<String>,
    pub enabled: bool,
    pub sort_order: i32,
}

/// Where a tool appears in an instance's directory.
pub struct McpToolBindingRecord {
    pub id: u128,
    pub instance_record_id: u128,
    pub tool_record_id: u128,
    pub group_path: String,
    pub display_alias: Option<String>,
    pub visible: bool,
    pub sort_order: i32,
}

/// A tool of the workspace.
pub struct McpToolRecord {
    pub id: u128,
    pub tool_id: String,
    pub name: String,
    pub short_description: String,
    pub interface_id: String,
    pub risk_level: McpRiskLevel,
    pub des_id: String,
    pub des_id_required: bool,
    pub status: McpToolStatus,
}

/// One line of a directory listing.
pub struct McpListItemSummary {
    pub id: String,
    pub item_kind: McpListItemKind,
    pub path: String,
    pub name: String,
    pub description_short: Option<String>,
    pub children_count: i64,
    pub risk_level: Option<McpRiskLevel>,
}

/// The plain facts of a listing line.
pub struct ListItemFacts {
    pub id: Seq<char>,
    pub item_kind: McpListItemKind,
    pub path: Seq<char>,
    pub name: Seq<char>,
    pub description_short: Option<Seq<char>>,
    pub risk_level: Option<McpRiskLevel>,
}

pub open spec fn item_facts(s: McpListItemSummary) -> ListItemFacts {
    ListItemFacts {
        id: s.id@,
        item_kind: s.item_kind,
        path: s.path@,
        name: s.name@,
        description_short: crate::json::opt_string_view(s.description_short),
        risk_level: s.risk_level,
    }
}

pub open spec fn items_facts(items: Seq<McpListItemSummary>) -> Seq<ListItemFacts> {
    items.map_values(|s: McpListItemSummary| item_facts(s))
}

pub open spec fn group_item(g: McpGroupRecord) -> ListItemFacts {
    ListItemFacts {
        id: uuid_hyphenated(g.id),
        item_kind: McpListItemKind::Group,
        path: g.path@,
        name: g.display_name@,
        description_short: crate::json::opt_string_view(g.description_short),
        risk_level: None,
    }
}

pub open spec fn tool_item(b: McpToolBindingRecord, t: McpToolRecord) -> ListItemFacts {
    ListItemFacts {
        id: t.tool_id@,
        item_kind: McpListItemKind::Tool,
        path: b.group_path@,
        name: match b.display_alias {
            Some(alias) => alias@,
            None => t.name@,
        },
        description_short: Some(t.short_description@),
        risk_level: Some(t.risk_level),
    }
}

/// The enabled groups whose paths the query shows, in order.
pub open spec fn listed_groups(
    groups: Seq<McpGroupRecord>,
    base: Seq<char>,
    max_depth: i32,
    filter: Option<Seq<char>>,
) -> Seq<ListItemFacts>
    decreases groups.len(),
{
    if groups.len() == 0 {
        seq![]
    } else {
        let rest = listed_groups(groups.drop_last(), base, max_depth, filter);
        let g = groups.last();
        if g.enabled && spec_query_matches(base, g.path@, max_depth, filter) {
            rest.push(group_item(g))
        } else {
            rest
        }
    }
}

/// The position of the first tool with this record id.
pub open spec fn first_tool(tools: Seq<McpToolRecord>, id: u128) -> Option<int>
    decreases tools.len(),
{
    if tools.len() == 0 {
        None
    } else {
        match first_tool(tools.drop_last(), id) {
            Some(k) => Some(k),
            None => if tools.last().id == id {
                Some(tools.len() - 1)
            } else {
                None
            },
        }
    }
}

/// The visible bindings whose group paths the query shows and whose tool is enabled, in order.
pub open spec fn listed_tools(
    bindings: Seq<McpToolBindingRecord>,
    tools: Seq<McpToolRecord>,
    base: Seq<char>,
    max_depth: i32,
    filter: Option<Seq<char>>,
) -> Seq<ListItemFacts>
    decreases bindings.len(),
{
    if bindings.len() == 0 {
        seq![]
    } else {
        let rest = listed_tools(bindings.drop_last(), tools, base, max_depth, filter);
        let b = bindings.last();
        if b.visible && spec_query_matches(base, b.group_path@, max_depth, filter) {
            match first_tool(tools, b.tool_record_id) {
                Some(k) => if tools[k].status == McpToolStatus::Enabled {
                    rest.push(tool_item(b, tools[k]))
                } else {
                    rest
                },
                None => rest,
            }
        } else {
            rest
        }
    }
}

pub open spec fn first_n<T>(s: Seq<T>, n: int) -> Seq<T> {
    if s.len() <= n {
        s
    } else {
        s.take(n)
    }
}

fn clone_opt_string(o: &Option<String>) -> (r: Option<String>)
    ensures
        crate::json::opt_string_view(r) == crate::json::opt_string_view(*o),
{
    match o {
        Some(s) => Some(s.clone()),
        None => None,
    }
}

proof fn lemma_first_tool(tools: Seq<McpToolRecord>, id: u128, i: int)
    requires
        0 <= i < tools.len(),
        tools[i].id == id,
        forall|k: int| 0 <= k < i ==> tools[k].id != id,
    ensures
        first_tool(tools, id) == Some(i),
    decreases tools.len(),
{
    if i < tools.len() - 1 {
        lemma_first_tool(tools.drop_last(), id, i);
    } else {
        lemma_first_tool_none(tools.drop_last(), id);
    }
}

proof fn lemma_first_tool_none(tools: Seq<McpToolRecord>, id: u128)
    requires
        forall|k: int| 0 <= k < tools.len() ==> tools[k].id != id,
    ensures
        first_tool(tools, id) is None,
    decreases tools.len(),
{
    if tools.len() > 0 {
        lemma_first_tool_none(tools.drop_last(), id);
    }
}

fn find_tool(tools: &Vec<McpToolRecord>, id: u128) -> (r: Option<usize>)
    ensures
        match r {
            Some(k) => first_tool(tools@, id) == Some(k as int) && k < tools@.len(),
            None => first_tool(tools@, id) is None,
        },
{
    let mut i: usize = 0;
    while i < tools.len()
        invariant
            i <= tools@.len(),
            forall|k: int| 0 <= k < i ==> tools@[k].id != id,
        decreases tools.len() - i,
    {
        if tools[i].id == id {
            proof {
                lemma_first_tool(tools@, id, i as int);
            }
            return Some(i);
        }
        i = i + 1;
    }
    proof {
        lemma_first_tool_none(tools@, id);
    }
    None
}

/// The lines a directory listing shows: the matching enabled groups, then the matching visible
/// bindings of enabled tools, at most `limit` of them.
pub fn select_list_items(
    groups: &Vec<McpGroupRecord>,
    bindings: &Vec<McpToolBindingRecord>,
    tools: &Vec<McpToolRecord>,
    base_path: &str,
    max_depth: i32,
    path_regex_filter: Option<&PathRegexFilter>,
    limit: usize,
) -> (items: Vec<McpListItemSummary>)
    ensures
        items_facts(items@) == first_n(
            listed_groups(groups@, base_path@, max_depth, filter_pattern(path_regex_filter))
                + listed_tools(
                bindings@,
                tools@,
                base_path@,
                max_depth,
                filter_pattern(path_regex_filter),
            ),
            limit as int,
        ),
        forall|i: int| 0 <= i < items@.len() ==> (#[trigger] items@[i]).children_count == 0,
{
    let ghost filter = filter_pattern(path_regex_filter);
    let mut items: Vec<McpListItemSummary> = Vec::new();
    let mut i: usize = 0;
    while i < groups.len()
        invariant
            i <= groups@.len(),
            filter == filter_pattern(path_regex_filter),
            items_facts(items@) == listed_groups(groups@.take(i as int), base_path@, max_depth, filter),
            forall|k: int| 0 <= k < items@.len() ==> (#[trigger] items@[k]).children_count == 0,
        decreases groups.len() - i,
    {
        let g = &groups[i];
        assert(groups@.take(i + 1).drop_last() =~= groups@.take(i as int));
        if g.enabled && path_matches_list_query(base_path, g.path.as_str(), max_depth, path_regex_filter) {
            let item = McpListItemSummary {
                id: uuid_to_hyphenated(g.id),
                item_kind: McpListItemKind::Group,
                path: g.path.clone(),
                name: g.display_name.clone(),
                description_short: clone_opt_string(&g.description_short),
                children_count: 0,
                risk_level: None,
            };
            items.push(item);
            assert(items_facts(items@) =~= items_facts(items@.drop_last()).push(item_facts(item)));
        }
        i = i + 1;
    }
    assert(groups@.take(groups.len() as int) =~= groups@);
    let ghost group_part = items_facts(items@);
    let mut j: usize = 0;
    while j < bindings.len()
        invariant
            j <= bindings@.len(),
            filter == filter_pattern(path_regex_filter),
            group_part == listed_groups(groups@, base_path@, max_depth, filter),
            items_facts(items@) == group_part + listed_tools(
                bindings@.take(j as int),
                tools@,
                base_path@,
                max_depth,
                filter,
            ),
            forall|k: int| 0 <= k < items@.len() ==> (#[trigger] items@[k]).children_count == 0,
        decreases bindings.len() - j,
    {
        let b = &bindings[j];
        assert(bindings@.take(j + 1).drop_last() =~= bindings@.take(j as int));
        if b.visible && path_matches_list_query(base_path, b.group_path.as_str(), max_depth, path_regex_filter) {
            match find_tool(tools, b.tool_record_id) {
                Some(k) => {
                    let t = &tools[k];
                    if t.status == McpToolStatus::Enabled {
                        let name = match &b.display_alias {
                            Some(alias) => alias.clone(),
                            None => t.name.clone(),
                        };
                        let item = McpListItemSummary {
                            id: t.tool_id.clone(),
                            item_kind: McpListItemKind::Tool,
                            path: b.group_path.clone(),
                            name,
                            description_short: Some(t.short_description.clone()),
                            children_count: 0,
                            risk_level: Some(t.risk_level),
                        };
                        items.push(item);
                        assert(items_facts(items@) =~= items_facts(items@.drop_last()).push(
                            item_facts(item),
                        ));
                        assert(item_facts(item) == tool_item(*b, tools@[k as int]));
                        let ghost prev = listed_tools(
                            bindings@.take(j as int),
                            tools@,
                            base_path@,
                            max_depth,
                            filter,
                        );
                        assert(bindings@.take(j + 1).last() == *b);
                        assert(listed_tools(bindings@.take(j + 1), tools@, base_path@, max_depth, filter)
                            == prev.push(tool_item(*b, tools@[k as int])));
                        assert(group_part + prev.push(tool_item(*b, tools@[k as int])) =~= (
                        group_part + prev).push(tool_item(*b, tools@[k as int])));
                    }
                },
                None => {},
            }
        }
        j = j + 1;
    }
    assert(bindings@.take(bindings.len() as int) =~= bindings@);
    items.truncate(limit);
    proof {
        let all = group_part + listed_tools(bindings@, tools@, base_path@, max_depth, filter);
        if limit < all.len() {
            assert(items_facts(items@) =~= all.take(limit as int));
        }
    }
    items
}

/// What a description check reports.
pub struct McpDescriptionCheckResult {
    pub accepted: bool,
    pub current_des_id: Option<String>,
}

/// The result of checking a description id against a tool: accepted when the tool does not
/// require one or the id given is the current one; the current id is reported back.
pub fn description_check(tool: &McpToolRecord, des_id: Option<&str>) -> (r: McpDescriptionCheckResult)
    ensures
        r.accepted == (!tool.des_id_required || (des_id matches Some(d) && d@ == tool.des_id@)),
        r.current_des_id matches Some(c) && c@ == tool.des_id@,
{
    let accepted = description_check_accepted(tool.des_id_required, tool.des_id.as_str(), des_id);
    McpDescriptionCheckResult { accepted, current_des_id: Some(tool.des_id.clone()) }
}

/// Settings of the MCP meta tools (`list`, `get`, `call`) of a workspace.
pub struct UpdateMcpMetaToolConfigCommand {
    pub actor_user_id: u128,
    pub list_default_limit: i32,
    pub list_max_depth: i32,
    pub list_regex_enabled: bool,
    pub list_regex_max_length: i32,
    pub list_return_fields: JsonValue,
    pub get_include_mapping_summary: bool,
    pub get_include_interface_summary: bool,
    pub call_default_des_id_policy: String,
    pub call_high_risk_requires_des_id: bool,
    pub call_validation_error_format: String,
}

pub open spec fn des_id_policy_ok(v: Seq<char>) -> bool {
    v == "tool_config"@ || v == "required"@ || v == "optional"@ || v == "disabled"@
}

pub open spec fn validation_error_format_ok(v: Seq<char>) -> bool {
    v == "structured"@ || v == "field_errors"@
}

/// The first setting of a meta tool configuration that is refused, by the field it names.
pub open spec fn meta_config_error(c: UpdateMcpMetaToolConfigCommand) -> Option<&'static str> {
    if c.list_default_limit <= 0 {
        Some("list_default_limit")
    } else if c.list_max_depth <= 0 {
        Some("list_max_depth")
    } else if c.list_regex_max_length <= 0 {
        Some("list_regex_max_length")
    } else if !list_return_fields_ok(c.list_return_fields@) {
        Some("list_return_fields")
    } else if !des_id_policy_ok(c.call_default_des_id_policy@) {
        Some("call_default_des_id_policy")
    } else if !validation_error_format_ok(c.call_validation_error_format@) {
        Some("call_validation_error_format")
    } else {
        None
    }
}

/// Checks a meta tool configuration, setting by setting, as an update does before storing it.
pub fn validate_meta_tool_config(command: &UpdateMcpMetaToolConfigCommand) -> (r: Result<
    (),
    ControlPlaneError,
>)
    ensures
        meta_config_error(*command) is None ==> r is Ok,
        meta_config_error(*command) is Some ==> r == Err::<(), _>(
            ControlPlaneError::InvalidInput(meta_config_error(*command)->0),
        ),
{
    validate_positive(command.list_default_limit, "list_default_limit")?;
    validate_positive(command.list_max_depth, "list_max_depth")?;
    validate_positive(command.list_regex_max_length, "list_regex_max_length")?;
    validate_list_return_fields(&command.list_return_fields)?;
    let policy = command.call_default_des_id_policy.as_str();
    if !(str_eq(policy, "tool_config") || str_eq(policy, "required") || str_eq(policy, "optional")
        || str_eq(policy, "disabled")) {
        return Err(ControlPlaneError::InvalidInput("call_default_des_id_policy"));
    }
    let format = command.call_validation_error_format.as_str();
    if !(str_eq(format, "structured") || str_eq(format, "field_errors")) {
        return Err(ControlPlaneError::InvalidInput("call_validation_error_format"));
    }
    Ok(())
}

/// The id a new tool gets: the one given when it is not blank, else a readable one made from the
/// suggested group path and the name; it must then be a valid identifier.
pub fn resolve_tool_id(
    tool_id: Option<&str>,
    suggested_group_path: Option<&str>,
    name: &str,
) -> (r: Result<String, ControlPlaneError>)
    ensures
        tool_id is Some && !is_blank(tool_id->0@) ==> match r {
            Ok(id) => id@ == tool_id->0@,
            Err(e) => !identifier_ok(tool_id->0@) && e == ControlPlaneError::InvalidInput(
                "tool_id",
            ),
        },
        !(tool_id is Some && !is_blank(tool_id->0@)) && tool_id_candidate(
            crate::json::opt_str_view(suggested_group_path),
            name@,
        ).len() > 0 ==> match r {
            Ok(id) => id@ == first_chars(
                tool_id_candidate(crate::json::opt_str_view(suggested_group_path), name@),
                255,
            ),
            Err(e) => e == ControlPlaneError::InvalidInput("tool_id"),
        },
        r matches Ok(id) ==> identifier_ok(id@),
{
    let id = match tool_id {
        Some(t) if !is_blank_text(t) => to_string(t),
        _ => readable_tool_id(suggested_group_path, name),
    };
    validate_identifier(id.as_str(), "tool_id")?;
    Ok(id)
}

/// The service that manages a workspace's MCP instances, groups, tools and bindings over its
/// repository.
pub struct McpManagementService<R> {
    pub repository: R,
}

impl<R> McpManagementService<R> {
    pub fn new(repository: R) -> (s: Self)
        ensures
            s.repository == repository,
    {
        Self { repository }
    }
}


/// The interface catalog names each interface once, with a name and a description; a bindable
/// interface names the permission it needs and is not disabled, any other says why it is
/// disabled.
pub proof fn law_interface_catalog_consistent()
    ensures
        forall|i: int, j: int|
            0 <= i < j < catalog_facts().len() ==> (#[trigger] catalog_facts()[i]).interface_id
                != (#[trigger] catalog_facts()[j]).interface_id,
        forall|i: int|
            0 <= i < catalog_facts().len() ==> {
                let e = #[trigger] catalog_facts()[i];
                &&& e.name.len() > 0
                &&& e.short_description.len() > 0
                &&& e.bindable ==> e.permission_code is Some && e.disabled_reason is None
                &&& !e.bindable ==> e.disabled_reason is Some
            },
{
    reveal_strlit("settings.system_runtime.get_profile");
    reveal_strlit("settings.permission_catalog.list");
    reveal_strlit("settings.file_storages.list");
    reveal_strlit("Get system runtime profile");
    reveal_strlit("List permission catalog");
    reveal_strlit("List file storages");
    reveal_strlit("Read system runtime topology and locale profile.");
    reveal_strlit("Read the backend permission catalog.");
    reveal_strlit(
        "Read configured file storage backends; disabled until root-only service contract exposes an explicit permission path.",
    );
    let c = catalog_facts();
    assert(c[0].interface_id.len() != c[1].interface_id.len());
    assert(c[0].interface_id.len() != c[2].interface_id.len());
    assert(c[1].interface_id.len() != c[2].interface_id.len());
}


/// A path under a path that lies under a base lies under the base too (unless the middle path
/// is the root `/` and the base is not).
pub proof fn law_path_matches_transitive(a: Seq<char>, b: Seq<char>, c: Seq<char>)
    requires
        spec_path_matches(a, b),
        spec_path_matches(b, c),
        !(b == "/"@ && a != "/"@),
    ensures
        spec_path_matches(a, c),
{
    reveal_strlit("/");
    if a != "/"@ && c != a && b != a && c != b {
        assert(b.len() > a.len());
        assert(c.len() > b.len());
        assert(c.take(b.len() as int) == b);
        assert(b.take(a.len() as int) == a);
        assert forall|k: int| 0 <= k < a.len() implies c.take(a.len() as int)[k] == a[k] by {
            assert(c[k] == c.take(b.len() as int)[k]);
            assert(b[k] == b.take(a.len() as int)[k]);
        }
        assert(c.take(a.len() as int) =~= a);
        assert(c[a.len() as int] == c.take(b.len() as int)[a.len() as int]);
        assert(b[a.len() as int] == '/');
    }
}

/// The settings of the `list` meta tool that a directory listing reads.
pub struct McpListSettings {
    pub list_default_limit: i32,
    pub list_max_depth: i32,
    pub list_regex_enabled: bool,
    pub list_regex_max_length: i32,
}

/// The instance a directory listing is asked for, as far as the listing reads it.
pub struct McpListedInstance {
    pub status: McpInstanceStatus,
    pub default_entry_path: String,
}

/// The path a listing starts from: the one asked for, else the instance's entry path.
pub open spec fn listing_base(path: Option<&str>, instance: McpListedInstance) -> Seq<char> {
    match path {
        Some(p) => p@,
        None => instance.default_entry_path@,
    }
}

/// How many lines a listing shows: the number asked for, else the configured default.
pub open spec fn listing_limit(limit: Option<usize>, settings: McpListSettings) -> int {
    match limit {
        Some(n) => n as int,
        None => (settings.list_default_limit as usize) as int,
    }
}

/// The directory listing of an instance: a path pattern the settings refuse is refused first;
/// then a listing that names no instance, names one that is not found, or one that is not
/// enabled; otherwise the lines [`select_list_items`] gives from the path asked for (else the
/// instance's entry path), at most the number asked for (else the configured default), none of
/// them counting children.
pub fn list_directory_items(
    settings: &McpListSettings,
    instance_requested: bool,
    instance: Option<&McpListedInstance>,
    path: Option<&str>,
    path_regex: Option<&str>,
    limit: Option<usize>,
    groups: &Vec<McpGroupRecord>,
    bindings: &Vec<McpToolBindingRecord>,
    tools: &Vec<McpToolRecord>,
) -> (r: Result<Vec<McpListItemSummary>, ControlPlaneError>)
    ensures
        path_regex matches Some(p) && !regex_filter_ok(p@, settings.list_regex_enabled, settings.list_regex_max_length)
            ==> r == Err::<Vec<McpListItemSummary>, _>(ControlPlaneError::InvalidInput("path_regex")),
        !(path_regex matches Some(p) && !regex_filter_ok(
            p@,
            settings.list_regex_enabled,
            settings.list_regex_max_length,
        )) ==> if !instance_requested {
            r == Err::<Vec<McpListItemSummary>, _>(ControlPlaneError::InvalidInput("instance_id"))
        } else {
            match instance {
                None => r == Err::<Vec<McpListItemSummary>, _>(ControlPlaneError::NotFound("mcp_instance")),
                Some(i) => if i.status != McpInstanceStatus::Enabled {
                    r == Err::<Vec<McpListItemSummary>, _>(ControlPlaneError::NotFound("mcp_instance"))
                } else {
                    let pattern = match path_regex {
                        Some(p) => Some(p@),
                        None => None,
                    };
                    r matches Ok(items) && (forall|k: int| 0 <= k < items@.len() ==> (#[trigger] items@[k]).children_count == 0)
                        && items_facts(items@) == first_n(
                        listed_groups(groups@, listing_base(path, *i), settings.list_max_depth, pattern)
                            + listed_tools(
                            bindings@,
                            tools@,
                            listing_base(path, *i),
                            settings.list_max_depth,
                            pattern,
                        ),
                        listing_limit(limit, *settings),
                    )
                },
            }
        },
{
    let filter = compile_list_path_regex(path_regex, settings.list_regex_enabled, settings.list_regex_max_length)?;
    if !instance_requested {
        return Err(ControlPlaneError::InvalidInput("instance_id"));
    }
    let listed = match instance {
        Some(i) => i,
        None => {
            return Err(ControlPlaneError::NotFound("mcp_instance"));
        },
    };
    if listed.status != McpInstanceStatus::Enabled {
        return Err(ControlPlaneError::NotFound("mcp_instance"));
    }
    let base_path = match path {
        Some(p) => p,
        None => listed.default_entry_path.as_str(),
    };
    let count = match limit {
        Some(n) => n,
        None => settings.list_default_limit as usize,
    };
    let items = match &filter {
        Some(f) => select_list_items(groups, bindings, tools, base_path, settings.list_max_depth, Some(f), count),
        None => select_list_items(groups, bindings, tools, base_path, settings.list_max_depth, None, count),
    };
    Ok(items)
}

/// The id of a new tool: the one asked for where it is not blank, else one made readable from
/// the suggested group path and the tool's name; an id that is not a valid identifier is
/// refused with `InvalidInput("tool_id")`.
pub fn new_tool_id(tool_id: Option<&str>, suggested_group_path: Option<&str>, name: &str) -> (r: Result<
    String,
    ControlPlaneError,
>)
    ensures
        match tool_id {
            Some(t) if !is_blank(t@) => if identifier_ok(t@) {
                r matches Ok(id) && id@ == t@
            } else {
                r == Err::<String, _>(ControlPlaneError::InvalidInput("tool_id"))
            },
            _ => match r {
                Ok(id) => identifier_ok(id@) && {
                    let candidate = tool_id_candidate(crate::json::opt_str_view(suggested_group_path), name@);
                    &&& candidate.len() > 0 ==> id@ == first_chars(candidate, 255)
                    &&& candidate.len() == 0 ==> is_short_id(id@)
                },
                Err(e) => e == ControlPlaneError::InvalidInput("tool_id"),
            },
        },
{
    let id = match tool_id {
        Some(t) => if !is_blank_text(t) {
            to_string(t)
        } else {
            readable_tool_id(suggested_group_path, name)
        },
        None => readable_tool_id(suggested_group_path, name),
    };
    validate_identifier(id.as_str(), "tool_id")?;
    Ok(id)
}

} // verus!
