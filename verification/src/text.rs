//! Character-level text helpers with their specifications over `Seq<char>`.

use vstd::prelude::*;
use vstd::utf8::{encode_scalar, encode_utf8};

verus! {

pub assume_specification[ std::string::String::push ](s: &mut std::string::String, ch: char)
    ensures
        final(s)@ == old(s)@.push(ch),
;

pub assume_specification[ std::string::String::push_str ](s: &mut std::string::String, string: &str)
    ensures
        final(s)@ == old(s)@ + string@,
;

/// Unicode `White_Space` characters, as `char::is_whitespace` classifies them.
pub open spec fn is_whitespace(c: char) -> bool {
    let n = c as u32;
    ||| 0x09 <= n <= 0x0d
    ||| n == 0x20
    ||| n == 0x85
    ||| n == 0xa0
    ||| n == 0x1680
    ||| 0x2000 <= n <= 0x200a
    ||| n == 0x2028
    ||| n == 0x2029
    ||| n == 0x202f
    ||| n == 0x205f
    ||| n == 0x3000
}

pub fn char_is_whitespace(c: char) -> (b: bool)
    ensures
        b == is_whitespace(c),
{
    let n = c as u32;
    (0x09 <= n && n <= 0x0d) || n == 0x20 || n == 0x85 || n == 0xa0 || n == 0x1680 || (0x2000
        <= n && n <= 0x200a) || n == 0x2028 || n == 0x2029 || n == 0x202f || n == 0x205f || n
        == 0x3000
}

pub open spec fn is_ascii_alphanumeric(c: char) -> bool {
    ('0' <= c && c <= '9') || ('a' <= c && c <= 'z') || ('A' <= c && c <= 'Z')
}

pub fn char_is_ascii_alphanumeric(c: char) -> (b: bool)
    ensures
        b == is_ascii_alphanumeric(c),
{
    ('0' <= c && c <= '9') || ('a' <= c && c <= 'z') || ('A' <= c && c <= 'Z')
}

pub open spec fn ascii_lower(c: char) -> char {
    if 'A' <= c && c <= 'Z' {
        ((c as u32) + 32) as char
    } else {
        c
    }
}

pub fn char_to_ascii_lowercase(c: char) -> (r: char)
    ensures
        r == ascii_lower(c),
{
    if 'A' <= c && c <= 'Z' {
        let n = (c as u32) + 32;
        assert(0x61 <= n <= 0x7a);
        proof {
            assert(((c as u32) + 32) as char == n as char);
        }
        char_from_ascii_code(n)
    } else {
        c
    }
}

pub fn char_from_ascii_code(n: u32) -> (c: char)
    requires
        n < 128,
    ensures
        c == n as char,
{
    (n as u8) as char
}

pub open spec fn lower_seq(s: Seq<char>) -> Seq<char> {
    s.map_values(|c: char| ascii_lower(c))
}

/// Number of leading whitespace characters.
pub open spec fn leading_ws(s: Seq<char>) -> nat
    decreases s.len(),
{
    if s.len() > 0 && is_whitespace(s[0]) {
        1 + leading_ws(s.drop_first())
    } else {
        0
    }
}

/// Number of trailing whitespace characters.
pub open spec fn trailing_ws(s: Seq<char>) -> nat
    decreases s.len(),
{
    if s.len() > 0 && is_whitespace(s.last()) {
        1 + trailing_ws(s.drop_last())
    } else {
        0
    }
}

pub open spec fn trim_start(s: Seq<char>) -> Seq<char> {
    s.skip(leading_ws(s) as int)
}

pub open spec fn trim_end(s: Seq<char>) -> Seq<char> {
    s.take(s.len() - trailing_ws(s))
}

/// `str::trim`: leading and trailing whitespace removed.
pub open spec fn trim(s: Seq<char>) -> Seq<char> {
    trim_end(trim_start(s))
}

pub open spec fn is_blank(s: Seq<char>) -> bool {
    forall|i: int| 0 <= i < s.len() ==> is_whitespace(#[trigger] s[i])
}

pub proof fn lemma_leading_ws(s: Seq<char>)
    ensures
        leading_ws(s) <= s.len(),
        forall|i: int| 0 <= i < leading_ws(s) ==> is_whitespace(#[trigger] s[i]),
        leading_ws(s) < s.len() ==> !is_whitespace(s[leading_ws(s) as int]),
    decreases s.len(),
{
    if s.len() > 0 && is_whitespace(s[0]) {
        lemma_leading_ws(s.drop_first());
        assert forall|i: int| 0 <= i < leading_ws(s) implies is_whitespace(#[trigger] s[i]) by {
            if i > 0 {
                assert(s[i] == s.drop_first()[i - 1]);
            }
        }
    }
}

pub proof fn lemma_trailing_ws(s: Seq<char>)
    ensures
        trailing_ws(s) <= s.len(),
        forall|i: int| s.len() - trailing_ws(s) <= i < s.len() ==> is_whitespace(#[trigger] s[i]),
        trailing_ws(s) < s.len() ==> !is_whitespace(s[s.len() - trailing_ws(s) - 1]),
    decreases s.len(),
{
    if s.len() > 0 && is_whitespace(s.last()) {
        lemma_trailing_ws(s.drop_last());
        assert forall|i: int|
            s.len() - trailing_ws(s) <= i < s.len() implies is_whitespace(#[trigger] s[i]) by {
            if i < s.len() - 1 {
                assert(s[i] == s.drop_last()[i]);
            }
        }
    }
}

/// A whitespace-only text trims to nothing, and only such a text does.
pub proof fn lemma_trim_empty_iff_blank(s: Seq<char>)
    ensures
        (trim(s).len() == 0) == is_blank(s),
{
    lemma_leading_ws(s);
    let t = trim_start(s);
    lemma_trailing_ws(t);
    if is_blank(s) {
        if leading_ws(s) < s.len() {
            assert(is_whitespace(s[leading_ws(s) as int]));
        }
    } else {
        let k = choose|i: int| 0 <= i < s.len() && !is_whitespace(s[i]);
        if leading_ws(s) == s.len() {
            assert(is_whitespace(s[k]));
        }
        assert(t.len() > 0);
        assert(!is_whitespace(t[0]));
        if trailing_ws(t) == t.len() {
            assert(is_whitespace(t[0]));
        }
    }
}

/// The characters of a text, one per element.
pub fn chars_of(text: &str) -> (out: Vec<char>)
    ensures
        out@ == text@,
{
    let mut out: Vec<char> = Vec::new();
    for c in iter: text.chars()
        invariant
            out@ == iter.seq().take(iter.index() as int),
            iter.seq() == text@,
    {
        out.push(c);
        assert(iter.seq().take(iter.index() + 1) == iter.seq().take(iter.index() as int).push(c));
    }
    out
}

/// A `String` made of `chars[from..to]`.
pub fn string_from_chars(chars: &Vec<char>, from: usize, to: usize) -> (out: String)
    requires
        from <= to <= chars.len(),
    ensures
        out@ == chars@.subrange(from as int, to as int),
{
    let mut out = String::new();
    let mut i = from;
    while i < to
        invariant
            from <= i <= to <= chars.len(),
            out@ == chars@.subrange(from as int, i as int),
        decreases to - i,
    {
        out.push(chars[i]);
        assert(chars@.subrange(from as int, i + 1) == chars@.subrange(from as int, i as int).push(
            chars@[i as int],
        ));
        i = i + 1;
    }
    out
}

/// `str::trim` followed by `to_string`.
pub fn trim_to_string(text: &str) -> (out: String)
    ensures
        out@ == trim(text@),
{
    let chars = chars_of(text);
    let ghost s = text@;
    proof {
        lemma_leading_ws(s);
        lemma_trailing_ws(trim_start(s));
    }
    let mut start: usize = 0;
    while start < chars.len() && char_is_whitespace(chars[start])
        invariant
            chars@ == s,
            start <= leading_ws(s),
            leading_ws(s) <= s.len(),
            forall|i: int| 0 <= i < leading_ws(s) ==> is_whitespace(#[trigger] s[i]),
            leading_ws(s) < s.len() ==> !is_whitespace(s[leading_ws(s) as int]),
        decreases chars.len() - start,
    {
        start = start + 1;
    }
    assert(start == leading_ws(s));
    let ghost t = trim_start(s);
    let mut end: usize = chars.len();
    while end > start && char_is_whitespace(chars[end - 1])
        invariant
            chars@ == s,
            t == s.skip(start as int),
            start <= end <= chars.len(),
            end - start >= t.len() - trailing_ws(t),
            trailing_ws(t) <= t.len(),
            forall|i: int| t.len() - trailing_ws(t) <= i < t.len() ==> is_whitespace(#[trigger] t[i]),
            trailing_ws(t) < t.len() ==> !is_whitespace(t[t.len() - trailing_ws(t) - 1]),
        decreases end,
    {
        assert(t[end - 1 - start] == s[end - 1]);
        end = end - 1;
    }
    proof {
        if end - start > t.len() - trailing_ws(t) {
            assert(t[end - 1 - start] == s[end - 1]);
        }
    }
    let out = string_from_chars(&chars, start, end);
    assert(out@ =~= trim(s));
    out
}

/// Whether a text is empty once trimmed.
pub fn is_blank_text(text: &str) -> (b: bool)
    ensures
        b == (trim(text@).len() == 0),
        b == is_blank(text@),
{
    proof {
        lemma_trim_empty_iff_blank(text@);
    }
    let chars = chars_of(text);
    let mut i: usize = 0;
    while i < chars.len()
        invariant
            chars@ == text@,
            i <= chars.len(),
            forall|k: int| 0 <= k < i ==> is_whitespace(#[trigger] text@[k]),
        decreases chars.len() - i,
    {
        if !char_is_whitespace(chars[i]) {
            assert(!is_whitespace(text@[i as int]));
            proof {
                lemma_trim_empty_iff_blank(text@);
            }
            return false;
        }
        i = i + 1;
    }
    true
}

/// Equality of two texts.
pub fn str_eq(a: &str, b: &str) -> (r: bool)
    ensures
        r == (a@ == b@),
{
    let x = chars_of(a);
    let y = chars_of(b);
    if x.len() != y.len() {
        return false;
    }
    let mut i: usize = 0;
    while i < x.len()
        invariant
            x@ == a@,
            y@ == b@,
            x.len() == y.len(),
            i <= x.len(),
            forall|k: int| 0 <= k < i ==> x@[k] == y@[k],
        decreases x.len() - i,
    {
        if x[i] != y[i] {
            return false;
        }
        i = i + 1;
    }
    assert(a@ =~= b@);
    true
}

/// Whether `prefix` starts `s`.
pub fn starts_with(s: &str, prefix: &str) -> (r: bool)
    ensures
        r == (prefix@.len() <= s@.len() && s@.take(prefix@.len() as int) == prefix@),
{
    let x = chars_of(s);
    let p = chars_of(prefix);
    if p.len() > x.len() {
        return false;
    }
    let mut i: usize = 0;
    while i < p.len()
        invariant
            x@ == s@,
            p@ == prefix@,
            p.len() <= x.len(),
            i <= p.len(),
            forall|k: int| 0 <= k < i ==> x@[k] == p@[k],
        decreases p.len() - i,
    {
        if x[i] != p[i] {
            assert(s@.take(prefix@.len() as int)[i as int] != prefix@[i as int]);
            return false;
        }
        i = i + 1;
    }
    assert(s@.take(prefix@.len() as int) =~= prefix@);
    true
}

/// Whether `c` occurs in `s`.
pub fn contains_char(s: &str, c: char) -> (r: bool)
    ensures
        r == s@.contains(c),
{
    let x = chars_of(s);
    let mut i: usize = 0;
    while i < x.len()
        invariant
            x@ == s@,
            i <= x.len(),
            forall|k: int| 0 <= k < i ==> x@[k] != c,
        decreases x.len() - i,
    {
        if x[i] == c {
            assert(s@[i as int] == c);
            return true;
        }
        i = i + 1;
    }
    false
}

pub open spec fn replace_char_seq(s: Seq<char>, from: char, to: char) -> Seq<char> {
    s.map_values(|c: char| if c == from { to } else { c })
}

/// `str::replace` of one character by another.
pub fn replace_char(s: &str, from: char, to: char) -> (out: String)
    ensures
        out@ == replace_char_seq(s@, from, to),
{
    let x = chars_of(s);
    let mut out = String::new();
    let mut i: usize = 0;
    while i < x.len()
        invariant
            x@ == s@,
            i <= x.len(),
            out@ == replace_char_seq(s@.take(i as int), from, to),
        decreases x.len() - i,
    {
        let c = x[i];
        if c == from {
            out.push(to);
        } else {
            out.push(c);
        }
        assert(s@.take(i + 1) == s@.take(i as int).push(c));
        i = i + 1;
    }
    assert(s@.take(x.len() as int) == s@);
    out
}

/// `str::to_ascii_lowercase`.
pub fn to_ascii_lowercase(s: &str) -> (out: String)
    ensures
        out@ == lower_seq(s@),
{
    let x = chars_of(s);
    let mut out = String::new();
    let mut i: usize = 0;
    while i < x.len()
        invariant
            x@ == s@,
            i <= x.len(),
            out@ == lower_seq(s@.take(i as int)),
        decreases x.len() - i,
    {
        let c = char_to_ascii_lowercase(x[i]);
        out.push(c);
        assert(s@.take(i + 1) == s@.take(i as int).push(x@[i as int]));
        i = i + 1;
    }
    assert(s@.take(x.len() as int) == s@);
    out
}

/// A copy of a text as a `String`.
pub fn to_string(s: &str) -> (out: String)
    ensures
        out@ == s@,
{
    s.to_owned()
}

/// Whether `s` is one of `values`.
pub fn is_one_of(s: &str, values: &[&str]) -> (r: bool)
    ensures
        r == exists|i: int| 0 <= i < values@.len() && values@[i]@ == s@,
{
    let mut i: usize = 0;
    while i < values.len()
        invariant
            i <= values@.len(),
            forall|k: int| 0 <= k < i ==> values@[k]@ != s@,
        decreases values.len() - i,
    {
        if str_eq(values[i], s) {
            return true;
        }
        i = i + 1;
    }
    false
}

broadcast use vstd::utf8::char_is_scalar;

/// Number of bytes of the UTF-8 encoding of a text.
pub open spec fn utf8_byte_len(s: Seq<char>) -> nat {
    encode_utf8(s).len()
}

pub open spec fn char_width(c: char) -> nat {
    encode_scalar(c as u32).len()
}

pub proof fn lemma_encode_push(s: Seq<char>, c: char)
    ensures
        utf8_byte_len(s.push(c)) == utf8_byte_len(s) + char_width(c),
    decreases s.len(),
{
    if s.len() > 0 {
        assert(s.push(c).drop_first() =~= s.drop_first().push(c));
        assert(s.push(c)[0] == s[0]);
        lemma_encode_push(s.drop_first(), c);
    } else {
        assert(s.push(c).drop_first() =~= Seq::<char>::empty());
        assert(s.push(c)[0] == c);
        assert(encode_utf8(Seq::<char>::empty()) =~= Seq::<u8>::empty());
        assert(encode_utf8(s) =~= Seq::<u8>::empty());
    }
}

pub fn char_utf8_width(c: char) -> (w: usize)
    ensures
        w == char_width(c),
        1 <= w <= 4,
{
    let n = c as u32;
    if n <= 0x7f {
        1
    } else if n <= 0x7ff {
        2
    } else if n <= 0xffff {
        3
    } else {
        4
    }
}


/// Whether the UTF-8 encoding of a prefix is no longer than that of the whole text.
pub proof fn lemma_prefix_byte_len(s: Seq<char>, k: int)
    requires
        0 <= k <= s.len(),
    ensures
        utf8_byte_len(s.take(k)) <= utf8_byte_len(s),
    decreases s.len() - k,
{
    if k < s.len() {
        lemma_encode_push(s.take(k), s[k]);
        assert(s.take(k).push(s[k]) =~= s.take(k + 1));
        lemma_prefix_byte_len(s, k + 1);
    } else {
        assert(s.take(k) =~= s);
    }
}

/// Whether the UTF-8 encoding of a text is longer than `limit` bytes (`str::len() > limit`).
pub fn utf8_len_exceeds(value: &str, limit: usize) -> (b: bool)
    ensures
        b == (utf8_byte_len(value@) > limit),
{
    let chars = chars_of(value);
    let ghost s = value@;
    let mut used: usize = 0;
    let mut i: usize = 0;
    assert(s.take(0) =~= Seq::<char>::empty());
    assert(encode_utf8(Seq::<char>::empty()) =~= Seq::<u8>::empty());
    while i < chars.len()
        invariant
            chars@ == s,
            s == value@,
            i <= chars.len(),
            used == utf8_byte_len(s.take(i as int)),
            used <= limit,
        decreases chars.len() - i,
    {
        let w = char_utf8_width(chars[i]);
        proof {
            lemma_encode_push(s.take(i as int), s[i as int]);
            assert(s.take(i as int).push(s[i as int]) =~= s.take(i + 1));
        }
        if w > limit - used {
            proof {
                lemma_prefix_byte_len(s, i + 1);
                assert(utf8_byte_len(s.take(i + 1)) == used + w);
                assert(utf8_byte_len(s.take(i + 1)) <= utf8_byte_len(s));
            }
            return true;
        }
        used = used + w;
        i = i + 1;
    }
    assert(s.take(i as int) =~= s);
    false
}

/// What splits a text into words.
pub enum Separator {
    Char(char),
    Whitespace,
}

pub open spec fn is_sep(sep: Separator, c: char) -> bool {
    match sep {
        Separator::Char(x) => c == x,
        Separator::Whitespace => is_whitespace(c),
    }
}

/// The maximal runs of non-separator characters, in order: `split(sep)` with the empty parts
/// left out (for whitespace, `split_whitespace`).
pub open spec fn words(s: Seq<char>, sep: Separator) -> Seq<Seq<char>>
    decreases s.len(),
{
    if s.len() == 0 {
        seq![]
    } else {
        let w = words(s.drop_last(), sep);
        let c = s.last();
        if is_sep(sep, c) {
            w
        } else if s.len() >= 2 && !is_sep(sep, s[s.len() - 2]) {
            w.drop_last().push(w.last().push(c))
        } else {
            w.push(seq![c])
        }
    }
}

pub open spec fn string_views(v: Seq<String>) -> Seq<Seq<char>> {
    v.map_values(|w: String| w@)
}

fn is_separator(sep: &Separator, c: char) -> (b: bool)
    ensures
        b == is_sep(*sep, c),
{
    match sep {
        Separator::Char(x) => c == *x,
        Separator::Whitespace => char_is_whitespace(c),
    }
}

/// Splits a text into its words.
pub fn split_words(value: &str, sep: Separator) -> (out: Vec<String>)
    ensures
        string_views(out@) == words(value@, sep),
{
    let chars = chars_of(value);
    let ghost s = value@;
    let mut list: Vec<String> = Vec::new();
    let mut cur = String::new();
    let mut i: usize = 0;
    assert(s.take(0) =~= Seq::<char>::empty());
    while i < chars.len()
        invariant
            chars@ == s,
            i <= chars.len(),
            cur@.len() > 0 ==> (words(s.take(i as int), sep) == string_views(list@).push(cur@)
                && i > 0 && !is_sep(sep, s[i - 1])),
            cur@.len() == 0 ==> (words(s.take(i as int), sep) == string_views(list@) && (i == 0
                || is_sep(sep, s[i - 1]))),
        decreases chars.len() - i,
    {
        let c = chars[i];
        let ghost t = s.take(i + 1);
        assert(t.drop_last() =~= s.take(i as int));
        assert(t.last() == c);
        if is_separator(&sep, c) {
            if !cur.as_str().is_empty() {
                let done = cur;
                list.push(done);
                cur = String::new();
                assert(string_views(list@) =~= string_views(list@.drop_last()).push(done@));
            }
        } else {
            let ghost before = cur@;
            cur.push(c);
            proof {
                if before.len() > 0 {
                    assert(t[t.len() - 2] == s[i - 1]);
                    let w = words(s.take(i as int), sep);
                    assert(w == string_views(list@).push(before));
                    assert(w.drop_last() =~= string_views(list@));
                    assert(w.last() == before);
                    assert(words(t, sep) == w.drop_last().push(w.last().push(c)));
                    assert(words(t, sep) == string_views(list@).push(cur@));
                } else {
                    if i > 0 {
                        assert(t[t.len() - 2] == s[i - 1]);
                    }
                    assert(cur@ =~= seq![c]);
                    assert(words(t, sep) == string_views(list@).push(cur@));
                }
            }
        }
        i = i + 1;
    }
    assert(s.take(chars.len() as int) =~= s);
    if !cur.as_str().is_empty() {
        let done = cur;
        list.push(done);
        assert(string_views(list@) =~= string_views(list@.drop_last()).push(done@));
    }
    list
}

/// The parts written one after another with the separator between them.
pub open spec fn join(parts: Seq<Seq<char>>, sep: Seq<char>) -> Seq<char>
    decreases parts.len(),
{
    if parts.len() == 0 {
        seq![]
    } else if parts.len() == 1 {
        parts[0]
    } else {
        join(parts.drop_last(), sep) + sep + parts.last()
    }
}

/// `parts.join(sep)`.
pub fn join_strings(parts: &Vec<String>, sep: &str) -> (out: String)
    ensures
        out@ == join(string_views(parts@), sep@),
{
    let mut out = String::new();
    let mut i: usize = 0;
    while i < parts.len()
        invariant
            i <= parts.len(),
            out@ == join(string_views(parts@.take(i as int)), sep@),
        decreases parts.len() - i,
    {
        if i > 0 {
            out.push_str(sep);
        }
        out.push_str(parts[i].as_str());
        proof {
            let p = string_views(parts@.take(i + 1));
            assert(p.drop_last() =~= string_views(parts@.take(i as int)));
            assert(p.last() == parts@[i as int]@);
            if i == 0 {
                assert(string_views(parts@.take(0)) =~= Seq::<Seq<char>>::empty());
            }
        }
        i = i + 1;
    }
    assert(parts@.take(parts.len() as int) =~= parts@);
    out
}

/// Whether `needle` occurs in `hay` as a run of consecutive characters.
pub open spec fn contains_seq(hay: Seq<char>, needle: Seq<char>) -> bool {
    exists|i: int| 0 <= i && i + needle.len() <= hay.len() && #[trigger] hay.subrange(i, i + needle.len()) == needle
}

pub fn matches_at(h: &Vec<char>, n: &Vec<char>, i: usize) -> (b: bool)
    requires
        i + n@.len() <= h@.len(),
    ensures
        b == (h@.subrange(i as int, i + n@.len()) == n@),
{
    let hl = h.len();
    let mut j: usize = 0;
    while j < n.len()
        invariant
            hl == h@.len(),
            i + n@.len() <= h@.len(),
            j <= n@.len(),
            forall|m: int| 0 <= m < j ==> h@[i + m] == n@[m],
        decreases n.len() - j,
    {
        assert(i + j < h@.len());
        if h[i + j] != n[j] {
            assert(h@.subrange(i as int, i + n@.len())[j as int] != n@[j as int]);
            return false;
        }
        j = j + 1;
    }
    assert(h@.subrange(i as int, i + n@.len()) =~= n@);
    true
}

/// `str::contains` with a text pattern.
pub fn contains_str(hay: &str, needle: &str) -> (b: bool)
    ensures
        b == contains_seq(hay@, needle@),
{
    let h = chars_of(hay);
    let n = chars_of(needle);
    if n.len() > h.len() {
        return false;
    }
    if n.len() == 0 {
        assert(hay@.subrange(0int, 0int + needle@.len()) =~= needle@);
        return true;
    }
    let mut i: usize = 0;
    while i <= h.len() - n.len()
        invariant
            h@ == hay@,
            n@ == needle@,
            n.len() <= h.len(),
            i <= h.len() - n.len() + 1,
            n.len() > 0,
            forall|k: int| 0 <= k < i ==> #[trigger] hay@.subrange(k, k + needle@.len()) != needle@,
        decreases h.len() - i,
    {
        if matches_at(&h, &n, i) {
            return true;
        }
        i = i + 1;
    }
    proof {
        assert forall|k: int| 0 <= k && k + needle@.len() <= hay@.len() implies #[trigger] hay@.subrange(k, k + needle@.len()) != needle@ by {
            assert(k < i);
        }
    }
    false
}
/// The first position at or after `i` where `pat` occurs in `s`.
pub open spec fn find_from(s: Seq<char>, pat: Seq<char>, i: int) -> Option<int>
    decreases s.len() + 1 - i,
{
    if i < 0 || i + pat.len() > s.len() {
        None
    } else if s.subrange(i, i + pat.len()) == pat {
        Some(i)
    } else {
        find_from(s, pat, i + 1)
    }
}

pub proof fn lemma_find_from_bounds(s: Seq<char>, pat: Seq<char>, i: int)
    ensures
        find_from(s, pat, i) matches Some(k) ==> i <= k && k + pat.len() <= s.len() && 0 <= k,
    decreases s.len() + 1 - i,
{
    if !(i < 0 || i + pat.len() > s.len()) && s.subrange(i, i + pat.len()) != pat {
        lemma_find_from_bounds(s, pat, i + 1);
    }
}

/// Finds the first occurrence of `n` in `h` at or after `start`.
pub fn find_chars(h: &Vec<char>, n: &Vec<char>, start: usize) -> (r: Option<usize>)
    ensures
        match r {
            Some(k) => find_from(h@, n@, start as int) == Some(k as int),
            None => find_from(h@, n@, start as int) is None,
        },
{
    if n.len() > h.len() || start > h.len() - n.len() {
        return None;
    }
    let mut i = start;
    while i <= h.len() - n.len()
        invariant
            n.len() <= h.len(),
            start <= i,
            i <= h.len() - n.len() + 1,
            find_from(h@, n@, start as int) == find_from(h@, n@, i as int),
        decreases h.len() - i,
    {
        if matches_at(h, n, i) {
            return Some(i);
        }
        if i == h.len() - n.len() {
            assert(find_from(h@, n@, i + 1) is None);
            return None;
        }
        i = i + 1;
    }
    None
}


/// Trimming a trimmed text changes nothing.
pub proof fn lemma_trim_idempotent(s: Seq<char>)
    ensures
        trim(trim(s)) == trim(s),
{
    lemma_leading_ws(s);
    let u = trim_start(s);
    lemma_trailing_ws(u);
    let t = trim(s);
    if t.len() > 0 {
        assert(t[0] == u[0]);
        assert(u[0] == s[leading_ws(s) as int]);
        assert(t.last() == u[u.len() - trailing_ws(u) - 1]);
        assert(leading_ws(t) == 0);
        assert(trailing_ws(t) == 0);
        assert(trim_start(t) =~= t);
        assert(trim(t) =~= t);
    } else {
        assert(trim(t) =~= t);
    }
}


/// Text order, character by character (the order of `String`).
pub open spec fn text_lt(a: Seq<char>, b: Seq<char>) -> bool
    decreases a.len(),
{
    if a.len() == 0 {
        b.len() > 0
    } else if b.len() == 0 {
        false
    } else if a[0] != b[0] {
        a[0] < b[0]
    } else {
        text_lt(a.drop_first(), b.drop_first())
    }
}

pub proof fn lemma_text_lt_transitive(a: Seq<char>, b: Seq<char>, c: Seq<char>)
    requires
        text_lt(a, b),
        text_lt(b, c),
    ensures
        text_lt(a, c),
    decreases a.len(),
{
    if a.len() > 0 && b.len() > 0 && c.len() > 0 && a[0] == b[0] && b[0] == c[0] {
        lemma_text_lt_transitive(a.drop_first(), b.drop_first(), c.drop_first());
    }
}

pub fn text_less(a: &Vec<char>, b: &Vec<char>) -> (r: bool)
    ensures
        r == text_lt(a@, b@),
{
    let mut i: usize = 0;
    assert(a@.skip(0) =~= a@);
    assert(b@.skip(0) =~= b@);
    while i < a.len() && i < b.len()
        invariant
            i <= a@.len(),
            i <= b@.len(),
            a@.take(i as int) == b@.take(i as int),
            text_lt(a@, b@) == text_lt(a@.skip(i as int), b@.skip(i as int)),
        decreases a.len() - i,
    {
        assert(a@.skip(i as int).drop_first() =~= a@.skip(i + 1));
        assert(b@.skip(i as int).drop_first() =~= b@.skip(i + 1));
        assert(a@.skip(i as int)[0] == a@[i as int]);
        assert(b@.skip(i as int)[0] == b@[i as int]);
        if a[i] != b[i] {
            return a[i] < b[i];
        }
        assert(a@.take(i + 1) =~= a@.take(i as int).push(a@[i as int]));
        assert(b@.take(i + 1) =~= b@.take(i as int).push(b@[i as int]));
        i = i + 1;
    }
    assert(a@.skip(i as int).len() == 0 || b@.skip(i as int).len() == 0);
    i == a.len() && i < b.len()
}

pub proof fn lemma_text_lt_irreflexive(a: Seq<char>)
    ensures
        !text_lt(a, a),
    decreases a.len(),
{
    if a.len() > 0 {
        lemma_text_lt_irreflexive(a.drop_first());
    }
}

/// Texts are totally ordered: of two different texts, one comes first.
pub proof fn lemma_text_lt_total(a: Seq<char>, b: Seq<char>)
    requires
        a != b,
    ensures
        text_lt(a, b) || text_lt(b, a),
    decreases a.len(),
{
    if a.len() > 0 && b.len() > 0 && a[0] == b[0] {
        if a.drop_first() == b.drop_first() {
            assert(a =~= seq![a[0]] + a.drop_first());
            assert(b =~= seq![b[0]] + b.drop_first());
        }
        lemma_text_lt_total(a.drop_first(), b.drop_first());
    } else if a.len() == 0 && b.len() == 0 {
        assert(a =~= b);
    }
}


/// A trimmed text that is not empty starts and ends with a character that is not whitespace.
pub proof fn lemma_trim_ends(s: Seq<char>)
    ensures
        trim(s).len() > 0 ==> !is_whitespace(trim(s)[0]) && !is_whitespace(trim(s).last()),
{
    lemma_leading_ws(s);
    let u = trim_start(s);
    lemma_trailing_ws(u);
    let t = trim(s);
    if t.len() > 0 {
        assert(t[0] == u[0]);
        assert(u[0] == s[leading_ws(s) as int]);
        assert(t.last() == u[u.len() - trailing_ws(u) - 1]);
    }
}

/// A text that starts and ends with a character that is not whitespace is its own trim.
pub proof fn lemma_trim_fixed(s: Seq<char>)
    requires
        s.len() > 0,
        !is_whitespace(s[0]),
        !is_whitespace(s.last()),
    ensures
        trim(s) == s,
{
    assert(leading_ws(s) == 0);
    assert(trim_start(s) =~= s);
    assert(trailing_ws(s) == 0);
    assert(trim(s) =~= s);
}

/// Texts in strictly increasing text order: a sorted set of texts.
pub open spec fn texts_ascending(s: Seq<Seq<char>>) -> bool {
    forall|i: int, j: int| 0 <= i < j < s.len() ==> text_lt(#[trigger] s[i], #[trigger] s[j])
}

/// Adds a text to a sorted set of texts, in its place; a text already there is not added again.
pub fn insert_text_sorted(set: &mut Vec<String>, text: &str)
    requires
        texts_ascending(string_views(old(set)@)),
    ensures
        texts_ascending(string_views(final(set)@)),
        string_views(final(set)@).to_set() == string_views(old(set)@).to_set().insert(text@),
{
    let ghost before = string_views(set@);
    let t = chars_of(text);
    let mut p: usize = 0;
    let mut stop = false;
    while p < set.len() && !stop
        invariant
            p <= set@.len(),
            before == string_views(set@),
            t@ == text@,
            forall|k: int| 0 <= k < p ==> text_lt(#[trigger] before[k], text@),
            stop ==> p < set@.len() && !text_lt(before[p as int], text@),
        decreases set.len() - p + (if stop { 0int } else { 1int }),
    {
        let c = chars_of(set[p].as_str());
        if text_less(&c, &t) {
            p = p + 1;
        } else {
            stop = true;
        }
    }
    if p < set.len() && str_eq(set[p].as_str(), text) {
        assert(before[p as int] == text@);
        assert(before.to_set().insert(text@) =~= before.to_set());
        return;
    }
    proof {
        if p < before.len() {
            assert(!text_lt(before[p as int], text@));
            assert(before[p as int] != text@);
            lemma_text_lt_total(before[p as int], text@);
        }
    }
    set.insert(p, to_string(text));
    let ghost after = string_views(set@);
    proof {
        assert(after =~= before.insert(p as int, text@));
        assert forall|i: int, j: int| 0 <= i < j < after.len() implies text_lt(#[trigger] after[i], #[trigger] after[j]) by {
            if j < p {
            } else if i < p && j == p {
            } else if i < p && j > p {
                assert(after[j] == before[j - 1]);
                if j - 1 > p {
                    assert(text_lt(before[p as int], before[j - 1]));
                    lemma_text_lt_transitive(text@, before[p as int], before[j - 1]);
                }
                lemma_text_lt_transitive(before[i], text@, before[j - 1]);
            } else if i == p {
                assert(after[j] == before[j - 1]);
                if j - 1 > p {
                    assert(text_lt(before[p as int], before[j - 1]));
                    lemma_text_lt_transitive(text@, before[p as int], before[j - 1]);
                }
            } else {
                assert(after[i] == before[i - 1]);
                assert(after[j] == before[j - 1]);
            }
        }
        assert forall|x: Seq<char>| after.to_set().contains(x) <==> before.to_set().insert(text@).contains(x) by {
            if after.to_set().contains(x) {
                let k = choose|k: int| 0 <= k < after.len() && after[k] == x;
                if k < p {
                    assert(before[k] == x);
                } else if k > p {
                    assert(before[k - 1] == x);
                }
            }
            if before.to_set().contains(x) {
                let k = choose|k: int| 0 <= k < before.len() && before[k] == x;
                if k < p {
                    assert(after[k] == x);
                } else {
                    assert(after[k + 1] == x);
                }
            }
            if x == text@ {
                assert(after[p as int] == x);
            }
        }
        assert(after.to_set() =~= before.to_set().insert(text@));
    }
}

/// Adds each of some texts to a sorted set of texts.
pub fn insert_texts_sorted(set: &mut Vec<String>, texts: &Vec<String>)
    requires
        texts_ascending(string_views(old(set)@)),
    ensures
        texts_ascending(string_views(final(set)@)),
        string_views(final(set)@).to_set() == string_views(old(set)@).to_set().union(string_views(texts@).to_set()),
{
    let ghost start = string_views(set@).to_set();
    let mut i: usize = 0;
    while i < texts.len()
        invariant
            i <= texts@.len(),
            texts_ascending(string_views(set@)),
            string_views(set@).to_set() == start.union(string_views(texts@.take(i as int)).to_set()),
        decreases texts.len() - i,
    {
        insert_text_sorted(set, texts[i].as_str());
        proof {
            assert(string_views(texts@.take(i + 1)) =~= string_views(texts@.take(i as int)).push(texts@[i as int]@));
            string_views(texts@.take(i as int)).lemma_push_to_set_commute(texts@[i as int]@);
            assert(string_views(set@).to_set() =~= start.union(string_views(texts@.take(i + 1)).to_set()));
        }
        i = i + 1;
    }
    assert(texts@.take(texts@.len() as int) =~= texts@);
}

} // verus!
