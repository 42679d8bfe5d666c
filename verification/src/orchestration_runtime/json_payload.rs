//! Escaping NUL characters out of JSON payloads before they are stored.

use vstd::prelude::*;
use crate::json::{
    collect_entries, entry_views, json_view, lemma_array_view, lemma_collect_entries, lemma_collect_unique,
    lemma_object_view, object_insert, views, JsonSpec, JsonValue,
};
use crate::text::{chars_of, contains_char};

verus! {

/// The six characters `\u0000` that stand for a NUL character.
pub open spec fn nul_escape() -> Seq<char> {
    seq!['\\', 'u', '0', '0', '0', '0']
}

/// A text with each NUL character replaced by `\u0000`.
pub open spec fn escape_nul_text(s: Seq<char>) -> Seq<char>
    decreases s.len(),
{
    if s.len() == 0 {
        seq![]
    } else {
        escape_nul_text(s.drop_last()) + if s.last() == '\0' {
            nul_escape()
        } else {
            seq![s.last()]
        }
    }
}

/// A JSON value with NUL characters escaped in every string and every object key. Keys that
/// become equal once escaped are merged into one entry, the later one winning.
pub open spec fn escape_json_nul(v: JsonSpec) -> JsonSpec
    decreases v, 1nat,
{
    match v {
        JsonSpec::Str(s) => JsonSpec::Str(escape_nul_text(s)),
        JsonSpec::Array(items) => JsonSpec::Array(
            Seq::new(
                items.len(),
                |i: int|
                    if 0 <= i < items.len() {
                        escape_json_nul(items[i])
                    } else {
                        JsonSpec::Null
                    },
            ),
        ),
        JsonSpec::Object(entries) => JsonSpec::Object(collect_entries(escaped_entries(entries))),
        other => other,
    }
}

/// The entries with key and value escaped, in their order.
pub open spec fn escaped_entries(entries: Seq<(Seq<char>, JsonSpec)>) -> Seq<(Seq<char>, JsonSpec)>
    decreases entries, 0nat,
{
    Seq::new(
        entries.len(),
        |i: int|
            if 0 <= i < entries.len() {
                (escape_nul_text(entries[i].0), escape_json_nul(entries[i].1))
            } else {
                (Seq::empty(), JsonSpec::Null)
            },
    )
}

pub proof fn lemma_escape_nul_text_identity(s: Seq<char>)
    requires
        !s.contains('\0'),
    ensures
        escape_nul_text(s) == s,
    decreases s.len(),
{
    if s.len() > 0 {
        assert(!s.drop_last().contains('\0')) by {
            if s.drop_last().contains('\0') {
                let k = choose|k: int| 0 <= k < s.drop_last().len() && s.drop_last()[k] == '\0';
                assert(s[k] == '\0');
            }
        }
        lemma_escape_nul_text_identity(s.drop_last());
        assert(s.last() != '\0') by {
            assert(s[s.len() - 1] == s.last());
        }
        assert(s.drop_last() + seq![s.last()] =~= s);
    }
}

/// Replaces each NUL character of a text by `\u0000`.
pub fn escape_nul_characters(text: String) -> (out: String)
    ensures
        out@ == escape_nul_text(text@),
{
    if !contains_char(text.as_str(), '\0') {
        proof {
            lemma_escape_nul_text_identity(text@);
        }
        return text;
    }
    let chars = chars_of(text.as_str());
    let mut out = String::new();
    let mut i: usize = 0;
    while i < chars.len()
        invariant
            chars@ == text@,
            i <= chars.len(),
            out@ == escape_nul_text(text@.take(i as int)),
        decreases chars.len() - i,
    {
        let c = chars[i];
        assert(text@.take(i + 1).drop_last() =~= text@.take(i as int));
        if c == '\0' {
            out.push('\\');
            out.push('u');
            out.push('0');
            out.push('0');
            out.push('0');
            out.push('0');
            assert(out@ =~= escape_nul_text(text@.take(i + 1)));
        } else {
            out.push(c);
            assert(out@ =~= escape_nul_text(text@.take(i + 1)));
        }
        i = i + 1;
    }
    assert(text@.take(chars.len() as int) =~= text@);
    out
}

fn escape_json_ref(value: &JsonValue) -> (out: JsonValue)
    ensures
        out@ == escape_json_nul(value@),
    decreases value,
{
    match value {
        JsonValue::Str(text) => JsonValue::Str(escape_nul_characters(text.clone())),
        JsonValue::Array(items) => {
            let mut out: Vec<JsonValue> = Vec::new();
            let mut i: usize = 0;
            while i < items.len()
                invariant
                    *value == JsonValue::Array(*items),
                    i <= items.len(),
                    out@.len() == i,
                    forall|k: int|
                        0 <= k < i ==> json_view(#[trigger] out@[k]) == escape_json_nul(
                            json_view(items@[k]),
                        ),
                decreases items.len() - i,
            {
                proof {
                    assert(decreases_to!(*value => (*value)->Array_0));
                    assert(decreases_to!(*items => items@));
                    assert(decreases_to!(items@ => items@[i as int]));
                }
                out.push(escape_json_ref(&items[i]));
                i = i + 1;
            }
            proof {
                lemma_array_view(*items);
                lemma_array_view(out);
                assert(views(out@) =~= escape_json_nul(value@)->Array_0);
            }
            JsonValue::Array(out)
        },
        JsonValue::Object(entries) => {
            let ghost mapped = Seq::new(
                entries@.len(),
                |k: int| (escape_nul_text(entries@[k].0@), escape_json_nul(json_view(entries@[k].1))),
            );
            let mut out: Vec<(String, JsonValue)> = Vec::new();
            let mut i: usize = 0;
            assert(mapped.take(0) =~= Seq::<(Seq<char>, JsonSpec)>::empty());
            assert(entry_views(out@) =~= Seq::<(Seq<char>, JsonSpec)>::empty());
            while i < entries.len()
                invariant
                    *value == JsonValue::Object(*entries),
                    i <= entries.len(),
                    mapped == Seq::new(
                        entries@.len(),
                        |k: int| (escape_nul_text(entries@[k].0@), escape_json_nul(json_view(entries@[k].1))),
                    ),
                    entry_views(out@) == collect_entries(mapped.take(i as int)),
                decreases entries.len() - i,
            {
                proof {
                    assert(decreases_to!(*value => (*value)->Object_0));
                    assert(decreases_to!(*entries => entries@));
                    assert(decreases_to!(entries@ => entries@[i as int]));
                    assert(decreases_to!(entries@[i as int] => entries@[i as int].1));
                }
                let key = escape_nul_characters(entries[i].0.clone());
                let val = escape_json_ref(&entries[i].1);
                object_insert(&mut out, key, val);
                proof {
                    let t = mapped.take(i + 1);
                    assert(t.drop_last() =~= mapped.take(i as int));
                    assert(t.last() == mapped[i as int]);
                }
                i = i + 1;
            }
            proof {
                lemma_object_view(*entries);
                lemma_object_view(out);
                assert(mapped.take(i as int) =~= mapped);
                assert(mapped =~= escaped_entries(entry_views(entries@)));
            }
            JsonValue::Object(out)
        },
        JsonValue::Null => JsonValue::Null,
        JsonValue::Bool(b) => JsonValue::Bool(*b),
        JsonValue::Number(n) => JsonValue::Number(*n),
        JsonValue::Decimal(t) => JsonValue::Decimal(t.clone()),
    }
}

/// Escapes NUL characters in every string and key of a JSON value; other values are kept.
pub fn escape_json_nul_characters(value: JsonValue) -> (out: JsonValue)
    ensures
        out@ == escape_json_nul(value@),
{
    escape_json_ref(&value)
}


pub proof fn lemma_escaped_text_has_no_nul(s: Seq<char>)
    ensures
        !escape_nul_text(s).contains('\0'),
    decreases s.len(),
{
    if s.len() > 0 {
        lemma_escaped_text_has_no_nul(s.drop_last());
        let a = escape_nul_text(s.drop_last());
        let b = if s.last() == '\0' {
            nul_escape()
        } else {
            seq![s.last()]
        };
        assert forall|k: int| 0 <= k < (a + b).len() implies (a + b)[k] != '\0' by {
            if k < a.len() {
                assert((a + b)[k] == a[k]);
            } else {
                assert((a + b)[k] == b[k - a.len()]);
            }
        }
    }
}

/// Escaping a text twice escapes it once: escaped text holds no NUL character.
pub proof fn law_escape_nul_text_idempotent(s: Seq<char>)
    ensures
        escape_nul_text(escape_nul_text(s)) == escape_nul_text(s),
{
    lemma_escaped_text_has_no_nul(s);
    lemma_escape_nul_text_identity(escape_nul_text(s));
}

/// Escaping a JSON value twice escapes it once.
pub proof fn law_escape_json_nul_idempotent(v: JsonSpec)
    ensures
        escape_json_nul(escape_json_nul(v)) == escape_json_nul(v),
    decreases v,
{
    match v {
        JsonSpec::Str(s) => {
            law_escape_nul_text_idempotent(s);
        },
        JsonSpec::Array(items) => {
            let once = escape_json_nul(v)->Array_0;
            assert forall|i: int| 0 <= i < items.len() implies escape_json_nul(#[trigger] once[i]) == once[i] by {
                assert(decreases_to!(v => items[i]));
                law_escape_json_nul_idempotent(items[i]);
            }
            assert(escape_json_nul(escape_json_nul(v))->Array_0 =~= once);
        },
        JsonSpec::Object(entries) => {
            let m = escaped_entries(entries);
            let once = collect_entries(m);
            lemma_collect_entries(m);
            assert forall|j: int| 0 <= j < once.len() implies escape_nul_text(#[trigger] once[j].0) == once[j].0
                && escape_json_nul(once[j].1) == once[j].1 by {
                assert(m.contains(once[j]));
                let i = choose|i: int| 0 <= i < m.len() && m[i] == once[j];
                assert(decreases_to!(v => entries[i].1)) by {
                    assert(decreases_to!(v => entries));
                    assert(decreases_to!(entries => entries[i]));
                    assert(decreases_to!(entries[i] => entries[i].1));
                }
                law_escape_nul_text_idempotent(entries[i].0);
                law_escape_json_nul_idempotent(entries[i].1);
            }
            assert(escaped_entries(once) =~= once);
            lemma_collect_unique(once);
        },
        _ => {},
    }
}

} // verus!
