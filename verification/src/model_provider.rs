//! Model provider instances: their configuration split into public and secret parts, secrets
//! masked for display, the models they enable, and how those models are shown.

use vstd::prelude::*;
use crate::errors::ControlPlaneError;
use crate::orchestration_runtime::compile_context::InstallationState;
use crate::json::{
    canonical_json, canonicalize_json, clone_json, entries_insert, entry_views, lemma_object_view, object_insert,
    object_lookup, to_compact_string, JsonSpec, JsonValue,
};
use crate::text::{
    char_is_ascii_alphanumeric, char_to_ascii_lowercase, chars_of, is_ascii_alphanumeric, ascii_lower,
    lower_seq, str_eq, string_views, to_ascii_lowercase, to_string, trim, trim_to_string,
    lemma_text_lt_irreflexive, lemma_text_lt_total, lemma_text_lt_transitive, text_less, text_lt,
};

verus! {

/// A field of a provider's configuration form.
pub struct ProviderConfigField {
    pub key: String,
    pub field_type: String,
    pub required: bool,
}

/// A required text, trimmed; blank text is refused as invalid input for `field`.
pub fn normalize_required_text(value: &str, field: &'static str) -> (r: Result<String, ControlPlaneError>)
    ensures
        trim(value@).len() == 0 ==> r == Err::<String, _>(ControlPlaneError::InvalidInput(field)),
        trim(value@).len() > 0 ==> r is Ok && r->Ok_0@ == trim(value@),
{
    let trimmed = trim_to_string(value);
    if trimmed.as_str().is_empty() {
        Err(ControlPlaneError::InvalidInput(field))
    } else {
        Ok(trimmed)
    }
}

/// A secret field: its type is `secret`, trimmed, in any ASCII case.
pub open spec fn secret_type(field_type: Seq<char>) -> bool {
    lower_seq(trim(field_type)) == "secret"@
}

pub fn is_secret_field(field_type: &str) -> (b: bool)
    ensures
        b == secret_type(field_type@),
{
    let lowered = to_ascii_lowercase(trim_to_string(field_type).as_str());
    str_eq(lowered.as_str(), "secret")
}

/// The form field that a configuration key names: the last field with that key.
pub open spec fn schema_field(schema: Seq<ProviderConfigField>, key: Seq<char>) -> Option<ProviderConfigField>
    decreases schema.len(),
{
    if schema.len() == 0 {
        None
    } else if schema.last().key@ == key {
        Some(schema.last())
    } else {
        schema_field(schema.drop_last(), key)
    }
}

fn find_schema_field<'a>(schema: &'a [ProviderConfigField], key: &str) -> (r: Option<&'a ProviderConfigField>)
    ensures
        match r {
            Some(f) => schema_field(schema@, key@) == Some(*f),
            None => schema_field(schema@, key@) is None,
        },
{
    let mut i = schema.len();
    assert(schema@.take(i as int) =~= schema@);
    while i > 0
        invariant
            i <= schema@.len(),
            schema_field(schema@, key@) == schema_field(schema@.take(i as int), key@),
        decreases i,
    {
        assert(schema@.take(i as int).drop_last() =~= schema@.take(i - 1));
        if str_eq(schema[i - 1].key.as_str(), key) {
            return Some(&schema[i - 1]);
        }
        i = i - 1;
    }
    None
}

/// A configuration split by its form into public and secret parts, entry by entry; `None` when
/// a key is not in the form.
pub open spec fn split_entries(
    schema: Seq<ProviderConfigField>,
    entries: Seq<(Seq<char>, JsonSpec)>,
) -> Option<(Seq<(Seq<char>, JsonSpec)>, Seq<(Seq<char>, JsonSpec)>)>
    decreases entries.len(),
{
    if entries.len() == 0 {
        Some((seq![], seq![]))
    } else {
        match split_entries(schema, entries.drop_last()) {
            None => None,
            Some((public, secret)) => {
                let (k, v) = entries.last();
                match schema_field(schema, k) {
                    None => None,
                    Some(f) => if secret_type(f.field_type@) {
                        Some((public, entries_insert(secret, k, v)))
                    } else {
                        Some((entries_insert(public, k, v), secret))
                    },
                }
            },
        }
    }
}

proof fn lemma_split_none_stays(schema: Seq<ProviderConfigField>, entries: Seq<(Seq<char>, JsonSpec)>, i: int)
    requires
        0 <= i <= entries.len(),
        split_entries(schema, entries.take(i)) is None,
    ensures
        split_entries(schema, entries) is None,
    decreases entries.len() - i,
{
    if i < entries.len() {
        assert(entries.take(i + 1).drop_last() =~= entries.take(i));
        lemma_split_none_stays(schema, entries, i + 1);
    } else {
        assert(entries.take(i) =~= entries);
    }
}

/// Splits a configuration into its public and secret parts by the types of its form's fields.
/// A configuration that is not an object, or names a key outside the form, is refused.
pub fn split_provider_config(form_schema: &[ProviderConfigField], input: &JsonValue) -> (r: Result<
    (JsonValue, JsonValue),
    ControlPlaneError,
>)
    ensures
        match input@ {
            JsonSpec::Object(entries) => match split_entries(form_schema@, entries) {
                Some((public, secret)) => r is Ok && r->Ok_0.0@ == JsonSpec::Object(public) && r->Ok_0.1@
                    == JsonSpec::Object(secret),
                None => r == Err::<(JsonValue, JsonValue), _>(ControlPlaneError::InvalidInput("config_json")),
            },
            _ => r == Err::<(JsonValue, JsonValue), _>(ControlPlaneError::InvalidInput("config_json")),
        },
{
    let entries = match input {
        JsonValue::Object(entries) => entries,
        _ => {
            return Err(ControlPlaneError::InvalidInput("config_json"));
        },
    };
    proof {
        lemma_object_view(*entries);
    }
    let ghost es = entry_views(entries@);
    let mut public: Vec<(String, JsonValue)> = Vec::new();
    let mut secret: Vec<(String, JsonValue)> = Vec::new();
    let mut i: usize = 0;
    assert(es.take(0) =~= Seq::<(Seq<char>, JsonSpec)>::empty());
    assert(entry_views(public@) =~= Seq::<(Seq<char>, JsonSpec)>::empty());
    assert(entry_views(secret@) =~= Seq::<(Seq<char>, JsonSpec)>::empty());
    while i < entries.len()
        invariant
            i <= entries@.len(),
            es == entry_views(entries@),
            input@ == JsonSpec::Object(es),
            split_entries(form_schema@, es.take(i as int)) == Some((entry_views(public@), entry_views(secret@))),
        decreases entries.len() - i,
    {
        assert(es.take(i + 1).drop_last() =~= es.take(i as int));
        assert(es.take(i + 1).last() == es[i as int]);
        let key = &entries[i].0;
        let value = &entries[i].1;
        match find_schema_field(form_schema, key.as_str()) {
            None => {
                proof {
                    lemma_split_none_stays(form_schema@, es, i + 1);
                }
                return Err(ControlPlaneError::InvalidInput("config_json"));
            },
            Some(field) => {
                if is_secret_field(field.field_type.as_str()) {
                    object_insert(&mut secret, key.clone(), clone_json(value));
                } else {
                    object_insert(&mut public, key.clone(), clone_json(value));
                }
            },
        }
        i = i + 1;
    }
    assert(es.take(entries.len() as int) =~= es);
    proof {
        lemma_object_view(public);
        lemma_object_view(secret);
    }
    Ok((JsonValue::Object(public), JsonValue::Object(secret)))
}

/// A value that fills a required field: present, and neither null nor empty text.
pub open spec fn fills_required(v: Option<JsonSpec>) -> bool {
    match v {
        None => false,
        Some(JsonSpec::Null) => false,
        Some(JsonSpec::Str(s)) => s.len() > 0,
        Some(_) => true,
    }
}

pub open spec fn required_fields_filled(
    schema: Seq<ProviderConfigField>,
    public: Seq<(Seq<char>, JsonSpec)>,
    secret: Seq<(Seq<char>, JsonSpec)>,
) -> bool {
    forall|i: int|
        0 <= i < schema.len() && (#[trigger] schema[i]).required ==> fills_required(
            if secret_type(schema[i].field_type@) {
                object_lookup(secret, schema[i].key@)
            } else {
                object_lookup(public, schema[i].key@)
            },
        )
}

/// Both parts must be objects, and every required field of the form must be filled in the part
/// its type puts it in.
pub fn validate_required_fields(form_schema: &[ProviderConfigField], public_config: &JsonValue, secret_config: &JsonValue) -> (r:
    Result<(), ControlPlaneError>)
    ensures
        r is Ok <==> (public_config@ is Object && secret_config@ is Object && required_fields_filled(
            form_schema@,
            public_config@->Object_0,
            secret_config@->Object_0,
        )),
        r is Err ==> r == Err::<(), _>(ControlPlaneError::InvalidInput("config_json")),
{
    if !public_config.is_object() || !secret_config.is_object() {
        return Err(ControlPlaneError::InvalidInput("config_json"));
    }
    let mut i: usize = 0;
    while i < form_schema.len()
        invariant
            i <= form_schema@.len(),
            public_config@ is Object,
            secret_config@ is Object,
            forall|k: int|
                0 <= k < i && (#[trigger] form_schema@[k]).required ==> fills_required(
                    if secret_type(form_schema@[k].field_type@) {
                        object_lookup(secret_config@->Object_0, form_schema@[k].key@)
                    } else {
                        object_lookup(public_config@->Object_0, form_schema@[k].key@)
                    },
                ),
        decreases form_schema.len() - i,
    {
        let field = &form_schema[i];
        if field.required {
            let value = if is_secret_field(field.field_type.as_str()) {
                secret_config.get(field.key.as_str())
            } else {
                public_config.get(field.key.as_str())
            };
            let filled = match value {
                None => false,
                Some(JsonValue::Null) => false,
                Some(JsonValue::Str(s)) => !s.as_str().is_empty(),
                Some(_) => true,
            };
            if !filled {
                return Err(ControlPlaneError::InvalidInput("config_json"));
            }
        }
        i = i + 1;
    }
    Ok(())
}

/// `base` with the entries of `patch` put in, one by one.
pub open spec fn merge_entries(base: Seq<(Seq<char>, JsonSpec)>, patch: Seq<(Seq<char>, JsonSpec)>) -> Seq<
    (Seq<char>, JsonSpec),
>
    decreases patch.len(),
{
    if patch.len() == 0 {
        base
    } else {
        let m = merge_entries(base, patch.drop_last());
        entries_insert(m, patch.last().0, patch.last().1)
    }
}

fn clone_entries(entries: &Vec<(String, JsonValue)>) -> (out: Vec<(String, JsonValue)>)
    ensures
        entry_views(out@) == entry_views(entries@),
{
    let mut out: Vec<(String, JsonValue)> = Vec::new();
    let mut i: usize = 0;
    while i < entries.len()
        invariant
            i <= entries@.len(),
            entry_views(out@) == entry_views(entries@).take(i as int),
        decreases entries.len() - i,
    {
        let ghost before = entry_views(out@);
        out.push((entries[i].0.clone(), clone_json(&entries[i].1)));
        assert(entry_views(out@) =~= before.push(entry_views(entries@)[i as int]));
        assert(entry_views(entries@).take(i + 1) =~= entry_views(entries@).take(i as int).push(
            entry_views(entries@)[i as int],
        ));
        i = i + 1;
    }
    assert(entry_views(entries@).take(entries.len() as int) =~= entry_views(entries@));
    out
}

/// Both values must be objects; the result is `base` with every entry of `patch` put in.
pub fn merge_json_object(base: &JsonValue, patch: &JsonValue) -> (r: Result<JsonValue, ControlPlaneError>)
    ensures
        (base@ is Object && patch@ is Object) ==> r is Ok && r->Ok_0@ == JsonSpec::Object(
            merge_entries(base@->Object_0, patch@->Object_0),
        ),
        !(base@ is Object && patch@ is Object) ==> r == Err::<JsonValue, _>(
            ControlPlaneError::InvalidInput("config_json"),
        ),
{
    let base_entries = match base {
        JsonValue::Object(e) => e,
        _ => {
            return Err(ControlPlaneError::InvalidInput("config_json"));
        },
    };
    let patch_entries = match patch {
        JsonValue::Object(e) => e,
        _ => {
            return Err(ControlPlaneError::InvalidInput("config_json"));
        },
    };
    proof {
        lemma_object_view(*base_entries);
        lemma_object_view(*patch_entries);
    }
    let ghost ps = entry_views(patch_entries@);
    let mut merged = clone_entries(base_entries);
    let mut i: usize = 0;
    assert(ps.take(0) =~= Seq::<(Seq<char>, JsonSpec)>::empty());
    while i < patch_entries.len()
        invariant
            i <= patch_entries@.len(),
            ps == entry_views(patch_entries@),
            entry_views(merged@) == merge_entries(base@->Object_0, ps.take(i as int)),
        decreases patch_entries.len() - i,
    {
        assert(ps.take(i + 1).drop_last() =~= ps.take(i as int));
        assert(ps.take(i + 1).last() == ps[i as int]);
        object_insert(&mut merged, patch_entries[i].0.clone(), clone_json(&patch_entries[i].1));
        i = i + 1;
    }
    assert(ps.take(patch_entries.len() as int) =~= ps);
    proof {
        lemma_object_view(merged);
    }
    Ok(JsonValue::Object(merged))
}

/// A secret shown masked: `****` for up to 8 characters, else its first 4 characters, `****` and
/// its last 4 characters.
pub open spec fn masked_preview(s: Seq<char>) -> Seq<char> {
    if s.len() <= 8 {
        "****"@
    } else {
        s.take(4) + "****"@ + s.skip(s.len() - 4)
    }
}

pub fn mask_secret_preview(value: &str) -> (out: String)
    ensures
        out@ == masked_preview(value@),
{
    let chars = chars_of(value);
    if chars.len() <= 8 {
        return to_string("****");
    }
    let mut out = crate::text::string_from_chars(&chars, 0, 4);
    out.push_str("****");
    let suffix = crate::text::string_from_chars(&chars, chars.len() - 4, chars.len());
    out.push_str(suffix.as_str());
    assert(out@ =~= masked_preview(value@));
    out
}

/// A secret value shown masked: text by its preview, null as null, anything else as `****`.
pub open spec fn masked_value(v: JsonSpec) -> JsonSpec {
    match v {
        JsonSpec::Str(s) => JsonSpec::Str(masked_preview(s)),
        JsonSpec::Null => JsonSpec::Null,
        _ => JsonSpec::Str("****"@),
    }
}

pub fn mask_secret_value(value: &JsonValue) -> (out: JsonValue)
    ensures
        out@ == masked_value(value@),
{
    match value {
        JsonValue::Str(text) => JsonValue::Str(mask_secret_preview(text.as_str())),
        JsonValue::Null => JsonValue::Null,
        _ => JsonValue::Str(to_string("****")),
    }
}

/// `base` with each secret field of the form that the secrets hold put in masked, field by field.
pub open spec fn mask_fields(
    base: Seq<(Seq<char>, JsonSpec)>,
    secret: Seq<(Seq<char>, JsonSpec)>,
    schema: Seq<ProviderConfigField>,
) -> Seq<(Seq<char>, JsonSpec)>
    decreases schema.len(),
{
    if schema.len() == 0 {
        base
    } else {
        let m = mask_fields(base, secret, schema.drop_last());
        let f = schema.last();
        if !secret_type(f.field_type@) {
            m
        } else {
            match object_lookup(secret, f.key@) {
                None => m,
                Some(v) => entries_insert(m, f.key@, masked_value(v)),
            }
        }
    }
}

/// The public configuration with the secrets put in masked. Both must be objects.
pub fn mask_secret_config(base: &JsonValue, secret_json: &JsonValue, form_schema: &[ProviderConfigField]) -> (r:
    Result<JsonValue, ControlPlaneError>)
    ensures
        (base@ is Object && secret_json@ is Object) ==> r is Ok && r->Ok_0@ == JsonSpec::Object(
            mask_fields(base@->Object_0, secret_json@->Object_0, form_schema@),
        ),
        !(base@ is Object && secret_json@ is Object) ==> r == Err::<JsonValue, _>(
            ControlPlaneError::InvalidInput("config_json"),
        ),
{
    let base_entries = match base {
        JsonValue::Object(e) => e,
        _ => {
            return Err(ControlPlaneError::InvalidInput("config_json"));
        },
    };
    if !secret_json.is_object() {
        return Err(ControlPlaneError::InvalidInput("config_json"));
    }
    proof {
        lemma_object_view(*base_entries);
    }
    let mut merged = clone_entries(base_entries);
    let mut i: usize = 0;
    assert(form_schema@.take(0) =~= Seq::<ProviderConfigField>::empty());
    while i < form_schema.len()
        invariant
            i <= form_schema@.len(),
            secret_json@ is Object,
            entry_views(merged@) == mask_fields(base@->Object_0, secret_json@->Object_0, form_schema@.take(i as int)),
        decreases form_schema.len() - i,
    {
        assert(form_schema@.take(i + 1).drop_last() =~= form_schema@.take(i as int));
        assert(form_schema@.take(i + 1).last() == form_schema@[i as int]);
        let field = &form_schema[i];
        if is_secret_field(field.field_type.as_str()) {
            match secret_json.get(field.key.as_str()) {
                Some(value) => {
                    object_insert(&mut merged, field.key.clone(), mask_secret_value(value));
                },
                None => {},
            }
        }
        i = i + 1;
    }
    assert(form_schema@.take(form_schema.len() as int) =~= form_schema@);
    proof {
        lemma_object_view(merged);
    }
    Ok(JsonValue::Object(merged))
}

pub fn empty_object() -> (v: JsonValue)
    ensures
        v@ == JsonSpec::Object(seq![]),
{
    let entries: Vec<(String, JsonValue)> = Vec::new();
    proof {
        lemma_object_view(entries);
    }
    assert(entry_views(entries@) =~= Seq::<(Seq<char>, JsonSpec)>::empty());
    JsonValue::Object(entries)
}

/// Whether a value is an object without entries.
pub fn is_empty_object(value: &JsonValue) -> (b: bool)
    ensures
        b == (value@ is Object && value@->Object_0.len() == 0),
{
    match value {
        JsonValue::Object(entries) => {
            proof {
                lemma_object_view(*entries);
            }
            entries.len() == 0
        },
        _ => false,
    }
}

/// The key of a model in translation catalogs: ASCII letters and digits lower-cased, anything
/// else as `_`.
pub open spec fn i18n_key(model_id: Seq<char>) -> Seq<char> {
    model_id.map_values(|c: char| if is_ascii_alphanumeric(c) { ascii_lower(c) } else { '_' })
}

pub fn model_i18n_key(model_id: &str) -> (key: String)
    ensures
        key@ == i18n_key(model_id@),
{
    let chars = chars_of(model_id);
    let mut key = String::new();
    let mut i: usize = 0;
    while i < chars.len()
        invariant
            i <= chars@.len(),
            chars@ == model_id@,
            key@ == i18n_key(model_id@.take(i as int)),
        decreases chars.len() - i,
    {
        let c = chars[i];
        if char_is_ascii_alphanumeric(c) {
            key.push(char_to_ascii_lowercase(c));
        } else {
            key.push('_');
        }
        assert(model_id@.take(i + 1) =~= model_id@.take(i as int).push(c));
        assert(i18n_key(model_id@.take(i + 1)) =~= i18n_key(model_id@.take(i as int)).push(
            if is_ascii_alphanumeric(c) { ascii_lower(c) } else { '_' },
        ));
        i = i + 1;
    }
    assert(model_id@.take(chars.len() as int) =~= model_id@);
    key
}


/// Where a provider's model comes from: its package, or the provider's own listing.
#[derive(Debug, Clone, Copy, PartialEq, Eq, Structural)]
pub enum ProviderModelSource {
    Static,
    Dynamic,
}

/// A model a provider offers.
pub struct ProviderModelDescriptor {
    pub model_id: String,
    pub display_name: String,
    pub source: ProviderModelSource,
    pub supports_streaming: bool,
    pub supports_tool_call: bool,
    pub supports_multimodal: bool,
    pub context_window: Option<u64>,
    pub max_output_tokens: Option<u64>,
    pub provider_metadata: JsonValue,
}

/// A model with the translation keys it is shown by.
pub struct LocalizedProviderModelDescriptor {
    pub descriptor: ProviderModelDescriptor,
    pub namespace: Option<String>,
    pub label_key: Option<String>,
    pub description_key: Option<String>,
    pub display_name_fallback: Option<String>,
}

/// A model as an instance is configured with it.
pub struct ModelProviderConfiguredModel {
    pub model_id: String,
    pub enabled: bool,
    pub context_window_override_tokens: Option<u64>,
}

#[derive(Debug, Clone, Copy, PartialEq, Eq, Structural)]
pub enum ModelProviderInstanceStatus {
    Draft,
    Ready,
    Disabled,
}

/// The plain facts of a model descriptor.
pub struct DescriptorSpec {
    pub model_id: Seq<char>,
    pub display_name: Seq<char>,
    pub source: ProviderModelSource,
    pub supports_streaming: bool,
    pub supports_tool_call: bool,
    pub supports_multimodal: bool,
    pub context_window: Option<u64>,
    pub max_output_tokens: Option<u64>,
    pub provider_metadata: JsonSpec,
}

pub open spec fn descriptor_spec(d: ProviderModelDescriptor) -> DescriptorSpec {
    DescriptorSpec {
        model_id: d.model_id@,
        display_name: d.display_name@,
        source: d.source,
        supports_streaming: d.supports_streaming,
        supports_tool_call: d.supports_tool_call,
        supports_multimodal: d.supports_multimodal,
        context_window: d.context_window,
        max_output_tokens: d.max_output_tokens,
        provider_metadata: d.provider_metadata@,
    }
}

pub struct LocalizedSpec {
    pub descriptor: DescriptorSpec,
    pub namespace: Option<Seq<char>>,
    pub label_key: Option<Seq<char>>,
    pub description_key: Option<Seq<char>>,
    pub display_name_fallback: Option<Seq<char>>,
}

pub open spec fn localized_spec(l: LocalizedProviderModelDescriptor) -> LocalizedSpec {
    LocalizedSpec {
        descriptor: descriptor_spec(l.descriptor),
        namespace: crate::json::opt_string_view(l.namespace),
        label_key: crate::json::opt_string_view(l.label_key),
        description_key: crate::json::opt_string_view(l.description_key),
        display_name_fallback: crate::json::opt_string_view(l.display_name_fallback),
    }
}

pub open spec fn localized_specs(v: Seq<LocalizedProviderModelDescriptor>) -> Seq<LocalizedSpec> {
    v.map_values(|l: LocalizedProviderModelDescriptor| localized_spec(l))
}

/// How a model is shown: a model of the package by the keys `models.{key}.label` and
/// `models.{key}.description` in the package's namespace, a listed model by its name alone.
pub open spec fn localized(namespace: Seq<char>, d: DescriptorSpec) -> LocalizedSpec {
    match d.source {
        ProviderModelSource::Static => LocalizedSpec {
            descriptor: d,
            namespace: Some(namespace),
            label_key: Some("models."@ + i18n_key(d.model_id) + ".label"@),
            description_key: Some("models."@ + i18n_key(d.model_id) + ".description"@),
            display_name_fallback: Some(d.display_name),
        },
        ProviderModelSource::Dynamic => LocalizedSpec {
            descriptor: d,
            namespace: None,
            label_key: None,
            description_key: None,
            display_name_fallback: Some(d.display_name),
        },
    }
}

pub fn localized_model_descriptor(namespace: &str, model: ProviderModelDescriptor) -> (l: LocalizedProviderModelDescriptor)
    ensures
        localized_spec(l) == localized(namespace@, descriptor_spec(model)),
{
    let display_name_fallback = Some(to_string(model.display_name.as_str()));
    match model.source {
        ProviderModelSource::Static => {
            let key = model_i18n_key(model.model_id.as_str());
            let mut label = to_string("models.");
            label.push_str(key.as_str());
            label.push_str(".label");
            let mut description = to_string("models.");
            description.push_str(key.as_str());
            description.push_str(".description");
            LocalizedProviderModelDescriptor {
                descriptor: model,
                namespace: Some(to_string(namespace)),
                label_key: Some(label),
                description_key: Some(description),
                display_name_fallback,
            }
        },
        ProviderModelSource::Dynamic => LocalizedProviderModelDescriptor {
            descriptor: model,
            namespace: None,
            label_key: None,
            description_key: None,
            display_name_fallback,
        },
    }
}

/// The model ids trimmed, blank ones left out, each once, in the order first given.
pub open spec fn normalized_ids(ids: Seq<Seq<char>>) -> Seq<Seq<char>>
    decreases ids.len(),
{
    if ids.len() == 0 {
        seq![]
    } else {
        let before = normalized_ids(ids.drop_last());
        let t = trim(ids.last());
        if t.len() == 0 || before.contains(t) {
            before
        } else {
            before.push(t)
        }
    }
}

fn contains_text(v: &Vec<String>, s: &str) -> (b: bool)
    ensures
        b == string_views(v@).contains(s@),
{
    let mut i: usize = 0;
    while i < v.len()
        invariant
            i <= v@.len(),
            forall|k: int| 0 <= k < i ==> v@[k]@ != s@,
        decreases v.len() - i,
    {
        if str_eq(v[i].as_str(), s) {
            assert(string_views(v@)[i as int] == s@);
            return true;
        }
        i = i + 1;
    }
    assert(!string_views(v@).contains(s@)) by {
        if string_views(v@).contains(s@) {
            let k = choose|k: int| 0 <= k < string_views(v@).len() && string_views(v@)[k] == s@;
            assert(v@[k]@ == s@);
        }
    }
    false
}

pub fn normalize_enabled_model_ids(enabled_model_ids: Vec<String>) -> (out: Vec<String>)
    ensures
        string_views(out@) == normalized_ids(string_views(enabled_model_ids@)),
{
    let ghost ids = string_views(enabled_model_ids@);
    let mut out: Vec<String> = Vec::new();
    let mut i: usize = 0;
    assert(ids.take(0) =~= Seq::<Seq<char>>::empty());
    assert(string_views(out@) =~= Seq::<Seq<char>>::empty());
    while i < enabled_model_ids.len()
        invariant
            i <= enabled_model_ids@.len(),
            ids == string_views(enabled_model_ids@),
            string_views(out@) == normalized_ids(ids.take(i as int)),
        decreases enabled_model_ids.len() - i,
    {
        assert(ids.take(i + 1).drop_last() =~= ids.take(i as int));
        assert(ids.take(i + 1).last() == enabled_model_ids@[i as int]@);
        let t = trim_to_string(enabled_model_ids[i].as_str());
        if !t.as_str().is_empty() && !contains_text(&out, t.as_str()) {
            let ghost before = string_views(out@);
            let ghost tv = t@;
            out.push(t);
            assert(string_views(out@) =~= before.push(tv));
        }
        i = i + 1;
    }
    assert(ids.take(enabled_model_ids.len() as int) =~= ids);
    out
}

/// The plain facts of a configured model.
pub open spec fn configured_spec(c: ModelProviderConfiguredModel) -> (Seq<char>, bool, Option<u64>) {
    (c.model_id@, c.enabled, c.context_window_override_tokens)
}

pub open spec fn configured_specs(v: Seq<ModelProviderConfiguredModel>) -> Seq<(Seq<char>, bool, Option<u64>)> {
    v.map_values(|c: ModelProviderConfiguredModel| configured_spec(c))
}

/// The configured models with their ids trimmed, blank ids left out, each id once (its first
/// entry), in order; with none configured, each enabled id becomes an enabled model.
pub open spec fn normalized_configured(
    configured: Seq<(Seq<char>, bool, Option<u64>)>,
    enabled_ids: Seq<Seq<char>>,
) -> Seq<(Seq<char>, bool, Option<u64>)> {
    if configured.len() == 0 {
        normalized_ids(enabled_ids).map_values(|id: Seq<char>| (id, true, None::<u64>))
    } else {
        normalized_configured_from(configured)
    }
}

pub open spec fn normalized_configured_from(configured: Seq<(Seq<char>, bool, Option<u64>)>) -> Seq<
    (Seq<char>, bool, Option<u64>),
>
    decreases configured.len(),
{
    if configured.len() == 0 {
        seq![]
    } else {
        let before = normalized_configured_from(configured.drop_last());
        let (id, enabled, ctx) = configured.last();
        let t = trim(id);
        if t.len() == 0 || before.map_values(|c: (Seq<char>, bool, Option<u64>)| c.0).contains(t) {
            before
        } else {
            before.push((t, enabled, ctx))
        }
    }
}

/// Each configured model kept by [`normalized_configured_from`] comes from an entry of the input:
/// its id is that entry's id trimmed, and it keeps that entry's enabled flag and context window
/// override.
pub proof fn law_kept_models_keep_their_settings(configured: Seq<(Seq<char>, bool, Option<u64>)>, k: int)
    requires
        0 <= k < normalized_configured_from(configured).len(),
    ensures
        exists|j: int|
            0 <= j < configured.len() && normalized_configured_from(configured)[k] == (
                trim(#[trigger] configured[j].0),
                configured[j].1,
                configured[j].2,
            ),
    decreases configured.len(),
{
    let p = configured.drop_last();
    let before = normalized_configured_from(p);
    let out = normalized_configured_from(configured);
    if k < before.len() && out[k] == before[k] {
        law_kept_models_keep_their_settings(p, k);
        let j = choose|j: int|
            0 <= j < p.len() && before[k] == (trim(#[trigger] p[j].0), p[j].1, p[j].2);
        assert(p[j] == configured[j]);
    } else {
        let j = configured.len() - 1;
        assert(out[k] == (trim(configured[j].0), configured[j].1, configured[j].2));
    }
}

/// Every configured input model with a non-blank id is kept, with that trimmed id and its own
/// enabled flag and context window override, when none is configured before it under the same
/// trimmed id.
pub proof fn law_first_entry_of_each_id_is_kept(configured: Seq<(Seq<char>, bool, Option<u64>)>)
    requires
        configured.len() > 0,
        trim(configured.last().0).len() > 0,
        forall|j: int| 0 <= j < configured.len() - 1 ==> trim(#[trigger] configured[j].0) != trim(configured.last().0),
    ensures
        normalized_configured_from(configured).len() > 0,
        normalized_configured_from(configured).last() == (
            trim(configured.last().0),
            configured.last().1,
            configured.last().2,
        ),
{
    let p = configured.drop_last();
    let before = normalized_configured_from(p);
    let t = trim(configured.last().0);
    let ids = before.map_values(|c: (Seq<char>, bool, Option<u64>)| c.0);
    if ids.contains(t) {
        let k = choose|k: int| 0 <= k < ids.len() && #[trigger] ids[k] == t;
        law_kept_models_keep_their_settings(p, k);
        let j = choose|j: int|
            0 <= j < p.len() && before[k] == (trim(#[trigger] p[j].0), p[j].1, p[j].2);
        assert(p[j] == configured[j]);
        assert(false);
    }
}

proof fn lemma_normalized_prefix(configured: Seq<(Seq<char>, bool, Option<u64>)>, i: int)
    requires
        0 <= i <= configured.len(),
    ensures
        normalized_configured_from(configured.take(i)).len() <= normalized_configured_from(configured).len(),
        forall|k: int|
            0 <= k < normalized_configured_from(configured.take(i)).len() ==> normalized_configured_from(
                configured,
            )[k] == #[trigger] normalized_configured_from(configured.take(i))[k],
    decreases configured.len(),
{
    if i == configured.len() {
        assert(configured.take(i) =~= configured);
    } else {
        let p = configured.drop_last();
        assert(p.take(i) =~= configured.take(i));
        lemma_normalized_prefix(p, i);
    }
}

/// Every configured input model with a non-blank id that no earlier entry shares (after
/// trimming) appears in the normalized list with its trimmed id, its own enabled flag and its
/// own context window override.
pub proof fn law_each_first_entry_is_kept(configured: Seq<(Seq<char>, bool, Option<u64>)>, j: int)
    requires
        0 <= j < configured.len(),
        trim(configured[j].0).len() > 0,
        forall|i: int| 0 <= i < j ==> trim(#[trigger] configured[i].0) != trim(configured[j].0),
    ensures
        exists|k: int|
            0 <= k < normalized_configured_from(configured).len()
                && #[trigger] normalized_configured_from(configured)[k] == (
                trim(configured[j].0),
                configured[j].1,
                configured[j].2,
            ),
{
    let q = configured.take(j + 1);
    assert(q.last() == configured[j]);
    assert forall|i: int| 0 <= i < q.len() - 1 implies trim(#[trigger] q[i].0) != trim(q.last().0) by {
        assert(q[i] == configured[i]);
    }
    law_first_entry_of_each_id_is_kept(q);
    lemma_normalized_prefix(configured, j + 1);
    let k = normalized_configured_from(q).len() - 1;
    assert(normalized_configured_from(configured)[k] == normalized_configured_from(q)[k]);
}

fn configured_ids_contain(v: &Vec<ModelProviderConfiguredModel>, s: &str) -> (b: bool)
    ensures
        b == configured_specs(v@).map_values(|c: (Seq<char>, bool, Option<u64>)| c.0).contains(s@),
{
    let ghost ids = configured_specs(v@).map_values(|c: (Seq<char>, bool, Option<u64>)| c.0);
    let mut i: usize = 0;
    while i < v.len()
        invariant
            i <= v@.len(),
            ids == configured_specs(v@).map_values(|c: (Seq<char>, bool, Option<u64>)| c.0),
            forall|k: int| 0 <= k < i ==> v@[k].model_id@ != s@,
        decreases v.len() - i,
    {
        if str_eq(v[i].model_id.as_str(), s) {
            assert(ids[i as int] == s@);
            return true;
        }
        i = i + 1;
    }
    assert(!ids.contains(s@)) by {
        if ids.contains(s@) {
            let k = choose|k: int| 0 <= k < ids.len() && ids[k] == s@;
            assert(v@[k].model_id@ == s@);
        }
    }
    false
}

pub fn normalize_configured_models(
    configured_models: Vec<ModelProviderConfiguredModel>,
    enabled_model_ids: Vec<String>,
) -> (out: Vec<ModelProviderConfiguredModel>)
    ensures
        configured_specs(out@) == normalized_configured(
            configured_specs(configured_models@),
            string_views(enabled_model_ids@),
        ),
        configured_models@.len() > 0 ==> forall|k: int|
            0 <= k < out@.len() ==> exists|j: int|
                0 <= j < configured_models@.len() && #[trigger] configured_spec(out@[k]) == (
                    trim(configured_models@[j].model_id@),
                    configured_models@[j].enabled,
                    configured_models@[j].context_window_override_tokens,
                ),
{
    if configured_models.len() == 0 {
        let ids = normalize_enabled_model_ids(enabled_model_ids);
        let mut out: Vec<ModelProviderConfiguredModel> = Vec::new();
        let mut i: usize = 0;
        while i < ids.len()
            invariant
                i <= ids@.len(),
                out@.len() == i,
                forall|k: int| 0 <= k < i ==> #[trigger] configured_spec(out@[k]) == (ids@[k]@, true, None::<u64>),
            decreases ids.len() - i,
        {
            out.push(ModelProviderConfiguredModel {
                model_id: to_string(ids[i].as_str()),
                enabled: true,
                context_window_override_tokens: None,
            });
            i = i + 1;
        }
        assert(configured_specs(out@) =~= normalized_ids(string_views(enabled_model_ids@)).map_values(
            |id: Seq<char>| (id, true, None::<u64>),
        ));
        return out;
    }
    let ghost cs = configured_specs(configured_models@);
    let mut out: Vec<ModelProviderConfiguredModel> = Vec::new();
    let mut i: usize = 0;
    assert(cs.take(0) =~= Seq::<(Seq<char>, bool, Option<u64>)>::empty());
    assert(configured_specs(out@) =~= Seq::<(Seq<char>, bool, Option<u64>)>::empty());
    while i < configured_models.len()
        invariant
            i <= configured_models@.len(),
            cs == configured_specs(configured_models@),
            configured_specs(out@) == normalized_configured_from(cs.take(i as int)),
        decreases configured_models.len() - i,
    {
        assert(cs.take(i + 1).drop_last() =~= cs.take(i as int));
        assert(cs.take(i + 1).last() == configured_spec(configured_models@[i as int]));
        let c = &configured_models[i];
        let t = trim_to_string(c.model_id.as_str());
        if !t.as_str().is_empty() && !configured_ids_contain(&out, t.as_str()) {
            let ghost before = configured_specs(out@);
            let ghost tv = t@;
            out.push(ModelProviderConfiguredModel {
                model_id: t,
                enabled: c.enabled,
                context_window_override_tokens: c.context_window_override_tokens,
            });
            assert(configured_specs(out@) =~= before.push((tv, c.enabled, c.context_window_override_tokens)));
        }
        i = i + 1;
    }
    assert(cs.take(configured_models.len() as int) =~= cs);
    assert forall|k: int| 0 <= k < out@.len() implies exists|j: int|
        0 <= j < configured_models@.len() && #[trigger] configured_spec(out@[k]) == (
            trim(configured_models@[j].model_id@),
            configured_models@[j].enabled,
            configured_models@[j].context_window_override_tokens,
        ) by {
        assert(configured_specs(out@)[k] == configured_spec(out@[k]));
        law_kept_models_keep_their_settings(cs, k);
        let j = choose|j: int|
            0 <= j < cs.len() && normalized_configured_from(cs)[k] == (trim(#[trigger] cs[j].0), cs[j].1, cs[j].2);
        assert(cs[j] == configured_spec(configured_models@[j]));
    }
    out
}

/// The ids of the enabled configured models, in order.
pub open spec fn enabled_ids_of(configured: Seq<(Seq<char>, bool, Option<u64>)>) -> Seq<Seq<char>>
    decreases configured.len(),
{
    if configured.len() == 0 {
        seq![]
    } else {
        let before = enabled_ids_of(configured.drop_last());
        if configured.last().1 {
            before.push(configured.last().0)
        } else {
            before
        }
    }
}

pub fn configured_models_to_enabled_model_ids(configured_models: &[ModelProviderConfiguredModel]) -> (ids: Vec<String>)
    ensures
        string_views(ids@) == enabled_ids_of(configured_specs(configured_models@)),
{
    let ghost cs = configured_specs(configured_models@);
    let mut ids: Vec<String> = Vec::new();
    let mut i: usize = 0;
    assert(cs.take(0) =~= Seq::<(Seq<char>, bool, Option<u64>)>::empty());
    assert(string_views(ids@) =~= Seq::<Seq<char>>::empty());
    while i < configured_models.len()
        invariant
            i <= configured_models@.len(),
            cs == configured_specs(configured_models@),
            string_views(ids@) == enabled_ids_of(cs.take(i as int)),
        decreases configured_models.len() - i,
    {
        assert(cs.take(i + 1).drop_last() =~= cs.take(i as int));
        assert(cs.take(i + 1).last() == configured_spec(configured_models@[i as int]));
        if configured_models[i].enabled {
            let ghost before = string_views(ids@);
            ids.push(to_string(configured_models[i].model_id.as_str()));
            assert(string_views(ids@) =~= before.push(configured_models@[i as int].model_id@));
        }
        i = i + 1;
    }
    assert(cs.take(configured_models.len() as int) =~= cs);
    ids
}

/// A disabled instance is disabled; otherwise it is ready once it enables a model, else a draft.
pub fn derive_instance_status(disabled_instance: bool, enabled_model_ids: &[String]) -> (s: ModelProviderInstanceStatus)
    ensures
        s == if disabled_instance {
            ModelProviderInstanceStatus::Disabled
        } else if enabled_model_ids@.len() == 0 {
            ModelProviderInstanceStatus::Draft
        } else {
            ModelProviderInstanceStatus::Ready
        },
{
    if disabled_instance {
        ModelProviderInstanceStatus::Disabled
    } else if enabled_model_ids.len() == 0 {
        ModelProviderInstanceStatus::Draft
    } else {
        ModelProviderInstanceStatus::Ready
    }
}

/// The main instance of a provider, as shown.
pub struct ModelProviderMainInstanceView {
    pub provider_code: String,
    pub auto_include_new_instances: bool,
}

/// The main instance of a provider, with how many groups and models it gathers.
pub struct ModelProviderMainInstanceSummary {
    pub provider_code: String,
    pub auto_include_new_instances: bool,
    pub group_count: usize,
    pub model_count: usize,
}

/// Model provider instances, kept by a repository and run by a provider runtime.
pub struct ModelProviderService<R, H> {
    pub repository: R,
    pub runtime: H,
    pub provider_secret_master_key: String,
}

impl<R, H> ModelProviderService<R, H> {
    pub fn new(repository: R, runtime: H, provider_secret_master_key: String) -> (s: Self)
        ensures
            s.repository == repository,
            s.runtime == runtime,
            s.provider_secret_master_key@ == provider_secret_master_key@,
    {
        Self { repository, runtime, provider_secret_master_key }
    }
}


fn clone_descriptor(d: &ProviderModelDescriptor) -> (out: ProviderModelDescriptor)
    ensures
        descriptor_spec(out) == descriptor_spec(*d),
{
    ProviderModelDescriptor {
        model_id: to_string(d.model_id.as_str()),
        display_name: to_string(d.display_name.as_str()),
        source: d.source,
        supports_streaming: d.supports_streaming,
        supports_tool_call: d.supports_tool_call,
        supports_multimodal: d.supports_multimodal,
        context_window: d.context_window,
        max_output_tokens: d.max_output_tokens,
        provider_metadata: clone_json(&d.provider_metadata),
    }
}

/// The configuration of a model: the last configured entry with its id.
pub open spec fn configured_for(cs: Seq<(Seq<char>, bool, Option<u64>)>, id: Seq<char>) -> Option<
    (Seq<char>, bool, Option<u64>),
>
    decreases cs.len(),
{
    if cs.len() == 0 {
        None
    } else if cs.last().0 == id {
        Some(cs.last())
    } else {
        configured_for(cs.drop_last(), id)
    }
}

/// A model descriptor by id: the last one given with that id.
pub open spec fn model_for(ms: Seq<DescriptorSpec>, id: Seq<char>) -> Option<DescriptorSpec>
    decreases ms.len(),
{
    if ms.len() == 0 {
        None
    } else if ms.last().model_id == id {
        Some(ms.last())
    } else {
        model_for(ms.drop_last(), id)
    }
}

/// A model's context window, overridden by its configuration when that sets one.
pub open spec fn with_context_override(d: DescriptorSpec, c: Option<(Seq<char>, bool, Option<u64>)>) -> DescriptorSpec {
    match c {
        Some(c) => match c.2 {
            Some(tokens) => DescriptorSpec { context_window: Some(tokens), ..d },
            None => d,
        },
        None => d,
    }
}

/// An enabled model the provider did not describe: shown by its id, as a listed model.
pub open spec fn fallback_descriptor(id: Seq<char>, c: Option<(Seq<char>, bool, Option<u64>)>) -> LocalizedSpec {
    LocalizedSpec {
        descriptor: DescriptorSpec {
            model_id: id,
            display_name: id,
            source: ProviderModelSource::Dynamic,
            supports_streaming: false,
            supports_tool_call: false,
            supports_multimodal: false,
            context_window: match c {
                Some(c) => c.2,
                None => None,
            },
            max_output_tokens: None,
            provider_metadata: JsonSpec::Object(seq![]),
        },
        namespace: None,
        label_key: None,
        description_key: None,
        display_name_fallback: Some(id),
    }
}

/// The enabled models in the order enabled, each as the provider describes it (with its context
/// override), or by its id when the provider does not describe it.
pub open spec fn exposed_models(
    namespace: Seq<char>,
    models: Seq<DescriptorSpec>,
    configured: Seq<(Seq<char>, bool, Option<u64>)>,
    enabled_ids: Seq<Seq<char>>,
) -> Seq<LocalizedSpec> {
    enabled_ids.map_values(
        |id: Seq<char>|
            match model_for(models, id) {
                Some(d) => localized(namespace, with_context_override(d, configured_for(configured, id))),
                None => fallback_descriptor(id, configured_for(configured, id)),
            },
    )
}

pub open spec fn descriptor_specs(v: Seq<ProviderModelDescriptor>) -> Seq<DescriptorSpec> {
    v.map_values(|d: ProviderModelDescriptor| descriptor_spec(d))
}

fn find_configured(configured_models: &[ModelProviderConfiguredModel], id: &str) -> (r: Option<usize>)
    ensures
        match r {
            Some(k) => k < configured_models@.len() && configured_for(configured_specs(configured_models@), id@)
                == Some(configured_spec(configured_models@[k as int])),
            None => configured_for(configured_specs(configured_models@), id@) is None,
        },
{
    let ghost cs = configured_specs(configured_models@);
    let mut i = configured_models.len();
    assert(cs.take(i as int) =~= cs);
    while i > 0
        invariant
            i <= configured_models@.len(),
            cs == configured_specs(configured_models@),
            configured_for(cs, id@) == configured_for(cs.take(i as int), id@),
        decreases i,
    {
        assert(cs.take(i as int).drop_last() =~= cs.take(i - 1));
        assert(cs.take(i as int).last() == configured_spec(configured_models@[i - 1]));
        if str_eq(configured_models[i - 1].model_id.as_str(), id) {
            return Some(i - 1);
        }
        i = i - 1;
    }
    None
}

fn find_model(models: &Vec<ProviderModelDescriptor>, id: &str) -> (r: Option<usize>)
    ensures
        match r {
            Some(k) => k < models@.len() && model_for(descriptor_specs(models@), id@) == Some(
                descriptor_spec(models@[k as int]),
            ),
            None => model_for(descriptor_specs(models@), id@) is None,
        },
{
    let ghost ms = descriptor_specs(models@);
    let mut i = models.len();
    assert(ms.take(i as int) =~= ms);
    while i > 0
        invariant
            i <= models@.len(),
            ms == descriptor_specs(models@),
            model_for(ms, id@) == model_for(ms.take(i as int), id@),
        decreases i,
    {
        assert(ms.take(i as int).drop_last() =~= ms.take(i - 1));
        assert(ms.take(i as int).last() == descriptor_spec(models@[i - 1]));
        if str_eq(models[i - 1].model_id.as_str(), id) {
            return Some(i - 1);
        }
        i = i - 1;
    }
    None
}

/// A model with its configured context window, when the configuration sets one.
pub fn apply_context_override(model: ProviderModelDescriptor, configured_model: Option<&ModelProviderConfiguredModel>) -> (out:
    ProviderModelDescriptor)
    ensures
        descriptor_spec(out) == with_context_override(
            descriptor_spec(model),
            match configured_model {
                Some(c) => Some(configured_spec(*c)),
                None => None,
            },
        ),
{
    let mut model = model;
    match configured_model {
        Some(c) => match c.context_window_override_tokens {
            Some(tokens) => {
                model.context_window = Some(tokens);
            },
            None => {},
        },
        None => {},
    }
    model
}

pub fn fallback_enabled_model_descriptor(model_id: &str, configured_model: Option<&ModelProviderConfiguredModel>) -> (out:
    LocalizedProviderModelDescriptor)
    ensures
        localized_spec(out) == fallback_descriptor(
            model_id@,
            match configured_model {
                Some(c) => Some(configured_spec(*c)),
                None => None,
            },
        ),
{
    LocalizedProviderModelDescriptor {
        descriptor: ProviderModelDescriptor {
            model_id: to_string(model_id),
            display_name: to_string(model_id),
            source: ProviderModelSource::Dynamic,
            supports_streaming: false,
            supports_tool_call: false,
            supports_multimodal: false,
            context_window: match configured_model {
                Some(c) => c.context_window_override_tokens,
                None => None,
            },
            max_output_tokens: None,
            provider_metadata: empty_object(),
        },
        namespace: None,
        label_key: None,
        description_key: None,
        display_name_fallback: Some(to_string(model_id)),
    }
}

/// The enabled models of an instance as they are offered for choice.
pub fn expose_enabled_models(
    namespace: &str,
    models: Vec<ProviderModelDescriptor>,
    configured_models: &[ModelProviderConfiguredModel],
    enabled_model_ids: &[String],
) -> (out: Vec<LocalizedProviderModelDescriptor>)
    ensures
        localized_specs(out@) == exposed_models(
            namespace@,
            descriptor_specs(models@),
            configured_specs(configured_models@),
            string_views(enabled_model_ids@),
        ),
{
    let ghost expected = exposed_models(
        namespace@,
        descriptor_specs(models@),
        configured_specs(configured_models@),
        string_views(enabled_model_ids@),
    );
    let mut out: Vec<LocalizedProviderModelDescriptor> = Vec::new();
    let mut i: usize = 0;
    while i < enabled_model_ids.len()
        invariant
            i <= enabled_model_ids@.len(),
            expected == exposed_models(
                namespace@,
                descriptor_specs(models@),
                configured_specs(configured_models@),
                string_views(enabled_model_ids@),
            ),
            localized_specs(out@) == expected.take(i as int),
        decreases enabled_model_ids.len() - i,
    {
        let id = enabled_model_ids[i].as_str();
        let configured = match find_configured(configured_models, id) {
            Some(k) => Some(&configured_models[k]),
            None => None,
        };
        let entry = match find_model(&models, id) {
            Some(k) => {
                let d = clone_descriptor(&models[k]);
                localized_model_descriptor(namespace, apply_context_override(d, configured))
            },
            None => fallback_enabled_model_descriptor(id, configured),
        };
        let ghost before = localized_specs(out@);
        out.push(entry);
        assert(localized_specs(out@) =~= before.push(localized_spec(entry)));
        assert(expected.take(i + 1) =~= expected.take(i as int).push(expected[i as int]));
        i = i + 1;
    }
    assert(expected.take(enabled_model_ids.len() as int) =~= expected);
    out
}


/// Model ids as normalized: trimmed, not blank, each once.
pub open spec fn ids_normalized(ids: Seq<Seq<char>>) -> bool {
    &&& forall|i: int| 0 <= i < ids.len() ==> trim(#[trigger] ids[i]) == ids[i] && ids[i].len() > 0
    &&& forall|i: int, j: int| 0 <= i < j < ids.len() ==> #[trigger] ids[i] != #[trigger] ids[j]
}

pub proof fn lemma_normalized_ids_normalized(ids: Seq<Seq<char>>)
    ensures
        ids_normalized(normalized_ids(ids)),
    decreases ids.len(),
{
    if ids.len() > 0 {
        lemma_normalized_ids_normalized(ids.drop_last());
        crate::text::lemma_trim_idempotent(ids.last());
    }
}

pub proof fn lemma_normalized_ids_fixed(ids: Seq<Seq<char>>)
    requires
        ids_normalized(ids),
    ensures
        normalized_ids(ids) == ids,
    decreases ids.len(),
{
    if ids.len() > 0 {
        let prefix = ids.drop_last();
        assert forall|i: int| 0 <= i < prefix.len() implies trim(#[trigger] prefix[i]) == prefix[i] && prefix[i].len() > 0 by {
            assert(prefix[i] == ids[i]);
        }
        lemma_normalized_ids_fixed(prefix);
        assert(trim(ids[ids.len() - 1]) == ids[ids.len() - 1]);
        assert(!prefix.contains(ids.last())) by {
            if prefix.contains(ids.last()) {
                let k = choose|k: int| 0 <= k < prefix.len() && prefix[k] == ids.last();
                assert(ids[k] == ids[ids.len() - 1]);
            }
        }
        assert(prefix.push(ids.last()) =~= ids);
    }
}

/// Normalizing enabled model ids twice normalizes them once.
pub proof fn law_normalized_ids_idempotent(ids: Seq<Seq<char>>)
    ensures
        normalized_ids(normalized_ids(ids)) == normalized_ids(ids),
{
    lemma_normalized_ids_normalized(ids);
    lemma_normalized_ids_fixed(normalized_ids(ids));
}

/// A translation key is its own key.
pub proof fn law_i18n_key_idempotent(model_id: Seq<char>)
    ensures
        i18n_key(i18n_key(model_id)) == i18n_key(model_id),
{
    let k = i18n_key(model_id);
    assert forall|i: int| 0 <= i < k.len() implies (if is_ascii_alphanumeric(#[trigger] k[i]) {
        ascii_lower(k[i])
    } else {
        '_'
    }) == k[i] by {
        let c = model_id[i];
        if is_ascii_alphanumeric(c) {
            if 'A' <= c && c <= 'Z' {
                assert(ascii_lower(c) == ((c as u32) + 32) as char);
            }
        }
    }
    assert(i18n_key(k) =~= k);
}


/// The fingerprint of a configuration: the compact JSON text of its canonical form.
pub open spec fn config_fingerprint(config: JsonSpec) -> Seq<char> {
    vstd::utf8::decode_utf8(crate::outside::json_compact_bytes(canonical_json(config)))
}

/// The fingerprint of a provider configuration: the compact JSON text of its canonical form, so
/// that the order of object keys does not change it.
pub fn fingerprint_provider_config(config: &JsonValue) -> (s: String)
    ensures
        s@ == config_fingerprint(config@),
{
    let canonical = canonicalize_json(config);
    to_compact_string(&canonical)
}

/// Two configurations equal up to the order of their objects' keys, at any depth (each object
/// naming each key once, as every parsed JSON object does), have the same fingerprint.
pub proof fn law_fingerprint_ignores_key_order(a: JsonSpec, b: JsonSpec)
    requires
        crate::json::same_up_to_key_order(a, b),
    ensures
        config_fingerprint(a) == config_fingerprint(b),
{
    crate::json::law_canonical_ignores_key_order_at_every_depth(a, b);
}



/// How a provider package discovers its models.
#[derive(Debug, Clone, Copy, PartialEq, Eq, Structural)]
pub enum ModelDiscoveryMode {
    Static,
    Dynamic,
    Hybrid,
}

/// How an instance's models are discovered, as its catalog records it.
#[derive(Debug, Clone, Copy, PartialEq, Eq, Structural)]
pub enum ModelProviderDiscoveryMode {
    Static,
    Dynamic,
    Hybrid,
}

/// Where an instance's model catalog comes from.
#[derive(Debug, Clone, Copy, PartialEq, Eq, Structural)]
pub enum ModelProviderCatalogSource {
    Static,
    Dynamic,
    Hybrid,
}

pub open spec fn map_model_discovery_mode_spec(mode: ModelDiscoveryMode) -> ModelProviderDiscoveryMode {
    match mode {
        ModelDiscoveryMode::Static => ModelProviderDiscoveryMode::Static,
        ModelDiscoveryMode::Dynamic => ModelProviderDiscoveryMode::Dynamic,
        ModelDiscoveryMode::Hybrid => ModelProviderDiscoveryMode::Hybrid,
    }
}

pub open spec fn map_catalog_source_spec(mode: ModelDiscoveryMode) -> ModelProviderCatalogSource {
    match mode {
        ModelDiscoveryMode::Static => ModelProviderCatalogSource::Static,
        ModelDiscoveryMode::Dynamic => ModelProviderCatalogSource::Dynamic,
        ModelDiscoveryMode::Hybrid => ModelProviderCatalogSource::Hybrid,
    }
}

/// The discovery mode an instance records for its package's mode: the same one.
pub fn map_model_discovery_mode(mode: ModelDiscoveryMode) -> (r: ModelProviderDiscoveryMode)
    ensures
        r == match mode {
            ModelDiscoveryMode::Static => ModelProviderDiscoveryMode::Static,
            ModelDiscoveryMode::Dynamic => ModelProviderDiscoveryMode::Dynamic,
            ModelDiscoveryMode::Hybrid => ModelProviderDiscoveryMode::Hybrid,
        },
{
    match mode {
        ModelDiscoveryMode::Static => ModelProviderDiscoveryMode::Static,
        ModelDiscoveryMode::Dynamic => ModelProviderDiscoveryMode::Dynamic,
        ModelDiscoveryMode::Hybrid => ModelProviderDiscoveryMode::Hybrid,
    }
}

/// The catalog source of an instance whose package discovers its models in a mode: the same one.
pub fn map_catalog_source(mode: ModelDiscoveryMode) -> (r: ModelProviderCatalogSource)
    ensures
        r == match mode {
            ModelDiscoveryMode::Static => ModelProviderCatalogSource::Static,
            ModelDiscoveryMode::Dynamic => ModelProviderCatalogSource::Dynamic,
            ModelDiscoveryMode::Hybrid => ModelProviderCatalogSource::Hybrid,
        },
{
    match mode {
        ModelDiscoveryMode::Static => ModelProviderCatalogSource::Static,
        ModelDiscoveryMode::Dynamic => ModelProviderCatalogSource::Dynamic,
        ModelDiscoveryMode::Hybrid => ModelProviderCatalogSource::Hybrid,
    }
}

/// What the plugin framework reports went wrong.
#[derive(Debug, Clone, Copy, PartialEq, Eq, Structural)]
pub enum PluginFrameworkErrorKind {
    InvalidAssignment,
    InvalidProviderPackage,
    InvalidProviderContract,
    Serialization,
    Io,
    RuntimeContract,
}

/// The error a plugin framework failure is reported as: a bad provider package is invalid
/// input, a failing runtime is an unavailable upstream.
pub fn map_framework_error(kind: PluginFrameworkErrorKind) -> (e: ControlPlaneError)
    ensures
        e == match kind {
            PluginFrameworkErrorKind::Io | PluginFrameworkErrorKind::RuntimeContract => ControlPlaneError::UpstreamUnavailable(
                "provider_runtime",
            ),
            _ => ControlPlaneError::InvalidInput("provider_package"),
        },
{
    match kind {
        PluginFrameworkErrorKind::InvalidAssignment | PluginFrameworkErrorKind::InvalidProviderPackage
        | PluginFrameworkErrorKind::InvalidProviderContract | PluginFrameworkErrorKind::Serialization => {
            ControlPlaneError::InvalidInput("provider_package")
        },
        PluginFrameworkErrorKind::Io | PluginFrameworkErrorKind::RuntimeContract => {
            ControlPlaneError::UpstreamUnavailable("provider_runtime")
        },
    }
}


// ---------------------------------------------------------------------------------------------
// What creating, updating, previewing and validating an instance writes
// ---------------------------------------------------------------------------------------------

/// Two objects merged (`merge_json_object`), nothing where either is not an object.
pub open spec fn merged(base: JsonSpec, patch: JsonSpec) -> Option<JsonSpec> {
    if base is Object && patch is Object {
        Some(JsonSpec::Object(merge_entries(base->Object_0, patch->Object_0)))
    } else {
        None
    }
}

/// The public and secret parts of a configuration input, by the form.
pub open spec fn split_config(form: Seq<ProviderConfigField>, input: JsonSpec) -> Option<(JsonSpec, JsonSpec)> {
    match input {
        JsonSpec::Object(entries) => match split_entries(form, entries) {
            Some((public, secret)) => Some((JsonSpec::Object(public), JsonSpec::Object(secret))),
            None => None,
        },
        _ => None,
    }
}

/// Whether a public and a secret configuration fill the form's required fields.
pub open spec fn fills_form(form: Seq<ProviderConfigField>, public: JsonSpec, secret: JsonSpec) -> bool {
    public is Object && secret is Object && required_fields_filled(form, public->Object_0, secret->Object_0)
}

/// A configuration after an update: the public part and the secret part, each merged with its
/// patch; the secret part is written again, with the next version (1 for the first), only
/// where the patch changes it; the configuration the provider runs with is the two merged.
pub struct InstanceConfigUpdate {
    pub public_config: JsonValue,
    pub secret_config: JsonValue,
    pub secret_write: Option<i32>,
    pub provider_config: JsonValue,
}

/// The configuration an update of an instance leads to: `(public, secret, secret version to
/// write, provider configuration)`, or why it is refused.
pub open spec fn config_update(
    form: Seq<ProviderConfigField>,
    existing_config: JsonSpec,
    current_secret: Option<JsonSpec>,
    current_secret_version: Option<i32>,
    patch: JsonSpec,
) -> Option<(JsonSpec, JsonSpec, Option<int>, JsonSpec)> {
    match split_config(form, patch) {
        None => None,
        Some((public_patch, secret_patch)) => {
            let secret = match current_secret {
                Some(s) => s,
                None => JsonSpec::Object(Seq::empty()),
            };
            match merged(existing_config, public_patch) {
                None => None,
                Some(public) => match merged(secret, secret_patch) {
                    None => None,
                    Some(secret_merged) => if !fills_form(form, public, secret_merged) {
                        None
                    } else {
                        Some(
                            (
                                public,
                                secret_merged,
                                if secret_patch->Object_0.len() == 0 {
                                    None
                                } else {
                                    Some(
                                        match current_secret_version {
                                            Some(v) => v + 1,
                                            None => 1,
                                        },
                                    )
                                },
                                merged(public, secret_merged)->Some_0,
                            ),
                        )
                    },
                },
            }
        },
    }
}

pub open spec fn config_update_spec(u: InstanceConfigUpdate) -> (JsonSpec, JsonSpec, Option<int>, JsonSpec) {
    (
        u.public_config@,
        u.secret_config@,
        match u.secret_write {
            Some(v) => Some(v as int),
            None => None,
        },
        u.provider_config@,
    )
}

/// The configuration an update of an instance leads to, from its stored public configuration,
/// its stored secret (and that secret's version), and the configuration input.
pub fn instance_config_update(
    form_schema: &[ProviderConfigField],
    existing_config: &JsonValue,
    current_secret: Option<&JsonValue>,
    current_secret_version: Option<i32>,
    patch: &JsonValue,
) -> (r: Result<InstanceConfigUpdate, ControlPlaneError>)
    requires
        current_secret_version != Some(i32::MAX),
    ensures
        match config_update(
            form_schema@,
            existing_config@,
            crate::json::opt_view(current_secret),
            current_secret_version,
            patch@,
        ) {
            Some(u) => r is Ok && config_update_spec(r->Ok_0) == u,
            None => r == Err::<InstanceConfigUpdate, _>(ControlPlaneError::InvalidInput("config_json")),
        },
{
    let (public_patch, secret_patch) = match split_provider_config(form_schema, patch) {
        Ok(parts) => parts,
        Err(e) => {
            return Err(e);
        },
    };
    let secret = match current_secret {
        Some(s) => clone_json(s),
        None => empty_object(),
    };
    let public = match merge_json_object(existing_config, &public_patch) {
        Ok(p) => p,
        Err(e) => {
            return Err(e);
        },
    };
    let secret_merged = match merge_json_object(&secret, &secret_patch) {
        Ok(p) => p,
        Err(e) => {
            return Err(e);
        },
    };
    match validate_required_fields(form_schema, &public, &secret_merged) {
        Ok(()) => {},
        Err(e) => {
            return Err(e);
        },
    }
    let provider_config = match merge_json_object(&public, &secret_merged) {
        Ok(p) => p,
        Err(e) => {
            return Err(e);
        },
    };
    let secret_write = if is_empty_object(&secret_patch) {
        None
    } else {
        Some(
            match current_secret_version {
                Some(v) => v + 1,
                None => 1,
            },
        )
    };
    Ok(InstanceConfigUpdate { public_config: public, secret_config: secret_merged, secret_write, provider_config })
}

/// The configuration a new instance, or a preview without an instance, runs with: the input
/// split by the form, its required fields filled, the two parts merged.
pub open spec fn new_config(form: Seq<ProviderConfigField>, input: JsonSpec) -> Option<(JsonSpec, JsonSpec, JsonSpec)> {
    match split_config(form, input) {
        None => None,
        Some((public, secret)) => if fills_form(form, public, secret) {
            Some((public, secret, merged(public, secret)->Some_0))
        } else {
            None
        },
    }
}

/// The public, secret and provider configuration of a new instance.
pub fn new_instance_config(form_schema: &[ProviderConfigField], input: &JsonValue) -> (r: Result<
    (JsonValue, JsonValue, JsonValue),
    ControlPlaneError,
>)
    ensures
        match new_config(form_schema@, input@) {
            Some((public, secret, provider)) => r is Ok && r->Ok_0.0@ == public && r->Ok_0.1@ == secret
                && r->Ok_0.2@ == provider,
            None => r == Err::<(JsonValue, JsonValue, JsonValue), _>(ControlPlaneError::InvalidInput("config_json")),
        },
{
    let (public, secret) = match split_provider_config(form_schema, input) {
        Ok(parts) => parts,
        Err(e) => {
            return Err(e);
        },
    };
    match validate_required_fields(form_schema, &public, &secret) {
        Ok(()) => {},
        Err(e) => {
            return Err(e);
        },
    }
    let provider = match merge_json_object(&public, &secret) {
        Ok(p) => p,
        Err(e) => {
            return Err(e);
        },
    };
    Ok((public, secret, provider))
}

/// How long a preview of models stays valid, in nanoseconds: ten minutes.
pub const PREVIEW_WINDOW_NANOS: i128 = 600_000_000_000;

/// A preview session: the models listed with a configuration, kept by the configuration's
/// fingerprint until it expires.
pub struct PreviewSessionInput {
    pub session_id: u128,
    pub workspace_id: u128,
    pub actor_user_id: u128,
    pub installation_id: u128,
    pub instance_id: Option<u128>,
    pub config_fingerprint: String,
    pub models_json: JsonValue,
    pub expires_at_unix_nanos: i128,
}

/// The preview session of models listed with a configuration at `now`. A preview names an
/// instance, or else an installation; with neither it is refused.
pub fn preview_session(
    session_id: u128,
    workspace_id: u128,
    actor_user_id: u128,
    instance: Option<(u128, u128)>,
    installation_id: Option<u128>,
    provider_config: &JsonValue,
    models_json: JsonValue,
    now_unix_nanos: i128,
) -> (r: Result<PreviewSessionInput, ControlPlaneError>)
    requires
        now_unix_nanos <= i128::MAX - PREVIEW_WINDOW_NANOS,
    ensures
        instance is None && installation_id is None ==> r == Err::<PreviewSessionInput, _>(
            ControlPlaneError::InvalidInput("installation_id"),
        ),
        instance is Some || installation_id is Some ==> r is Ok && ({
            let p = r->Ok_0;
            &&& p.session_id == session_id
            &&& p.workspace_id == workspace_id
            &&& p.actor_user_id == actor_user_id
            &&& p.installation_id == match instance {
                Some((_, installation)) => installation,
                None => installation_id->Some_0,
            }
            &&& p.instance_id == match instance {
                Some((id, _)) => Some(id),
                None => None,
            }
            &&& p.config_fingerprint@ == config_fingerprint(provider_config@)
            &&& p.models_json@ == models_json@
            &&& p.expires_at_unix_nanos == now_unix_nanos + PREVIEW_WINDOW_NANOS
        }),
{
    let (installation, instance_id) = match instance {
        Some((id, installation)) => (installation, Some(id)),
        None => match installation_id {
            Some(installation) => (installation, None),
            None => {
                return Err(ControlPlaneError::InvalidInput("installation_id"));
            },
        },
    };
    Ok(
        PreviewSessionInput {
            session_id,
            workspace_id,
            actor_user_id,
            installation_id: installation,
            instance_id,
            config_fingerprint: fingerprint_provider_config(provider_config),
            models_json,
            expires_at_unix_nanos: now_unix_nanos + PREVIEW_WINDOW_NANOS,
        },
    )
}

/// How a refresh of a catalog ended.
#[derive(Debug, Clone, Copy, PartialEq, Eq, Structural)]
pub enum CatalogRefreshStatus {
    Ready,
    Failed,
}

/// A write of an instance's model catalog.
pub struct CatalogCacheUpsert {
    pub model_discovery_mode: ModelProviderDiscoveryMode,
    pub refresh_status: CatalogRefreshStatus,
    pub source: ModelProviderCatalogSource,
    pub models_json: JsonValue,
    pub last_error_message: Option<String>,
    pub refreshed_at_unix_nanos: Option<i128>,
}

/// What a failed validation of an instance writes: its catalog marked failed with the error,
/// keeping the models stored before (none where there were none) and no refresh time; the
/// instance moved to invalid where that move is allowed; and the audit payload.
pub struct ValidationFailureWrites {
    pub catalog: CatalogCacheUpsert,
    pub mark_invalid: bool,
    pub audit_payload: JsonValue,
}

/// What a failed validation of an instance writes.
pub fn validation_failure_writes(
    mode: ModelDiscoveryMode,
    stored_models: Option<&JsonValue>,
    invalid_transition_allowed: bool,
    provider_code: &str,
    error: &str,
) -> (w: ValidationFailureWrites)
    ensures
        w.catalog.model_discovery_mode == map_model_discovery_mode_spec(mode),
        w.catalog.source == map_catalog_source_spec(mode),
        w.catalog.refresh_status == CatalogRefreshStatus::Failed,
        w.catalog.models_json@ == match stored_models {
            Some(m) => m@,
            None => JsonSpec::Array(Seq::empty()),
        },
        crate::json::opt_string_view(w.catalog.last_error_message) == Some(error@),
        w.catalog.refreshed_at_unix_nanos is None,
        w.mark_invalid == invalid_transition_allowed,
        w.audit_payload@ == JsonSpec::Object(
            seq![("provider_code"@, JsonSpec::Str(provider_code@)), ("message"@, JsonSpec::Str(error@))],
        ),
{
    let models_json = match stored_models {
        Some(m) => clone_json(m),
        None => {
            let empty: Vec<JsonValue> = Vec::new();
            proof {
                crate::json::lemma_array_view(empty);
                assert(crate::json::views(empty@) =~= Seq::<JsonSpec>::empty());
            }
            JsonValue::Array(empty)
        },
    };
    let mut entries: Vec<(String, JsonValue)> = Vec::new();
    entries.push((to_string("provider_code"), JsonValue::Str(to_string(provider_code))));
    entries.push((to_string("message"), JsonValue::Str(to_string(error))));
    proof {
        lemma_object_view(entries);
        assert(entry_views(entries@) =~= seq![
            ("provider_code"@, JsonSpec::Str(provider_code@)),
            ("message"@, JsonSpec::Str(error@)),
        ]);
    }
    ValidationFailureWrites {
        catalog: CatalogCacheUpsert {
            model_discovery_mode: map_model_discovery_mode(mode),
            refresh_status: CatalogRefreshStatus::Failed,
            source: map_catalog_source(mode),
            models_json,
            last_error_message: Some(to_string(error)),
            refreshed_at_unix_nanos: None,
        },
        mark_invalid: invalid_transition_allowed,
        audit_payload: JsonValue::Object(entries),
    }
}

/// What a successful validation of an instance writes: its catalog ready with the models
/// listed and the time of the refresh, the instance's next status, and the audit payload.
pub struct ValidationSuccessWrites {
    pub catalog: CatalogCacheUpsert,
    pub next_status: ModelProviderInstanceStatus,
    pub audit_payload: JsonValue,
}

/// What a successful validation of an instance writes.
pub fn validation_success_writes(
    mode: ModelDiscoveryMode,
    models_json: JsonValue,
    model_count: i64,
    enabled_model_ids: &[String],
    provider_code: &str,
    now_unix_nanos: i128,
) -> (w: ValidationSuccessWrites)
    ensures
        w.catalog.model_discovery_mode == map_model_discovery_mode_spec(mode),
        w.catalog.source == map_catalog_source_spec(mode),
        w.catalog.refresh_status == CatalogRefreshStatus::Ready,
        w.catalog.models_json@ == models_json@,
        w.catalog.last_error_message is None,
        w.catalog.refreshed_at_unix_nanos == Some(now_unix_nanos),
        w.next_status == (if enabled_model_ids@.len() == 0 {
            ModelProviderInstanceStatus::Draft
        } else {
            ModelProviderInstanceStatus::Ready
        }),
        w.audit_payload@ == JsonSpec::Object(
            seq![
                ("provider_code"@, JsonSpec::Str(provider_code@)),
                ("model_count"@, JsonSpec::Number(model_count as int)),
            ],
        ),
{
    let mut entries: Vec<(String, JsonValue)> = Vec::new();
    entries.push((to_string("provider_code"), JsonValue::Str(to_string(provider_code))));
    entries.push((to_string("model_count"), JsonValue::Number(model_count)));
    proof {
        lemma_object_view(entries);
        assert(entry_views(entries@) =~= seq![
            ("provider_code"@, JsonSpec::Str(provider_code@)),
            ("model_count"@, JsonSpec::Number(model_count as int)),
        ]);
    }
    ValidationSuccessWrites {
        catalog: CatalogCacheUpsert {
            model_discovery_mode: map_model_discovery_mode(mode),
            refresh_status: CatalogRefreshStatus::Ready,
            source: map_catalog_source(mode),
            models_json,
            last_error_message: None,
            refreshed_at_unix_nanos: Some(now_unix_nanos),
        },
        next_status: derive_instance_status(false, enabled_model_ids),
        audit_payload: JsonValue::Object(entries),
    }
}


/// What creating an instance writes: the instance (its trimmed display name, its status, its
/// public configuration, its configured models and the ids of those enabled), its secret at
/// version one where the input holds any, and the provider configuration that previews are
/// fingerprinted by.
pub struct InstanceCreation {
    pub display_name: String,
    pub status: ModelProviderInstanceStatus,
    pub config_json: JsonValue,
    pub configured_models: Vec<ModelProviderConfiguredModel>,
    pub enabled_model_ids: Vec<String>,
    pub secret_write: Option<JsonValue>,
    pub provider_config: JsonValue,
}

/// The status a new instance starts in: ready once it enables a model, else a draft.
pub open spec fn new_instance_status(enabled: Seq<Seq<char>>) -> ModelProviderInstanceStatus {
    if enabled.len() == 0 {
        ModelProviderInstanceStatus::Draft
    } else {
        ModelProviderInstanceStatus::Ready
    }
}

/// Refuses an installation that is not assigned to the workspace.
pub fn ensure_installation_assigned(assigned_installation_ids: &Vec<u128>, installation_id: u128) -> (r: Result<
    (),
    ControlPlaneError,
>)
    ensures
        assigned_installation_ids@.contains(installation_id) ==> r is Ok,
        !assigned_installation_ids@.contains(installation_id) ==> r == Err::<(), _>(
            ControlPlaneError::Conflict("plugin_assignment_required"),
        ),
{
    let mut i: usize = 0;
    while i < assigned_installation_ids.len()
        invariant
            i <= assigned_installation_ids@.len(),
            forall|k: int| 0 <= k < i ==> assigned_installation_ids@[k] != installation_id,
        decreases assigned_installation_ids.len() - i,
    {
        if assigned_installation_ids[i] == installation_id {
            assert(assigned_installation_ids@[i as int] == installation_id);
            return Ok(());
        }
        i = i + 1;
    }
    Err(ControlPlaneError::Conflict("plugin_assignment_required"))
}

/// What creating an instance writes, from its installation (whether it is disabled, or none when
/// it is not found), the installations assigned to the workspace, the package's form, the
/// configuration input, the display name and the models asked for. A missing installation is
/// refused first, then one not assigned to the workspace, then a disabled one; nothing is written
/// for any of them. Then a configuration the form refuses is refused, then a blank display name.
pub fn instance_creation(
    installation_id: u128,
    installation_disabled: Option<bool>,
    assigned_installation_ids: &Vec<u128>,
    form_schema: &[ProviderConfigField],
    config_json: &JsonValue,
    display_name: &str,
    configured_models: Vec<ModelProviderConfiguredModel>,
    enabled_model_ids: Vec<String>,
) -> (r: Result<InstanceCreation, ControlPlaneError>)
    ensures
        installation_disabled is None ==> r == Err::<InstanceCreation, _>(ControlPlaneError::NotFound("plugin_installation")),
        installation_disabled is Some && !assigned_installation_ids@.contains(installation_id) ==> r == Err::<
            InstanceCreation,
            _,
        >(ControlPlaneError::Conflict("plugin_assignment_required")),
        installation_disabled == Some(true) && assigned_installation_ids@.contains(installation_id) ==> r == Err::<
            InstanceCreation,
            _,
        >(ControlPlaneError::Conflict("plugin_installation_disabled")),
        installation_disabled == Some(false) && assigned_installation_ids@.contains(installation_id) ==> match new_config(form_schema@, config_json@) {
            None => r == Err::<InstanceCreation, _>(ControlPlaneError::InvalidInput("config_json")),
            Some((public, secret, provider)) => if trim(display_name@).len() == 0 {
                r == Err::<InstanceCreation, _>(ControlPlaneError::InvalidInput("display_name"))
            } else {
                r matches Ok(c) && {
                    let configured = normalized_configured(
                        configured_specs(configured_models@),
                        string_views(enabled_model_ids@),
                    );
                    &&& c.display_name@ == trim(display_name@)
                    &&& c.config_json@ == public
                    &&& c.provider_config@ == provider
                    &&& configured_specs(c.configured_models@) == configured
                    &&& string_views(c.enabled_model_ids@) == enabled_ids_of(configured)
                    &&& c.status == new_instance_status(enabled_ids_of(configured))
                    &&& match c.secret_write {
                        None => secret is Object && secret->Object_0.len() == 0,
                        Some(w) => !(secret is Object && secret->Object_0.len() == 0) && w@ == secret,
                    }
                }
            },
        },
{
    let disabled = match installation_disabled {
        None => {
            return Err(ControlPlaneError::NotFound("plugin_installation"));
        },
        Some(d) => d,
    };
    ensure_installation_assigned(assigned_installation_ids, installation_id)?;
    if disabled {
        return Err(ControlPlaneError::Conflict("plugin_installation_disabled"));
    }
    let (public, secret, provider) = new_instance_config(form_schema, config_json)?;
    let configured = normalize_configured_models(configured_models, enabled_model_ids);
    let enabled = configured_models_to_enabled_model_ids(configured.as_slice());
    let name = normalize_required_text(display_name, "display_name")?;
    let status = derive_instance_status(false, enabled.as_slice());
    let secret_write = if is_empty_object(&secret) {
        None
    } else {
        Some(secret)
    };
    Ok(InstanceCreation {
        display_name: name,
        status,
        config_json: public,
        configured_models: configured,
        enabled_model_ids: enabled,
        secret_write,
        provider_config: provider,
    })
}

/// The catalog a new instance starts with: the models of the preview it was created from, ready,
/// with the preview's refresh time; none without a preview.
pub fn created_catalog_cache(
    mode: ModelDiscoveryMode,
    preview_models: Option<&JsonValue>,
    refreshed_at_unix_nanos: Option<i128>,
) -> (c: Option<CatalogCacheUpsert>)
    ensures
        match preview_models {
            None => c is None,
            Some(models) => c matches Some(w) && {
                &&& w.model_discovery_mode == map_model_discovery_mode_spec(mode)
                &&& w.refresh_status == CatalogRefreshStatus::Ready
                &&& w.source == map_catalog_source_spec(mode)
                &&& w.models_json@ == models@
                &&& w.last_error_message is None
                &&& w.refreshed_at_unix_nanos == refreshed_at_unix_nanos
            },
        },
{
    match preview_models {
        None => None,
        Some(models) => Some(CatalogCacheUpsert {
            model_discovery_mode: map_model_discovery_mode(mode),
            refresh_status: CatalogRefreshStatus::Ready,
            source: map_catalog_source(mode),
            models_json: clone_json(models),
            last_error_message: None,
            refreshed_at_unix_nanos,
        }),
    }
}

/// What a refresh of an instance's models writes: its catalog and the audit payload.
pub struct RefreshWrites {
    pub catalog: CatalogCacheUpsert,
    pub audit_payload: JsonValue,
}

/// What a refresh that listed models writes: the catalog ready with the models and the time of
/// the refresh, and an audit payload with the provider and how many models were listed.
pub fn refresh_success_writes(
    mode: ModelDiscoveryMode,
    models_json: JsonValue,
    model_count: i64,
    provider_code: &str,
    now_unix_nanos: i128,
) -> (w: RefreshWrites)
    ensures
        w.catalog.model_discovery_mode == map_model_discovery_mode_spec(mode),
        w.catalog.source == map_catalog_source_spec(mode),
        w.catalog.refresh_status == CatalogRefreshStatus::Ready,
        w.catalog.models_json@ == models_json@,
        w.catalog.last_error_message is None,
        w.catalog.refreshed_at_unix_nanos == Some(now_unix_nanos),
        w.audit_payload@ == JsonSpec::Object(
            seq![
                ("provider_code"@, JsonSpec::Str(provider_code@)),
                ("model_count"@, JsonSpec::Number(model_count as int)),
            ],
        ),
{
    let no_models: Vec<String> = Vec::new();
    let written = validation_success_writes(mode, models_json, model_count, no_models.as_slice(), provider_code, now_unix_nanos);
    RefreshWrites { catalog: written.catalog, audit_payload: written.audit_payload }
}

/// What a failed refresh writes: the catalog marked failed with the error, keeping the models and
/// the refresh time stored before (no models and no time where nothing was stored), and an audit
/// payload with the provider and the error.
pub fn refresh_failure_writes(
    mode: ModelDiscoveryMode,
    stored_models: Option<&JsonValue>,
    stored_refreshed_at_unix_nanos: Option<i128>,
    provider_code: &str,
    error: &str,
) -> (w: RefreshWrites)
    ensures
        w.catalog.model_discovery_mode == map_model_discovery_mode_spec(mode),
        w.catalog.source == map_catalog_source_spec(mode),
        w.catalog.refresh_status == CatalogRefreshStatus::Failed,
        w.catalog.models_json@ == match stored_models {
            Some(m) => m@,
            None => JsonSpec::Array(Seq::empty()),
        },
        crate::json::opt_string_view(w.catalog.last_error_message) == Some(error@),
        w.catalog.refreshed_at_unix_nanos == stored_refreshed_at_unix_nanos,
        w.audit_payload@ == JsonSpec::Object(
            seq![("provider_code"@, JsonSpec::Str(provider_code@)), ("message"@, JsonSpec::Str(error@))],
        ),
{
    let written = validation_failure_writes(mode, stored_models, false, provider_code, error);
    let mut catalog = written.catalog;
    catalog.refreshed_at_unix_nanos = stored_refreshed_at_unix_nanos;
    RefreshWrites { catalog, audit_payload: written.audit_payload }
}

/// What deleting an instance does: the audit event it records (with its payload), and whether
/// the instance is deleted, or the request refused because the instance is still referenced.
pub struct InstanceDeletion {
    pub audit_event: String,
    pub audit_payload: JsonValue,
    pub outcome: Result<(), ControlPlaneError>,
}

/// What deleting an instance of a provider does, given how many places still reference it: a
/// referenced instance stays, with `model_provider.delete_conflict` recorded and
/// `Conflict("model_provider_in_use")`; otherwise it is deleted and `model_provider.deleted`
/// recorded.
pub fn instance_deletion(provider_code: &str, reference_count: i64) -> (d: InstanceDeletion)
    ensures
        reference_count > 0 ==> {
            &&& d.audit_event@ == "model_provider.delete_conflict"@
            &&& d.audit_payload@ == JsonSpec::Object(
                seq![
                    ("provider_code"@, JsonSpec::Str(provider_code@)),
                    ("reference_count"@, JsonSpec::Number(reference_count as int)),
                ],
            )
            &&& d.outcome == Err::<(), ControlPlaneError>(ControlPlaneError::Conflict("model_provider_in_use"))
        },
        reference_count <= 0 ==> {
            &&& d.audit_event@ == "model_provider.deleted"@
            &&& d.audit_payload@ == JsonSpec::Object(seq![("provider_code"@, JsonSpec::Str(provider_code@))])
            &&& d.outcome is Ok
        },
{
    let mut entries: Vec<(String, JsonValue)> = Vec::new();
    entries.push((to_string("provider_code"), JsonValue::Str(to_string(provider_code))));
    if reference_count > 0 {
        entries.push((to_string("reference_count"), JsonValue::Number(reference_count)));
        proof {
            lemma_object_view(entries);
            assert(entry_views(entries@) =~= seq![
                ("provider_code"@, JsonSpec::Str(provider_code@)),
                ("reference_count"@, JsonSpec::Number(reference_count as int)),
            ]);
        }
        InstanceDeletion {
            audit_event: to_string("model_provider.delete_conflict"),
            audit_payload: JsonValue::Object(entries),
            outcome: Err(ControlPlaneError::Conflict("model_provider_in_use")),
        }
    } else {
        proof {
            lemma_object_view(entries);
            assert(entry_views(entries@) =~= seq![("provider_code"@, JsonSpec::Str(provider_code@))]);
        }
        InstanceDeletion {
            audit_event: to_string("model_provider.deleted"),
            audit_payload: JsonValue::Object(entries),
            outcome: Ok(()),
        }
    }
}

/// An instance as the model options read it.
pub struct OptionInstance {
    pub id: u128,
    pub provider_code: String,
    pub display_name: String,
    pub status: ModelProviderInstanceStatus,
    pub included_in_main: bool,
}

/// Whether the options offer an instance: it is ready and belongs to its provider's main instance.
pub open spec fn offered(i: OptionInstance) -> bool {
    i.status == ModelProviderInstanceStatus::Ready && i.included_in_main
}

/// The order of the options: by provider code, then display name, then id.
pub open spec fn option_before(a: OptionInstance, b: OptionInstance) -> bool {
    ||| text_lt(a.provider_code@, b.provider_code@)
    ||| (a.provider_code@ == b.provider_code@ && text_lt(a.display_name@, b.display_name@))
    ||| (a.provider_code@ == b.provider_code@ && a.display_name@ == b.display_name@ && a.id < b.id)
}

proof fn lemma_option_before_transitive(a: OptionInstance, b: OptionInstance, c: OptionInstance)
    requires
        option_before(a, b),
        option_before(b, c),
    ensures
        option_before(a, c),
{
    if text_lt(a.provider_code@, b.provider_code@) && text_lt(b.provider_code@, c.provider_code@) {
        lemma_text_lt_transitive(a.provider_code@, b.provider_code@, c.provider_code@);
    }
    if a.provider_code@ == b.provider_code@ && b.provider_code@ == c.provider_code@ && text_lt(
        a.display_name@,
        b.display_name@,
    ) && text_lt(b.display_name@, c.display_name@) {
        lemma_text_lt_transitive(a.display_name@, b.display_name@, c.display_name@);
    }
}

proof fn lemma_option_before_irreflexive(a: OptionInstance)
    ensures
        !option_before(a, a),
{
    lemma_text_lt_irreflexive(a.provider_code@);
    lemma_text_lt_irreflexive(a.display_name@);
}

/// Whether the instances at these positions stand in option order.
pub open spec fn options_sorted(instances: Seq<OptionInstance>, positions: Seq<usize>) -> bool {
    forall|i: int, j: int|
        0 <= i < j < positions.len() ==> !option_before(
            instances[#[trigger] positions[j] as int],
            instances[#[trigger] positions[i] as int],
        )
}

/// The positions of the offered instances among the first `n`, in order.
pub open spec fn offered_positions(instances: Seq<OptionInstance>, n: int) -> Seq<usize>
    decreases n,
{
    if n <= 0 {
        seq![]
    } else {
        let before = offered_positions(instances, n - 1);
        if offered(instances[n - 1]) {
            before.push((n - 1) as usize)
        } else {
            before
        }
    }
}

fn option_less(a: &OptionInstance, b: &OptionInstance) -> (r: bool)
    ensures
        r == option_before(*a, *b),
{
    let ca = chars_of(a.provider_code.as_str());
    let cb = chars_of(b.provider_code.as_str());
    if text_less(&ca, &cb) {
        return true;
    }
    if !str_eq(a.provider_code.as_str(), b.provider_code.as_str()) {
        return false;
    }
    let na = chars_of(a.display_name.as_str());
    let nb = chars_of(b.display_name.as_str());
    if text_less(&na, &nb) {
        return true;
    }
    str_eq(a.display_name.as_str(), b.display_name.as_str()) && a.id < b.id
}

/// The instances the model options offer, as positions of `instances`: each ready instance of a
/// provider's main instance once, sorted by provider code, display name and id, so that each
/// provider's instances stand together, providers in the order of their codes.
pub fn provider_option_instances(instances: &Vec<OptionInstance>) -> (out: Vec<usize>)
    ensures
        options_sorted(instances@, out@),
        out@.to_multiset() == offered_positions(instances@, instances@.len() as int).to_multiset(),
        forall|k: int| 0 <= k < out@.len() ==> #[trigger] out@[k] < instances@.len(),
{
    let mut out: Vec<usize> = Vec::new();
    let mut i: usize = 0;
    assert(out@.to_multiset() =~= Seq::<usize>::empty().to_multiset());
    while i < instances.len()
        invariant
            i <= instances@.len(),
            options_sorted(instances@, out@),
            out@.to_multiset() == offered_positions(instances@, i as int).to_multiset(),
            forall|k: int| 0 <= k < out@.len() ==> #[trigger] out@[k] < i,
        decreases instances.len() - i,
    {
        let ghost prev = offered_positions(instances@, i as int);
        if instances[i].status == ModelProviderInstanceStatus::Ready && instances[i].included_in_main {
            assert(offered_positions(instances@, i + 1) == prev.push(i));
            proof {
                vstd::seq_lib::to_multiset_build(prev, i);
            }
            let mut pos: usize = 0;
            while pos < out.len() && !option_less(&instances[i], &instances[out[pos]])
                invariant
                    pos <= out@.len(),
                    i < instances@.len(),
                    forall|k: int| 0 <= k < out@.len() ==> #[trigger] out@[k] < i,
                    forall|k: int| 0 <= k < pos ==> !option_before(instances@[i as int], instances@[#[trigger] out@[k] as int]),
                decreases out.len() - pos,
            {
                pos = pos + 1;
            }
            let ghost old_out = out@;
            let ghost g = instances@[i as int];
            out.insert(pos, i);
            proof {
                vstd::seq_lib::to_multiset_insert(old_out, pos as int, i);
                assert forall|a: int, b: int| 0 <= a < b < out@.len() implies !option_before(
                    instances@[#[trigger] out@[b] as int],
                    instances@[#[trigger] out@[a] as int],
                ) by {
                    if a < pos && b == pos {
                        assert(out@[a] == old_out[a]);
                    } else if a == pos && b > pos {
                        let x = instances@[old_out[b - 1] as int];
                        let y = instances@[old_out[pos as int] as int];
                        assert(out@[b] == old_out[b - 1]);
                        assert(option_before(g, y));
                        if option_before(x, g) {
                            lemma_option_before_transitive(x, g, y);
                            if b - 1 == pos {
                                lemma_option_before_irreflexive(x);
                            } else {
                                assert(!option_before(
                                    instances@[old_out[b - 1] as int],
                                    instances@[old_out[pos as int] as int],
                                ));
                            }
                        }
                    } else if a < pos && b > pos {
                        assert(out@[a] == old_out[a]);
                        assert(out@[b] == old_out[b - 1]);
                    } else if b < pos {
                        assert(out@[a] == old_out[a]);
                        assert(out@[b] == old_out[b]);
                    } else {
                        assert(out@[a] == old_out[a - 1]);
                        assert(out@[b] == old_out[b - 1]);
                    }
                }
                assert forall|k: int| 0 <= k < out@.len() implies #[trigger] out@[k] < i + 1 by {
                    if k < pos {
                        assert(out@[k] == old_out[k]);
                    } else if k > pos {
                        assert(out@[k] == old_out[k - 1]);
                    }
                }
            }
        } else {
            assert(offered_positions(instances@, i + 1) == prev);
        }
        i = i + 1;
    }
    out
}

/// In option order, the instances of one provider stand together: no instance of another
/// provider stands between two of them.
pub proof fn law_options_keep_each_provider_together(
    instances: Seq<OptionInstance>,
    positions: Seq<usize>,
    i: int,
    j: int,
    k: int,
)
    requires
        options_sorted(instances, positions),
        0 <= i < j < k < positions.len(),
        instances[positions[i] as int].provider_code@ == instances[positions[k] as int].provider_code@,
    ensures
        instances[positions[j] as int].provider_code@ == instances[positions[i] as int].provider_code@,
{
    let a = instances[positions[i] as int];
    let b = instances[positions[j] as int];
    let c = instances[positions[k] as int];
    assert(!option_before(b, a));
    assert(!option_before(c, b));
    if b.provider_code@ != a.provider_code@ {
        lemma_text_lt_total(a.provider_code@, b.provider_code@);
    }
}

/// An installation as the provider catalog reads it.
pub struct CatalogInstallation {
    pub id: u128,
    pub disabled: bool,
    pub available: bool,
}

/// Whether the catalog lists an installation: it is not disabled, it is assigned to the
/// workspace and it is available.
pub open spec fn catalog_lists(i: CatalogInstallation, assigned: Seq<u128>) -> bool {
    !i.disabled && assigned.contains(i.id) && i.available
}

/// The positions of the listed installations among the first `n`, in order.
pub open spec fn listed_positions(installations: Seq<CatalogInstallation>, assigned: Seq<u128>, n: int) -> Seq<usize>
    decreases n,
{
    if n <= 0 {
        seq![]
    } else {
        let before = listed_positions(installations, assigned, n - 1);
        if catalog_lists(installations[n - 1], assigned) {
            before.push((n - 1) as usize)
        } else {
            before
        }
    }
}

fn contains_id(ids: &Vec<u128>, id: u128) -> (b: bool)
    ensures
        b == ids@.contains(id),
{
    let mut i: usize = 0;
    while i < ids.len()
        invariant
            i <= ids@.len(),
            forall|k: int| 0 <= k < i ==> ids@[k] != id,
        decreases ids.len() - i,
    {
        if ids[i] == id {
            return true;
        }
        i = i + 1;
    }
    false
}

/// The installations the provider catalog lists, as positions of `installations` in their
/// order: those not disabled, assigned to the workspace, and available.
pub fn catalog_installations(installations: &Vec<CatalogInstallation>, assigned_installation_ids: &Vec<u128>) -> (out:
    Vec<usize>)
    ensures
        out@ == listed_positions(installations@, assigned_installation_ids@, installations@.len() as int),
{
    let mut out: Vec<usize> = Vec::new();
    let mut i: usize = 0;
    while i < installations.len()
        invariant
            i <= installations@.len(),
            out@ == listed_positions(installations@, assigned_installation_ids@, i as int),
        decreases installations.len() - i,
    {
        let it = &installations[i];
        if !it.disabled && contains_id(assigned_installation_ids, it.id) && it.available {
            out.push(i);
        }
        i = i + 1;
    }
    out
}

/// A provider's entry among the model options: the range `start..end` of the offered instances
/// in option order that are its groups, whether it is listed (the installation of its first
/// instance is available), how many groups it has, and how many models they offer together.
pub struct ProviderOptionEntry {
    pub provider_code: String,
    pub start: usize,
    pub end: usize,
    pub listed: bool,
    pub group_count: usize,
    pub model_count: u128,
}

/// The models the instances at `order[start..end]` offer together.
pub open spec fn range_model_count(counts: Seq<usize>, order: Seq<usize>, start: int, end: int) -> int
    decreases end - start,
{
    if end <= start {
        0
    } else {
        range_model_count(counts, order, start, end - 1) + counts[order[end - 1] as int]
    }
}

proof fn lemma_count_step(sum: int, k: int, c: int, m: int)
    by (nonlinear_arith)
    requires
        0 <= sum <= k * m,
        0 <= c <= m,
        0 <= k,
    ensures
        sum + c <= (k + 1) * m,
{
}

proof fn lemma_count_fits(k: int, m: int)
    by (nonlinear_arith)
    requires
        0 <= k <= m,
        m <= 0xffff_ffff_ffff_ffff,
    ensures
        k * m <= 0xffff_ffff_ffff_ffff_ffff_ffff_ffff_ffff,
{
}

/// The model options by provider: the offered instances in option order (see
/// [`provider_option_instances`]), and one entry per provider, in strictly increasing order of
/// provider code, each a run of that order holding exactly that provider's instances; an entry
/// is listed when the installation of its first instance is available, and counts its groups and
/// the models they offer (`model_counts` gives how many models each instance offers).
pub fn provider_option_entries(
    instances: &Vec<OptionInstance>,
    installation_available: &Vec<bool>,
    model_counts: &Vec<usize>,
) -> (r: (Vec<usize>, Vec<ProviderOptionEntry>))
    requires
        installation_available@.len() == instances@.len(),
        model_counts@.len() == instances@.len(),
    ensures
        options_sorted(instances@, r.0@),
        r.0@.to_multiset() == offered_positions(instances@, instances@.len() as int).to_multiset(),
        forall|k: int| 0 <= k < r.0@.len() ==> #[trigger] r.0@[k] < instances@.len(),
        r.0@.len() == 0 <==> r.1@.len() == 0,
        r.1@.len() > 0 ==> r.1@[0].start == 0 && r.1@.last().end == r.0@.len(),
        forall|k: int| 0 <= k < r.1@.len() - 1 ==> #[trigger] r.1@[k].end == r.1@[k + 1].start,
        forall|k: int| 0 <= k < r.1@.len() ==> {
            let e = #[trigger] r.1@[k];
            &&& e.start < e.end <= r.0@.len()
            &&& forall|m: int| e.start <= m < e.end ==> instances@[#[trigger] r.0@[m] as int].provider_code@
                == e.provider_code@
            &&& e.listed == installation_available@[r.0@[e.start as int] as int]
            &&& e.group_count == e.end - e.start
            &&& e.model_count == range_model_count(model_counts@, r.0@, e.start as int, e.end as int)
        },
        forall|j: int, k: int| 0 <= j < k < r.1@.len() ==> text_lt(
            #[trigger] r.1@[j].provider_code@,
            #[trigger] r.1@[k].provider_code@,
        ),
{
    let order = provider_option_instances(instances);
    let mut entries: Vec<ProviderOptionEntry> = Vec::new();
    if order.len() == 0 {
        return (order, entries);
    }
    let mut start: usize = 0;
    let mut count: u128 = model_counts[order[0]] as u128;
    let mut i: usize = 1;
    proof {
        reveal_with_fuel(range_model_count, 2);
        assert(range_model_count(model_counts@, order@, 0, 1) == model_counts@[order@[0] as int]);
        lemma_count_fits(1, usize::MAX as int);
    }
    while i < order.len()
        invariant
            0 <= start < i <= order@.len(),
            installation_available@.len() == instances@.len(),
            model_counts@.len() == instances@.len(),
            options_sorted(instances@, order@),
            forall|k: int| 0 <= k < order@.len() ==> #[trigger] order@[k] < instances@.len(),
            count as int == range_model_count(model_counts@, order@, start as int, i as int),
            count as int <= (i - start) * (usize::MAX as int),
            forall|m: int| start <= m < i ==> instances@[#[trigger] order@[m] as int].provider_code@
                == instances@[order@[start as int] as int].provider_code@,
            entries@.len() == 0 <==> start == 0,
            entries@.len() > 0 ==> entries@[0].start == 0 && entries@.last().end == start,
            forall|k: int| 0 <= k < entries@.len() - 1 ==> #[trigger] entries@[k].end == entries@[k + 1].start,
            forall|k: int| 0 <= k < entries@.len() ==> {
                let e = #[trigger] entries@[k];
                &&& e.start < e.end <= order@.len()
                &&& forall|m: int| e.start <= m < e.end ==> instances@[#[trigger] order@[m] as int].provider_code@
                    == e.provider_code@
                &&& e.listed == installation_available@[order@[e.start as int] as int]
                &&& e.group_count == e.end - e.start
                &&& e.model_count == range_model_count(model_counts@, order@, e.start as int, e.end as int)
                &&& text_lt(e.provider_code@, instances@[order@[start as int] as int].provider_code@)
            },
            forall|j: int, k: int| 0 <= j < k < entries@.len() ==> text_lt(
                #[trigger] entries@[j].provider_code@,
                #[trigger] entries@[k].provider_code@,
            ),
        decreases order.len() - i,
    {
        let prev = &instances[order[i - 1]];
        let cur = &instances[order[i]];
        if str_eq(prev.provider_code.as_str(), cur.provider_code.as_str()) {
            proof {
                lemma_count_step(count as int, (i - start) as int, model_counts@[order@[i as int] as int] as int, usize::MAX as int);
                lemma_count_fits((i + 1 - start) as int, usize::MAX as int);
            }
            count = count + model_counts[order[i]] as u128;
            i = i + 1;
        } else {
            let ghost old_entries = entries@;
            let ghost c_prev = instances@[order@[start as int] as int].provider_code@;
            let ghost c_cur = instances@[order@[i as int] as int].provider_code@;
            proof {
                assert(instances@[order@[i - 1] as int].provider_code@ == c_prev);
                assert(!option_before(instances@[order@[i as int] as int], instances@[order@[i - 1] as int]));
                crate::text::lemma_text_lt_total(c_prev, c_cur);
                assert(text_lt(c_prev, c_cur));
            }
            let first = &instances[order[start]];
            entries.push(ProviderOptionEntry {
                provider_code: first.provider_code.clone(),
                start,
                end: i,
                listed: installation_available[order[start]],
                group_count: i - start,
                model_count: count,
            });
            proof {
                assert forall|k: int| 0 <= k < entries@.len() implies text_lt(
                    (#[trigger] entries@[k]).provider_code@,
                    c_cur,
                ) by {
                    if k < old_entries.len() {
                        assert(entries@[k] == old_entries[k]);
                        lemma_text_lt_transitive(entries@[k].provider_code@, c_prev, c_cur);
                    }
                }
                assert forall|j: int, k: int| 0 <= j < k < entries@.len() implies text_lt(
                    #[trigger] entries@[j].provider_code@,
                    #[trigger] entries@[k].provider_code@,
                ) by {
                    assert(entries@[j] == old_entries[j]);
                    if k < old_entries.len() {
                        assert(entries@[k] == old_entries[k]);
                    }
                }
                assert forall|k: int| 0 <= k < entries@.len() - 1 implies #[trigger] entries@[k].end == entries@[k
                    + 1].start by {
                    assert(entries@[k] == old_entries[k]);
                    if k + 1 < old_entries.len() {
                        assert(entries@[k + 1] == old_entries[k + 1]);
                    }
                }
                reveal_with_fuel(range_model_count, 2);
                assert(range_model_count(model_counts@, order@, i as int, i + 1) == model_counts@[order@[i as int] as int]);
                lemma_count_fits(1, usize::MAX as int);
            }
            start = i;
            count = model_counts[order[i]] as u128;
            i = i + 1;
        }
    }
    let ghost old_entries = entries@;
    let first = &instances[order[start]];
    entries.push(ProviderOptionEntry {
        provider_code: first.provider_code.clone(),
        start,
        end: i,
        listed: installation_available[order[start]],
        group_count: i - start,
        model_count: count,
    });
    proof {
        assert forall|j: int, k: int| 0 <= j < k < entries@.len() implies text_lt(
            #[trigger] entries@[j].provider_code@,
            #[trigger] entries@[k].provider_code@,
        ) by {
            assert(entries@[j] == old_entries[j]);
            if k < old_entries.len() {
                assert(entries@[k] == old_entries[k]);
            }
        }
        assert forall|k: int| 0 <= k < entries@.len() - 1 implies #[trigger] entries@[k].end == entries@[k + 1].start by {
            assert(entries@[k] == old_entries[k]);
            if k + 1 < old_entries.len() {
                assert(entries@[k + 1] == old_entries[k + 1]);
            }
        }
    }
    (order, entries)
}

// ---------------------------------------------------------------------------------------------
// Validating an instance
// ---------------------------------------------------------------------------------------------

/// Where the validation of an instance stands.
#[derive(Debug, Clone, Copy, PartialEq, Eq, Structural)]
pub enum ValidateState {
    /// Whether the instance's installation is available is being checked.
    CheckingInstallation,
    /// The provider configuration is being built and the move to ready checked.
    Preparing,
    /// The provider validates the configuration and lists its models.
    Validating,
    /// The success writes (catalog, instance status, audit) are being made.
    WritingSuccess,
    /// Nothing more is done.
    Done,
}

/// What came of the last action.
pub enum ValidateEvent {
    InstallationChecked { available: bool },
    Prepared(Result<(), String>),
    Validated(Result<(), String>),
    SuccessWritten(Result<(), String>),
}

/// What to do next.
pub enum ValidateAction {
    /// Build the provider configuration and check the move to ready.
    BuildConfig,
    /// Have the provider validate the configuration and list its models.
    RunValidation,
    /// Make the writes of [`validation_success_writes`].
    WriteSuccess,
    /// Make the writes of [`validation_failure_writes`] with this message (their own errors are
    /// ignored), then report the message.
    WriteFailure { message: String },
    /// Refuse the request; nothing was written.
    Refuse(ControlPlaneError),
    /// Report the error; nothing was written.
    Report { message: String },
    /// Give the validated instance back.
    ReturnResult,
    /// The event does not belong to this state: nothing is done.
    Ignore,
}

/// The plain facts of a [`ValidateAction`]: its kind (in declaration order), its message and the
/// error it refuses with.
pub open spec fn validate_action_spec(a: ValidateAction) -> (int, Seq<char>, Option<ControlPlaneError>) {
    match a {
        ValidateAction::BuildConfig => (0, Seq::empty(), None),
        ValidateAction::RunValidation => (1, Seq::empty(), None),
        ValidateAction::WriteSuccess => (2, Seq::empty(), None),
        ValidateAction::WriteFailure { message } => (3, message@, None),
        ValidateAction::Refuse(e) => (4, Seq::empty(), Some(e)),
        ValidateAction::Report { message } => (5, message@, None),
        ValidateAction::ReturnResult => (6, Seq::empty(), None),
        ValidateAction::Ignore => (7, Seq::empty(), None),
    }
}

/// The step of a validation: an unavailable installation is refused with nothing written; a
/// failure to build the configuration is reported with nothing written; once the provider is
/// asked, any failure (of the provider or of the success writes) makes the failure writes with
/// its message, and only writes that all succeed give the instance back.
pub open spec fn validate_step_spec(s: ValidateState, e: ValidateEvent) -> (
    ValidateState,
    (int, Seq<char>, Option<ControlPlaneError>),
) {
    match (s, e) {
        (ValidateState::CheckingInstallation, ValidateEvent::InstallationChecked { available }) => if available {
            (ValidateState::Preparing, (0, Seq::empty(), None))
        } else {
            (ValidateState::Done, (4, Seq::empty(), Some(ControlPlaneError::Conflict("plugin_installation_unavailable"))))
        },
        (ValidateState::Preparing, ValidateEvent::Prepared(r)) => match r {
            Ok(()) => (ValidateState::Validating, (1, Seq::empty(), None)),
            Err(m) => (ValidateState::Done, (5, m@, None)),
        },
        (ValidateState::Validating, ValidateEvent::Validated(r)) => match r {
            Ok(()) => (ValidateState::WritingSuccess, (2, Seq::empty(), None)),
            Err(m) => (ValidateState::Done, (3, m@, None)),
        },
        (ValidateState::WritingSuccess, ValidateEvent::SuccessWritten(r)) => match r {
            Ok(()) => (ValidateState::Done, (6, Seq::empty(), None)),
            Err(m) => (ValidateState::Done, (3, m@, None)),
        },
        _ => (s, (7, Seq::empty(), None)),
    }
}

/// The next state of a validation, and what to do, once `event` came of the last action.
pub fn validate_instance_step(state: ValidateState, event: ValidateEvent) -> (r: (ValidateState, ValidateAction))
    ensures
        (r.0, validate_action_spec(r.1)) == validate_step_spec(state, event),
{
    match (state, event) {
        (ValidateState::CheckingInstallation, ValidateEvent::InstallationChecked { available }) => if available {
            (ValidateState::Preparing, ValidateAction::BuildConfig)
        } else {
            (ValidateState::Done, ValidateAction::Refuse(ControlPlaneError::Conflict("plugin_installation_unavailable")))
        },
        (ValidateState::Preparing, ValidateEvent::Prepared(r)) => match r {
            Ok(()) => (ValidateState::Validating, ValidateAction::RunValidation),
            Err(m) => (ValidateState::Done, ValidateAction::Report { message: m }),
        },
        (ValidateState::Validating, ValidateEvent::Validated(r)) => match r {
            Ok(()) => (ValidateState::WritingSuccess, ValidateAction::WriteSuccess),
            Err(m) => (ValidateState::Done, ValidateAction::WriteFailure { message: m }),
        },
        (ValidateState::WritingSuccess, ValidateEvent::SuccessWritten(r)) => match r {
            Ok(()) => (ValidateState::Done, ValidateAction::ReturnResult),
            Err(m) => (ValidateState::Done, ValidateAction::WriteFailure { message: m }),
        },
        (s, _) => (s, ValidateAction::Ignore),
    }
}

/// Once the provider has been asked, a failure never gives the instance back: it makes the
/// failure writes with its own message.
pub proof fn law_validation_failure_is_recorded(s: ValidateState, e: ValidateEvent, m: String)
    requires
        s == ValidateState::Validating || s == ValidateState::WritingSuccess,
        e == (if s == ValidateState::Validating {
            ValidateEvent::Validated(Err(m))
        } else {
            ValidateEvent::SuccessWritten(Err(m))
        }),
    ensures
        validate_step_spec(s, e) == (ValidateState::Done, (3int, m@, None::<ControlPlaneError>)),
{
}

// ---------------------------------------------------------------------------------------------
// Previews
// ---------------------------------------------------------------------------------------------

/// A stored preview session, as far as its use reads it.
pub struct PreviewSessionFacts {
    pub actor_user_id: u128,
    pub installation_id: Option<u128>,
    pub instance_id: Option<u128>,
    pub config_fingerprint: String,
    pub models_json: JsonValue,
    pub expires_at_unix_nanos: i128,
}

/// What a preview token gives an instance being created or updated: the models previewed, the
/// time they count as refreshed, and the token (whose session is then deleted). Without a token
/// nothing is given.
pub struct ResolvedPreviewState {
    pub models_json: Option<JsonValue>,
    pub refreshed_at_unix_nanos: Option<i128>,
    pub preview_token: Option<u128>,
}

/// Whether a stored session vouches for a preview: it is the actor's, it has not expired, it is
/// for the same installation and instance, and for the same configuration.
pub open spec fn session_vouches(
    session: PreviewSessionFacts,
    actor_user_id: u128,
    installation_id: Option<u128>,
    instance_id: Option<u128>,
    provider_config: JsonSpec,
    now: int,
) -> bool {
    &&& session.actor_user_id == actor_user_id
    &&& !(session.expires_at_unix_nanos < now)
    &&& session.installation_id == installation_id
    &&& session.instance_id == instance_id
    &&& session.config_fingerprint@ == config_fingerprint(provider_config)
}

/// What a preview token gives at `now`: nothing without a token; a token whose session is not
/// found, or does not vouch for this preview (see [`session_vouches`]), is refused with
/// `InvalidInput("preview_token")`; otherwise the session's models, counted as refreshed now.
pub fn resolve_preview_state(
    actor_user_id: u128,
    preview_token: Option<u128>,
    session: Option<&PreviewSessionFacts>,
    installation_id: Option<u128>,
    instance_id: Option<u128>,
    provider_config: &JsonValue,
    now_unix_nanos: i128,
) -> (r: Result<ResolvedPreviewState, ControlPlaneError>)
    ensures
        preview_token is None ==> (r matches Ok(p) && p.models_json is None && p.refreshed_at_unix_nanos is None
            && p.preview_token is None),
        preview_token is Some && session is None ==> r == Err::<ResolvedPreviewState, _>(
            ControlPlaneError::InvalidInput("preview_token"),
        ),
        preview_token is Some && session is Some ==> if session_vouches(
            *session->Some_0,
            actor_user_id,
            installation_id,
            instance_id,
            provider_config@,
            now_unix_nanos as int,
        ) {
            r matches Ok(p) && p.models_json matches Some(m) && m@ == session->Some_0.models_json@
                && p.refreshed_at_unix_nanos == Some(now_unix_nanos) && p.preview_token == preview_token
        } else {
            r == Err::<ResolvedPreviewState, _>(ControlPlaneError::InvalidInput("preview_token"))
        },
{
    let token = match preview_token {
        None => {
            return Ok(ResolvedPreviewState { models_json: None, refreshed_at_unix_nanos: None, preview_token: None });
        },
        Some(t) => t,
    };
    let sess = match session {
        None => {
            return Err(ControlPlaneError::InvalidInput("preview_token"));
        },
        Some(s) => s,
    };
    if sess.actor_user_id != actor_user_id || sess.expires_at_unix_nanos < now_unix_nanos {
        return Err(ControlPlaneError::InvalidInput("preview_token"));
    }
    if sess.installation_id != installation_id || sess.instance_id != instance_id {
        return Err(ControlPlaneError::InvalidInput("preview_token"));
    }
    let fingerprint = fingerprint_provider_config(provider_config);
    if !str_eq(sess.config_fingerprint.as_str(), fingerprint.as_str()) {
        return Err(ControlPlaneError::InvalidInput("preview_token"));
    }
    Ok(ResolvedPreviewState {
        models_json: Some(clone_json(&sess.models_json)),
        refreshed_at_unix_nanos: Some(now_unix_nanos),
        preview_token: Some(token),
    })
}

/// Whether the installation a preview runs on may run it. A preview of a stored instance asks
/// only that its installation be available. A preview of a new instance needs an installation
/// named (`InvalidInput("installation_id")`), found (`NotFound("plugin_installation")`), assigned
/// to the workspace (`Conflict("plugin_assignment_required")`), and neither disabled nor
/// unavailable (`Conflict("plugin_installation_unavailable")`), checked in that order.
pub fn preview_installation_check(
    for_instance: bool,
    installation_id: Option<u128>,
    installation: Option<&InstallationState>,
    assigned_installation_ids: &Vec<u128>,
) -> (r: Result<(), ControlPlaneError>)
    ensures
        for_instance ==> match installation {
            Some(i) if i.available => r is Ok,
            _ => r == Err::<(), _>(ControlPlaneError::Conflict("plugin_installation_unavailable")),
        },
        !for_instance ==> match installation_id {
            None => r == Err::<(), _>(ControlPlaneError::InvalidInput("installation_id")),
            Some(id) => match installation {
                None => r == Err::<(), _>(ControlPlaneError::NotFound("plugin_installation")),
                Some(i) => if !assigned_installation_ids@.contains(id) {
                    r == Err::<(), _>(ControlPlaneError::Conflict("plugin_assignment_required"))
                } else if i.disabled || !i.available {
                    r == Err::<(), _>(ControlPlaneError::Conflict("plugin_installation_unavailable"))
                } else {
                    r is Ok
                },
            },
        },
{
    if for_instance {
        return match installation {
            Some(i) => if i.available {
                Ok(())
            } else {
                Err(ControlPlaneError::Conflict("plugin_installation_unavailable"))
            },
            None => Err(ControlPlaneError::Conflict("plugin_installation_unavailable")),
        };
    }
    let id = match installation_id {
        None => {
            return Err(ControlPlaneError::InvalidInput("installation_id"));
        },
        Some(id) => id,
    };
    let i = match installation {
        None => {
            return Err(ControlPlaneError::NotFound("plugin_installation"));
        },
        Some(i) => i,
    };
    ensure_installation_assigned(assigned_installation_ids, id)?;
    if i.disabled || !i.available {
        return Err(ControlPlaneError::Conflict("plugin_installation_unavailable"));
    }
    Ok(())
}

/// The fields an update writes to an instance beside its configuration: the trimmed display
/// name, the configured models (normalized), the ids of those enabled, and the status (disabled
/// stays disabled; otherwise ready once a model is enabled, else a draft). A blank display name
/// is refused.
pub struct InstanceUpdateFields {
    pub display_name: String,
    pub status: ModelProviderInstanceStatus,
    pub configured_models: Vec<ModelProviderConfiguredModel>,
    pub enabled_model_ids: Vec<String>,
}

/// What an update writes to an instance beside its configuration (see [`InstanceUpdateFields`]).
pub fn instance_update_fields(
    existing_status: ModelProviderInstanceStatus,
    display_name: &str,
    configured_models: Vec<ModelProviderConfiguredModel>,
    enabled_model_ids: Vec<String>,
) -> (r: Result<InstanceUpdateFields, ControlPlaneError>)
    ensures
        trim(display_name@).len() == 0 ==> r == Err::<InstanceUpdateFields, _>(ControlPlaneError::InvalidInput("display_name")),
        trim(display_name@).len() > 0 ==> (r matches Ok(u) && {
            let configured = normalized_configured(configured_specs(configured_models@), string_views(enabled_model_ids@));
            &&& u.display_name@ == trim(display_name@)
            &&& configured_specs(u.configured_models@) == configured
            &&& string_views(u.enabled_model_ids@) == enabled_ids_of(configured)
            &&& u.status == if existing_status == ModelProviderInstanceStatus::Disabled {
                ModelProviderInstanceStatus::Disabled
            } else {
                new_instance_status(enabled_ids_of(configured))
            }
        }),
{
    let configured = normalize_configured_models(configured_models, enabled_model_ids);
    let enabled = configured_models_to_enabled_model_ids(configured.as_slice());
    let status = derive_instance_status(existing_status == ModelProviderInstanceStatus::Disabled, enabled.as_slice());
    let name = normalize_required_text(display_name, "display_name")?;
    Ok(InstanceUpdateFields { display_name: name, status, configured_models: configured, enabled_model_ids: enabled })
}

} // verus!
