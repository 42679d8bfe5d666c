//! A repository of data model definitions kept in memory, for tests and local runs.

use vstd::prelude::*;
use crate::errors::ControlPlaneError;
use crate::errors::ActorContext;
use crate::model_definition::{
    ensure_scope_grant_lifecycle_authorized, ensure_state_model_permission,
    ensure_unsafe_external_system_all_confirmed, external_source_is_unsafe, external_unsafe,
    CreateScopeDataModelGrantCommand, DeleteScopeDataModelGrantCommand,
    UpdateScopeDataModelGrantCommand, ApiKeyDataModelReadinessRecord, DataModelScopeKind, ModelDefinitionRecord, ModelDefinitionService,
    ScopeDataModelGrantRecord, ScopeDataModelPermissionProfile,
};
use crate::outside::new_uuid_v7;
use crate::text::{string_views, to_string};

verus! {

/// Models, scope grants, API key readiness and audit events, in memory.
pub struct InMemoryModelDefinitionRepository {
    models: Vec<ModelDefinitionRecord>,
    grants: Vec<ScopeDataModelGrantRecord>,
    api_key_readiness: Vec<ApiKeyDataModelReadinessRecord>,
    audit_events: Vec<String>,
}

/// The scope of the first model with an id.
pub open spec fn model_scope_from(models: Seq<ModelDefinitionRecord>, id: u128, i: int) -> Option<DataModelScopeKind>
    decreases models.len() - i,
{
    if i < 0 || i >= models.len() {
        None
    } else if models[i].id == id {
        Some(models[i].scope_kind)
    } else {
        model_scope_from(models, id, i + 1)
    }
}

/// Whether the first stored model with an id, from position `i` on, reads an unsafe external
/// source.
pub open spec fn model_unsafe_from(models: Seq<ModelDefinitionRecord>, id: u128, i: int) -> Option<bool>
    decreases models.len() - i,
{
    if i < 0 || i >= models.len() {
        None
    } else if models[i].id == id {
        Some(external_unsafe(models[i]))
    } else {
        model_unsafe_from(models, id, i + 1)
    }
}

pub open spec fn grant_matches(g: ScopeDataModelGrantRecord, data_model_id: u128, grant_id: u128) -> bool {
    g.id == grant_id && g.data_model_id == data_model_id
}

/// The position of the first grant with an id on a model, from position `i` on.
pub open spec fn grant_position_from(
    grants: Seq<ScopeDataModelGrantRecord>,
    data_model_id: u128,
    grant_id: u128,
    i: int,
) -> Option<int>
    decreases grants.len() - i,
{
    if i < 0 || i >= grants.len() {
        None
    } else if grant_matches(grants[i], data_model_id, grant_id) {
        Some(i)
    } else {
        grant_position_from(grants, data_model_id, grant_id, i + 1)
    }
}

pub open spec fn grant_lookup(grants: Seq<ScopeDataModelGrantRecord>, data_model_id: u128, grant_id: u128) -> Option<
    ScopeDataModelGrantRecord,
> {
    match grant_position_from(grants, data_model_id, grant_id, 0) {
        Some(p) => Some(grants[p]),
        None => None,
    }
}

/// The grants of a scope, in the order they were made.
pub open spec fn grants_of_scope(grants: Seq<ScopeDataModelGrantRecord>, scope_kind: DataModelScopeKind, scope_id: u128) -> Seq<
    ScopeDataModelGrantRecord,
>
    decreases grants.len(),
{
    if grants.len() == 0 {
        seq![]
    } else {
        let before = grants_of_scope(grants.drop_last(), scope_kind, scope_id);
        let g = grants.last();
        if g.scope_kind == scope_kind && g.scope_id == scope_id {
            before.push(g)
        } else {
            before
        }
    }
}

pub open spec fn readiness_of_model(r: Seq<ApiKeyDataModelReadinessRecord>, data_model_id: u128) -> Seq<
    ApiKeyDataModelReadinessRecord,
>
    decreases r.len(),
{
    if r.len() == 0 {
        seq![]
    } else {
        let before = readiness_of_model(r.drop_last(), data_model_id);
        if r.last().data_model_id == data_model_id {
            before.push(r.last())
        } else {
            before
        }
    }
}

proof fn lemma_grant_position_unchanged(
    grants: Seq<ScopeDataModelGrantRecord>,
    other: Seq<ScopeDataModelGrantRecord>,
    data_model_id: u128,
    grant_id: u128,
    i: int,
)
    requires
        0 <= i,
        grants.len() <= other.len(),
        forall|k: int| i <= k < grants.len() ==> other[k] == grants[k],
        forall|k: int| grants.len() <= k < other.len() ==> !grant_matches(other[k], data_model_id, grant_id),
    ensures
        grant_position_from(other, data_model_id, grant_id, i) == grant_position_from(grants, data_model_id, grant_id, i),
    decreases other.len() - i,
{
    if i < other.len() {
        lemma_grant_position_unchanged(grants, other, data_model_id, grant_id, i + 1);
    }
}

proof fn lemma_grant_position_push(
    grants: Seq<ScopeDataModelGrantRecord>,
    g: ScopeDataModelGrantRecord,
    i: int,
)
    requires
        0 <= i <= grants.len(),
        grant_position_from(grants, g.data_model_id, g.id, i) is None,
    ensures
        grant_position_from(grants.push(g), g.data_model_id, g.id, i) == Some(grants.len() as int),
    decreases grants.len() - i,
{
    if i < grants.len() {
        lemma_grant_position_push(grants, g, i + 1);
    }
}

impl InMemoryModelDefinitionRepository {
    pub closed spec fn grants(&self) -> Seq<ScopeDataModelGrantRecord> {
        self.grants@
    }

    pub closed spec fn readiness(&self) -> Seq<ApiKeyDataModelReadinessRecord> {
        self.api_key_readiness@
    }

    pub closed spec fn audit_log(&self) -> Seq<Seq<char>> {
        string_views(self.audit_events@)
    }

    /// The scope of the stored model with an id, if there is one.
    pub closed spec fn model_scope(&self, id: u128) -> Option<DataModelScopeKind> {
        model_scope_from(self.models@, id, 0)
    }

    /// Whether the stored model with an id reads an unsafe external source, if there is one.
    pub closed spec fn model_unsafe(&self, id: u128) -> Option<bool> {
        model_unsafe_from(self.models@, id, 0)
    }

    /// Whether the stored model with an id reads an unsafe external source, if there is one.
    pub fn find_model_unsafe(&self, id: u128) -> (r: Option<bool>)
        ensures
            r == self.model_unsafe(id),
    {
        let mut i: usize = 0;
        while i < self.models.len()
            invariant
                i <= self.models@.len(),
                model_unsafe_from(self.models@, id, 0) == model_unsafe_from(self.models@, id, i as int),
            decreases self.models.len() - i,
        {
            if self.models[i].id == id {
                return Some(external_source_is_unsafe(&self.models[i]));
            }
            i = i + 1;
        }
        None
    }

    /// An empty repository.
    pub fn new() -> (r: Self)
        ensures
            r.grants().len() == 0,
            r.readiness().len() == 0,
            r.audit_log().len() == 0,
            forall|id: u128| r.model_scope(id) is None,
    {
        let r = InMemoryModelDefinitionRepository {
            models: Vec::new(),
            grants: Vec::new(),
            api_key_readiness: Vec::new(),
            audit_events: Vec::new(),
        };
        assert(string_views(r.audit_events@) =~= Seq::<Seq<char>>::empty());
        r
    }

    /// Stores a model, in place of the stored model with its id if there is one.
    pub fn insert_model(&mut self, model: ModelDefinitionRecord)
        ensures
            final(self).model_scope(model.id) == Some(model.scope_kind),
            forall|other: u128| other != model.id ==> final(self).model_scope(other) == old(self).model_scope(other),
            final(self).grants() == old(self).grants(),
            final(self).readiness() == old(self).readiness(),
            final(self).audit_log() == old(self).audit_log(),
    {
        let ghost id = model.id;
        let mut i: usize = 0;
        while i < self.models.len()
            invariant
                i <= self.models@.len(),
                self.models@ == old(self).models@,
                self.grants@ == old(self).grants@,
                self.api_key_readiness@ == old(self).api_key_readiness@,
                self.audit_events@ == old(self).audit_events@,
                id == model.id,
                forall|k: int| 0 <= k < i ==> self.models@[k].id != id,
            decreases self.models.len() - i,
        {
            if self.models[i].id == model.id {
                let ghost m = model;
                self.models.set(i, model);
                proof {
                    assert(self.models@ == old(self).models@.update(i as int, m));
                    assert(self.models@[i as int].id == id);
                    lemma_model_scope_replaced(old(self).models@, self.models@, id, i as int, 0);
                    assert forall|other: u128| other != id implies model_scope_from(self.models@, other, 0)
                        == model_scope_from(old(self).models@, other, 0) by {
                        lemma_model_scope_other(old(self).models@, self.models@, id, other, 0);
                    }
                }
                return;
            }
            i = i + 1;
        }
        let ghost before = self.models@;
        self.models.push(model);
        proof {
            lemma_model_scope_replaced(before, self.models@, id, before.len() as int, 0);
            assert forall|other: u128| other != id implies model_scope_from(self.models@, other, 0)
                == model_scope_from(before, other, 0) by {
                lemma_model_scope_other(before, self.models@, id, other, 0);
            }
        }
    }

    /// Stores a scope grant on a stored system model.
    pub fn create_scope_data_model_grant(&mut self, grant: ScopeDataModelGrantRecord) -> (r: Result<
        ScopeDataModelGrantRecord,
        ControlPlaneError,
    >)
        ensures
            old(self).model_scope(grant.data_model_id) == Some(DataModelScopeKind::System) ==> {
                &&& r == Ok::<_, ControlPlaneError>(grant)
                &&& final(self).grants() == old(self).grants().push(grant)
            },
            old(self).model_scope(grant.data_model_id) != Some(DataModelScopeKind::System) ==> {
                &&& r == Err::<ScopeDataModelGrantRecord, _>(ControlPlaneError::NotFound("model_definition"))
                &&& final(self).grants() == old(self).grants()
            },
            final(self).readiness() == old(self).readiness(),
            final(self).audit_log() == old(self).audit_log(),
            forall|id: u128| final(self).model_scope(id) == old(self).model_scope(id),
    {
        match self.find_model_scope(grant.data_model_id) {
            Some(DataModelScopeKind::System) => {
                self.grants.push(grant);
                Ok(grant)
            },
            _ => Err(ControlPlaneError::NotFound("model_definition")),
        }
    }

    fn find_model_scope(&self, id: u128) -> (r: Option<DataModelScopeKind>)
        ensures
            r == self.model_scope(id),
    {
        let mut i: usize = 0;
        while i < self.models.len()
            invariant
                i <= self.models@.len(),
                model_scope_from(self.models@, id, 0) == model_scope_from(self.models@, id, i as int),
            decreases self.models.len() - i,
        {
            if self.models[i].id == id {
                return Some(self.models[i].scope_kind);
            }
            i = i + 1;
        }
        None
    }

    fn grant_position(&self, data_model_id: u128, grant_id: u128) -> (r: Option<usize>)
        ensures
            match r {
                Some(p) => p < self.grants@.len() && grant_position_from(self.grants@, data_model_id, grant_id, 0)
                    == Some(p as int),
                None => grant_position_from(self.grants@, data_model_id, grant_id, 0) is None,
            },
    {
        let mut i: usize = 0;
        while i < self.grants.len()
            invariant
                i <= self.grants@.len(),
                grant_position_from(self.grants@, data_model_id, grant_id, 0) == grant_position_from(
                    self.grants@,
                    data_model_id,
                    grant_id,
                    i as int,
                ),
            decreases self.grants.len() - i,
        {
            let g = self.grants[i];
            if g.id == grant_id && g.data_model_id == data_model_id {
                return Some(i);
            }
            i = i + 1;
        }
        None
    }

    /// The first stored grant with an id on a model.
    pub fn get_scope_data_model_grant(&self, data_model_id: u128, grant_id: u128) -> (r: Option<
        ScopeDataModelGrantRecord,
    >)
        ensures
            r == grant_lookup(self.grants(), data_model_id, grant_id),
    {
        match self.grant_position(data_model_id, grant_id) {
            Some(p) => Some(self.grants[p]),
            None => None,
        }
    }

    /// Changes a stored grant on a stored system model.
    pub fn update_scope_data_model_grant(
        &mut self,
        data_model_id: u128,
        grant_id: u128,
        enabled: bool,
        permission_profile: ScopeDataModelPermissionProfile,
    ) -> (r: Result<ScopeDataModelGrantRecord, ControlPlaneError>)
        ensures
            old(self).model_scope(data_model_id) != Some(DataModelScopeKind::System) ==> r == Err::<
                ScopeDataModelGrantRecord,
                _,
            >(ControlPlaneError::NotFound("model_definition")),
            old(self).model_scope(data_model_id) == Some(DataModelScopeKind::System) ==> match grant_position_from(
                old(self).grants(),
                data_model_id,
                grant_id,
                0,
            ) {
                None => r == Err::<ScopeDataModelGrantRecord, _>(
                    ControlPlaneError::NotFound("scope_data_model_grant"),
                ),
                Some(p) => {
                    let updated = ScopeDataModelGrantRecord { enabled, permission_profile, ..old(self).grants()[p] };
                    &&& r == Ok::<_, ControlPlaneError>(updated)
                    &&& final(self).grants() == old(self).grants().update(p, updated)
                },
            },
            r is Err ==> final(self).grants() == old(self).grants(),
            final(self).readiness() == old(self).readiness(),
            final(self).audit_log() == old(self).audit_log(),
            forall|id: u128| final(self).model_scope(id) == old(self).model_scope(id),
    {
        match self.find_model_scope(data_model_id) {
            Some(DataModelScopeKind::System) => {},
            _ => {
                return Err(ControlPlaneError::NotFound("model_definition"));
            },
        }
        match self.grant_position(data_model_id, grant_id) {
            None => Err(ControlPlaneError::NotFound("scope_data_model_grant")),
            Some(p) => {
                let g = self.grants[p];
                let updated = ScopeDataModelGrantRecord { enabled, permission_profile, ..g };
                self.grants.set(p, updated);
                Ok(updated)
            },
        }
    }

    /// Removes the first stored grant with an id on a model.
    pub fn delete_scope_data_model_grant(&mut self, data_model_id: u128, grant_id: u128) -> (r: Result<
        ScopeDataModelGrantRecord,
        ControlPlaneError,
    >)
        ensures
            match grant_position_from(old(self).grants(), data_model_id, grant_id, 0) {
                None => {
                    &&& r == Err::<ScopeDataModelGrantRecord, _>(
                        ControlPlaneError::NotFound("scope_data_model_grant"),
                    )
                    &&& final(self).grants() == old(self).grants()
                },
                Some(p) => {
                    &&& r == Ok::<_, ControlPlaneError>(old(self).grants()[p])
                    &&& final(self).grants() == old(self).grants().remove(p)
                },
            },
            final(self).readiness() == old(self).readiness(),
            final(self).audit_log() == old(self).audit_log(),
            forall|id: u128| final(self).model_scope(id) == old(self).model_scope(id),
    {
        match self.grant_position(data_model_id, grant_id) {
            None => Err(ControlPlaneError::NotFound("scope_data_model_grant")),
            Some(p) => Ok(self.grants.remove(p)),
        }
    }

    /// The grants of a scope, in the order they were made.
    pub fn list_scope_data_model_grants(&self, scope_kind: DataModelScopeKind, scope_id: u128) -> (out: Vec<
        ScopeDataModelGrantRecord,
    >)
        ensures
            out@ == grants_of_scope(self.grants(), scope_kind, scope_id),
    {
        let mut out: Vec<ScopeDataModelGrantRecord> = Vec::new();
        let mut i: usize = 0;
        assert(self.grants@.take(0) =~= Seq::<ScopeDataModelGrantRecord>::empty());
        while i < self.grants.len()
            invariant
                i <= self.grants@.len(),
                out@ == grants_of_scope(self.grants@.take(i as int), scope_kind, scope_id),
            decreases self.grants.len() - i,
        {
            let g = self.grants[i];
            assert(self.grants@.take(i + 1).drop_last() =~= self.grants@.take(i as int));
            if g.scope_kind == scope_kind && g.scope_id == scope_id {
                out.push(g);
            }
            i = i + 1;
        }
        assert(self.grants@.take(self.grants.len() as int) =~= self.grants@);
        out
    }

    /// Gives every grant on a model another profile.
    pub fn replace_grant_permission_profile_for_tests(
        &mut self,
        data_model_id: u128,
        permission_profile: ScopeDataModelPermissionProfile,
    )
        ensures
            final(self).grants().len() == old(self).grants().len(),
            forall|k: int|
                0 <= k < old(self).grants().len() ==> #[trigger] final(self).grants()[k] == if old(
                    self,
                ).grants()[k].data_model_id == data_model_id {
                    ScopeDataModelGrantRecord { permission_profile, ..old(self).grants()[k] }
                } else {
                    old(self).grants()[k]
                },
            final(self).readiness() == old(self).readiness(),
            final(self).audit_log() == old(self).audit_log(),
            forall|id: u128| final(self).model_scope(id) == old(self).model_scope(id),
    {
        let mut i: usize = 0;
        while i < self.grants.len()
            invariant
                i <= self.grants@.len(),
                self.grants@.len() == old(self).grants@.len(),
                self.models@ == old(self).models@,
                self.api_key_readiness@ == old(self).api_key_readiness@,
                self.audit_events@ == old(self).audit_events@,
                forall|k: int|
                    0 <= k < self.grants@.len() ==> #[trigger] self.grants@[k] == if k < i
                        && old(self).grants@[k].data_model_id == data_model_id {
                        ScopeDataModelGrantRecord { permission_profile, ..old(self).grants@[k] }
                    } else {
                        old(self).grants@[k]
                    },
            decreases self.grants.len() - i,
        {
            let g = self.grants[i];
            if g.data_model_id == data_model_id {
                self.grants.set(i, ScopeDataModelGrantRecord { permission_profile, ..g });
            }
            i = i + 1;
        }
    }

    /// Records what an API key may do with a model.
    pub fn add_api_key_readiness(&mut self, readiness: ApiKeyDataModelReadinessRecord)
        ensures
            final(self).readiness() == old(self).readiness().push(readiness),
            final(self).grants() == old(self).grants(),
            final(self).audit_log() == old(self).audit_log(),
            forall|id: u128| final(self).model_scope(id) == old(self).model_scope(id),
    {
        self.api_key_readiness.push(readiness);
    }

    /// What the API keys may do with a model, in the order recorded.
    pub fn list_api_key_data_model_readiness(&self, data_model_id: u128) -> (out: Vec<
        ApiKeyDataModelReadinessRecord,
    >)
        ensures
            out@ == readiness_of_model(self.readiness(), data_model_id),
    {
        let mut out: Vec<ApiKeyDataModelReadinessRecord> = Vec::new();
        let mut i: usize = 0;
        assert(self.api_key_readiness@.take(0) =~= Seq::<ApiKeyDataModelReadinessRecord>::empty());
        while i < self.api_key_readiness.len()
            invariant
                i <= self.api_key_readiness@.len(),
                out@ == readiness_of_model(self.api_key_readiness@.take(i as int), data_model_id),
            decreases self.api_key_readiness.len() - i,
        {
            let x = self.api_key_readiness[i];
            assert(self.api_key_readiness@.take(i + 1).drop_last() =~= self.api_key_readiness@.take(i as int));
            if x.data_model_id == data_model_id {
                out.push(x);
            }
            i = i + 1;
        }
        assert(self.api_key_readiness@.take(self.api_key_readiness.len() as int) =~= self.api_key_readiness@);
        out
    }

    /// Records an audit event by its code.
    pub fn append_audit_event(&mut self, event_code: &str)
        ensures
            final(self).audit_log() == old(self).audit_log().push(event_code@),
            final(self).grants() == old(self).grants(),
            final(self).readiness() == old(self).readiness(),
            forall|id: u128| final(self).model_scope(id) == old(self).model_scope(id),
    {
        let ghost before = string_views(self.audit_events@);
        self.audit_events.push(to_string(event_code));
        assert(string_views(self.audit_events@) =~= before.push(event_code@));
    }

    /// The codes of the audit events recorded, in order.
    pub fn audit_events(&self) -> (out: Vec<String>)
        ensures
            string_views(out@) == self.audit_log(),
    {
        let mut out: Vec<String> = Vec::new();
        let mut i: usize = 0;
        while i < self.audit_events.len()
            invariant
                i <= self.audit_events@.len(),
                string_views(out@) == string_views(self.audit_events@).take(i as int),
            decreases self.audit_events.len() - i,
        {
            let ghost before = string_views(out@);
            out.push(to_string(self.audit_events[i].as_str()));
            assert(string_views(out@) =~= before.push(self.audit_events@[i as int]@));
            assert(string_views(self.audit_events@).take(i + 1) =~= string_views(self.audit_events@).take(i as int).push(
                self.audit_events@[i as int]@,
            ));
            i = i + 1;
        }
        assert(string_views(self.audit_events@).take(self.audit_events.len() as int) =~= string_views(
            self.audit_events@,
        ));
        out
    }
}

proof fn lemma_model_scope_replaced(
    before: Seq<ModelDefinitionRecord>,
    after: Seq<ModelDefinitionRecord>,
    id: u128,
    p: int,
    i: int,
)
    requires
        0 <= i <= p < after.len(),
        before.len() <= after.len() <= before.len() + 1,
        forall|k: int| 0 <= k < before.len() && k != p ==> after[k] == before[k],
        after[p].id == id,
        forall|k: int| 0 <= k < p ==> before[k].id != id,
    ensures
        model_scope_from(after, id, i) == Some(after[p].scope_kind),
    decreases p - i,
{
    if i < p {
        lemma_model_scope_replaced(before, after, id, p, i + 1);
    }
}

/// Where `after` differs from `before` only by models with one id (in place, or one more at the
/// end), lookups of other ids are unchanged.
proof fn lemma_model_scope_other(
    before: Seq<ModelDefinitionRecord>,
    after: Seq<ModelDefinitionRecord>,
    id: u128,
    other: u128,
    i: int,
)
    requires
        0 <= i,
        before.len() <= after.len() <= before.len() + 1,
        forall|k: int| 0 <= k < before.len() && after[k] != before[k] ==> after[k].id == id && before[k].id == id,
        forall|k: int| before.len() <= k < after.len() ==> after[k].id == id,
        other != id,
    ensures
        model_scope_from(after, other, i) == model_scope_from(before, other, i),
    decreases after.len() - i,
{
    if i < after.len() {
        lemma_model_scope_other(before, after, id, other, i + 1);
    }
}

/// A grant made on a stored system model is found again by its id, unless a grant with the same
/// id on the same model was stored before it.
pub proof fn lemma_created_grant_is_found(
    before: InMemoryModelDefinitionRepository,
    after: InMemoryModelDefinitionRepository,
    grant: ScopeDataModelGrantRecord,
)
    requires
        after.grants() == before.grants().push(grant),
        grant_lookup(before.grants(), grant.data_model_id, grant.id) is None,
    ensures
        grant_lookup(after.grants(), grant.data_model_id, grant.id) == Some(grant),
{
    lemma_grant_position_push(before.grants(), grant, 0);
}

/// Making a grant leaves every other lookup as it was.
pub proof fn lemma_create_keeps_other_grants(
    before: InMemoryModelDefinitionRepository,
    after: InMemoryModelDefinitionRepository,
    grant: ScopeDataModelGrantRecord,
    data_model_id: u128,
    grant_id: u128,
)
    requires
        after.grants() == before.grants().push(grant),
        !grant_matches(grant, data_model_id, grant_id),
    ensures
        grant_lookup(after.grants(), data_model_id, grant_id) == grant_lookup(before.grants(), data_model_id, grant_id),
{
    lemma_grant_position_unchanged(before.grants(), after.grants(), data_model_id, grant_id, 0);
    lemma_grant_position_range(before.grants(), data_model_id, grant_id, 0);
}

proof fn lemma_grant_position_range(grants: Seq<ScopeDataModelGrantRecord>, data_model_id: u128, grant_id: u128, i: int)
    ensures
        match grant_position_from(grants, data_model_id, grant_id, i) {
            Some(p) => i <= p < grants.len(),
            None => true,
        },
    decreases grants.len() - i,
{
    if 0 <= i < grants.len() {
        lemma_grant_position_range(grants, data_model_id, grant_id, i + 1);
    }
}

/// A made grant is listed among its scope's grants, after those made before it.
pub proof fn lemma_created_grant_is_listed(
    before: InMemoryModelDefinitionRepository,
    after: InMemoryModelDefinitionRepository,
    grant: ScopeDataModelGrantRecord,
)
    requires
        after.grants() == before.grants().push(grant),
    ensures
        grants_of_scope(after.grants(), grant.scope_kind, grant.scope_id) == grants_of_scope(
            before.grants(),
            grant.scope_kind,
            grant.scope_id,
        ).push(grant),
{
    assert(after.grants().drop_last() =~= before.grants());
}

/// Whether two states of the repository hold the same grants, readiness and audit events.
pub open spec fn same_records(a: InMemoryModelDefinitionRepository, b: InMemoryModelDefinitionRepository) -> bool {
    &&& a.grants() == b.grants()
    &&& a.readiness() == b.readiness()
    &&& a.audit_log() == b.audit_log()
}

/// The profile an update leaves a grant with: the one named, else the grant's own; none when the
/// request names no profile.
pub open spec fn updated_profile(
    requested: Option<Option<ScopeDataModelPermissionProfile>>,
    existing: ScopeDataModelPermissionProfile,
) -> Option<ScopeDataModelPermissionProfile> {
    match requested {
        None => Some(existing),
        Some(named) => named,
    }
}

/// Whether a grant of this profile on a model read from an unsafe external source lacks the
/// confirmation it needs.
pub open spec fn unconfirmed_unsafe(profile: ScopeDataModelPermissionProfile, unsafe_source: bool, confirmed: bool) -> bool {
    profile == ScopeDataModelPermissionProfile::SystemAll && unsafe_source && !confirmed
}

fn repository_actor(actor_user_id: u128) -> (actor: ActorContext)
    ensures
        actor.is_root,
        actor.user_id == actor_user_id,
        actor.current_workspace_id == 0,
{
    ActorContext { user_id: actor_user_id, current_workspace_id: 0, is_root: true, permissions: Vec::new() }
}

impl ModelDefinitionService<InMemoryModelDefinitionRepository> {
    /// Grants a scope the use of a stored model, on behalf of the repository's actor (root), and
    /// records `state_model.scope_grant_created`. A request that names no profile, a model that is
    /// not stored (or is not a system model), and a system-wide grant on an unsafe external source
    /// without confirmation are refused with nothing written.
    pub fn create_scope_grant(&mut self, command: &CreateScopeDataModelGrantCommand) -> (r: Result<
        ScopeDataModelGrantRecord,
        ControlPlaneError,
    >)
        ensures
            forall|id: u128| final(self).repository.model_scope(id) == old(self).repository.model_scope(id),
            match command.permission_profile {
                None => r == Err::<ScopeDataModelGrantRecord, _>(ControlPlaneError::InvalidInput("permission_profile")),
                Some(profile) => match old(self).repository.model_unsafe(command.data_model_id) {
                    None => r == Err::<ScopeDataModelGrantRecord, _>(ControlPlaneError::NotFound("model_definition")),
                    Some(unsafe_source) => if unconfirmed_unsafe(
                        profile,
                        unsafe_source,
                        command.confirm_unsafe_external_source_system_all,
                    ) {
                        r == Err::<ScopeDataModelGrantRecord, _>(ControlPlaneError::InvalidInput("confirmation"))
                    } else if old(self).repository.model_scope(command.data_model_id) != Some(
                        DataModelScopeKind::System,
                    ) {
                        r == Err::<ScopeDataModelGrantRecord, _>(ControlPlaneError::NotFound("model_definition"))
                    } else {
                        r matches Ok(g) && {
                            &&& g.data_model_id == command.data_model_id
                            &&& g.scope_kind == command.scope_kind
                            &&& g.scope_id == command.scope_id
                            &&& g.enabled == command.enabled
                            &&& g.permission_profile == profile
                            &&& final(self).repository.grants() == old(self).repository.grants().push(g)
                            &&& final(self).repository.audit_log() == old(self).repository.audit_log().push(
                                "state_model.scope_grant_created"@,
                            )
                            &&& final(self).repository.readiness() == old(self).repository.readiness()
                        }
                    },
                },
            },
            r is Err ==> same_records(final(self).repository, old(self).repository),
    {
        let actor = repository_actor(command.actor_user_id);
        ensure_state_model_permission(&actor, "manage")?;
        let profile = match command.permission_profile {
            Some(p) => p,
            None => {
                return Err(ControlPlaneError::InvalidInput("permission_profile"));
            },
        };
        let unsafe_source = match self.repository.find_model_unsafe(command.data_model_id) {
            Some(u) => u,
            None => {
                return Err(ControlPlaneError::NotFound("model_definition"));
            },
        };
        ensure_scope_grant_lifecycle_authorized(&actor, command.scope_kind, command.scope_id)?;
        if profile == ScopeDataModelPermissionProfile::SystemAll && unsafe_source
            && !command.confirm_unsafe_external_source_system_all {
            return Err(ControlPlaneError::InvalidInput("confirmation"));
        }
        let grant = ScopeDataModelGrantRecord {
            id: new_uuid_v7(),
            data_model_id: command.data_model_id,
            scope_kind: command.scope_kind,
            scope_id: command.scope_id,
            enabled: command.enabled,
            permission_profile: profile,
        };
        let created = self.repository.create_scope_data_model_grant(grant)?;
        self.repository.append_audit_event("state_model.scope_grant_created");
        Ok(created)
    }

    /// Changes a scope grant on a stored model on behalf of the repository's actor (root): its
    /// profile (when one is named) and whether it is enabled (when given), and records
    /// `state_model.scope_grant_updated`. Nothing is written when the request is refused.
    pub fn update_scope_grant(&mut self, command: &UpdateScopeDataModelGrantCommand) -> (r: Result<
        ScopeDataModelGrantRecord,
        ControlPlaneError,
    >)
        ensures
            forall|id: u128| final(self).repository.model_scope(id) == old(self).repository.model_scope(id),
            match old(self).repository.model_unsafe(command.data_model_id) {
                None => r == Err::<ScopeDataModelGrantRecord, _>(ControlPlaneError::NotFound("model_definition")),
                Some(unsafe_source) => match grant_position_from(
                    old(self).repository.grants(),
                    command.data_model_id,
                    command.grant_id,
                    0,
                ) {
                    None => r == Err::<ScopeDataModelGrantRecord, _>(
                        ControlPlaneError::NotFound("scope_data_model_grant"),
                    ),
                    Some(p) => {
                        let existing = old(self).repository.grants()[p];
                        match updated_profile(command.permission_profile, existing.permission_profile) {
                            None => r == Err::<ScopeDataModelGrantRecord, _>(
                                ControlPlaneError::InvalidInput("permission_profile"),
                            ),
                            Some(profile) => if unconfirmed_unsafe(
                                profile,
                                unsafe_source,
                                command.confirm_unsafe_external_source_system_all,
                            ) {
                                r == Err::<ScopeDataModelGrantRecord, _>(ControlPlaneError::InvalidInput("confirmation"))
                            } else if old(self).repository.model_scope(command.data_model_id) != Some(
                                DataModelScopeKind::System,
                            ) {
                                r == Err::<ScopeDataModelGrantRecord, _>(
                                    ControlPlaneError::NotFound("model_definition"),
                                )
                            } else {
                                let updated = ScopeDataModelGrantRecord {
                                    enabled: match command.enabled {
                                        Some(e) => e,
                                        None => existing.enabled,
                                    },
                                    permission_profile: profile,
                                    ..existing
                                };
                                &&& r == Ok::<_, ControlPlaneError>(updated)
                                &&& final(self).repository.grants() == old(self).repository.grants().update(p, updated)
                                &&& final(self).repository.audit_log() == old(self).repository.audit_log().push(
                                    "state_model.scope_grant_updated"@,
                                )
                                &&& final(self).repository.readiness() == old(self).repository.readiness()
                            },
                        }
                    },
                },
            },
            r is Err ==> same_records(final(self).repository, old(self).repository),
    {
        let actor = repository_actor(command.actor_user_id);
        ensure_state_model_permission(&actor, "manage")?;
        let unsafe_source = match self.repository.find_model_unsafe(command.data_model_id) {
            Some(u) => u,
            None => {
                return Err(ControlPlaneError::NotFound("model_definition"));
            },
        };
        let existing = match self.repository.get_scope_data_model_grant(command.data_model_id, command.grant_id) {
            Some(g) => g,
            None => {
                return Err(ControlPlaneError::NotFound("scope_data_model_grant"));
            },
        };
        ensure_scope_grant_lifecycle_authorized(&actor, existing.scope_kind, existing.scope_id)?;
        let profile = match command.permission_profile {
            Some(Some(p)) => p,
            Some(None) => {
                return Err(ControlPlaneError::InvalidInput("permission_profile"));
            },
            None => existing.permission_profile,
        };
        let enabled = match command.enabled {
            Some(e) => e,
            None => existing.enabled,
        };
        if profile == ScopeDataModelPermissionProfile::SystemAll && unsafe_source
            && !command.confirm_unsafe_external_source_system_all {
            return Err(ControlPlaneError::InvalidInput("confirmation"));
        }
        let updated = self.repository.update_scope_data_model_grant(
            command.data_model_id,
            command.grant_id,
            enabled,
            profile,
        )?;
        self.repository.append_audit_event("state_model.scope_grant_updated");
        Ok(updated)
    }

    /// Withdraws a scope grant on a stored model on behalf of the repository's actor (root), and
    /// records `state_model.scope_grant_deleted`. Nothing is written when the request is refused.
    pub fn delete_scope_grant(&mut self, command: &DeleteScopeDataModelGrantCommand) -> (r: Result<
        ScopeDataModelGrantRecord,
        ControlPlaneError,
    >)
        ensures
            forall|id: u128| final(self).repository.model_scope(id) == old(self).repository.model_scope(id),
            match old(self).repository.model_unsafe(command.data_model_id) {
                None => r == Err::<ScopeDataModelGrantRecord, _>(ControlPlaneError::NotFound("model_definition")),
                Some(_) => match grant_position_from(
                    old(self).repository.grants(),
                    command.data_model_id,
                    command.grant_id,
                    0,
                ) {
                    None => r == Err::<ScopeDataModelGrantRecord, _>(
                        ControlPlaneError::NotFound("scope_data_model_grant"),
                    ),
                    Some(p) => {
                        &&& r == Ok::<_, ControlPlaneError>(old(self).repository.grants()[p])
                        &&& final(self).repository.grants() == old(self).repository.grants().remove(p)
                        &&& final(self).repository.audit_log() == old(self).repository.audit_log().push(
                            "state_model.scope_grant_deleted"@,
                        )
                        &&& final(self).repository.readiness() == old(self).repository.readiness()
                    },
                },
            },
            r is Err ==> same_records(final(self).repository, old(self).repository),
    {
        let actor = repository_actor(command.actor_user_id);
        ensure_state_model_permission(&actor, "manage")?;
        if self.repository.find_model_unsafe(command.data_model_id).is_none() {
            return Err(ControlPlaneError::NotFound("model_definition"));
        }
        let existing = match self.repository.get_scope_data_model_grant(command.data_model_id, command.grant_id) {
            Some(g) => g,
            None => {
                return Err(ControlPlaneError::NotFound("scope_data_model_grant"));
            },
        };
        ensure_scope_grant_lifecycle_authorized(&actor, existing.scope_kind, existing.scope_id)?;
        let deleted = self.repository.delete_scope_data_model_grant(command.data_model_id, command.grant_id)?;
        self.repository.append_audit_event("state_model.scope_grant_deleted");
        Ok(deleted)
    }

    /// A service over an empty in-memory repository.
    pub fn for_tests() -> (s: Self)
        ensures
            s.repository.grants().len() == 0,
            s.repository.readiness().len() == 0,
            s.repository.audit_log().len() == 0,
            forall|id: u128| s.repository.model_scope(id) is None,
    {
        Self::new(InMemoryModelDefinitionRepository::new())
    }
}

} // verus!
