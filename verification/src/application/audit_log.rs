use vstd::prelude::*;
use crate::application::repository::{AuditLogRepository, RepositoryError, audit_entries_view};
use crate::text::same_text;

verus! {

/// The most entries that one listing may ask for.
pub const MAX_AUDIT_LOG_LIMIT: usize = 200;

/// The kind of stored record that a change touched.
#[derive(Clone, Copy, Debug, PartialEq, Eq, Structural)]
pub enum AuditEntity {
    Account,
    Transaction,
    Transfer,
    Budget,
}

/// How an entity is named in the audit log.
pub open spec fn audit_entity_name(entity: AuditEntity) -> Seq<char> {
    match entity {
        AuditEntity::Account => "account"@,
        AuditEntity::Transaction => "transaction"@,
        AuditEntity::Transfer => "transfer"@,
        AuditEntity::Budget => "budget"@,
    }
}

impl AuditEntity {
    pub fn as_str(self) -> (r: &'static str)
        ensures
            r@ == audit_entity_name(self),
    {
        match self {
            AuditEntity::Account => "account",
            AuditEntity::Transaction => "transaction",
            AuditEntity::Transfer => "transfer",
            AuditEntity::Budget => "budget",
        }
    }
}

/// The entity that a name of the audit log stands for.
pub fn audit_entity_named(name: &str) -> (r: Option<AuditEntity>)
    ensures
        match r {
            Some(entity) => audit_entity_name(entity) == name@,
            None => forall|entity: AuditEntity| audit_entity_name(entity) != name@,
        },
{
    proof {
        reveal_strlit("account");
        reveal_strlit("transaction");
        reveal_strlit("transfer");
        reveal_strlit("budget");
    }
    if same_text(name, "account") {
        Some(AuditEntity::Account)
    } else if same_text(name, "transaction") {
        Some(AuditEntity::Transaction)
    } else if same_text(name, "transfer") {
        Some(AuditEntity::Transfer)
    } else if same_text(name, "budget") {
        Some(AuditEntity::Budget)
    } else {
        None
    }
}

/// What a change did to its record.
#[derive(Clone, Copy, Debug, PartialEq, Eq, Structural)]
pub enum AuditOperation {
    Create,
    Update,
    Delete,
}

/// How an operation is named in the audit log.
pub open spec fn audit_operation_name(operation: AuditOperation) -> Seq<char> {
    match operation {
        AuditOperation::Create => "create"@,
        AuditOperation::Update => "update"@,
        AuditOperation::Delete => "delete"@,
    }
}

impl AuditOperation {
    pub fn as_str(self) -> (r: &'static str)
        ensures
            r@ == audit_operation_name(self),
    {
        match self {
            AuditOperation::Create => "create",
            AuditOperation::Update => "update",
            AuditOperation::Delete => "delete",
        }
    }
}

/// The operation that a name of the audit log stands for.
pub fn audit_operation_named(name: &str) -> (r: Option<AuditOperation>)
    ensures
        match r {
            Some(operation) => audit_operation_name(operation) == name@,
            None => forall|operation: AuditOperation| audit_operation_name(operation) != name@,
        },
{
    proof {
        reveal_strlit("create");
        reveal_strlit("update");
        reveal_strlit("delete");
    }
    if same_text(name, "create") {
        Some(AuditOperation::Create)
    } else if same_text(name, "update") {
        Some(AuditOperation::Update)
    } else if same_text(name, "delete") {
        Some(AuditOperation::Delete)
    } else {
        None
    }
}

/// One recorded change: when it happened (nanoseconds since the Unix epoch), what it
/// touched, and the record's JSON state before and after it.
#[derive(Clone, Debug, PartialEq, Eq)]
pub struct AuditLogEntry {
    id: u64,
    changed_at: i128,
    entity: AuditEntity,
    entity_id: u64,
    operation: AuditOperation,
    before_state: Option<String>,
    after_state: Option<String>,
}

pub struct AuditLogEntryView {
    pub id: u64,
    pub changed_at: int,
    pub entity: AuditEntity,
    pub entity_id: u64,
    pub operation: AuditOperation,
    pub before_state: Option<Seq<char>>,
    pub after_state: Option<Seq<char>>,
}

/// The view of an optional text.
pub open spec fn optional_text(value: Option<String>) -> Option<Seq<char>> {
    match value {
        Some(text) => Some(text@),
        None => None,
    }
}

impl View for AuditLogEntry {
    type V = AuditLogEntryView;

    closed spec fn view(&self) -> AuditLogEntryView {
        AuditLogEntryView {
            id: self.id,
            changed_at: self.changed_at as int,
            entity: self.entity,
            entity_id: self.entity_id,
            operation: self.operation,
            before_state: optional_text(self.before_state),
            after_state: optional_text(self.after_state),
        }
    }
}

/// The view of an optional borrowed text.
pub open spec fn optional_str(value: Option<&str>) -> Option<Seq<char>> {
    match value {
        Some(text) => Some(text@),
        None => None,
    }
}

impl AuditLogEntry {
    /// An entry as a repository stored it.
    pub fn from_stored(
        id: u64,
        changed_at: i128,
        entity: AuditEntity,
        entity_id: u64,
        operation: AuditOperation,
        before_state: Option<String>,
        after_state: Option<String>,
    ) -> (r: Self)
        ensures
            r@ == (AuditLogEntryView {
                id,
                changed_at: changed_at as int,
                entity,
                entity_id,
                operation,
                before_state: optional_text(before_state),
                after_state: optional_text(after_state),
            }),
    {
        AuditLogEntry { id, changed_at, entity, entity_id, operation, before_state, after_state }
    }

    pub fn id(&self) -> (r: u64)
        ensures
            r == self@.id,
    {
        self.id
    }

    /// When the change happened, in nanoseconds since the Unix epoch.
    pub fn changed_at(&self) -> (r: i128)
        ensures
            r as int == self@.changed_at,
    {
        self.changed_at
    }

    pub fn entity(&self) -> (r: AuditEntity)
        ensures
            r == self@.entity,
    {
        self.entity
    }

    pub fn entity_id(&self) -> (r: u64)
        ensures
            r == self@.entity_id,
    {
        self.entity_id
    }

    pub fn operation(&self) -> (r: AuditOperation)
        ensures
            r == self@.operation,
    {
        self.operation
    }

    /// The record's JSON state before the change, where it existed.
    pub fn before_state(&self) -> (r: Option<&str>)
        ensures
            optional_str(r) == self@.before_state,
    {
        match &self.before_state {
            Some(text) => Some(text.as_str()),
            None => None,
        }
    }

    /// The record's JSON state after the change, where it still exists.
    pub fn after_state(&self) -> (r: Option<&str>)
        ensures
            optional_str(r) == self@.after_state,
    {
        match &self.after_state {
            Some(text) => Some(text.as_str()),
            None => None,
        }
    }
}

/// Why the audit log could not be listed.
#[derive(Debug, PartialEq, Eq)]
pub enum ListAuditLogError {
    InvalidLimit { limit: usize, max: usize },
    Repository(RepositoryError),
}

/// Whether a listing limit is accepted: at least one entry and at most the maximum.
pub open spec fn valid_audit_limit(limit: usize) -> bool {
    1 <= limit <= MAX_AUDIT_LOG_LIMIT
}

/// The most recent changes, newest first, as the repository lists them; the limit is
/// checked before the repository is asked.
pub fn list_recent_audit_entries<R: AuditLogRepository>(repository: &R, limit: usize) -> (r: Result<
    Vec<AuditLogEntry>,
    ListAuditLogError,
>)
    ensures
        match r {
            Err(ListAuditLogError::InvalidLimit { limit: refused, max }) => {
                &&& !valid_audit_limit(limit)
                &&& refused == limit
                &&& max == MAX_AUDIT_LOG_LIMIT
            },
            Err(ListAuditLogError::Repository(_)) => valid_audit_limit(limit),
            Ok(entries) => valid_audit_limit(limit) && entries@.len() <= limit && audit_entries_view(entries@)
                == repository.recent(limit),
        },
{
    if limit < 1 || limit > MAX_AUDIT_LOG_LIMIT {
        return Err(ListAuditLogError::InvalidLimit { limit, max: MAX_AUDIT_LOG_LIMIT });
    }
    match repository.list_recent(limit) {
        Ok(entries) => Ok(entries),
        Err(error) => Err(ListAuditLogError::Repository(error)),
    }
}

} // verus!
