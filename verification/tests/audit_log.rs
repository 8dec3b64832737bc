use ledger_rs::application::audit_log::{
    AuditEntity, AuditLogEntry, AuditOperation, ListAuditLogError, MAX_AUDIT_LOG_LIMIT,
    list_recent_audit_entries,
};
use ledger_rs::application::repository::{AuditLogRepository, RepositoryError};

struct UnusedRepository;

impl AuditLogRepository for UnusedRepository {
    fn list_recent(&self, _limit: usize) -> Result<Vec<AuditLogEntry>, RepositoryError> {
        unreachable!()
    }
}

#[test]
fn rejects_zero_and_excessive_limits_before_querying_repository() {
    assert_eq!(
        list_recent_audit_entries(&UnusedRepository, 0),
        Err(ListAuditLogError::InvalidLimit {
            limit: 0,
            max: MAX_AUDIT_LOG_LIMIT,
        })
    );
    assert_eq!(
        list_recent_audit_entries(&UnusedRepository, MAX_AUDIT_LOG_LIMIT + 1),
        Err(ListAuditLogError::InvalidLimit {
            limit: MAX_AUDIT_LOG_LIMIT + 1,
            max: MAX_AUDIT_LOG_LIMIT,
        })
    );
}

struct FixedRepository {
    entries: Vec<AuditLogEntry>,
}

impl AuditLogRepository for FixedRepository {
    fn list_recent(&self, limit: usize) -> Result<Vec<AuditLogEntry>, RepositoryError> {
        Ok(self.entries.iter().take(limit).cloned().collect())
    }
}

#[test]
fn lists_recent_entries_within_the_limit() {
    let entry = AuditLogEntry::from_stored(
        7,
        1_787_000_000_000_000_000,
        AuditEntity::Account,
        3,
        AuditOperation::Update,
        Some("{\"name\":\"Cash\"}".to_string()),
        Some("{\"name\":\"Wallet\"}".to_string()),
    );
    let repository = FixedRepository {
        entries: vec![entry.clone(), entry.clone()],
    };

    let listed = list_recent_audit_entries(&repository, MAX_AUDIT_LOG_LIMIT).unwrap();
    assert_eq!(listed.len(), 2);
    assert_eq!(listed[0].id(), 7);
    assert_eq!(listed[0].entity().as_str(), "account");
    assert_eq!(listed[0].operation().as_str(), "update");
    assert_eq!(listed[0].before_state(), Some("{\"name\":\"Cash\"}"));
    assert_eq!(listed[0].changed_at(), 1_787_000_000_000_000_000);
    assert_eq!(list_recent_audit_entries(&repository, 1).unwrap().len(), 1);
    assert_eq!(
        list_recent_audit_entries(
            &FixedRepository {
                entries: vec![]
            },
            1
        ),
        Ok(vec![])
    );
}
