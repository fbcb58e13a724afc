//! Audit trail: the records written for authentication, authorization,
//! data access and security events, numbered per logger.

use vstd::prelude::*;
use crate::batch::{now_rfc3339, now_timestamp_secs};
use crate::json::{Json, JsonView, json_view};
use crate::security::threat_detection_impl::text_views;
use crate::text::{cat, decimal, decimal_string, owned};

verus! {

/// Where and how long audit records are kept.
pub struct AuditLogConfig {
    pub log_path: String,
    pub retention_days: u32,
    pub max_file_size_mb: u64,
    pub async_write: bool,
    pub queue_size: usize,
}

impl Default for AuditLogConfig {
    /// Records under /var/log/cgas/audit, kept 90 days, files of 100 MB,
    /// written asynchronously through a queue of 1000.
    fn default() -> (c: Self)
        ensures
            c.log_path@ == "/var/log/cgas/audit"@,
            c.retention_days == 90,
            c.max_file_size_mb == 100,
            c.async_write,
            c.queue_size == 1000,
    {
        AuditLogConfig {
            log_path: owned("/var/log/cgas/audit"),
            retention_days: 90,
            max_file_size_mb: 100,
            async_write: true,
            queue_size: 1000,
        }
    }
}

/// The kind of event recorded.
#[derive(Debug, Clone, Copy, PartialEq, Eq, Structural)]
pub enum EventType {
    Authentication,
    Authorization,
    DataAccess,
    ConfigurationChange,
    System,
    Security,
}

/// Who acted.
#[derive(Debug, Clone, Copy, PartialEq, Eq, Structural)]
pub enum SubjectType {
    User,
    Service,
    System,
}

/// The kind of operation.
#[derive(Debug, Clone, Copy, PartialEq, Eq, Structural)]
pub enum ActionType {
    Create,
    Read,
    Update,
    Delete,
    Execute,
    Authorize,
    Authenticate,
    Other,
}

/// The kind of resource.
#[derive(Debug, Clone, Copy, PartialEq, Eq, Structural)]
pub enum ResourceType {
    Batch,
    Transaction,
    User,
    Role,
    Permission,
    Configuration,
    System,
    Other,
}

/// How serious a security event is.
#[derive(Debug, Clone, Copy, PartialEq, Eq, Structural)]
pub enum SecuritySeverity {
    Low,
    Medium,
    High,
    Critical,
}

/// The subject of a record; attributes are name–value pairs.
pub struct Subject {
    pub id: String,
    pub subject_type: SubjectType,
    pub roles: Vec<String>,
    pub attributes: Vec<(String, Json)>,
}

/// The operation of a record.
pub struct Action {
    pub id: String,
    pub action_type: ActionType,
    pub description: String,
}

/// The resource of a record.
pub struct Resource {
    pub id: String,
    pub resource_type: ResourceType,
    pub name: String,
    pub attributes: Vec<(String, Json)>,
}

/// How the operation ended.
pub struct OperationResult {
    pub success: bool,
    pub status_code: u16,
    pub error_message: Option<String>,
    pub processing_time_ms: u64,
}

/// Where the operation came from.
pub struct Environment {
    pub ip_address: Option<String>,
    pub user_agent: Option<String>,
    pub geo_location: Option<String>,
    pub timestamp: String,
    pub session_id: Option<String>,
}

/// One audit record.
pub struct AuditLogEntry {
    pub timestamp: String,
    pub event_id: String,
    pub event_type: EventType,
    pub subject: Subject,
    pub action: Action,
    pub resource: Resource,
    pub result: OperationResult,
    pub environment: Environment,
    pub metadata: Vec<(String, Json)>,
}

/// Totals of a logger.
pub struct AuditLogStats {
    pub total_entries: u64,
    pub log_path: String,
    pub retention_days: u32,
}

/// A search over records.
pub struct AuditLogQuery {
    pub start_time: Option<String>,
    pub end_time: Option<String>,
    pub event_type: Option<EventType>,
    pub subject_id: Option<String>,
    pub resource_id: Option<String>,
    pub action_type: Option<ActionType>,
    pub success: Option<bool>,
    pub page_size: Option<u32>,
    pub page_number: Option<u32>,
}

/// What went wrong with the audit trail.
pub enum AuditLogError {
    IoError(String),
    QueryError(String),
    StorageError(String),
}

impl AuditLogError {
    /// The error's message.
    pub fn message(&self) -> (m: String)
        ensures
            m@ == (match self {
                AuditLogError::IoError(s) => "IO 错误："@ + s@,
                AuditLogError::QueryError(s) => "查询错误："@ + s@,
                AuditLogError::StorageError(s) => "存储错误："@ + s@,
            }),
    {
        match self {
            AuditLogError::IoError(s) => cat("IO 错误：", s.as_str()),
            AuditLogError::QueryError(s) => cat("查询错误：", s.as_str()),
            AuditLogError::StorageError(s) => cat("存储错误：", s.as_str()),
        }
    }
}

/// The name of an operation kind, as `{:?}` prints it.
pub open spec fn action_type_name(a: ActionType) -> Seq<char> {
    match a {
        ActionType::Create => "Create"@,
        ActionType::Read => "Read"@,
        ActionType::Update => "Update"@,
        ActionType::Delete => "Delete"@,
        ActionType::Execute => "Execute"@,
        ActionType::Authorize => "Authorize"@,
        ActionType::Authenticate => "Authenticate"@,
        ActionType::Other => "Other"@,
    }
}

/// The name of a resource kind, as `{:?}` prints it.
pub open spec fn resource_type_name(r: ResourceType) -> Seq<char> {
    match r {
        ResourceType::Batch => "Batch"@,
        ResourceType::Transaction => "Transaction"@,
        ResourceType::User => "User"@,
        ResourceType::Role => "Role"@,
        ResourceType::Permission => "Permission"@,
        ResourceType::Configuration => "Configuration"@,
        ResourceType::System => "System"@,
        ResourceType::Other => "Other"@,
    }
}

/// The name of a severity, as `{:?}` prints it.
pub open spec fn severity_name(s: SecuritySeverity) -> Seq<char> {
    match s {
        SecuritySeverity::Low => "Low"@,
        SecuritySeverity::Medium => "Medium"@,
        SecuritySeverity::High => "High"@,
        SecuritySeverity::Critical => "Critical"@,
    }
}

fn action_type_text(a: ActionType) -> (s: String)
    ensures
        s@ == action_type_name(a),
{
    match a {
        ActionType::Create => owned("Create"),
        ActionType::Read => owned("Read"),
        ActionType::Update => owned("Update"),
        ActionType::Delete => owned("Delete"),
        ActionType::Execute => owned("Execute"),
        ActionType::Authorize => owned("Authorize"),
        ActionType::Authenticate => owned("Authenticate"),
        ActionType::Other => owned("Other"),
    }
}

fn resource_type_text(r: ResourceType) -> (s: String)
    ensures
        s@ == resource_type_name(r),
{
    match r {
        ResourceType::Batch => owned("Batch"),
        ResourceType::Transaction => owned("Transaction"),
        ResourceType::User => owned("User"),
        ResourceType::Role => owned("Role"),
        ResourceType::Permission => owned("Permission"),
        ResourceType::Configuration => owned("Configuration"),
        ResourceType::System => owned("System"),
        ResourceType::Other => owned("Other"),
    }
}

fn severity_text(s: SecuritySeverity) -> (t: String)
    ensures
        t@ == severity_name(s),
{
    match s {
        SecuritySeverity::Low => owned("Low"),
        SecuritySeverity::Medium => owned("Medium"),
        SecuritySeverity::High => owned("High"),
        SecuritySeverity::Critical => owned("Critical"),
    }
}

/// The decimal text of a signed number.
pub open spec fn signed_decimal(x: i64) -> Seq<char> {
    if x < 0 {
        "-"@ + decimal((-x) as nat)
    } else {
        decimal(x as nat)
    }
}

fn signed_decimal_string(x: i64) -> (r: String)
    ensures
        r@ == signed_decimal(x),
{
    if x < 0 {
        let m: u64 = if x == i64::MIN { 9223372036854775808u64 } else { (-x) as u64 };
        let d = decimal_string(m);
        cat("-", d.as_str())
    } else {
        decimal_string(x as u64)
    }
}

/// An event id: "audit_", the time in seconds, "_", the running number.
pub open spec fn event_id_text(secs: i64, n: u64) -> Seq<char> {
    "audit_"@ + signed_decimal(secs) + "_"@ + decimal(n as nat)
}

pub open spec fn metadata_views(m: Seq<(String, Json)>) -> Seq<(Seq<char>, JsonView)> {
    m.map_values(|p: (String, Json)| (p.0@, json_view(p.1)))
}

/// Builds audit records and numbers them. Each record advances the count
/// by two: once for its id and once for the record itself.
pub struct AuditLogger {
    pub config: AuditLogConfig,
    pub entry_count: u64,
}

impl AuditLogger {
    /// A logger with no records yet.
    pub fn new(config: AuditLogConfig) -> (l: Self)
        ensures
            l.entry_count == 0,
            l.config == config,
    {
        AuditLogger { config, entry_count: 0 }
    }

    fn generate_event_id(&mut self) -> (id: String)
        requires
            old(self).entry_count < u64::MAX,
        ensures
            final(self).entry_count == old(self).entry_count + 1,
            final(self).config == old(self).config,
            exists|secs: i64| id@ == #[trigger] event_id_text(secs, final(self).entry_count),
    {
        self.entry_count = self.entry_count + 1;
        let secs = now_timestamp_secs();
        let t = signed_decimal_string(secs);
        let n = decimal_string(self.entry_count);
        let a = cat("audit_", t.as_str());
        let b = cat(a.as_str(), "_");
        let id = cat(b.as_str(), n.as_str());
        assert(id@ == event_id_text(secs, self.entry_count));
        id
    }

    fn create_environment(&self) -> (e: Environment)
        ensures
            e.ip_address is None,
            e.user_agent is None,
            e.geo_location is None,
            e.session_id is None,
    {
        Environment { ip_address: None, user_agent: None, geo_location: None, timestamp: now_rfc3339(), session_id: None }
    }

    fn write_entry(&mut self, entry: &AuditLogEntry)
        requires
            old(self).entry_count < u64::MAX,
        ensures
            final(self).entry_count == old(self).entry_count + 1,
            final(self).config == old(self).config,
    {
        self.entry_count = self.entry_count + 1;
    }

    /// The record of an authentication by `user_id` with `method`: 200 on
    /// success, 401 otherwise, with the method in the metadata.
    pub fn log_authentication(&mut self, user_id: &str, success: bool, method: &str, error_message: Option<String>) -> (e: AuditLogEntry)
        requires
            old(self).entry_count <= u64::MAX - 2,
        ensures
            final(self).entry_count == old(self).entry_count + 2,
            final(self).config == old(self).config,
            exists|secs: i64| e.event_id@ == #[trigger] event_id_text(secs, (old(self).entry_count + 1) as u64),
            e.event_type == EventType::Authentication,
            e.subject.id@ == user_id@ && e.subject.subject_type == SubjectType::User && e.subject.roles@.len() == 0
                && e.subject.attributes@.len() == 0,
            e.action.id@ == "auth:login"@ && e.action.action_type == ActionType::Authenticate && e.action.description@
                == "User authentication using "@ + method@,
            e.resource.id@ == "auth:system"@ && e.resource.resource_type == ResourceType::System && e.resource.name@
                == "Authentication System"@ && e.resource.attributes@.len() == 0,
            e.result.success == success && e.result.status_code == (if success { 200u16 } else { 401u16 })
                && e.result.error_message == error_message && e.result.processing_time_ms == 0,
            metadata_views(e.metadata@) == seq![("auth_method"@, JsonView::Str(method@))],
    {
        let event_id = self.generate_event_id();
        proof {
            let secs = choose|secs: i64| event_id@ == #[trigger] event_id_text(secs, self.entry_count);
            assert(event_id@ == event_id_text(secs, (old(self).entry_count + 1) as u64));
        }
        let metadata = vec![(owned("auth_method"), Json::Str(owned(method)))];
        assert(metadata_views(metadata@) =~= seq![("auth_method"@, JsonView::Str(method@))]);
        let entry = AuditLogEntry {
            timestamp: now_rfc3339(),
            event_id,
            event_type: EventType::Authentication,
            subject: Subject { id: owned(user_id), subject_type: SubjectType::User, roles: Vec::new(), attributes: Vec::new() },
            action: Action {
                id: owned("auth:login"),
                action_type: ActionType::Authenticate,
                description: cat("User authentication using ", method),
            },
            resource: Resource {
                id: owned("auth:system"),
                resource_type: ResourceType::System,
                name: owned("Authentication System"),
                attributes: Vec::new(),
            },
            result: OperationResult {
                success,
                status_code: if success { 200 } else { 401 },
                error_message,
                processing_time_ms: 0,
            },
            environment: self.create_environment(),
            metadata,
        };
        self.write_entry(&entry);
        entry
    }

    /// The record of an authorization check of `action` on `resource`: 200
    /// when permitted, 403 otherwise, with the denial reason.
    pub fn log_authorization(
        &mut self,
        user_id: &str,
        roles: &[String],
        resource: &str,
        action: &str,
        permitted: bool,
        denial_reason: Option<String>,
    ) -> (e: AuditLogEntry)
        requires
            old(self).entry_count <= u64::MAX - 2,
        ensures
            final(self).entry_count == old(self).entry_count + 2,
            final(self).config == old(self).config,
            exists|secs: i64| e.event_id@ == #[trigger] event_id_text(secs, (old(self).entry_count + 1) as u64),
            e.event_type == EventType::Authorization,
            e.subject.id@ == user_id@ && e.subject.subject_type == SubjectType::User && text_views(e.subject.roles@)
                == text_views(roles@) && e.subject.attributes@.len() == 0,
            e.action.id@ == "authz:"@ + action@ && e.action.action_type == ActionType::Authorize && e.action.description@
                == "Authorization check for "@ + action@ + " on "@ + resource@,
            e.resource.id@ == resource@ && e.resource.resource_type == ResourceType::Other && e.resource.name@ == resource@
                && e.resource.attributes@.len() == 0,
            e.result.success == permitted && e.result.status_code == (if permitted { 200u16 } else { 403u16 })
                && e.result.error_message == denial_reason && e.result.processing_time_ms == 0,
            e.metadata@.len() == 0,
    {
        let event_id = self.generate_event_id();
        proof {
            let secs = choose|secs: i64| event_id@ == #[trigger] event_id_text(secs, self.entry_count);
            assert(event_id@ == event_id_text(secs, (old(self).entry_count + 1) as u64));
        }
        let mut role_list: Vec<String> = Vec::new();
        let mut i: usize = 0;
        while i < roles.len()
            invariant
                i <= roles@.len(),
                text_views(role_list@) == text_views(roles@.take(i as int)),
            decreases roles@.len() - i,
        {
            let ghost before = role_list@;
            role_list.push(roles[i].clone());
            assert(text_views(role_list@) =~= text_views(before).push(roles@[i as int]@));
            assert(text_views(roles@.take(i + 1)) =~= text_views(roles@.take(i as int)).push(roles@[i as int]@));
            i = i + 1;
        }
        assert(roles@.take(roles@.len() as int) =~= roles@);
        let d1 = cat("Authorization check for ", action);
        let d2 = cat(d1.as_str(), " on ");
        let description = cat(d2.as_str(), resource);
        let entry = AuditLogEntry {
            timestamp: now_rfc3339(),
            event_id,
            event_type: EventType::Authorization,
            subject: Subject { id: owned(user_id), subject_type: SubjectType::User, roles: role_list, attributes: Vec::new() },
            action: Action { id: cat("authz:", action), action_type: ActionType::Authorize, description },
            resource: Resource {
                id: owned(resource),
                resource_type: ResourceType::Other,
                name: owned(resource),
                attributes: Vec::new(),
            },
            result: OperationResult {
                success: permitted,
                status_code: if permitted { 200 } else { 403 },
                error_message: denial_reason,
                processing_time_ms: 0,
            },
            environment: self.create_environment(),
            metadata: Vec::new(),
        };
        self.write_entry(&entry);
        entry
    }

    /// The record of a data access: 200 on success, 500 otherwise; the
    /// operation and resource kinds are named as `{:?}` names them.
    pub fn log_data_access(
        &mut self,
        user_id: &str,
        resource_type: ResourceType,
        resource_id: &str,
        action: ActionType,
        success: bool,
    ) -> (e: AuditLogEntry)
        requires
            old(self).entry_count <= u64::MAX - 2,
        ensures
            final(self).entry_count == old(self).entry_count + 2,
            final(self).config == old(self).config,
            exists|secs: i64| e.event_id@ == #[trigger] event_id_text(secs, (old(self).entry_count + 1) as u64),
            e.event_type == EventType::DataAccess,
            e.subject.id@ == user_id@ && e.subject.subject_type == SubjectType::User && e.subject.roles@.len() == 0
                && e.subject.attributes@.len() == 0,
            e.action.id@ == "data:"@ + action_type_name(action) && e.action.action_type == action && e.action.description@
                == "Data "@ + action_type_name(action) + " on "@ + resource_type_name(resource_type),
            e.resource.id@ == resource_id@ && e.resource.resource_type == resource_type && e.resource.name@
                == resource_id@ && e.resource.attributes@.len() == 0,
            e.result.success == success && e.result.status_code == (if success { 200u16 } else { 500u16 })
                && e.result.error_message is None && e.result.processing_time_ms == 0,
            e.metadata@.len() == 0,
    {
        let event_id = self.generate_event_id();
        proof {
            let secs = choose|secs: i64| event_id@ == #[trigger] event_id_text(secs, self.entry_count);
            assert(event_id@ == event_id_text(secs, (old(self).entry_count + 1) as u64));
        }
        let a = action_type_text(action);
        let r = resource_type_text(resource_type);
        let d1 = cat("Data ", a.as_str());
        let d2 = cat(d1.as_str(), " on ");
        let description = cat(d2.as_str(), r.as_str());
        let entry = AuditLogEntry {
            timestamp: now_rfc3339(),
            event_id,
            event_type: EventType::DataAccess,
            subject: Subject { id: owned(user_id), subject_type: SubjectType::User, roles: Vec::new(), attributes: Vec::new() },
            action: Action { id: cat("data:", a.as_str()), action_type: action, description },
            resource: Resource { id: owned(resource_id), resource_type, name: owned(resource_id), attributes: Vec::new() },
            result: OperationResult {
                success,
                status_code: if success { 200 } else { 500 },
                error_message: None,
                processing_time_ms: 0,
            },
            environment: self.create_environment(),
            metadata: Vec::new(),
        };
        self.write_entry(&entry);
        entry
    }

    /// The record of a security event: the subject is the given one (a user)
    /// or "system"; the metadata holds the severity by name.
    pub fn log_security_event(
        &mut self,
        event_type: &str,
        severity: SecuritySeverity,
        description: &str,
        subject_id: Option<&str>,
        metadata: Vec<(String, Json)>,
    ) -> (e: AuditLogEntry)
        requires
            old(self).entry_count <= u64::MAX - 2,
        ensures
            final(self).entry_count == old(self).entry_count + 2,
            final(self).config == old(self).config,
            exists|secs: i64| e.event_id@ == #[trigger] event_id_text(secs, (old(self).entry_count + 1) as u64),
            e.event_type == EventType::Security,
            e.subject.id@ == (match subject_id {
                Some(s) => s@,
                None => "system"@,
            }),
            e.subject.subject_type == (if subject_id is Some { SubjectType::User } else { SubjectType::System }),
            e.subject.roles@.len() == 0 && e.subject.attributes@.len() == 0,
            e.action.id@ == "security:"@ + event_type@ && e.action.action_type == ActionType::Other && e.action.description@
                == description@,
            e.resource.id@ == "security:system"@ && e.resource.resource_type == ResourceType::System && e.resource.name@
                == "Security System"@ && e.resource.attributes@.len() == 0,
            e.result.success && e.result.status_code == 200 && e.result.error_message is None
                && e.result.processing_time_ms == 0,
            metadata_views(e.metadata@) == seq![("severity"@, JsonView::Str(severity_name(severity)))],
    {
        let event_id = self.generate_event_id();
        proof {
            let secs = choose|secs: i64| event_id@ == #[trigger] event_id_text(secs, self.entry_count);
            assert(event_id@ == event_id_text(secs, (old(self).entry_count + 1) as u64));
        }
        let sev = vec![(owned("severity"), Json::Str(severity_text(severity)))];
        assert(metadata_views(sev@) =~= seq![("severity"@, JsonView::Str(severity_name(severity)))]);
        let subject = match subject_id {
            Some(s) => Subject { id: owned(s), subject_type: SubjectType::User, roles: Vec::new(), attributes: Vec::new() },
            None => Subject { id: owned("system"), subject_type: SubjectType::System, roles: Vec::new(), attributes: Vec::new() },
        };
        let entry = AuditLogEntry {
            timestamp: now_rfc3339(),
            event_id,
            event_type: EventType::Security,
            subject,
            action: Action { id: cat("security:", event_type), action_type: ActionType::Other, description: owned(description) },
            resource: Resource {
                id: owned("security:system"),
                resource_type: ResourceType::System,
                name: owned("Security System"),
                attributes: Vec::new(),
            },
            result: OperationResult { success: true, status_code: 200, error_message: None, processing_time_ms: 0 },
            environment: self.create_environment(),
            metadata: sev,
        };
        self.write_entry(&entry);
        entry
    }

    /// The count of records and where they are kept.
    pub fn get_stats(&self) -> (s: AuditLogStats)
        ensures
            s.total_entries == self.entry_count,
            s.log_path@ == self.config.log_path@,
            s.retention_days == self.config.retention_days,
    {
        AuditLogStats {
            total_entries: self.entry_count,
            log_path: self.config.log_path.clone(),
            retention_days: self.config.retention_days,
        }
    }

    /// Records matching a query: none are kept here to search.
    pub fn query_logs(&self, query: &AuditLogQuery) -> (r: Result<Vec<AuditLogEntry>, AuditLogError>)
        ensures
            r matches Ok(v) && v@.len() == 0,
    {
        Ok(Vec::new())
    }
}

} // verus!
