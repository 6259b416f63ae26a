//! The data model of the platform integrations: the request and response
//! shapes the engine's hosts exchange with the threat-scan, cost-track,
//! compliance, edge-distribution, incident and security-monitoring services,
//! and the graceful-degradation result those calls return. The transport that
//! carries them lives outside this library.

use vstd::prelude::*;

verus! {

/// Result from an integration call.
#[derive(Debug, Clone)]
pub enum IntegrationResult<T> {
    /// Successful result
    Success(T),
    /// Service unavailable (graceful degradation)
    Unavailable,
    /// Error occurred
    Error(String),
}

impl<T> IntegrationResult<T> {
    /// Check if the result is successful.
    pub fn is_success(&self) -> (r: bool)
        ensures
            r == (self is Success),
    {
        match self {
            IntegrationResult::Success(_) => true,
            _ => false,
        }
    }

    /// Get the value if successful.
    pub fn value(&self) -> (r: Option<&T>)
        ensures
            match r {
                Some(v) => self matches IntegrationResult::Success(x) && v == x,
                None => !(self is Success),
            },
    {
        match self {
            IntegrationResult::Success(v) => Some(v),
            _ => None,
        }
    }

    /// Get the value or a default.
    pub fn unwrap_or(self, default: T) -> (r: T)
        ensures
            match self {
                IntegrationResult::Success(v) => r == v,
                _ => r == default,
            },
    {
        match self {
            IntegrationResult::Success(v) => v,
            _ => default,
        }
    }
}

/// Request to scan a prompt for threats.
#[derive(Debug, Clone)]
pub struct ShieldScanRequest {
    /// The prompt to scan
    pub prompt: String,
    /// Optional user context
    pub user_id: Option<String>,
    /// Optional model context
    pub model: Option<String>,
}

impl ShieldScanRequest {
    /// Create a new scan request.
    pub fn new(prompt: &str) -> (r: Self)
        ensures
            r.prompt@ == prompt@,
            r.user_id is None,
            r.model is None,
    {
        ShieldScanRequest { prompt: prompt.to_owned(), user_id: None, model: None }
    }

    /// Set the user ID.
    pub fn with_user_id(self, user_id: &str) -> (r: Self)
        ensures
            r.prompt == self.prompt,
            r.user_id matches Some(u) && u@ == user_id@,
            r.model == self.model,
    {
        ShieldScanRequest { user_id: Some(user_id.to_owned()), ..self }
    }

    /// Set the model.
    pub fn with_model(self, model: &str) -> (r: Self)
        ensures
            r.prompt == self.prompt,
            r.user_id == self.user_id,
            r.model matches Some(m) && m@ == model@,
    {
        ShieldScanRequest { model: Some(model.to_owned()), ..self }
    }
}

/// Types of threats the scanning service can detect.
#[derive(Debug, Clone, Copy, PartialEq, Eq, Structural)]
pub enum ThreatType {
    /// Prompt injection attempt
    PromptInjection,
    /// Jailbreak attempt
    Jailbreak,
    /// Data exfiltration attempt
    DataExfiltration,
    /// PII leakage risk
    PiiLeakage,
    /// Toxic or harmful content
    ToxicContent,
    /// Unknown threat type
    Unknown,
}

/// Request to record LLM usage for cost tracking.
#[derive(Debug, Clone)]
pub struct UsageTrackRequest {
    /// LLM provider
    pub provider: String,
    /// Model identifier
    pub model: String,
    /// Input tokens consumed
    pub input_tokens: u32,
    /// Output tokens produced
    pub output_tokens: u32,
    /// User the usage belongs to
    pub user_id: Option<String>,
    /// Team the usage belongs to
    pub team_id: Option<String>,
    /// Project the usage belongs to
    pub project_id: Option<String>,
}

/// Request to check a budget.
#[derive(Debug, Clone)]
pub struct BudgetCheckRequest {
    /// User scope
    pub user_id: Option<String>,
    /// Team scope
    pub team_id: Option<String>,
    /// Project scope
    pub project_id: Option<String>,
}

/// Request for a usage summary.
#[derive(Debug, Clone)]
pub struct SummaryRequest {
    /// User scope
    pub user_id: Option<String>,
    /// Team scope
    pub team_id: Option<String>,
    /// Project scope
    pub project_id: Option<String>,
    /// Period start (RFC 3339)
    pub start_date: Option<String>,
    /// Period end (RFC 3339)
    pub end_date: Option<String>,
}

/// Response from a compliance check.
#[derive(Debug, Clone)]
pub struct ComplianceCheckResponse {
    /// Whether the subject is compliant
    pub compliant: bool,
    /// Violations found
    pub violations: Vec<ComplianceViolation>,
    /// Recommendations
    pub recommendations: Vec<String>,
}

/// One compliance violation.
#[derive(Debug, Clone)]
pub struct ComplianceViolation {
    /// Violation code
    pub code: String,
    /// Severity
    pub severity: ViolationSeverity,
    /// Description
    pub description: String,
    /// The policy violated, if known
    pub policy: Option<String>,
}

/// Severity of a compliance violation.
#[derive(Debug, Clone, Copy, PartialEq, Eq, Structural)]
pub enum ViolationSeverity {
    /// Low severity
    Low,
    /// Medium severity
    Medium,
    /// High severity
    High,
    /// Critical severity
    Critical,
}

/// Outcome of an audited action.
#[derive(Debug, Clone, Copy, PartialEq, Eq, Structural)]
pub enum AuditOutcome {
    /// The action succeeded
    Success,
    /// The action failed
    Failure,
    /// The action was denied
    Denied,
}

/// Response from audit logging.
#[derive(Debug, Clone)]
pub struct AuditLogResponse {
    /// Whether the event was recorded
    pub success: bool,
    /// Event ID
    pub event_id: Option<String>,
}

/// Request for an audit trail.
#[derive(Debug, Clone)]
pub struct AuditTrailRequest {
    /// User scope
    pub user_id: Option<String>,
    /// Action filter
    pub action: Option<String>,
    /// Period start (RFC 3339)
    pub start_time: Option<String>,
    /// Period end (RFC 3339)
    pub end_time: Option<String>,
    /// Maximum entries returned
    pub limit: Option<u32>,
}

/// Response listing approved models.
#[derive(Debug, Clone)]
pub struct ApprovedModelsResponse {
    /// The approved models
    pub models: Vec<ApprovedModel>,
}

/// One approved model.
#[derive(Debug, Clone)]
pub struct ApprovedModel {
    /// LLM provider
    pub provider: String,
    /// Model identifier
    pub model: String,
    /// Approval status
    pub status: ModelApprovalStatus,
    /// Usage restrictions
    pub restrictions: Vec<String>,
}

/// Approval status of a model.
#[derive(Debug, Clone, Copy, PartialEq, Eq, Structural)]
pub enum ModelApprovalStatus {
    /// Fully approved
    Approved,
    /// Approved with restrictions
    Restricted,
    /// Under review
    Review,
    /// Denied
    Denied,
}

/// Request to deploy a policy to edge locations.
#[derive(Debug, Clone)]
pub struct PolicyDeployRequest {
    /// The policy to deploy
    pub policy_id: String,
    /// Target regions
    pub regions: Vec<String>,
    /// Deployment priority
    pub priority: i32,
    /// Whether to overwrite a deployment in progress
    pub force: bool,
}

/// Response from a policy deployment.
#[derive(Debug, Clone)]
pub struct PolicyDeployResponse {
    /// Whether the deployment was accepted
    pub success: bool,
    /// Deployment ID
    pub deployment_id: Option<String>,
    /// Estimated completion time (RFC 3339)
    pub estimated_completion: Option<String>,
}

/// Request to synchronize policies to the edge.
#[derive(Debug, Clone)]
pub struct PolicySyncRequest {
    /// Whether to resynchronize unchanged policies too
    pub force: bool,
}

/// Response from a policy synchronization.
#[derive(Debug, Clone)]
pub struct PolicySyncResponse {
    /// Whether the synchronization succeeded
    pub success: bool,
    /// Number of policies synchronized
    pub policies_synced: u32,
    /// When the synchronization finished (RFC 3339)
    pub synced_at: String,
}

/// Status of one deployment.
#[derive(Debug, Clone)]
pub struct DeploymentStatus {
    /// Deployment ID
    pub deployment_id: String,
    /// The policy being deployed
    pub policy_id: String,
    /// Overall state
    pub status: DeploymentState,
    /// Progress, in whole percent
    pub progress: u32,
    /// Per-region states
    pub regions: Vec<RegionStatus>,
    /// When the deployment was created (RFC 3339)
    pub created_at: String,
    /// When the deployment was last updated (RFC 3339)
    pub updated_at: Option<String>,
}

/// State of a deployment.
#[derive(Debug, Clone, Copy, PartialEq, Eq, Structural)]
pub enum DeploymentState {
    /// Queued
    Pending,
    /// Running
    InProgress,
    /// Finished successfully
    Completed,
    /// Failed
    Failed,
    /// Rolled back
    RolledBack,
}

/// State of a deployment in one region.
#[derive(Debug, Clone)]
pub struct RegionStatus {
    /// The region
    pub region: String,
    /// The deployment state there
    pub status: DeploymentState,
    /// The error that stopped it, if any
    pub error: Option<String>,
}

/// Response listing edge locations.
#[derive(Debug, Clone)]
pub struct EdgeLocationsResponse {
    /// The locations
    pub locations: Vec<EdgeLocation>,
}

/// One edge location.
#[derive(Debug, Clone)]
pub struct EdgeLocation {
    /// Location ID
    pub id: String,
    /// Region
    pub region: String,
    /// Human-readable name
    pub name: String,
    /// Whether the location serves traffic
    pub active: bool,
    /// Number of policies held there
    pub policy_count: u32,
}

/// Response listing policies distributed to the edge.
#[derive(Debug, Clone)]
pub struct EdgePoliciesResponse {
    /// The distributed policies
    pub policies: Vec<EdgePolicy>,
}

/// One policy as distributed to the edge.
#[derive(Debug, Clone)]
pub struct EdgePolicy {
    /// The policy
    pub policy_id: String,
    /// Its version
    pub version: String,
    /// Regions holding it
    pub regions: Vec<String>,
    /// When it was last synchronized (RFC 3339)
    pub synced_at: String,
}

/// Response from removing a policy from the edge.
#[derive(Debug, Clone)]
pub struct PolicyRemoveResponse {
    /// Whether the removal succeeded
    pub success: bool,
    /// Regions it was removed from
    pub regions: Vec<String>,
}

/// Response from creating an incident.
#[derive(Debug, Clone)]
pub struct CreateIncidentResponse {
    /// Whether the incident was created
    pub success: bool,
    /// Incident ID
    pub incident_id: Option<String>,
    /// Error message, if creation failed
    pub error: Option<String>,
}

/// One incident.
#[derive(Debug, Clone)]
pub struct Incident {
    /// Incident ID
    pub id: String,
    /// Title
    pub title: String,
    /// Description
    pub description: String,
    /// Severity
    pub severity: IncidentSeverity,
    /// Status
    pub status: IncidentStatus,
    /// The system that raised it
    pub source: String,
    /// The policy involved, if any
    pub policy_id: Option<String>,
    /// The rule involved, if any
    pub rule_id: Option<String>,
    /// Assignee
    pub assigned_to: Option<String>,
    /// When it was created (RFC 3339)
    pub created_at: String,
    /// When it was last updated (RFC 3339)
    pub updated_at: Option<String>,
    /// When it was resolved (RFC 3339)
    pub resolved_at: Option<String>,
}

/// Severity of an incident.
#[derive(Debug, Clone, Copy, PartialEq, Eq, Structural)]
pub enum IncidentSeverity {
    /// Informational
    Info,
    /// Low severity
    Low,
    /// Medium severity
    Medium,
    /// High severity
    High,
    /// Critical severity
    Critical,
}

/// Status of an incident.
#[derive(Debug, Clone, Copy, PartialEq, Eq, Structural)]
pub enum IncidentStatus {
    /// Newly created
    New,
    /// Acknowledged by a responder
    Acknowledged,
    /// Being worked on
    InProgress,
    /// Resolved
    Resolved,
    /// Closed
    Closed,
}

/// Request to update an incident.
#[derive(Debug, Clone)]
pub struct UpdateIncidentRequest {
    /// New status
    pub status: Option<IncidentStatus>,
    /// New assignee
    pub assigned_to: Option<String>,
    /// Resolution note
    pub resolution: Option<String>,
}

/// Types of alerts.
#[derive(Debug, Clone, Copy, PartialEq, Eq, Structural)]
pub enum AlertType {
    /// Policy violation
    PolicyViolation,
    /// Threat detected
    ThreatDetected,
    /// Budget exceeded
    BudgetExceeded,
    /// Rate limit hit
    RateLimitHit,
    /// System error
    SystemError,
    /// Custom alert
    Custom,
}

/// Response from sending an alert.
#[derive(Debug, Clone)]
pub struct AlertResponse {
    /// Whether the alert was sent
    pub success: bool,
    /// Alert ID
    pub alert_id: Option<String>,
    /// Channels it went out on
    pub channels: Vec<String>,
}

/// Types of security events.
#[derive(Debug, Clone, Copy, PartialEq, Eq, Structural)]
pub enum SecurityEventType {
    /// Authentication failure
    AuthFailure,
    /// Authorization failure
    AuthzFailure,
    /// Policy violation
    PolicyViolation,
    /// Rate limit exceeded
    RateLimitExceeded,
    /// Suspicious activity
    SuspiciousActivity,
    /// Data access
    DataAccess,
    /// Configuration change
    ConfigChange,
    /// Anomaly detected
    AnomalyDetected,
}

/// Severity of a security event.
#[derive(Debug, Clone, Copy, PartialEq, Eq, Structural)]
pub enum SecuritySeverity {
    /// Informational
    Info,
    /// Low severity
    Low,
    /// Medium severity
    Medium,
    /// High severity
    High,
    /// Critical severity
    Critical,
}

/// Response from security event reporting.
#[derive(Debug, Clone)]
pub struct SecurityEventResponse {
    /// Whether the event was recorded
    pub success: bool,
    /// Event ID
    pub event_id: Option<String>,
    /// Alerts the event triggered
    pub triggered_alerts: Vec<String>,
}

/// Recommended action for an anomaly.
#[derive(Debug, Clone, Copy, PartialEq, Eq, Structural)]
pub enum RecommendedAction {
    /// No action needed
    NoAction,
    /// Monitor the activity
    Monitor,
    /// Require additional authentication
    RequireAuth,
    /// Block the request
    Block,
    /// Alert security team
    Alert,
}

/// Request for threat intelligence.
#[derive(Debug, Clone)]
pub struct ThreatIntelRequest {
    /// Indicator to look up
    pub indicator: String,
    /// Indicator type
    pub indicator_type: IndicatorType,
}

/// Types of threat indicators.
#[derive(Debug, Clone, Copy, PartialEq, Eq, Structural)]
pub enum IndicatorType {
    /// IP address
    IpAddress,
    /// Domain
    Domain,
    /// Hash
    Hash,
    /// Email
    Email,
    /// User agent
    UserAgent,
}

/// Request for a security score.
#[derive(Debug, Clone)]
pub struct SecurityScoreRequest {
    /// User scope
    pub user_id: Option<String>,
    /// Team scope
    pub team_id: Option<String>,
    /// Project scope
    pub project_id: Option<String>,
}

/// Response with a security score.
#[derive(Debug, Clone)]
pub struct SecurityScoreResponse {
    /// Overall score (0-100)
    pub score: u32,
    /// Score breakdown
    pub breakdown: SecurityScoreBreakdown,
    /// Recommendations
    pub recommendations: Vec<String>,
}

/// Breakdown of a security score.
#[derive(Debug, Clone)]
pub struct SecurityScoreBreakdown {
    /// Authentication score
    pub authentication: u32,
    /// Authorization score
    pub authorization: u32,
    /// Policy compliance score
    pub policy_compliance: u32,
    /// Activity score
    pub activity: u32,
}

} // verus!
