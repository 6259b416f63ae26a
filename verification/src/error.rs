//! Error types for the policy engine.

use vstd::prelude::*;

verus! {

/// Main error type for the policy engine.
#[derive(Debug, Clone)]
pub enum Error {
    /// Error during policy validation
    Validation {
        /// Detailed error message
        message: String,
        /// Field that caused the error, if applicable
        field: Option<String>,
    },
    /// Error during policy parsing
    Parse {
        /// Detailed error message
        message: String,
        /// Line number where error occurred, if applicable
        line: Option<usize>,
    },
    /// Error during policy evaluation
    Evaluation {
        /// Detailed error message
        message: String,
        /// Policy ID that caused the error, if applicable
        policy_id: Option<String>,
        /// Rule ID that caused the error, if applicable
        rule_id: Option<String>,
    },
    /// Error in expression evaluation (such as an uncompilable regex)
    Expression {
        /// Detailed error message
        message: String,
        /// The expression that failed
        expression: Option<String>,
    },
    /// Configuration error
    Config {
        /// Detailed error message
        message: String,
        /// Configuration key that caused the error
        key: Option<String>,
    },
    /// Cache operation error
    Cache {
        /// Detailed error message
        message: String,
        /// Cache key that caused the error
        key: Option<String>,
    },
    /// Integration error with external services
    Integration {
        /// Name of the external service
        service: String,
        /// Detailed error message
        message: String,
    },
    /// Telemetry/observability error
    Telemetry {
        /// Detailed error message
        message: String,
    },
    /// Timeout error
    Timeout {
        /// Detailed error message
        message: String,
        /// Duration in milliseconds before timeout
        duration_ms: u64,
    },
    /// I/O error
    Io {
        /// Detailed error message
        message: String,
    },
    /// Serialization/deserialization error
    Serialization {
        /// Detailed error message
        message: String,
    },
    /// YAML parsing error
    Yaml {
        /// Detailed error message
        message: String,
    },
    /// Internal error (unexpected condition)
    Internal {
        /// Detailed error message
        message: String,
    },
}

impl Error {
    /// Create a validation error.
    pub fn validation(message: &str) -> (r: Self)
        ensures
            r matches Error::Validation { message: m, field } && m@ == message@ && field is None,
    {
        Error::Validation { message: message.to_owned(), field: None }
    }

    /// Create a validation error with field context.
    pub fn validation_field(message: &str, field: &str) -> (r: Self)
        ensures
            r matches Error::Validation { message: m, field: f } && m@ == message@ && (f
                matches Some(fs) && fs@ == field@),
    {
        Error::Validation { message: message.to_owned(), field: Some(field.to_owned()) }
    }

    /// Create a parse error.
    pub fn parse(message: &str) -> (r: Self)
        ensures
            r matches Error::Parse { message: m, line } && m@ == message@ && line is None,
    {
        Error::Parse { message: message.to_owned(), line: None }
    }

    /// Create an evaluation error.
    pub fn evaluation(message: &str) -> (r: Self)
        ensures
            r matches Error::Evaluation { message: m, policy_id, rule_id } && m@ == message@
                && policy_id is None && rule_id is None,
    {
        Error::Evaluation { message: message.to_owned(), policy_id: None, rule_id: None }
    }

    /// Create an evaluation error with policy context.
    pub fn evaluation_with_context(message: &str, policy_id: &str, rule_id: Option<String>) -> (r:
        Self)
        ensures
            r matches Error::Evaluation { message: m, policy_id: p, rule_id: ri } && m@ == message@
                && (p matches Some(ps) && ps@ == policy_id@) && ri == rule_id,
    {
        Error::Evaluation {
            message: message.to_owned(),
            policy_id: Some(policy_id.to_owned()),
            rule_id,
        }
    }

    /// Create an expression error.
    pub fn expression(message: &str) -> (r: Self)
        ensures
            r matches Error::Expression { message: m, expression } && m@ == message@
                && expression is None,
    {
        Error::Expression { message: message.to_owned(), expression: None }
    }

    /// Create an expression error with expression context.
    pub fn expression_with_expr(message: &str, expression: String) -> (r: Self)
        ensures
            r matches Error::Expression { message: m, expression: e } && m@ == message@ && (e
                matches Some(es) && es == expression),
    {
        Error::Expression { message: message.to_owned(), expression: Some(expression) }
    }

    /// Create a configuration error.
    pub fn config(message: &str) -> (r: Self)
        ensures
            r matches Error::Config { message: m, key } && m@ == message@ && key is None,
    {
        Error::Config { message: message.to_owned(), key: None }
    }

    /// Create a cache error.
    pub fn cache(message: &str) -> (r: Self)
        ensures
            r matches Error::Cache { message: m, key } && m@ == message@ && key is None,
    {
        Error::Cache { message: message.to_owned(), key: None }
    }

    /// Create an integration error.
    pub fn integration(service: &str, message: &str) -> (r: Self)
        ensures
            r matches Error::Integration { service: s, message: m } && s@ == service@ && m@
                == message@,
    {
        Error::Integration { service: service.to_owned(), message: message.to_owned() }
    }

    /// Create a telemetry error.
    pub fn telemetry(message: &str) -> (r: Self)
        ensures
            r matches Error::Telemetry { message: m } && m@ == message@,
    {
        Error::Telemetry { message: message.to_owned() }
    }

    /// Create a timeout error.
    pub fn timeout(message: &str, duration_ms: u64) -> (r: Self)
        ensures
            r matches Error::Timeout { message: m, duration_ms: d } && m@ == message@ && d
                == duration_ms,
    {
        Error::Timeout { message: message.to_owned(), duration_ms }
    }

    /// Create an internal error.
    pub fn internal(message: &str) -> (r: Self)
        ensures
            r matches Error::Internal { message: m } && m@ == message@,
    {
        Error::Internal { message: message.to_owned() }
    }

    /// Whether this error is recoverable: cache, integration and timeout
    /// failures degrade gracefully, everything else surfaces to the caller.
    pub fn is_recoverable(&self) -> (r: bool)
        ensures
            r == (self is Cache || self is Integration || self is Timeout),
    {
        match self {
            Error::Cache { .. } | Error::Integration { .. } | Error::Timeout { .. } => true,
            _ => false,
        }
    }

    /// The error category each variant reports to metrics.
    pub fn category(&self) -> (r: &'static str)
        ensures
            r@ == spec_category(*self),
    {
        match self {
            Error::Validation { .. } => "validation",
            Error::Parse { .. } => "parse",
            Error::Evaluation { .. } => "evaluation",
            Error::Expression { .. } => "expression",
            Error::Config { .. } => "config",
            Error::Cache { .. } => "cache",
            Error::Integration { .. } => "integration",
            Error::Telemetry { .. } => "telemetry",
            Error::Timeout { .. } => "timeout",
            Error::Io { .. } => "io",
            Error::Serialization { .. } => "serialization",
            Error::Yaml { .. } => "yaml",
            Error::Internal { .. } => "internal",
        }
    }

    /// A human-readable description of the error.
    pub fn message(&self) -> (r: &String)
        ensures
            r == spec_message(*self),
    {
        match self {
            Error::Validation { message, .. } => message,
            Error::Parse { message, .. } => message,
            Error::Evaluation { message, .. } => message,
            Error::Expression { message, .. } => message,
            Error::Config { message, .. } => message,
            Error::Cache { message, .. } => message,
            Error::Integration { message, .. } => message,
            Error::Telemetry { message } => message,
            Error::Timeout { message, .. } => message,
            Error::Io { message } => message,
            Error::Serialization { message } => message,
            Error::Yaml { message } => message,
            Error::Internal { message } => message,
        }
    }
}

/// The metric category name of each error variant.
pub open spec fn spec_category(e: Error) -> Seq<char> {
    match e {
        Error::Validation { .. } => "validation"@,
        Error::Parse { .. } => "parse"@,
        Error::Evaluation { .. } => "evaluation"@,
        Error::Expression { .. } => "expression"@,
        Error::Config { .. } => "config"@,
        Error::Cache { .. } => "cache"@,
        Error::Integration { .. } => "integration"@,
        Error::Telemetry { .. } => "telemetry"@,
        Error::Timeout { .. } => "timeout"@,
        Error::Io { .. } => "io"@,
        Error::Serialization { .. } => "serialization"@,
        Error::Yaml { .. } => "yaml"@,
        Error::Internal { .. } => "internal"@,
    }
}

/// The message carried by each error variant.
pub open spec fn spec_message(e: Error) -> String {
    match e {
        Error::Validation { message, .. } => message,
        Error::Parse { message, .. } => message,
        Error::Evaluation { message, .. } => message,
        Error::Expression { message, .. } => message,
        Error::Config { message, .. } => message,
        Error::Cache { message, .. } => message,
        Error::Integration { message, .. } => message,
        Error::Telemetry { message } => message,
        Error::Timeout { message, .. } => message,
        Error::Io { message } => message,
        Error::Serialization { message } => message,
        Error::Yaml { message } => message,
        Error::Internal { message } => message,
    }
}

} // verus!
