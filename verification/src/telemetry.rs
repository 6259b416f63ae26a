//! Telemetry: evaluation, cache and error counters, and simple spans.

use vstd::prelude::*;
use crate::config::TelemetryConfig;
use crate::decision::DecisionType;
use crate::error::Error;
use crate::outside::now_micros;

verus! {

/// Telemetry instance for recording metrics.
#[derive(Debug)]
pub struct Telemetry {
    /// Configuration
    pub config: TelemetryConfig,
    /// Allow decisions seen
    pub evaluations_allow: u64,
    /// Deny decisions seen
    pub evaluations_deny: u64,
    /// Warn decisions seen
    pub evaluations_warn: u64,
    /// Modify decisions seen
    pub evaluations_modify: u64,
    /// Cache hits seen
    pub cache_hits: u64,
    /// Cache misses seen
    pub cache_misses: u64,
    /// Errors seen
    pub errors: u64,
    /// Total evaluation time, in microseconds
    pub total_evaluation_time_us: u64,
}

/// Metrics collected by telemetry. Rates are integer percentages and times
/// integer microseconds.
#[derive(Debug, Clone)]
pub struct TelemetryMetrics {
    /// Total number of evaluations
    pub total_evaluations: u64,
    /// Number of allow decisions
    pub evaluations_allow: u64,
    /// Number of deny decisions
    pub evaluations_deny: u64,
    /// Number of warn decisions
    pub evaluations_warn: u64,
    /// Number of modify decisions
    pub evaluations_modify: u64,
    /// Cache hits
    pub cache_hits: u64,
    /// Cache misses
    pub cache_misses: u64,
    /// Cache hit rate, in whole percent
    pub cache_hit_rate: u64,
    /// Average evaluation time, in microseconds
    pub avg_evaluation_time_us: u64,
    /// Total errors
    pub errors: u64,
}

impl Telemetry {
    /// Create a new telemetry instance with all counters at zero.
    pub fn new(config: &TelemetryConfig) -> (r: Result<Self, Error>)
        ensures
            r matches Ok(t) && t.config == *config && t.evaluations_allow == 0
                && t.evaluations_deny == 0 && t.evaluations_warn == 0 && t.evaluations_modify == 0
                && t.cache_hits == 0 && t.cache_misses == 0 && t.errors == 0
                && t.total_evaluation_time_us == 0,
    {
        Ok(
            Telemetry {
                config: TelemetryConfig {
                    enabled: config.enabled,
                    service_name: config.service_name.clone(),
                },
                evaluations_allow: 0,
                evaluations_deny: 0,
                evaluations_warn: 0,
                evaluations_modify: 0,
                cache_hits: 0,
                cache_misses: 0,
                errors: 0,
                total_evaluation_time_us: 0,
            },
        )
    }

    /// Record a policy evaluation: one decision counter, one cache counter,
    /// and the duration, each saturating at the counter's maximum.
    pub fn record_evaluation(&mut self, decision: &DecisionType, duration_us: u64, cached: bool)
        ensures
            final(self).config == old(self).config,
            final(self).evaluations_allow == (if decision is Allow {
                vstd::math::min(old(self).evaluations_allow as int + 1, u64::MAX as int)
            } else {
                old(self).evaluations_allow as int
            }),
            final(self).evaluations_deny == (if decision is Deny {
                vstd::math::min(old(self).evaluations_deny as int + 1, u64::MAX as int)
            } else {
                old(self).evaluations_deny as int
            }),
            final(self).evaluations_warn == (if decision is Warn {
                vstd::math::min(old(self).evaluations_warn as int + 1, u64::MAX as int)
            } else {
                old(self).evaluations_warn as int
            }),
            final(self).evaluations_modify == (if decision is Modify {
                vstd::math::min(old(self).evaluations_modify as int + 1, u64::MAX as int)
            } else {
                old(self).evaluations_modify as int
            }),
            final(self).cache_hits == (if cached {
                vstd::math::min(old(self).cache_hits as int + 1, u64::MAX as int)
            } else {
                old(self).cache_hits as int
            }),
            final(self).cache_misses == (if cached {
                old(self).cache_misses as int
            } else {
                vstd::math::min(old(self).cache_misses as int + 1, u64::MAX as int)
            }),
            final(self).errors == old(self).errors,
            final(self).total_evaluation_time_us == vstd::math::min(
                old(self).total_evaluation_time_us as int + duration_us as int,
                u64::MAX as int,
            ),
    {
        match decision {
            DecisionType::Allow => {
                self.evaluations_allow = saturating_inc(self.evaluations_allow);
            },
            DecisionType::Deny => {
                self.evaluations_deny = saturating_inc(self.evaluations_deny);
            },
            DecisionType::Warn => {
                self.evaluations_warn = saturating_inc(self.evaluations_warn);
            },
            DecisionType::Modify => {
                self.evaluations_modify = saturating_inc(self.evaluations_modify);
            },
        }
        if cached {
            self.cache_hits = saturating_inc(self.cache_hits);
        } else {
            self.cache_misses = saturating_inc(self.cache_misses);
        }
        self.total_evaluation_time_us = saturating_add(
            self.total_evaluation_time_us,
            duration_us,
        );
    }

    /// Record an error.
    pub fn record_error(&mut self, error_type: &str)
        ensures
            final(self).errors == vstd::math::min(old(self).errors as int + 1, u64::MAX as int),
            final(self).config == old(self).config,
            final(self).evaluations_allow == old(self).evaluations_allow,
            final(self).evaluations_deny == old(self).evaluations_deny,
            final(self).evaluations_warn == old(self).evaluations_warn,
            final(self).evaluations_modify == old(self).evaluations_modify,
            final(self).cache_hits == old(self).cache_hits,
            final(self).cache_misses == old(self).cache_misses,
            final(self).total_evaluation_time_us == old(self).total_evaluation_time_us,
    {
        let _ = error_type;
        self.errors = saturating_inc(self.errors);
    }

    /// Get current metrics: totals, an integer-percent cache hit rate, and the
    /// mean evaluation time.
    pub fn metrics(&self) -> (r: TelemetryMetrics)
        ensures
            ({
                let total = self.evaluations_allow as int + self.evaluations_deny as int
                    + self.evaluations_warn as int + self.evaluations_modify as int;
                let cache_total = self.cache_hits as int + self.cache_misses as int;
                &&& r.total_evaluations == vstd::math::min(total, u64::MAX as int)
                &&& r.evaluations_allow == self.evaluations_allow
                &&& r.evaluations_deny == self.evaluations_deny
                &&& r.evaluations_warn == self.evaluations_warn
                &&& r.evaluations_modify == self.evaluations_modify
                &&& r.cache_hits == self.cache_hits
                &&& r.cache_misses == self.cache_misses
                &&& r.cache_hit_rate == (if cache_total > 0 {
                    self.cache_hits as int * 100 / cache_total
                } else {
                    0
                })
                &&& r.avg_evaluation_time_us == (if vstd::math::min(total, u64::MAX as int) > 0 {
                    self.total_evaluation_time_us as int / vstd::math::min(total, u64::MAX as int)
                } else {
                    0
                })
                &&& r.errors == self.errors
            }),
    {
        let total = saturating_add(
            saturating_add(self.evaluations_allow, self.evaluations_deny),
            saturating_add(self.evaluations_warn, self.evaluations_modify),
        );
        proof {
            assert(total as int == vstd::math::min(
                self.evaluations_allow as int + self.evaluations_deny as int
                    + self.evaluations_warn as int + self.evaluations_modify as int,
                u64::MAX as int,
            ));
        }
        let hits128 = self.cache_hits as u128;
        let misses128 = self.cache_misses as u128;
        let cache_total = hits128 + misses128;
        let cache_hit_rate: u64 = if cache_total > 0 {
            proof {
                assert((hits128 as int) * 100 / (cache_total as int) <= 100) by (nonlinear_arith)
                    requires
                        hits128 as int <= cache_total as int,
                        cache_total as int > 0,
                ;
            }
            (hits128 * 100 / cache_total) as u64
        } else {
            0
        };
        let avg: u64 = if total > 0 {
            self.total_evaluation_time_us / total
        } else {
            0
        };
        TelemetryMetrics {
            total_evaluations: total,
            evaluations_allow: self.evaluations_allow,
            evaluations_deny: self.evaluations_deny,
            evaluations_warn: self.evaluations_warn,
            evaluations_modify: self.evaluations_modify,
            cache_hits: self.cache_hits,
            cache_misses: self.cache_misses,
            cache_hit_rate,
            avg_evaluation_time_us: avg,
            errors: self.errors,
        }
    }

    /// Check if telemetry is enabled.
    pub fn is_enabled(&self) -> (r: bool)
        ensures
            r == self.config.enabled,
    {
        self.config.enabled
    }

    /// Get the service name.
    pub fn service_name(&self) -> (r: &str)
        ensures
            r@ == self.config.service_name@,
    {
        self.config.service_name.as_str()
    }
}

/// Add one, stopping at the counter's maximum.
fn saturating_inc(x: u64) -> (r: u64)
    ensures
        r as int == vstd::math::min(x as int + 1, u64::MAX as int),
{
    if x == u64::MAX {
        x
    } else {
        x + 1
    }
}

/// Add, stopping at the counter's maximum.
fn saturating_add(x: u64, y: u64) -> (r: u64)
    ensures
        r as int == vstd::math::min(x as int + y as int, u64::MAX as int),
{
    if x > u64::MAX - y {
        u64::MAX
    } else {
        x + y
    }
}

/// A span for tracing operations.
#[derive(Debug)]
pub struct Span {
    /// The operation's name
    pub name: String,
    /// Wall-clock start, in microseconds since the Unix epoch
    pub start_us: i64,
    /// Attributes attached so far
    pub attributes: Vec<(String, String)>,
}

impl Span {
    /// Create a new span starting now.
    pub fn new(name: &str) -> (r: Self)
        ensures
            r.name@ == name@,
            r.attributes@.len() == 0,
    {
        Span { name: name.to_owned(), start_us: now_micros(), attributes: Vec::new() }
    }

    /// Add an attribute to the span.
    pub fn set_attribute(&mut self, key: &str, value: &str)
        ensures
            final(self).name == old(self).name,
            final(self).start_us == old(self).start_us,
            final(self).attributes.deep_view() == old(self).attributes.deep_view().push(
                (key@, value@),
            ),
    {
        self.attributes.push((key.to_owned(), value.to_owned()));
        proof {
            assert(self.attributes.deep_view() =~= old(self).attributes.deep_view().push(
                (key@, value@),
            ));
        }
    }

    /// Get the span name.
    pub fn name(&self) -> (r: &str)
        ensures
            r@ == self.name@,
    {
        self.name.as_str()
    }

    /// The wall-clock microseconds elapsed since the span started, clamped to
    /// zero if the clock went backwards.
    pub fn elapsed_us(&self) -> u64 {
        let now = now_micros();
        if now > self.start_us {
            let diff = (now as i128) - (self.start_us as i128);
            proof {
                assert(0 < diff <= u64::MAX as i128);
            }
            diff as u64
        } else {
            0
        }
    }

    /// End the span and return the elapsed microseconds.
    pub fn end(self) -> u64 {
        self.elapsed_us()
    }
}

/// Create a new span for tracing.
pub fn span(name: &str) -> (r: Span)
    ensures
        r.name@ == name@,
        r.attributes@.len() == 0,
{
    Span::new(name)
}

/// Increment a counter on the telemetry backend; the embedded build keeps no
/// global counters, so this records nothing.
pub fn increment_counter(name: &str, labels: &Vec<(&str, &str)>) {
    let _ = name;
    let _ = labels;
}

} // verus!
