//! Logging configuration: what the environment asks for, resolved into a
//! builder whose fields no longer depend on the environment.

use vstd::prelude::*;
use crate::text::text_of;

verus! {

/// Name of the variable that selects the span exporter: `otlp` or `none`.
pub const OTEL_TRACES_EXPORTER: &'static str = "OTEL_TRACES_EXPORTER";

/// Name of the variable that switches OTLP export off, whatever the exporter
/// variable says. Any value but `0` switches it off.
pub const NO_OTLP: &'static str = "NO_OTLP";

/// Name of the variable that selects the log format: `1` for pretty logs.
pub const PRETTY_LOGS: &'static str = "PRETTY_LOGS";

/// Name of the variable that holds the filter directives.
pub const RUST_LOG: &'static str = "RUST_LOG";

/// Where finished spans go.
#[derive(Clone, Copy, Debug, PartialEq, Eq, Structural)]
pub enum ExportBackend {
    /// Batched and sent to a collector over OTLP.
    Remote,
    /// Kept in the process; nothing leaves it.
    Local,
}

/// How log events are written.
#[derive(Clone, Copy, Debug, PartialEq, Eq, Structural)]
pub enum LogFormat {
    /// One JSON record per event, with the trace and span ids in it.
    Structured,
    /// A layout for reading in a terminal, without span lifecycle events.
    HumanReadable,
}

/// The values of the variables that the configuration depends on. `None`
/// stands for a variable that is unset or does not hold Unicode text.
#[derive(Debug)]
pub struct Environment {
    pub no_otlp: Option<String>,
    pub otel_traces_exporter: Option<String>,
    pub pretty_logs: Option<String>,
    pub rust_log: Option<String>,
}

/// The override is on when the variable is set to anything but `0`.
pub open spec fn otlp_disabled_by(no_otlp: Option<Seq<char>>) -> bool {
    match no_otlp {
        Some(v) => v != "0"@,
        None => false,
    }
}

/// The exporter variable selects OTLP unless it says `none`.
pub open spec fn otlp_selected_by(otel_traces_exporter: Option<Seq<char>>) -> bool {
    match otel_traces_exporter {
        Some(v) => v != "none"@,
        None => true,
    }
}

/// OTLP export is on when the exporter variable selects it and the override
/// does not switch it off.
pub open spec fn otlp_enabled_by(
    no_otlp: Option<Seq<char>>,
    otel_traces_exporter: Option<Seq<char>>,
) -> bool {
    !otlp_disabled_by(no_otlp) && otlp_selected_by(otel_traces_exporter)
}

/// Pretty logs are on when the variable says `1`; where it is unset they are
/// on exactly when OTLP export is off.
pub open spec fn pretty_logs_by(pretty_logs: Option<Seq<char>>, otlp_enabled: bool) -> bool {
    match pretty_logs {
        Some(v) => v == "1"@,
        None => !otlp_enabled,
    }
}

/// The override wins: where it is on, OTLP export is off, whatever the
/// exporter variable says.
pub proof fn lemma_override_wins(
    no_otlp: Option<Seq<char>>,
    otel_traces_exporter: Option<Seq<char>>,
)
    requires
        otlp_disabled_by(no_otlp),
    ensures
        !otlp_enabled_by(no_otlp, otel_traces_exporter),
{
}

impl Environment {
    /// The environment in which none of the variables is set.
    pub fn unset() -> (env: Self)
        ensures
            env.no_otlp is None,
            env.otel_traces_exporter is None,
            env.pretty_logs is None,
            env.rust_log is None,
    {
        Environment { no_otlp: None, otel_traces_exporter: None, pretty_logs: None, rust_log: None }
    }
}

/// The resolved configuration of the logging pipeline.
#[derive(Debug)]
pub struct LoggingSetupBuilder {
    /// Send spans to a collector over OTLP.
    pub otlp_output_enabled: bool,
    /// Write events for a terminal instead of as JSON.
    pub pretty_logs: bool,
    /// Write events through the test harness's captured output.
    pub use_test_writer: bool,
    /// The filter directives asked for, if any.
    pub filter_spec: Option<String>,
}

impl LoggingSetupBuilder {
    /// The export backend that this configuration selects.
    pub open spec fn spec_export_backend(&self) -> ExportBackend {
        if self.otlp_output_enabled {
            ExportBackend::Remote
        } else {
            ExportBackend::Local
        }
    }

    /// The log format that this configuration selects.
    pub open spec fn spec_log_format(&self) -> LogFormat {
        if self.pretty_logs {
            LogFormat::HumanReadable
        } else {
            LogFormat::Structured
        }
    }

    /// Resolves the configuration from the values of the environment.
    ///
    /// The override wins over the exporter variable; an unset format variable
    /// gives JSON with OTLP export and pretty logs without it.
    pub fn new(env: &Environment) -> (builder: Self)
        ensures
            builder.otlp_output_enabled == otlp_enabled_by(
                text_of(env.no_otlp),
                text_of(env.otel_traces_exporter),
            ),
            builder.pretty_logs == pretty_logs_by(
                text_of(env.pretty_logs),
                builder.otlp_output_enabled,
            ),
            !builder.use_test_writer,
            text_of(builder.filter_spec) == text_of(env.rust_log),
    {
        let zero = "0".to_owned();
        let one = "1".to_owned();
        let none = "none".to_owned();
        let no_otlp = match &env.no_otlp {
            Some(v) => *v != zero,
            None => false,
        };
        let otlp_selected = match &env.otel_traces_exporter {
            Some(v) => *v != none,
            None => true,
        };
        let otlp_enabled = !no_otlp && otlp_selected;
        let pretty_logs = match &env.pretty_logs {
            Some(v) => *v == one,
            None => !otlp_enabled,
        };
        let filter_spec = match &env.rust_log {
            Some(v) => Some(v.clone()),
            None => None,
        };
        LoggingSetupBuilder {
            otlp_output_enabled: otlp_enabled,
            pretty_logs,
            use_test_writer: false,
            filter_spec,
        }
    }

    /// The export backend that this configuration selects.
    #[verifier::when_used_as_spec(spec_export_backend)]
    pub fn export_backend(&self) -> (backend: ExportBackend)
        ensures
            backend == self.spec_export_backend(),
    {
        if self.otlp_output_enabled {
            ExportBackend::Remote
        } else {
            ExportBackend::Local
        }
    }

    /// The log format that this configuration selects.
    #[verifier::when_used_as_spec(spec_log_format)]
    pub fn log_format(&self) -> (format: LogFormat)
        ensures
            format == self.spec_log_format(),
    {
        if self.pretty_logs {
            LogFormat::HumanReadable
        } else {
            LogFormat::Structured
        }
    }
}

} // verus!
