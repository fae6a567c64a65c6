//! The pipeline: what a configuration asks for, as a plan, and the order in
//! which the plan is installed in the process.

use vstd::prelude::*;
use vstd::utf8::is_ascii_chars;
use crate::composite::CompositePropagator;
use crate::config::{
    otlp_enabled_by, pretty_logs_by, Environment, ExportBackend, LogFormat, LoggingSetupBuilder,
};
use crate::propagation::Propagator;
use crate::text::text_of;

verus! {

/// `SdkTracerProvider` from opentelemetry_sdk: the handle on the span
/// processors, carried through to the caller and never looked into.
#[verifier::external_type_specification]
#[verifier::external_body]
pub struct ExSdkTracerProvider(opentelemetry_sdk::trace::SdkTracerProvider);

/// Whether `EnvFilter::try_new` from tracing-subscriber accepts directives
/// that are all ASCII.
pub uninterp spec fn env_filter_accepts(directives: Seq<char>) -> bool;

/// The directives that the filter is asked about: those that are all ASCII.
/// The filter's parser is not safe on other text, so other text is taken as
/// directives that do not parse.
pub open spec fn is_filter_text(directives: Seq<char>) -> bool {
    is_ascii_chars(directives)
}

/// True when the directives parse: they are all ASCII and the filter
/// accepts them.
pub open spec fn directives_parse(directives: Seq<char>) -> bool {
    is_filter_text(directives) && env_filter_accepts(directives)
}

/// The directives that are used where none are given or those given do not
/// parse.
pub open spec fn default_directives() -> Seq<char> {
    "info"@
}

/// The directives that take effect, given whether the ones asked for parse.
pub open spec fn chosen_directives(asked: Option<Seq<char>>, accepted: bool) -> Seq<char> {
    match asked {
        Some(directives) => if accepted {
            directives
        } else {
            default_directives()
        },
        None => default_directives(),
    }
}

/// The directives that take effect for the ones asked for.
pub open spec fn effective_directives(asked: Option<Seq<char>>) -> Seq<char> {
    match asked {
        Some(directives) => chosen_directives(asked, directives_parse(directives)),
        None => default_directives(),
    }
}

/// The directives that take effect, given whether the ones asked for parse:
/// those asked for where they do, `info` in every other case.
pub fn choose_filter(asked: &Option<String>, accepted: bool) -> (directives: String)
    ensures
        directives@ == chosen_directives(text_of(*asked), accepted),
{
    match asked {
        Some(directives) => {
            if accepted {
                directives.clone()
            } else {
                "info".to_owned()
            }
        },
        None => "info".to_owned(),
    }
}

/// The directives that take effect for the ones asked for: they themselves
/// where they are all ASCII and the filter accepts them, `info` where not or
/// where none are given. Directives that do not parse are no error.
pub fn resolve_filter(asked: &Option<String>) -> (directives: String)
    ensures
        directives@ == effective_directives(text_of(*asked)),
{
    let accepted = match asked {
        Some(directives) => {
            let text = directives.as_str();
            if text.is_ascii() {
                filter_parses(text)
            } else {
                false
            }
        },
        None => false,
    };
    choose_filter(asked, accepted)
}

/// Everything that installing the pipeline needs to know.
#[derive(Debug)]
pub struct PipelinePlan {
    /// The propagator to register for the process.
    pub propagator: CompositePropagator,
    /// Where finished spans go.
    pub export_backend: ExportBackend,
    /// How log events are written.
    pub log_format: LogFormat,
    /// Write events through the test harness's captured output.
    pub use_test_sink: bool,
    /// The filter directives that take effect.
    pub filter: String,
}

impl LoggingSetupBuilder {
    /// The plan that this configuration asks for: the standard propagator,
    /// the backend and the format that the switches select, and the filter
    /// that takes effect.
    pub fn build(&self) -> (plan: PipelinePlan)
        ensures
            plan.propagator.members@ == seq![Propagator::Baggage, Propagator::TraceParent],
            plan.export_backend == self.spec_export_backend(),
            plan.log_format == self.spec_log_format(),
            plan.use_test_sink == self.use_test_writer,
            plan.filter@ == effective_directives(text_of(self.filter_spec)),
    {
        PipelinePlan {
            propagator: CompositePropagator::standard(),
            export_backend: self.export_backend(),
            log_format: self.log_format(),
            use_test_sink: self.use_test_writer,
            filter: resolve_filter(&self.filter_spec),
        }
    }
}

/// The plan for the pipeline that the environment asks for: OTLP export
/// unless the environment switches it off, JSON logs with OTLP export and
/// pretty logs without it unless the environment says otherwise, and the
/// filter of the environment where it parses.
pub fn set_up_logging(env: &Environment) -> (plan: PipelinePlan)
    ensures
        plan.propagator.members@ == seq![Propagator::Baggage, Propagator::TraceParent],
        plan.export_backend == (if otlp_enabled_by(
            text_of(env.no_otlp),
            text_of(env.otel_traces_exporter),
        ) {
            ExportBackend::Remote
        } else {
            ExportBackend::Local
        }),
        plan.log_format == (if pretty_logs_by(
            text_of(env.pretty_logs),
            otlp_enabled_by(text_of(env.no_otlp), text_of(env.otel_traces_exporter)),
        ) {
            LogFormat::HumanReadable
        } else {
            LogFormat::Structured
        }),
        !plan.use_test_sink,
        plan.filter@ == effective_directives(text_of(env.rust_log)),
{
    LoggingSetupBuilder::new(env).build()
}

/// Why the pipeline could not be installed.
#[derive(Clone, Copy, Debug, PartialEq, Eq, Structural)]
pub enum PipelineInitError {
    /// The span exporter could not be constructed.
    ExporterConstruction,
    /// The process already has a pipeline.
    AlreadyInstalled,
}

/// How far the installation has come.
#[derive(Clone, Copy, Debug, PartialEq, Eq, Structural)]
pub enum InstallPhase {
    /// Nothing has been done.
    Idle,
    /// The propagator is being registered.
    RegisteringPropagator,
    /// The span exporter is being constructed.
    BuildingExporter,
    /// The subscriber is being installed as the process's event sink.
    InstallingSubscriber,
    /// The tracer provider is being registered.
    RegisteringTracerProvider,
    /// The pipeline is installed.
    Installed,
    /// The installation was given up.
    Failed(PipelineInitError),
}

/// What the program reports to the installer.
#[derive(Clone, Copy, Debug, PartialEq, Eq, Structural)]
pub enum InstallEvent {
    /// An installation is asked for, with the backend of its plan.
    Begin(ExportBackend),
    /// The step in progress has succeeded.
    Succeeded,
    /// The step in progress has failed.
    Failed,
}

/// What the installer asks the program to do next.
#[derive(Clone, Copy, Debug, PartialEq, Eq, Structural)]
pub enum InstallAction {
    /// Register the plan's propagator for the process.
    RegisterPropagator,
    /// Construct the span exporter of the remote backend.
    BuildExporter,
    /// Install the subscriber as the process's event sink.
    InstallSubscriber,
    /// Register the tracer provider for the process.
    RegisterTracerProvider,
    /// Hand the shutdown handle to the caller.
    Finish,
    /// Give up with the error.
    Abort(PipelineInitError),
}

/// The phase and the action that follow from a phase and an event, or `None`
/// where the event does not belong to the phase.
///
/// The steps run in a fixed order: propagator, exporter (remote backend
/// only), subscriber, tracer provider. A failed exporter or a refused
/// subscriber ends the installation. An installed pipeline answers a new
/// request with an error; a failed installation may be begun again.
pub open spec fn transition(phase: InstallPhase, backend: ExportBackend, event: InstallEvent)
    -> Option<(InstallPhase, InstallAction)> {
    match (phase, event) {
        (InstallPhase::Idle, InstallEvent::Begin(_)) => Some(
            (InstallPhase::RegisteringPropagator, InstallAction::RegisterPropagator),
        ),
        (InstallPhase::Failed(_), InstallEvent::Begin(_)) => Some(
            (InstallPhase::RegisteringPropagator, InstallAction::RegisterPropagator),
        ),
        (InstallPhase::Installed, InstallEvent::Begin(_)) => Some(
            (InstallPhase::Installed, InstallAction::Abort(PipelineInitError::AlreadyInstalled)),
        ),
        (InstallPhase::RegisteringPropagator, InstallEvent::Succeeded) => match backend {
            ExportBackend::Remote => Some(
                (InstallPhase::BuildingExporter, InstallAction::BuildExporter),
            ),
            ExportBackend::Local => Some(
                (InstallPhase::InstallingSubscriber, InstallAction::InstallSubscriber),
            ),
        },
        (InstallPhase::BuildingExporter, InstallEvent::Succeeded) => Some(
            (InstallPhase::InstallingSubscriber, InstallAction::InstallSubscriber),
        ),
        (InstallPhase::BuildingExporter, InstallEvent::Failed) => Some(
            (
                InstallPhase::Failed(PipelineInitError::ExporterConstruction),
                InstallAction::Abort(PipelineInitError::ExporterConstruction),
            ),
        ),
        (InstallPhase::InstallingSubscriber, InstallEvent::Succeeded) => Some(
            (InstallPhase::RegisteringTracerProvider, InstallAction::RegisterTracerProvider),
        ),
        (InstallPhase::InstallingSubscriber, InstallEvent::Failed) => Some(
            (
                InstallPhase::Failed(PipelineInitError::AlreadyInstalled),
                InstallAction::Abort(PipelineInitError::AlreadyInstalled),
            ),
        ),
        (InstallPhase::RegisteringTracerProvider, InstallEvent::Succeeded) => Some(
            (InstallPhase::Installed, InstallAction::Finish),
        ),
        _ => None,
    }
}

/// The backend that an installation is for after an event: that of the
/// request, where the event begins an installation, and the one it was for
/// in every other case.
pub open spec fn backend_after(phase: InstallPhase, backend: ExportBackend, event: InstallEvent)
    -> ExportBackend {
    match (phase, event) {
        (InstallPhase::Idle, InstallEvent::Begin(asked)) => asked,
        (InstallPhase::Failed(_), InstallEvent::Begin(asked)) => asked,
        _ => backend,
    }
}

/// Keeps track of the installation of one pipeline in the process.
#[derive(Clone, Copy, Debug)]
pub struct Installer {
    phase: InstallPhase,
    backend: ExportBackend,
}

impl Installer {
    /// How far the installation has come.
    pub closed spec fn spec_phase(&self) -> InstallPhase {
        self.phase
    }

    /// The backend that the installation is for.
    pub closed spec fn spec_backend(&self) -> ExportBackend {
        self.backend
    }

    /// An installer that has done nothing yet.
    pub fn new() -> (installer: Self)
        ensures
            installer.spec_phase() == InstallPhase::Idle,
    {
        Installer { phase: InstallPhase::Idle, backend: ExportBackend::Local }
    }

    /// How far the installation has come.
    #[verifier::when_used_as_spec(spec_phase)]
    pub fn phase(&self) -> (phase: InstallPhase)
        ensures
            phase == self.spec_phase(),
    {
        self.phase
    }

    /// The backend that the installation is for.
    #[verifier::when_used_as_spec(spec_backend)]
    pub fn backend(&self) -> (backend: ExportBackend)
        ensures
            backend == self.spec_backend(),
    {
        self.backend
    }

    /// Takes an event and says what to do next. A request that begins an
    /// installation sets the backend that the steps are chosen for. An event
    /// that does not belong to the phase is answered with `None` and changes
    /// nothing.
    pub fn on(&mut self, event: InstallEvent) -> (action: Option<InstallAction>)
        ensures
            final(self).spec_backend() == backend_after(
                old(self).spec_phase(),
                old(self).spec_backend(),
                event,
            ),
            match transition(old(self).spec_phase(), old(self).spec_backend(), event) {
                Some(next) => final(self).spec_phase() == next.0 && action == Some(next.1),
                None => final(self).spec_phase() == old(self).spec_phase() && action is None,
            },
    {
        let next = match event {
            InstallEvent::Begin(asked) => match self.phase {
                InstallPhase::Idle | InstallPhase::Failed(_) => {
                    self.backend = asked;
                    Some((InstallPhase::RegisteringPropagator, InstallAction::RegisterPropagator))
                },
                InstallPhase::Installed => Some(
                    (self.phase, InstallAction::Abort(PipelineInitError::AlreadyInstalled)),
                ),
                _ => None,
            },
            InstallEvent::Succeeded => match self.phase {
                InstallPhase::RegisteringPropagator => if self.backend == ExportBackend::Remote {
                    Some((InstallPhase::BuildingExporter, InstallAction::BuildExporter))
                } else {
                    Some((InstallPhase::InstallingSubscriber, InstallAction::InstallSubscriber))
                },
                InstallPhase::BuildingExporter => Some(
                    (InstallPhase::InstallingSubscriber, InstallAction::InstallSubscriber),
                ),
                InstallPhase::InstallingSubscriber => Some(
                    (
                        InstallPhase::RegisteringTracerProvider,
                        InstallAction::RegisterTracerProvider,
                    ),
                ),
                InstallPhase::RegisteringTracerProvider => Some(
                    (InstallPhase::Installed, InstallAction::Finish),
                ),
                _ => None,
            },
            InstallEvent::Failed => {
                let error = match self.phase {
                    InstallPhase::BuildingExporter => Some(PipelineInitError::ExporterConstruction),
                    InstallPhase::InstallingSubscriber => Some(PipelineInitError::AlreadyInstalled),
                    _ => None,
                };
                match error {
                    Some(error) => Some((InstallPhase::Failed(error), InstallAction::Abort(error))),
                    None => None,
                }
            },
        };
        match next {
            Some((phase, action)) => {
                self.phase = phase;
                Some(action)
            },
            None => None,
        }
    }

    /// The handle for shutting the pipeline down, which is given out for an
    /// installed pipeline and for no other.
    pub fn finish(&self, tracer_provider: opentelemetry_sdk::trace::SdkTracerProvider) -> (handle:
        Option<LoggingSetupBuildResult>)
        ensures
            self.spec_phase() == InstallPhase::Installed ==> handle == Some(
                LoggingSetupBuildResult { tracer_provider },
            ),
            self.spec_phase() != InstallPhase::Installed ==> handle is None,
    {
        match self.phase {
            InstallPhase::Installed => Some(LoggingSetupBuildResult { tracer_provider }),
            _ => None,
        }
    }
}

/// Once a pipeline is installed it stays installed, and every further
/// request to install one is answered with an error.
pub proof fn lemma_installed_once(backend: ExportBackend, event: InstallEvent)
    ensures
        match transition(InstallPhase::Installed, backend, event) {
            Some(next) => next.0 == InstallPhase::Installed && next.1 == InstallAction::Abort(
                PipelineInitError::AlreadyInstalled,
            ),
            None => !(event is Begin),
        },
{
}

/// Only the last step of an installation leads to an installed pipeline:
/// the tracer provider is registered after the subscriber was installed.
pub proof fn lemma_installed_only_at_the_end(
    phase: InstallPhase,
    backend: ExportBackend,
    event: InstallEvent,
)
    requires
        phase != InstallPhase::Installed,
        transition(phase, backend, event) matches Some(next) && next.0 == InstallPhase::Installed,
    ensures
        phase == InstallPhase::RegisteringTracerProvider,
        event == InstallEvent::Succeeded,
{
}

/// Keep this to be able to shut the tracer provider down when the process
/// ends.
pub struct LoggingSetupBuildResult {
    /// The provider whose `shutdown` flushes what is still pending.
    pub tracer_provider: opentelemetry_sdk::trace::SdkTracerProvider,
}

/// `EnvFilter::try_new` from tracing-subscriber: whether the directives
/// parse. Its parser cuts the text at positions that it counts in the
/// trimmed text, which is safe where every character is one byte long; so
/// only ASCII text is handed to it.
#[verifier::external_body]
fn filter_parses(directives: &str) -> (accepted: bool)
    requires
        is_filter_text(directives@),
    ensures
        accepted == env_filter_accepts(directives@),
{
    tracing_subscriber::EnvFilter::try_new(directives).is_ok()
}

} // verus!
