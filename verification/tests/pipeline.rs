use opentelemetry_tracing_utils::config::{
    Environment, ExportBackend, LogFormat, LoggingSetupBuilder,
};
use opentelemetry_tracing_utils::pipeline::{
    choose_filter, resolve_filter, set_up_logging, InstallAction, InstallEvent, InstallPhase,
    Installer, PipelineInitError,
};
use opentelemetry_tracing_utils::propagation::Propagator;

fn env(
    no_otlp: Option<&str>,
    exporter: Option<&str>,
    pretty: Option<&str>,
    rust_log: Option<&str>,
) -> Environment {
    Environment {
        no_otlp: no_otlp.map(String::from),
        otel_traces_exporter: exporter.map(String::from),
        pretty_logs: pretty.map(String::from),
        rust_log: rust_log.map(String::from),
    }
}

#[test]
fn unset_environment_exports_json_over_otlp() {
    let builder = LoggingSetupBuilder::new(&Environment::unset());
    assert!(builder.otlp_output_enabled);
    assert!(!builder.pretty_logs);
    assert!(!builder.use_test_writer);
    assert_eq!(builder.filter_spec, None);
    assert_eq!(builder.export_backend(), ExportBackend::Remote);
    assert_eq!(builder.log_format(), LogFormat::Structured);
}

#[test]
fn disabled_remote_export() {
    for exporter in [None, Some("otlp"), Some("none"), Some("anything")] {
        for no_otlp in ["1", "true", "", "00"] {
            let builder = LoggingSetupBuilder::new(&env(Some(no_otlp), exporter, None, None));
            assert!(!builder.otlp_output_enabled);
            assert!(builder.pretty_logs);
            let plan = builder.build();
            assert_eq!(plan.export_backend, ExportBackend::Local);
            assert_eq!(plan.log_format, LogFormat::HumanReadable);
        }
    }
}

#[test]
fn override_set_to_zero_is_off() {
    let builder = LoggingSetupBuilder::new(&env(Some("0"), Some("otlp"), None, None));
    assert!(builder.otlp_output_enabled);
    assert!(!builder.pretty_logs);
    let builder = LoggingSetupBuilder::new(&env(Some("0"), Some("none"), None, None));
    assert!(!builder.otlp_output_enabled);
    assert!(builder.pretty_logs);
}

#[test]
fn exporter_selector() {
    assert!(LoggingSetupBuilder::new(&env(None, Some("otlp"), None, None)).otlp_output_enabled);
    assert!(!LoggingSetupBuilder::new(&env(None, Some("none"), None, None)).otlp_output_enabled);
    assert!(LoggingSetupBuilder::new(&env(None, Some("NONE"), None, None)).otlp_output_enabled);
    assert!(LoggingSetupBuilder::new(&env(None, Some(""), None, None)).otlp_output_enabled);
}

#[test]
fn format_selector_wins_over_the_default() {
    assert!(LoggingSetupBuilder::new(&env(None, None, Some("1"), None)).pretty_logs);
    assert!(!LoggingSetupBuilder::new(&env(None, None, Some("0"), None)).pretty_logs);
    assert!(!LoggingSetupBuilder::new(&env(Some("1"), None, Some("0"), None)).pretty_logs);
    assert!(!LoggingSetupBuilder::new(&env(Some("1"), None, Some("true"), None)).pretty_logs);
    assert!(LoggingSetupBuilder::new(&env(None, Some("none"), None, None)).pretty_logs);
}

#[test]
fn plan_of_a_configuration() {
    let builder = LoggingSetupBuilder {
        otlp_output_enabled: true,
        pretty_logs: true,
        use_test_writer: true,
        filter_spec: Some("my_crate=debug,warn".to_string()),
    };
    let plan = builder.build();
    assert_eq!(plan.export_backend, ExportBackend::Remote);
    assert_eq!(plan.log_format, LogFormat::HumanReadable);
    assert!(plan.use_test_sink);
    assert_eq!(plan.filter, "my_crate=debug,warn");
    assert_eq!(plan.propagator.members, vec![Propagator::Baggage, Propagator::TraceParent]);
}

#[test]
fn invalid_filter_fallback() {
    assert_eq!(resolve_filter(&Some("!!!not-a-directive".to_string())), "info");
    let builder = LoggingSetupBuilder::new(&env(None, None, None, Some("!!!not-a-directive")));
    assert_eq!(builder.filter_spec, Some("!!!not-a-directive".to_string()));
    assert_eq!(builder.build().filter, "info");
}

#[test]
fn filter_resolution() {
    assert_eq!(resolve_filter(&None), "info");
    assert_eq!(resolve_filter(&Some("debug".to_string())), "debug");
    assert_eq!(resolve_filter(&Some("info".to_string())), "info");
    assert_eq!(resolve_filter(&Some("a=trace,b=warn".to_string())), "a=trace,b=warn");
    assert_eq!(resolve_filter(&Some("".to_string())), "");
    assert_eq!(resolve_filter(&Some("a=notalevel".to_string())), "info");
}

#[test]
fn filter_choice_follows_the_parse_result() {
    let asked = Some("a=debug".to_string());
    assert_eq!(choose_filter(&asked, true), "a=debug");
    assert_eq!(choose_filter(&asked, false), "info");
    assert_eq!(choose_filter(&None, true), "info");
    assert_eq!(choose_filter(&None, false), "info");
}

#[test]
fn remote_installation_runs_every_step() {
    let mut installer = Installer::new();
    assert_eq!(installer.phase(), InstallPhase::Idle);
    assert_eq!(installer.on(InstallEvent::Begin(ExportBackend::Remote)), Some(InstallAction::RegisterPropagator));
    assert_eq!(installer.on(InstallEvent::Succeeded), Some(InstallAction::BuildExporter));
    assert_eq!(installer.on(InstallEvent::Succeeded), Some(InstallAction::InstallSubscriber));
    assert_eq!(installer.on(InstallEvent::Succeeded), Some(InstallAction::RegisterTracerProvider));
    assert_eq!(installer.on(InstallEvent::Succeeded), Some(InstallAction::Finish));
    assert_eq!(installer.phase(), InstallPhase::Installed);
}

#[test]
fn local_installation_builds_no_exporter() {
    let mut installer = Installer::new();
    assert_eq!(installer.on(InstallEvent::Begin(ExportBackend::Local)), Some(InstallAction::RegisterPropagator));
    assert_eq!(installer.on(InstallEvent::Succeeded), Some(InstallAction::InstallSubscriber));
    assert_eq!(installer.on(InstallEvent::Succeeded), Some(InstallAction::RegisterTracerProvider));
    assert_eq!(installer.on(InstallEvent::Succeeded), Some(InstallAction::Finish));
    assert_eq!(installer.phase(), InstallPhase::Installed);
}

#[test]
fn second_installation_is_an_error() {
    let mut installer = Installer::new();
    installer.on(InstallEvent::Begin(ExportBackend::Local));
    installer.on(InstallEvent::Succeeded);
    installer.on(InstallEvent::Succeeded);
    installer.on(InstallEvent::Succeeded);
    assert_eq!(installer.phase(), InstallPhase::Installed);
    assert_eq!(
        installer.on(InstallEvent::Begin(ExportBackend::Local)),
        Some(InstallAction::Abort(PipelineInitError::AlreadyInstalled))
    );
    assert_eq!(installer.phase(), InstallPhase::Installed);
    assert_eq!(installer.on(InstallEvent::Succeeded), None);
    assert_eq!(installer.on(InstallEvent::Failed), None);
    assert_eq!(installer.phase(), InstallPhase::Installed);
}

#[test]
fn exporter_failure_ends_the_installation() {
    let mut installer = Installer::new();
    installer.on(InstallEvent::Begin(ExportBackend::Remote));
    installer.on(InstallEvent::Succeeded);
    assert_eq!(
        installer.on(InstallEvent::Failed),
        Some(InstallAction::Abort(PipelineInitError::ExporterConstruction))
    );
    assert_eq!(installer.phase(), InstallPhase::Failed(PipelineInitError::ExporterConstruction));
    assert_eq!(installer.on(InstallEvent::Succeeded), None);
    assert_eq!(installer.on(InstallEvent::Begin(ExportBackend::Remote)), Some(InstallAction::RegisterPropagator));
}

#[test]
fn refused_subscriber_means_already_installed() {
    let mut installer = Installer::new();
    installer.on(InstallEvent::Begin(ExportBackend::Local));
    installer.on(InstallEvent::Succeeded);
    assert_eq!(
        installer.on(InstallEvent::Failed),
        Some(InstallAction::Abort(PipelineInitError::AlreadyInstalled))
    );
    assert_eq!(installer.phase(), InstallPhase::Failed(PipelineInitError::AlreadyInstalled));
}

#[test]
fn events_out_of_turn_change_nothing() {
    let mut installer = Installer::new();
    assert_eq!(installer.on(InstallEvent::Succeeded), None);
    assert_eq!(installer.on(InstallEvent::Failed), None);
    assert_eq!(installer.phase(), InstallPhase::Idle);
    installer.on(InstallEvent::Begin(ExportBackend::Remote));
    assert_eq!(installer.on(InstallEvent::Begin(ExportBackend::Remote)), None);
    assert_eq!(installer.on(InstallEvent::Failed), None);
    assert_eq!(installer.phase(), InstallPhase::RegisteringPropagator);
}

#[test]
fn the_handle_is_given_out_once_installed() {
    let provider = opentelemetry_sdk::trace::SdkTracerProvider::builder().build();
    let mut installer = Installer::new();
    assert!(installer.finish(provider.clone()).is_none());
    installer.on(InstallEvent::Begin(ExportBackend::Local));
    installer.on(InstallEvent::Succeeded);
    installer.on(InstallEvent::Succeeded);
    assert!(installer.finish(provider.clone()).is_none());
    installer.on(InstallEvent::Succeeded);
    let handle = installer.finish(provider);
    assert!(handle.is_some());
    assert!(handle.unwrap().tracer_provider.shutdown().is_ok());
}

#[test]
fn the_plan_for_an_environment() {
    let plan = set_up_logging(&Environment::unset());
    assert_eq!(plan.export_backend, ExportBackend::Remote);
    assert_eq!(plan.log_format, LogFormat::Structured);
    assert!(!plan.use_test_sink);
    assert_eq!(plan.filter, "info");
    assert_eq!(plan.propagator.members, vec![Propagator::Baggage, Propagator::TraceParent]);
    let plan = set_up_logging(&env(Some("yes"), Some("otlp"), None, Some("warn,my_crate=trace")));
    assert_eq!(plan.export_backend, ExportBackend::Local);
    assert_eq!(plan.log_format, LogFormat::HumanReadable);
    assert_eq!(plan.filter, "warn,my_crate=trace");
    let plan = set_up_logging(&env(None, Some("none"), Some("0"), Some("my_crate=loud")));
    assert_eq!(plan.export_backend, ExportBackend::Local);
    assert_eq!(plan.log_format, LogFormat::Structured);
    assert_eq!(plan.filter, "info");
}

#[test]
fn a_new_attempt_takes_the_backend_of_its_request() {
    let mut installer = Installer::new();
    installer.on(InstallEvent::Begin(ExportBackend::Remote));
    assert_eq!(installer.backend(), ExportBackend::Remote);
    assert_eq!(installer.on(InstallEvent::Begin(ExportBackend::Local)), None);
    assert_eq!(installer.backend(), ExportBackend::Remote);
    installer.on(InstallEvent::Succeeded);
    installer.on(InstallEvent::Failed);
    assert_eq!(installer.phase(), InstallPhase::Failed(PipelineInitError::ExporterConstruction));
    assert_eq!(
        installer.on(InstallEvent::Begin(ExportBackend::Local)),
        Some(InstallAction::RegisterPropagator)
    );
    assert_eq!(installer.backend(), ExportBackend::Local);
    assert_eq!(installer.on(InstallEvent::Succeeded), Some(InstallAction::InstallSubscriber));
    installer.on(InstallEvent::Succeeded);
    installer.on(InstallEvent::Succeeded);
    assert_eq!(installer.phase(), InstallPhase::Installed);
    installer.on(InstallEvent::Begin(ExportBackend::Remote));
    assert_eq!(installer.backend(), ExportBackend::Local);
}

#[test]
fn directives_that_are_not_ascii_fall_back() {
    assert_eq!(resolve_filter(&Some("\u{a0}x=info".to_string())), "info");
    assert_eq!(resolve_filter(&Some(" caf\u{e9}=debug".to_string())), "info");
    assert_eq!(resolve_filter(&Some("caf\u{e9}=debug".to_string())), "info");
    assert_eq!(resolve_filter(&Some("x=debug".to_string())), "x=debug");
    let builder = LoggingSetupBuilder::new(&env(None, None, None, Some("\u{2003}\u{e9}")));
    assert_eq!(builder.build().filter, "info");
}
