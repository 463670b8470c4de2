use basalt_desktop::bootstrap::{build_registry, startup_diagnostics};
use basalt_desktop::dispatch::{dispatch, run_handler, Dispatcher, Handler, InvocationRequest, Phase};
use basalt_desktop::error::CommandError;
use basalt_desktop::registry::{register_all, CommandRegistry};
use basalt_desktop::version::{get_version, HostContext};

fn context(version: &str) -> HostContext {
    HostContext::new("Basalt".to_string(), version.to_string())
}

fn request(name: &str) -> InvocationRequest {
    InvocationRequest { name: name.to_string(), args: Vec::new() }
}

#[test]
fn resolve_returns_each_registered_handler() {
    let mut registry: CommandRegistry<u32> = CommandRegistry::new();
    assert_eq!(registry.register("alpha".to_string(), 1), Ok(()));
    assert_eq!(registry.register("beta".to_string(), 2), Ok(()));
    assert_eq!(registry.register("gamma".to_string(), 3), Ok(()));
    assert_eq!(registry.resolve("alpha"), Ok(&1));
    assert_eq!(registry.resolve("beta"), Ok(&2));
    assert_eq!(registry.resolve("gamma"), Ok(&3));
    assert_eq!(registry.len(), 3);
}

#[test]
fn duplicate_registration_keeps_first_handler() {
    let mut registry: CommandRegistry<u32> = CommandRegistry::new();
    assert_eq!(registry.register("alpha".to_string(), 1), Ok(()));
    assert_eq!(registry.register("alpha".to_string(), 2), Err(CommandError::DuplicateCommand));
    assert_eq!(registry.resolve("alpha"), Ok(&1));
    assert_eq!(registry.len(), 1);
}

#[test]
fn resolve_unknown_name_fails() {
    let empty: CommandRegistry<u32> = CommandRegistry::new();
    assert_eq!(empty.resolve("nonexistent"), Err(CommandError::UnknownCommand));
    let registry = build_registry();
    assert_eq!(registry.resolve("nonexistent"), Err(CommandError::UnknownCommand));
    assert_eq!(registry.resolve(""), Err(CommandError::UnknownCommand));
    assert_eq!(registry.resolve("app_version"), Ok(&Handler::AppVersion));
}

#[test]
fn register_all_builds_registry_in_order() {
    let registry = register_all(vec![("one".to_string(), 10u32), ("two".to_string(), 20u32)]).unwrap();
    assert_eq!(registry.len(), 2);
    assert_eq!(registry.resolve("one"), Ok(&10));
    assert_eq!(registry.resolve("two"), Ok(&20));
    assert_eq!(registry.resolve("three"), Err(CommandError::UnknownCommand));
}

#[test]
fn register_all_refuses_shared_names() {
    let result = register_all(vec![
        ("one".to_string(), 10u32),
        ("two".to_string(), 20u32),
        ("one".to_string(), 30u32),
    ]);
    assert!(matches!(result, Err(CommandError::DuplicateCommand)));
    let empty: Vec<(String, u32)> = Vec::new();
    assert_eq!(register_all(empty).unwrap().len(), 0);
}

#[test]
fn get_version_is_stable_and_verbatim() {
    let ctx = context("2.0.0-beta.1+build.7");
    let first = get_version(&ctx);
    let second = get_version(&ctx);
    assert_eq!(first, "2.0.0-beta.1+build.7");
    assert_eq!(first, second);
}

#[test]
fn dispatch_version_matches_resolver() {
    let registry = build_registry();
    let ctx = context("0.4.1");
    assert_eq!(dispatch(&registry, &ctx, request("app_version")), Ok(get_version(&ctx)));
}

#[test]
fn dispatch_version_scenario() {
    let registry = build_registry();
    let ctx = context("1.2.3");
    let response = dispatch(&registry, &ctx, request("app_version"));
    assert_eq!(response, Ok("1.2.3".to_string()));
}

#[test]
fn dispatch_unknown_command_scenario() {
    let registry = build_registry();
    let ctx = context("1.2.3");
    let response = dispatch(&registry, &ctx, request("does_not_exist"));
    assert_eq!(response, Err(CommandError::UnknownCommand));
    assert_eq!(response.unwrap_err().description(), "UnknownCommand");
}

#[test]
fn dispatch_ignores_arguments_of_version_command() {
    let registry = build_registry();
    let ctx = context("3.1.4");
    let call = InvocationRequest {
        name: "app_version".to_string(),
        args: vec![("unused".to_string(), "value".to_string())],
    };
    assert_eq!(dispatch(&registry, &ctx, call), Ok("3.1.4".to_string()));
}

#[test]
fn dispatcher_walks_through_its_phases() {
    let registry = build_registry();
    let ctx = context("1.2.3");
    let mut dispatcher = Dispatcher::new();
    assert!(matches!(dispatcher.phase(), Phase::Idle));
    dispatcher.receive(&registry, request("app_version"));
    assert!(matches!(dispatcher.phase(), Phase::Executing(Handler::AppVersion)));
    dispatcher.execute(&ctx);
    assert!(matches!(dispatcher.phase(), Phase::Responding(Ok(_))));
    assert_eq!(dispatcher.deliver(), Ok("1.2.3".to_string()));
    assert!(matches!(dispatcher.phase(), Phase::Idle));

    dispatcher.receive(&registry, request("does_not_exist"));
    assert!(matches!(dispatcher.phase(), Phase::Responding(Err(CommandError::UnknownCommand))));
    assert_eq!(dispatcher.deliver(), Err(CommandError::UnknownCommand));
    assert!(matches!(dispatcher.phase(), Phase::Idle));
}

#[test]
fn dispatcher_serves_requests_in_turn() {
    let registry = build_registry();
    let ctx = context("9.9.9");
    let mut dispatcher = Dispatcher::new();
    assert_eq!(dispatcher.serve(&registry, &ctx, request("nope")), Err(CommandError::UnknownCommand));
    assert_eq!(dispatcher.serve(&registry, &ctx, request("app_version")), Ok("9.9.9".to_string()));
    assert!(matches!(dispatcher.phase(), Phase::Idle));
}

#[test]
fn run_handler_reports_version() {
    let ctx = context("5.6.7");
    assert_eq!(run_handler(Handler::AppVersion, &ctx, &Vec::new()), Ok("5.6.7".to_string()));
}

#[test]
fn error_descriptions() {
    assert_eq!(CommandError::UnknownCommand.description(), "UnknownCommand");
    assert_eq!(CommandError::DuplicateCommand.description(), "DuplicateCommand");
    assert_eq!(CommandError::HandlerFailure("disk full".to_string()).description(), "disk full");
}

#[test]
fn startup_diagnostics_in_development() {
    let lines = startup_diagnostics(true);
    assert_eq!(lines.len(), 1);
    assert!(lines[0].contains("Basalt desktop initialized"));
}

#[test]
fn startup_diagnostics_in_production() {
    assert!(startup_diagnostics(false).is_empty());
}

#[test]
fn host_context_keeps_metadata() {
    let ctx = context("1.0.0");
    assert_eq!(ctx.name, "Basalt");
    assert_eq!(ctx.version, "1.0.0");
}
