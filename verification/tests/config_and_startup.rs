//! The subconscious engine and the order of the start.

use openhuman::startup::{run_core_from_args, StartupEvent, StartupStep};
use openhuman::subconscious::{SubconsciousConfig, SubconsciousEngine};

#[test]
fn default_engine_is_local() {
    assert_eq!(SubconsciousConfig::default().engine, SubconsciousEngine::Local);
    assert_eq!(SubconsciousEngine::default(), SubconsciousEngine::Local);
}

#[test]
fn legacy_engine_deserializes_as_local_and_serializes_as_local() {
    let raw: serde_json::Value =
        serde_json::from_str(r#"{"engine":"medulla","medulla_local":{"serve_entry":"retired"}}"#)
            .unwrap();
    let config = SubconsciousConfig::stored(raw.get("engine").and_then(|v| v.as_str())).unwrap();
    assert_eq!(config.engine, SubconsciousEngine::Local);
    assert_eq!(serde_json::to_string(config.engine.as_str()).unwrap(), r#""local""#);
}

#[test]
fn a_name_of_no_engine_is_refused_and_no_name_is_the_default() {
    assert!(SubconsciousConfig::stored(Some("remote")).is_none());
    assert!(SubconsciousConfig::stored(Some("Local")).is_none());
    assert_eq!(
        SubconsciousConfig::stored(Some("local")).unwrap().engine,
        SubconsciousEngine::Local
    );
    assert_eq!(SubconsciousConfig::stored(None).unwrap().engine, SubconsciousEngine::Local);
}

#[test]
fn the_start_runs_in_order_and_ends_with_the_command() {
    let args = vec!["serve".to_string(), "--port".to_string()];
    let next = |event: StartupEvent| run_core_from_args(&args, event);
    assert_eq!(next(StartupEvent::Started), StartupStep::LoadDotenv);
    assert_eq!(next(StartupEvent::DotenvLoaded(Ok(()))), StartupStep::ApplyRestartDelay);
    assert_eq!(next(StartupEvent::RestartDelayApplied), StartupStep::InitMasterKey);
    assert_eq!(
        next(StartupEvent::MasterKeyReady),
        StartupStep::RunCommand { args: vec!["serve".to_string(), "--port".to_string()] }
    );
    assert_eq!(next(StartupEvent::CommandEnded(Ok(()))), StartupStep::End(Ok(())));
    assert_eq!(
        next(StartupEvent::CommandEnded(Err("bad flag".to_string()))),
        StartupStep::End(Err("bad flag".to_string()))
    );
    assert_eq!(
        next(StartupEvent::DotenvLoaded(Err("no file".to_string()))),
        StartupStep::End(Err("no file".to_string()))
    );
}
