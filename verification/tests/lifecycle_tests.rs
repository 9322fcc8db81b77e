use localcode::lifecycle::{
    config_path_for, docker_logs_args, docker_remove_args, docker_run_args,
    is_gpu_unavailable_error, next_step, stop_result, u16_dec_string, RemoveOutcome, StartError,
    StartEvent, StartStep,
};

#[test]
fn test_gpu_absence_signature() {
    assert!(is_gpu_unavailable_error(
        "docker: Error response from daemon: could not select device driver \"\" with capabilities: [[gpu]]."
    ));
    assert!(is_gpu_unavailable_error("unknown runtime nvidia"));
    assert!(!is_gpu_unavailable_error(
        "Bind for 0.0.0.0:8080 failed: port is already allocated"
    ));
}

#[test]
fn test_start_sequence_happy_path() {
    let s = StartStep::CheckRuntime;
    let s = next_step(s, StartEvent::RuntimeOk);
    assert_eq!(s, StartStep::CleanInstance);
    let s = next_step(s, StartEvent::Cleaned);
    assert_eq!(s, StartStep::WriteConfig);
    let s = next_step(s, StartEvent::ConfigWritten);
    assert_eq!(s, StartStep::Launch(true));
    let s = next_step(s, StartEvent::LaunchOk);
    assert_eq!(s, StartStep::Done(Ok(())));
}

#[test]
fn test_gpu_failure_with_signature_retries_once_on_cpu() {
    let s = next_step(
        StartStep::Launch(true),
        StartEvent::LaunchFailed("could not select device driver".to_string()),
    );
    assert_eq!(s, StartStep::Launch(false));
    let s = next_step(
        s,
        StartEvent::LaunchFailed("port is already allocated".to_string()),
    );
    assert_eq!(
        s,
        StartStep::Done(Err(StartError::Launch(
            "port is already allocated".to_string()
        )))
    );
}

#[test]
fn test_gpu_failure_without_signature_is_fatal_immediately() {
    let s = next_step(
        StartStep::Launch(true),
        StartEvent::LaunchFailed("port is already allocated".to_string()),
    );
    assert_eq!(
        s,
        StartStep::Done(Err(StartError::Launch(
            "port is already allocated".to_string()
        )))
    );
}

#[test]
fn test_cpu_fallback_can_still_succeed() {
    let s = next_step(
        StartStep::Launch(true),
        StartEvent::LaunchFailed("nvidia driver missing".to_string()),
    );
    assert_eq!(s, StartStep::Launch(false));
    let s = next_step(s, StartEvent::LaunchOk);
    assert_eq!(s, StartStep::Done(Ok(())));
}

#[test]
fn test_runtime_missing_is_fatal() {
    let s = next_step(
        StartStep::CheckRuntime,
        StartEvent::RuntimeMissing("docker: command not found".to_string()),
    );
    assert_eq!(
        s,
        StartStep::Done(Err(StartError::RuntimeUnavailable(
            "docker: command not found".to_string()
        )))
    );
}

#[test]
fn test_stop_succeeds_without_instance() {
    assert_eq!(stop_result(RemoveOutcome::NothingToRemove), Ok(()));
    assert_eq!(stop_result(RemoveOutcome::Removed), Ok(()));
    assert_eq!(
        stop_result(RemoveOutcome::RuntimeUnreachable("no docker".to_string())),
        Err("no docker".to_string())
    );
}

#[test]
fn test_docker_remove_args_target_fixed_name() {
    assert_eq!(docker_remove_args(), vec!["rm", "-f", "opencode-llm"]);
}

#[test]
fn test_docker_logs_args_follow_bounded_backlog() {
    assert_eq!(
        docker_logs_args(),
        vec!["logs", "-f", "--tail", "50", "opencode-llm"]
    );
}

#[test]
fn test_docker_run_args_gpu_and_cpu_variants() {
    let dir = "/home/u/models".to_string();
    let conf = "/home/u/models/llama-swap.yaml".to_string();
    let gpu = docker_run_args(&dir, &conf, 8080, true);
    assert_eq!(
        gpu,
        vec![
            "run",
            "-d",
            "--name",
            "opencode-llm",
            "--gpus",
            "all",
            "-e",
            "HF_HOME=/models",
            "-p",
            "8080:8080",
            "-v",
            "/home/u/models:/models",
            "-v",
            "/home/u/models/llama-swap.yaml:/app/config.yaml",
            "ghcr.io/mostlygeek/llama-swap:cuda",
        ]
    );
    let cpu = docker_run_args(&dir, &conf, 9001, false);
    assert_eq!(
        cpu,
        vec![
            "run",
            "-d",
            "--name",
            "opencode-llm",
            "-e",
            "HF_HOME=/models",
            "-p",
            "9001:8080",
            "-v",
            "/home/u/models:/models",
            "-v",
            "/home/u/models/llama-swap.yaml:/app/config.yaml",
            "ghcr.io/mostlygeek/llama-swap:cpu",
        ]
    );
}

#[test]
fn test_u16_dec_string_renders_decimal() {
    assert_eq!(u16_dec_string(0), "0");
    assert_eq!(u16_dec_string(7), "7");
    assert_eq!(u16_dec_string(80), "80");
    assert_eq!(u16_dec_string(8080), "8080");
    assert_eq!(u16_dec_string(65535), "65535");
}

#[test]
fn test_config_path_inside_models_dir() {
    assert_eq!(
        config_path_for(&"/tmp/models".to_string()),
        "/tmp/models/llama-swap.yaml"
    );
}
