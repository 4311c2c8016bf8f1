use mini::auth::{
    current_epoch_seconds, epoch_seconds, ACCESS_TOKEN_TTL_SECONDS, REFRESH_TOKEN_TTL_SECONDS,
};
use mini::error::AppError;
use mini::runtime_env::{DeploymentEnv, EnvProbe, ResolutionSource};

fn empty_probe() -> EnvProbe {
    EnvProbe {
        environment_name: None,
        aws_sam_local: false,
        cargo_lambda_http_port: false,
        localstack_hostname: false,
        aws_execution_env: false,
        aws_region: false,
        aws_lambda_function_name: false,
        lambda_task_root: false,
    }
}

#[test]
fn explicit_override_wins() {
    let mut probe = empty_probe();
    probe.environment_name = Some("Staging".to_string());
    let env = DeploymentEnv::detect(&probe);
    assert_eq!(env.name(), "Staging");
    assert_eq!(env.table_name(), "Users_Staging");
    assert!(matches!(env.source(), ResolutionSource::ExplicitVar));
}

#[test]
fn local_tooling_fallback() {
    let mut probe = empty_probe();
    probe.aws_sam_local = true;
    let env = DeploymentEnv::detect(&probe);
    assert_eq!(env.name(), "Local");
    assert_eq!(env.table_name(), "Users_Local");
    assert!(matches!(env.source(), ResolutionSource::LocalTooling));
}

#[test]
fn aws_runtime_fallback() {
    let mut probe = empty_probe();
    probe.aws_execution_env = true;
    let env = DeploymentEnv::detect(&probe);
    assert_eq!(env.name(), "Prod");
    assert_eq!(env.table_name(), "Users_Prod");
    assert!(matches!(env.source(), ResolutionSource::AwsRuntime));
}

#[test]
fn default_is_local() {
    let env = DeploymentEnv::detect(&empty_probe());
    assert_eq!(env.name(), "Local");
    assert_eq!(env.source(), ResolutionSource::DefaultLocal);
}

#[test]
fn explicit_name_is_trimmed_and_blank_is_ignored() {
    let mut probe = empty_probe();
    probe.environment_name = Some("  Staging\t\n".to_string());
    probe.aws_region = true;
    assert_eq!(DeploymentEnv::detect(&probe).name(), "Staging");
    probe.environment_name = Some(" \u{a0} ".to_string());
    let env = DeploymentEnv::detect(&probe);
    assert_eq!(env.name(), "Prod");
    assert_eq!(env.source(), ResolutionSource::AwsRuntime);
    probe.localstack_hostname = true;
    assert_eq!(DeploymentEnv::detect(&probe).source(), ResolutionSource::LocalTooling);
}

#[test]
fn resolution_source_in_words() {
    assert_eq!(ResolutionSource::ExplicitVar.to_string(), "explicit ENVIRONMENT_NAME");
    assert_eq!(ResolutionSource::LocalTooling.to_string(), "local tooling auto-detect");
    assert_eq!(ResolutionSource::AwsRuntime.to_string(), "AWS runtime auto-detect");
    assert_eq!(ResolutionSource::DefaultLocal.to_string(), "fallback to Local");
}

#[test]
fn app_error_category_and_text() {
    let e = AppError::Dynamo("boom".to_string());
    assert_eq!(e.category(), "dynamodb");
    assert_eq!(e.to_string(), "dynamodb error: boom");
    let e = AppError::Auth("nope".to_string());
    assert_eq!(e.category(), "auth");
    assert_eq!(e.to_string(), "authentication error: nope");
}

#[test]
fn epoch_seconds_of_clock_readings() {
    assert_eq!(epoch_seconds(Ok(1_700_000_000)), Ok(1_700_000_000));
    assert_eq!(
        epoch_seconds(Err("late".to_string())),
        Err(AppError::Auth("invalid system time: late".to_string()))
    );
    assert!(current_epoch_seconds().unwrap() > 1_600_000_000);
}

#[test]
fn token_lifetimes() {
    assert_eq!(ACCESS_TOKEN_TTL_SECONDS, 900);
    assert_eq!(REFRESH_TOKEN_TTL_SECONDS, 604_800);
}
