//! The deployment environment (Prod, Staging, Local, ...) and how it is found.
//!
//! The order of detection is:
//!  1. an explicit `ENVIRONMENT_NAME` that is not blank,
//!  2. hints of local tooling,
//!  3. hints of the AWS Lambda runtime,
//!  4. `Local`.

use crate::text::{chars_of, string_of, trim, trim_range};
use vstd::prelude::*;

verus! {

/// How the environment's name was found.
#[derive(Debug, Clone, Copy, PartialEq, Eq, Structural)]
pub enum ResolutionSource {
    ExplicitVar,
    LocalTooling,
    AwsRuntime,
    DefaultLocal,
}

impl ResolutionSource {
    /// The source in words.
    pub open spec fn text(self) -> Seq<char> {
        match self {
            ResolutionSource::ExplicitVar => "explicit ENVIRONMENT_NAME"@,
            ResolutionSource::LocalTooling => "local tooling auto-detect"@,
            ResolutionSource::AwsRuntime => "AWS runtime auto-detect"@,
            ResolutionSource::DefaultLocal => "fallback to Local"@,
        }
    }

    /// The source in words.
    pub fn to_string(&self) -> (words: String)
        ensures
            words@ == self.text(),
    {
        match self {
            ResolutionSource::ExplicitVar => String::from_str("explicit ENVIRONMENT_NAME"),
            ResolutionSource::LocalTooling => String::from_str("local tooling auto-detect"),
            ResolutionSource::AwsRuntime => String::from_str("AWS runtime auto-detect"),
            ResolutionSource::DefaultLocal => String::from_str("fallback to Local"),
        }
    }
}

/// What detection reads of the process environment: the value of `ENVIRONMENT_NAME`, if
/// it is set to valid Unicode, and for each of the other variables whether it is set.
#[derive(Debug, Clone, PartialEq, Eq)]
pub struct EnvProbe {
    pub environment_name: Option<String>,
    pub aws_sam_local: bool,
    pub cargo_lambda_http_port: bool,
    pub localstack_hostname: bool,
    pub aws_execution_env: bool,
    pub aws_region: bool,
    pub aws_lambda_function_name: bool,
    pub lambda_task_root: bool,
}

/// The deployment environment: its name and how the name was found.
pub struct DeploymentEnv {
    name: String,
    source: ResolutionSource,
}

/// Mathematical value of a [`DeploymentEnv`].
pub ghost struct DeploymentEnvView {
    pub name: Seq<char>,
    pub source: ResolutionSource,
}

impl View for DeploymentEnv {
    type V = DeploymentEnvView;

    closed spec fn view(&self) -> DeploymentEnvView {
        DeploymentEnvView { name: self.name@, source: self.source }
    }
}

/// The environment that `ENVIRONMENT_NAME` names, if it is set and not blank.
pub open spec fn explicit_override_spec(raw: Option<String>) -> Option<DeploymentEnvView> {
    match raw {
        Some(value) => if trim(value@).len() == 0 {
            None
        } else {
            Some(DeploymentEnvView { name: trim(value@), source: ResolutionSource::ExplicitVar })
        },
        None => None,
    }
}

/// Whether a variable of local tooling is set.
pub open spec fn running_locally_spec(probe: EnvProbe) -> bool {
    probe.aws_sam_local || probe.cargo_lambda_http_port || probe.localstack_hostname
}

/// Whether a variable of the AWS Lambda runtime is set.
pub open spec fn running_on_aws_spec(probe: EnvProbe) -> bool {
    probe.aws_execution_env || probe.aws_region || probe.aws_lambda_function_name
        || probe.lambda_task_root
}

/// The environment that detection finds.
pub open spec fn detect_spec(probe: EnvProbe) -> DeploymentEnvView {
    match explicit_override_spec(probe.environment_name) {
        Some(explicit) => explicit,
        None => if running_locally_spec(probe) {
            DeploymentEnvView { name: "Local"@, source: ResolutionSource::LocalTooling }
        } else if running_on_aws_spec(probe) {
            DeploymentEnvView { name: "Prod"@, source: ResolutionSource::AwsRuntime }
        } else {
            DeploymentEnvView { name: "Local"@, source: ResolutionSource::DefaultLocal }
        },
    }
}

impl DeploymentEnv {
    /// Finds the environment from what was read of the process environment.
    pub fn detect(probe: &EnvProbe) -> (env: Self)
        ensures
            env@ == detect_spec(*probe),
    {
        match Self::explicit_override(&probe.environment_name) {
            Some(explicit) => {
                return explicit;
            },
            None => {},
        }
        if Self::running_locally(probe) {
            return Self::local(ResolutionSource::LocalTooling);
        }
        if Self::running_on_aws(probe) {
            return Self::remote(ResolutionSource::AwsRuntime);
        }
        Self::local(ResolutionSource::DefaultLocal)
    }

    /// The name of the environment.
    pub fn name(&self) -> (name: &str)
        ensures
            name@ == self@.name,
    {
        self.name.as_str()
    }

    /// The name of the users table of the environment: `Users_` and the environment's name.
    pub fn table_name(&self) -> (table: String)
        ensures
            table@ == "Users_"@ + self@.name,
    {
        String::from_str("Users_").concat(self.name.as_str())
    }

    /// How the name was found.
    pub fn source(&self) -> (source: ResolutionSource)
        ensures
            source == self@.source,
    {
        self.source
    }

    /// The environment that `ENVIRONMENT_NAME` names: its value without the whitespace at
    /// its ends, unless nothing is left of it.
    pub fn explicit_override(raw: &Option<String>) -> (env: Option<Self>)
        ensures
            match explicit_override_spec(*raw) {
                Some(explicit) => env is Some && env->Some_0@ == explicit,
                None => env is None,
            },
    {
        match raw {
            Some(value) => {
                let chars = chars_of(value.as_str());
                let (from, to) = trim_range(&chars, 0, chars.len());
                assert(chars@.subrange(0, chars.len() as int) =~= chars@);
                if from == to {
                    None
                } else {
                    Some(
                        DeploymentEnv {
                            name: string_of(&chars, from, to),
                            source: ResolutionSource::ExplicitVar,
                        },
                    )
                }
            },
            None => None,
        }
    }

    /// Whether a variable of local tooling is set.
    pub fn running_locally(probe: &EnvProbe) -> (r: bool)
        ensures
            r == running_locally_spec(*probe),
    {
        probe.aws_sam_local || probe.cargo_lambda_http_port || probe.localstack_hostname
    }

    /// Whether a variable of the AWS Lambda runtime is set.
    pub fn running_on_aws(probe: &EnvProbe) -> (r: bool)
        ensures
            r == running_on_aws_spec(*probe),
    {
        probe.aws_execution_env || probe.aws_region || probe.aws_lambda_function_name
            || probe.lambda_task_root
    }

    /// The default remote environment, `Prod`.
    pub fn remote(source: ResolutionSource) -> (env: Self)
        ensures
            env@ == (DeploymentEnvView { name: "Prod"@, source }),
    {
        DeploymentEnv { name: String::from_str("Prod"), source }
    }

    /// The default local environment, `Local`.
    pub fn local(source: ResolutionSource) -> (env: Self)
        ensures
            env@ == (DeploymentEnvView { name: "Local"@, source }),
    {
        DeploymentEnv { name: String::from_str("Local"), source }
    }
}

} // verus!
