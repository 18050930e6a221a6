//! Reports and events of a pipeline run.
use vstd::prelude::*;
use crate::config::Config;
use crate::custom::CustomGeneratorDef;

verus! {

/// The JSON report of a validation run.
#[derive(Debug, Clone)]
pub struct ValidateReport {
    pub spec: String,
    pub mode: String,
    pub phases: Phases,
    pub summary: Summary,
}

/// Results per phase; a phase that did not run is absent.
#[derive(Debug, Clone)]
pub struct Phases {
    pub lint: Option<LintResult>,
    pub generate: Option<Vec<StepResult>>,
    pub compile: Option<Vec<StepResult>>,
}

#[derive(Debug, Clone)]
pub struct LintResult {
    pub linter: String,
    pub status: String,
    pub log: String,
}

#[derive(Debug, Clone)]
pub struct StepResult {
    pub generator: String,
    pub scope: String,
    pub status: String,
    pub log: String,
}

#[derive(Debug, Clone, Copy, PartialEq, Eq, Structural)]
pub struct Summary {
    pub total: usize,
    pub passed: usize,
    pub failed: usize,
}

/// Input to the validation pipeline.
pub struct PipelineInput {
    pub config: Config,
    pub custom_defs: Vec<CustomGeneratorDef>,
    pub spec_path: String,
    pub work_dir: String,
}

/// Which pipeline phase is running.
#[derive(Debug, Clone)]
pub enum Phase {
    Lint,
    Generate { generator: String, scope: String },
    Compile { generator: String, scope: String },
}

/// Events that a pipeline run emits.
#[derive(Debug, Clone)]
pub enum PipelineEvent {
    PhaseStarted(Phase),
    Log { phase: Phase, line: String },
    PhaseFinished { phase: Phase, success: bool },
    /// Sent as soon as lint finishes, while later phases still run.
    LintCompleted(LintResult),
    Completed(ValidateReport),
    Aborted(String),
}

} // verus!
