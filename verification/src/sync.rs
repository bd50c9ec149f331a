//! Staged synchronization: stages, their checkpoints, and the pipeline that
//! schedules them forward and unwinds them after a validation failure.

pub mod stage;
pub mod stage_id;
pub mod stage_checkpoint;
pub mod queued_stage;
pub mod rollback;
pub mod metrics;
pub mod pipeline_control_flow;
pub mod pipeline_error;
pub mod pipeline_event;
pub mod pipeline_state;
pub mod pipeline_step;
pub mod transition;
pub mod pipeline;
pub mod laws;
