//! Adaptive configuration control: knob state, profile tables and the
//! integer-valued decisions of the control loop.

pub mod adaptation;
pub mod control;
pub mod csv;
pub mod hardware;
pub mod history;
pub mod knobs;
pub mod objective;
pub mod profile;
pub mod space;

pub use control::{
    ExpressionType, GoalChange, Objective, OptimizationType, SchedType, SchedTypeError, Schedule,
};
pub use csv::TableError;
pub use hardware::{
    AvailablePhysicalCores, AvailablePhysicalThreads, CacheCOS, CoreFrequency, Hyperthreading,
    UncoreFrequency,
};
pub use history::{Aggregation, LogState};
pub use knobs::{ApplicationKnob, ConstantKnob, GenericKnob, Tunable};
pub use profile::{transpose, ActiveModel, KnobState, KnobTable};
