//! Bühlmann ZH-L16C decompression engine on fixed-point integers.
//!
//! Depths are held in millimetres, durations in whole seconds, gas fractions in
//! percent and pressures in nanobar. Every executable function is verified.
mod arith;
pub mod compartment;
pub mod config;
pub mod deco;
pub mod gas;
pub mod model;
pub mod ox_tox;
pub mod units;
pub mod zhl;

pub use compartment::{Compartment, Supersaturation};
pub use config::{BuhlmannConfig, CeilingType, ConfigValidationErr, NDLType};
pub use deco::{
    Deco, DecoAction, DecoCalculationError, DecoRuntime, DecoStage, DecoStageType,
    MissedDecoStopViolation,
};
pub use gas::{Gas, InertGas, PartialPressures};
pub use model::{BuhlmannModel, BuhlmannState, DiveState};
pub use ox_tox::OxTox;
pub use units::{Depth, Time, Unit, Units};
pub use zhl::ZhlParams;
