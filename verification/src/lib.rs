//! Phosphor display simulation: the data model, sample transport and frame
//! planning of a CRT phosphor simulator, with machine-checked contracts.

pub mod accumulation;
pub mod beam;
pub mod beam_write;
pub mod binary32;
pub mod buffer;
pub mod catalog;
pub mod codegen;
pub mod composite;
pub mod controls;
pub mod database;
pub mod decay;
pub mod decay_pass;
pub mod external;
pub mod faceplate_scatter;
pub mod frame;
pub mod oscilloscope;
pub mod pacing;
pub mod profiler;
pub mod resample;
pub mod simulation;
pub mod spectral;
pub mod spectral_resolve;
pub mod text;
pub mod tonemap;
pub mod types;
pub mod vector;
