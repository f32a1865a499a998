//! Market-price report, alert and advice logic.

pub mod report;
pub mod qualification;
pub mod alerts;
pub mod result;
pub mod world;
pub mod profile_markers;
pub mod optimize;
pub mod pm_search;
pub mod label;
pub mod levers;
pub mod goods_advice;
pub mod staffing_advice;
pub mod shortages;
