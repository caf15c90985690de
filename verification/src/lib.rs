//! A verified weather-report library: it aggregates a flat sequence of hourly
//! weather observations into per-day summaries and renders them as
//! ANSI-coloured text lines. Temperatures and precipitation probabilities are
//! carried as integers in tenths (of a degree Celsius, of a percent).

pub mod aggregate;
pub mod daydate;
pub mod geo;
pub mod laws;
pub mod model;
pub mod render;
pub mod style;
pub mod text;
