//! The typed records of the dataset's tables, one module per logical table.

pub mod agency;
pub mod attributions;
pub mod calendar;
pub mod calendar_dates;
pub mod fare_attributes;
pub mod fare_rules;
pub mod feed_info;
pub mod frequencies;
pub mod levels;
pub mod pathways;
pub mod routes;
pub mod shapes;
pub mod stop_times;
pub mod stops;
pub mod transfers;
pub mod trips;
