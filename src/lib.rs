//! Work-time accounting: clock events folded into journeys, days, weeks and a
//! long-term registry, with the labour-policy checks made at each boundary.

pub mod clockedin_service;
pub mod delta_hours;
pub mod long_term_registry;
pub mod program_options;
pub mod sums;
pub mod time;
pub mod work_days;
pub mod work_journey;
pub mod work_week;
