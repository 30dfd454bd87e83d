//! What an instance does for itself and reports to the platform.
pub mod instance_stats;
pub mod myclaw_route;
pub mod myclaw_skills;
pub mod myclaw_upload;
pub mod platform_laws;
pub mod skill_laws;
