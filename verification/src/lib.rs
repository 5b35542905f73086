//! Decision logic of the platform's safety, staff-permission, feature-rollout
//! and customisation services, with its contracts.
pub mod text;
pub mod strmap;
pub mod error;
pub mod users;
pub mod permissions;
pub mod rollout;
pub mod audit;
pub mod reports;
pub mod customisation;
pub mod store;
pub mod queue;
pub mod workflow;
pub mod filing;
pub mod accounts;
pub mod restrictions;
pub mod system;
pub mod assets;
