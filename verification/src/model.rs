//! The five entities of the tracker and their row-level views.

pub mod activity;
pub mod activitytype;
pub mod count;
pub mod project;
pub mod repo;

pub use activity::Activity;
pub use activitytype::ActivityType;
pub use count::Count;
pub use project::Project;
pub use repo::Repo;
