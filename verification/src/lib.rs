pub mod arguments;
pub mod commands;
pub mod eligibility;
pub mod follow;
pub mod history;
pub mod journal;
pub mod model;
pub mod planner;
pub mod recovery;
pub mod session;
pub mod sorting;
pub mod text;
pub mod timing;
pub mod track_uri;
pub mod transport;
