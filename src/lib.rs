pub mod text;
pub mod types;
pub mod models;
pub mod ci;
pub mod steps;
pub mod search;
pub mod cache;
pub mod engine;
pub mod update;
pub mod circleci;
pub mod git;
pub mod layout;
pub mod views;
pub mod graphql;
pub mod startup;
pub mod output;

pub use engine::{App, Command, FetchResult, Message};
pub use models::{LabelFilter, PullRequest};
pub use types::{CiStatus, PrFilter};
pub use update::update;
