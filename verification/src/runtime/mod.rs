pub mod approver;
pub mod call;
pub mod diff;
pub mod events;
pub mod local;
pub mod prompt;
pub mod risk;
pub mod session;
pub mod targets;
pub mod turn;
pub mod types;
