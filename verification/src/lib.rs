pub mod text;
pub mod foreground_process;
pub mod git_state;
pub mod repository;
pub mod paths;
pub mod widgets;
pub mod search;
pub mod toolbar;
pub mod onboarding;
pub mod secrets;
pub mod server;
pub mod computer_use;
pub mod codebase_index;
pub mod persistence;
