pub mod fetch;
pub mod import;
pub mod laws;
pub mod run;
pub mod select;
pub mod selector;
pub mod task;
pub mod view;
