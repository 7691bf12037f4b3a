pub mod decimal;
pub mod fetch;
pub mod items;
pub mod parse;
pub mod paths;
pub mod report;
