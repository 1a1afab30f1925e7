pub mod capture;
pub mod cli;
pub mod collision;
pub mod date;
pub mod error;
pub mod image;
pub mod mover;
pub mod path;
pub mod pipeline;
pub mod resolve;
pub mod scan;
pub mod sorter;
pub mod text;
pub mod tui;
