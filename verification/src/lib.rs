//! Terminal UI building blocks: navigation state, render scheduling and
//! widget layout logic, with their behaviour stated and proved.

pub mod devkit;
pub mod input;
pub mod markdown;
pub mod render;
pub mod terminal;
pub mod theme;
pub mod tree;
pub mod widget;
