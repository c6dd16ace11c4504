pub mod term;
pub mod reduction;
pub mod booleans;
pub mod arithmetic;
pub mod list;
pub mod cards;
pub mod padding;
