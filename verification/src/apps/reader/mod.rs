//! The book reader.

pub mod app;
pub mod cache;
pub mod chapters;
pub mod draw;
pub mod framed;
pub mod images;
pub mod laws;
pub mod load;
pub mod measured;
pub mod opening;
pub mod page_image;
pub mod paged;
pub mod pages;
pub mod preparing;
pub mod reading;
pub mod records;
pub mod scan;
pub mod searching;
pub mod seen;
pub mod step;
pub mod text;
pub mod turning;
pub mod typeset;
pub mod work;
pub mod wrap;
