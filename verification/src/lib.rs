//! Building blocks of a static blog generator: article metadata, the article
//! catalogue with its tag index, rendering, encryption and license notices.

pub mod blog;
pub mod driver;
pub mod collections;
pub mod crypto;
pub mod page;
pub mod render;
pub mod site;
pub mod table;
pub mod text;
pub mod timestamp;
