pub mod tokens;
pub mod groups;
pub mod fields;
pub mod doc;
pub mod attrs;
