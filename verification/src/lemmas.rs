//! What holds of every compilation, proved from the model.

pub mod body;
pub mod child_content;
pub mod escaping;
pub mod lists;
pub mod lowering;
pub mod scopes;
pub mod sections;
