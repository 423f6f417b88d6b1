//! Resume rendering: a resume profile is turned into a styled word-processor
//! document model and into a plain heading/list markup text.

pub mod document;
pub mod docx_build;
pub mod layout;
pub mod markup;
pub mod profile;
pub mod text;
