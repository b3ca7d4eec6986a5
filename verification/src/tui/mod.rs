//! Terminal interface logic: key bindings, forms and the file browser's
//! navigation. Drawing lives with the application's I/O.

pub mod file_browser;
pub mod form;
pub mod input;
pub mod layout;
pub mod mask_form;
