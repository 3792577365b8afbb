//! Extracts the HTML fragments of a document that match a CSS selector.

pub mod args;
pub mod html;
pub mod selector;

pub use args::{parse_command_line_arguments, ArgError, CommandLineArgs};
pub use html::{apply_css_selector, output_text, parse_html, serialize_elements, CustomError};
pub use selector::{selector_nesting_bounded, MAX_SELECTOR_BRACKETS};
