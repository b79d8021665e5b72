//! Resolves the theme and font names of a Visual Studio Code configuration,
//! and the extension that contributes a theme, from text that the caller
//! has already read.

pub mod error;
pub mod pattern;
pub mod scan;
pub mod settings;
pub mod themes;
pub mod vscode_data;

pub use error::Error;
pub use pattern::{extract, Lookup};
pub use scan::ManifestScan;
pub use settings::{get_current_fonts_from, get_current_theme_from, FoundFonts};
pub use themes::{FoundTheme, LabeledTheme, VsCodeSettings};
