//! The current theme and fonts, as a settings document binds them.

use vstd::prelude::*;

use crate::error::Error;
use crate::pattern::{bound_value, extract, is_plain_key, Lookup};

verus! {

/// The key that binds the active colour theme.
pub const COLOR_THEME_KEY: &'static str = "workbench.colorTheme";

/// The key that binds the font family of the editor.
pub const EDITOR_FONT_KEY: &'static str = "editor.fontFamily";

/// The key that binds the font family of the integrated terminal.
pub const TERMINAL_FONT_KEY: &'static str = "terminal.integrated.fontFamily";

/// The two font families of a configuration, as texts.
pub struct FontNames {
    pub editor: Seq<char>,
    pub terminal: Seq<char>,
}

/// Found fonts from the configuration.
#[derive(Debug, PartialEq, Eq, Hash, PartialOrd, Ord)]
pub struct FoundFonts {
    editor: String,
    terminal: String,
}

impl View for FoundFonts {
    type V = FontNames;

    closed spec fn view(&self) -> FontNames {
        FontNames { editor: self.editor@, terminal: self.terminal@ }
    }
}

impl FoundFonts {
    /// The font family of the editor.
    pub fn editor(&self) -> (name: &str)
        ensures
            name@ == self@.editor,
    {
        self.editor.as_str()
    }

    /// The font family of the integrated terminal.
    pub fn terminal(&self) -> (name: &str)
        ensures
            name@ == self@.terminal,
    {
        self.terminal.as_str()
    }
}

/// Whether `theme` is what a lookup of the theme key amounts to: the name
/// that it found, and else the failure that says that there is none.
pub open spec fn is_theme_of(theme: Result<String, Error>, lookup: Lookup) -> bool {
    match lookup {
        Lookup::Bound(name) => theme matches Ok(found) && found@ == name@,
        _ => theme matches Err(Error::CannotFindCurrentTheme),
    }
}

/// Whether `fonts` are what the lookups of the two font keys amount to: the
/// two names that they found, and else the failure that names the missing
/// one. A missing editor font is reported before a missing terminal font.
pub open spec fn are_fonts_of(
    fonts: Result<FoundFonts, Error>,
    editor: Lookup,
    terminal: Lookup,
) -> bool {
    match (editor, terminal) {
        (Lookup::Bound(e), Lookup::Bound(t)) => fonts matches Ok(found) && found@ == (FontNames {
            editor: e@,
            terminal: t@,
        }),
        (Lookup::Bound(_), _) => fonts matches Err(Error::CannotFindTerminalFont),
        _ => fonts matches Err(Error::CannotFindEditorFont),
    }
}

/// Turns the outcome of a lookup of the theme key into the current theme.
pub fn theme_from_lookup(lookup: Lookup) -> (theme: Result<String, Error>)
    ensures
        is_theme_of(theme, lookup),
{
    match lookup {
        Lookup::Bound(name) => Ok(name),
        _ => Err(Error::CannotFindCurrentTheme),
    }
}

/// Turns the outcomes of the lookups of the two font keys into the current
/// fonts.
pub fn fonts_from_lookups(editor: Lookup, terminal: Lookup) -> (fonts: Result<FoundFonts, Error>)
    ensures
        are_fonts_of(fonts, editor, terminal),
{
    match editor {
        Lookup::Bound(editor) => match terminal {
            Lookup::Bound(terminal) => Ok(FoundFonts { editor, terminal }),
            _ => Err(Error::CannotFindTerminalFont),
        },
        _ => Err(Error::CannotFindEditorFont),
    }
}

/// Whether `theme` is the current theme of a document that binds `bound` to
/// the theme key: the bound name, and the failure that says that there is
/// none exactly where none is bound.
pub open spec fn is_current_theme(theme: Result<String, Error>, bound: Option<Seq<char>>) -> bool {
    match bound {
        Some(name) => theme matches Ok(found) && found@ == name,
        None => theme matches Err(Error::CannotFindCurrentTheme),
    }
}

/// Whether `fonts` are the current fonts of a document that binds `editor`
/// to the editor key and `terminal` to the terminal key: both names where
/// both are bound, the failure of the editor font exactly where it is not
/// bound, and the failure of the terminal font exactly where it alone is
/// not.
pub open spec fn are_current_fonts(
    fonts: Result<FoundFonts, Error>,
    editor: Option<Seq<char>>,
    terminal: Option<Seq<char>>,
) -> bool {
    match (editor, terminal) {
        (Some(e), Some(t)) => fonts matches Ok(found) && found@ == (FontNames {
            editor: e,
            terminal: t,
        }),
        (Some(_), None) => fonts matches Err(Error::CannotFindTerminalFont),
        (None, _) => fonts matches Err(Error::CannotFindEditorFont),
    }
}

/// The three keys of the settings document are plain keys, so that a lookup
/// of each always takes place.
pub proof fn lemma_settings_keys_are_plain()
    ensures
        is_plain_key(COLOR_THEME_KEY@),
        is_plain_key(EDITOR_FONT_KEY@),
        is_plain_key(TERMINAL_FONT_KEY@),
{
    reveal_strlit("workbench.colorTheme");
    reveal_strlit("editor.fontFamily");
    reveal_strlit("terminal.integrated.fontFamily");
}

/// Get the current active theme from the text of a settings document: the
/// value that the document binds to the theme key, and where it binds none,
/// the failure that says so.
pub fn get_current_theme_from(data: &str) -> (theme: Result<String, Error>)
    ensures
        is_current_theme(theme, bound_value(data@, COLOR_THEME_KEY@)),
{
    proof {
        lemma_settings_keys_are_plain();
    }
    theme_from_lookup(extract(data, COLOR_THEME_KEY))
}

/// Get the current fonts from the text of a settings document: the values
/// that the document binds to the two font keys. The terminal font is looked
/// up only once the editor font was found, so that a failure names the first
/// of the two that is missing.
pub fn get_current_fonts_from(data: &str) -> (fonts: Result<FoundFonts, Error>)
    ensures
        are_current_fonts(
            fonts,
            bound_value(data@, EDITOR_FONT_KEY@),
            bound_value(data@, TERMINAL_FONT_KEY@),
        ),
{
    proof {
        lemma_settings_keys_are_plain();
    }
    let editor = extract(data, EDITOR_FONT_KEY);
    match editor {
        Lookup::Bound(_) => fonts_from_lookups(editor, extract(data, TERMINAL_FONT_KEY)),
        _ => Err(Error::CannotFindEditorFont),
    }
}

} // verus!
