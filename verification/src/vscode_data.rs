//! The documents that Visual Studio Code keeps about installed extensions,
//! as far as this crate reads them.

use vstd::prelude::*;

verus! {

/// One installed extension, as the extension cache records it.
#[derive(Debug)]
pub struct Result {
    pub identifier: Identifier,
    pub location: Location,
}

/// Where an extension is installed.
#[derive(Debug)]
pub struct Location {
    pub path: String,
}

/// The identifier of an extension, made of its publisher and its name.
#[derive(Debug)]
pub struct Identifier {
    pub id: String,
}

impl Clone for Identifier {
    fn clone(&self) -> (copy: Self)
        ensures
            copy.id@ == self.id@,
    {
        Identifier { id: self.id.clone() }
    }
}

/// The manifest of an extension.
#[derive(Debug)]
pub struct Manifest {
    pub categories: Vec<String>,
    pub contributes: Contributes,
}

/// What an extension contributes to the editor.
#[derive(Debug)]
pub struct Contributes {
    pub themes: Vec<Theme>,
}

/// A theme that an extension contributes.
#[derive(Debug)]
pub struct Theme {
    pub label: String,
}

} // verus!
