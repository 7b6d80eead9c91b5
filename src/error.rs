//! The errors of rendering and serving a slide deck.
use vstd::prelude::*;

verus! {

/// Why rendering or serving failed. An error that comes from another library
/// carries that library's message.
#[derive(Debug)]
pub enum Error {
    /// A file could not be read or watched.
    Io(String),
    /// The stylesheet could not be minified.
    Minification(&'static str),
    /// A theme file could not be loaded.
    Syntect(String),
    /// The requested theme is not among the loaded ones.
    ThemeNotFound,
}

/// The message of a missing theme.
pub const THEME_NOT_FOUND: &'static str = "Theme not found";

impl Error {
    /// The text that describes the error.
    pub open spec fn message_spec(&self) -> Seq<char> {
        match self {
            Error::Io(m) => m@,
            Error::Minification(m) => m@,
            Error::Syntect(m) => m@,
            Error::ThemeNotFound => THEME_NOT_FOUND@,
        }
    }

    /// Describes the error in words.
    pub fn message(&self) -> (r: String)
        ensures
            r@ == self.message_spec(),
    {
        match self {
            Error::Io(m) => m.clone(),
            Error::Minification(m) => (*m).to_owned(),
            Error::Syntect(m) => m.clone(),
            Error::ThemeNotFound => THEME_NOT_FOUND.to_owned(),
        }
    }
}

} // verus!
