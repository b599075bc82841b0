use vstd::prelude::*;

verus! {

/// The operating system family whose naming rules apply.
#[derive(Clone, Copy, Debug, PartialEq, Eq, Structural)]
pub enum Platform {
    Linux,
    Windows,
    MacOs,
}

impl Platform {
    /// The character that separates path components.
    pub open spec fn separator_spec(self) -> char {
        match self {
            Platform::Windows => '\\',
            _ => '/',
        }
    }

    pub fn separator(self) -> (r: char)
        ensures
            r == self.separator_spec(),
    {
        match self {
            Platform::Windows => '\\',
            _ => '/',
        }
    }

    /// Whether `c` ends a directory part on this platform.
    pub open spec fn is_separator_spec(self, c: char) -> bool {
        c == '/' || c == self.separator_spec()
    }
}

} // verus!
