use vstd::prelude::*;

use crate::platform::Platform;

verus! {

/// Log level handed to a module's `init`, so that it reports errors only.
pub const QUIET_LOG_LEVEL: &'static str = "error";

/// The two native modules the pipeline drives.
#[derive(Clone, Copy, Debug, PartialEq, Eq, Structural)]
pub enum Role {
    /// Detects what to cut and reports the durations.
    Generator,
    /// Stages the input and re-encodes it without the cuts.
    Render,
}

/// Why a module cannot be used.
#[derive(Debug, PartialEq, Eq)]
pub enum ModuleError {
    /// No library file at `path` for the module of `role`.
    ModuleNotFound { path: String, role: Role },
    /// The library lacks the export `symbol`.
    SymbolResolutionError { symbol: String },
    /// A string to hand across the boundary holds a NUL character.
    MarshalError,
}

impl Role {
    pub open spec fn name_spec(self) -> Seq<char> {
        match self {
            Role::Generator => "generator"@,
            Role::Render => "render"@,
        }
    }

    /// The module's name, as it stands in its file name.
    pub fn name(self) -> (r: &'static str)
        ensures
            r@ == self.name_spec(),
    {
        match self {
            Role::Generator => "generator",
            Role::Render => "render",
        }
    }

    /// The exports the module must offer, in the order they are checked.
    pub open spec fn symbols_spec(self) -> Seq<Seq<char>> {
        match self {
            Role::Generator => seq!["init"@, "version"@, "generate"@],
            Role::Render => seq!["init"@, "version"@, "prepare"@, "render"@],
        }
    }

    pub fn required_symbols(self) -> (r: Vec<&'static str>)
        ensures
            r@.map_values(|s: &'static str| s@) == self.symbols_spec(),
    {
        let r = match self {
            Role::Generator => vec!["init", "version", "generate"],
            Role::Render => vec!["init", "version", "prepare", "render"],
        };
        assert(r@.map_values(|s: &'static str| s@) =~= self.symbols_spec());
        r
    }
}

/// File name of a module's library on `platform`.
pub open spec fn module_file_name_spec(role: Role, platform: Platform) -> Seq<char> {
    match platform {
        Platform::Linux => "lib"@ + role.name_spec() + ".so"@,
        Platform::Windows => role.name_spec() + ".dll"@,
        Platform::MacOs => "lib"@ + role.name_spec() + ".dylib"@,
    }
}

/// Where a module's library lies, relative to the executable's directory.
pub open spec fn module_location_spec(role: Role, platform: Platform) -> Seq<char> {
    "modules/"@ + module_file_name_spec(role, platform)
}

pub fn module_file_name(role: Role, platform: Platform) -> (r: String)
    ensures
        r@ == module_file_name_spec(role, platform),
{
    match platform {
        Platform::Linux => String::from_str("lib").concat(role.name()).concat(".so"),
        Platform::Windows => String::from_str(role.name()).concat(".dll"),
        Platform::MacOs => String::from_str("lib").concat(role.name()).concat(".dylib"),
    }
}

pub fn module_location(role: Role, platform: Platform) -> (r: String)
    ensures
        r@ == module_location_spec(role, platform),
{
    let file = module_file_name(role, platform);
    String::from_str("modules/").concat(file.as_str())
}

/// Decides on a module file: it is used when it exists, and otherwise the
/// module is reported missing under its path. Never succeeds on a missing
/// file.
pub fn check_module_file(path: &str, role: Role, exists: bool) -> (r: Result<(), ModuleError>)
    ensures
        exists ==> r is Ok,
        !exists ==> match r {
            Err(ModuleError::ModuleNotFound { path: p, role: ro }) => p@ == path@ && ro == role,
            _ => false,
        },
{
    if exists {
        Ok(())
    } else {
        Err(ModuleError::ModuleNotFound { path: String::from_str(path), role })
    }
}

/// Index of the first `false` in `found`, or `found.len()` when all hold.
pub open spec fn first_missing(found: Seq<bool>) -> int
    decreases found.len(),
{
    if found.len() == 0 {
        0
    } else if !found[0] {
        0
    } else {
        1 + first_missing(found.subrange(1, found.len() as int))
    }
}

proof fn lemma_first_missing(found: Seq<bool>)
    ensures
        0 <= first_missing(found) <= found.len(),
        forall|i: int| 0 <= i < first_missing(found) ==> found[i],
        first_missing(found) < found.len() ==> !found[first_missing(found)],
    decreases found.len(),
{
    if found.len() > 0 && found[0] {
        let rest = found.subrange(1, found.len() as int);
        lemma_first_missing(rest);
        assert forall|i: int| 0 <= i < first_missing(found) implies found[i] by {
            if i > 0 {
                assert(found[i] == rest[i - 1]);
            }
        }
    }
}

/// Decides on the exports of a module: `found[i]` tells whether the `i`-th
/// required symbol was resolved. The first one missing is reported.
pub fn check_symbols(role: Role, found: &Vec<bool>) -> (r: Result<(), ModuleError>)
    requires
        found@.len() == role.symbols_spec().len(),
    ensures
        (forall|i: int| 0 <= i < found@.len() ==> found@[i]) ==> r is Ok,
        !(forall|i: int| 0 <= i < found@.len() ==> found@[i]) ==> match r {
            Err(ModuleError::SymbolResolutionError { symbol }) => symbol@
                == role.symbols_spec()[first_missing(found@)],
            _ => false,
        },
{
    proof {
        lemma_first_missing(found@);
    }
    let names = role.required_symbols();
    let mut i: usize = 0;
    while i < found.len()
        invariant
            i <= found@.len(),
            names@.len() == found@.len(),
            names@.map_values(|s: &'static str| s@) == role.symbols_spec(),
            forall|j: int| 0 <= j < i ==> found@[j],
            i <= first_missing(found@),
        decreases found@.len() - i,
    {
        proof {
            lemma_first_missing(found@);
        }
        if !found[i] {
            assert(names@.map_values(|s: &'static str| s@)[i as int] == names@[i as int]@);
            return Err(ModuleError::SymbolResolutionError { symbol: String::from_str(names[i]) });
        }
        i = i + 1;
    }
    Ok(())
}

/// Whether `s` can cross the boundary as a NUL-terminated string.
pub open spec fn marshallable(s: Seq<char>) -> bool {
    forall|i: int| 0 <= i < s.len() ==> s[i] != '\0'
}

/// Checks that `s` holds no NUL character, as a C string demands.
pub fn check_marshal(s: &str) -> (r: Result<(), ModuleError>)
    ensures
        marshallable(s@) ==> r is Ok,
        !marshallable(s@) ==> r == Err::<(), ModuleError>(ModuleError::MarshalError),
{
    let n = s.unicode_len();
    let mut i: usize = 0;
    while i < n
        invariant
            n == s@.len(),
            i <= n,
            forall|j: int| 0 <= j < i ==> s@[j] != '\0',
        decreases n - i,
    {
        if s.get_char(i) == '\0' {
            return Err(ModuleError::MarshalError);
        }
        i = i + 1;
    }
    Ok(())
}

impl ModuleError {
    /// The message shown to the user.
    pub open spec fn message_spec(&self) -> Seq<char> {
        match self {
            ModuleError::ModuleNotFound { path, role } => path@ + " does not exist. Please compile the "@
                + role.name_spec() + " module first."@,
            ModuleError::SymbolResolutionError { symbol } => "The module does not export "@
                + symbol@ + "."@,
            ModuleError::MarshalError => "A string holds a NUL character and cannot be handed to a module."@,
        }
    }

    pub fn message(&self) -> (r: String)
        ensures
            r@ == self.message_spec(),
    {
        match self {
            ModuleError::ModuleNotFound { path, role } => path.clone().concat(
                " does not exist. Please compile the ",
            ).concat(role.name()).concat(" module first."),
            ModuleError::SymbolResolutionError { symbol } => String::from_str(
                "The module does not export ",
            ).concat(symbol.as_str()).concat("."),
            ModuleError::MarshalError => String::from_str(
                "A string holds a NUL character and cannot be handed to a module.",
            ),
        }
    }
}

} // verus!
