use vstd::prelude::*;
use crate::error::EngineError;

verus! {

/// Source of module `abc`: `abc(id)` imports `xyz`, runs it, then logs.
pub const ABC_SOURCE: &'static str = "export async function abc(id) {
    const { xyz } = await import('xyz');
    await xyz(id);
    xconsole.log(id + ' running module abc...');
}
";

/// Source of module `xyz`: `xyz(id)` logs.
pub const XYZ_SOURCE: &'static str = "export function xyz(id) {
    xconsole.log(id + ' running module xyz...');
}
";

/// What a module that cannot be found evaluates to: a script error that the
/// importing script sees, and may catch.
pub const MODULE_NOT_FOUND_SOURCE: &'static str = "throw new Error('ModuleNotFound');
";

/// Resolves import specifiers and serves the fixed set of modules.
pub struct ModuleLoader {}

/// A specifier without its leading `./`, if it has one.
pub open spec fn strip_relative(s: Seq<char>) -> Seq<char> {
    if s.len() >= 2 && s[0] == '.' && s[1] == '/' {
        s.skip(2)
    } else {
        s
    }
}

/// The canonical path of specifier `s`: `None` when it is empty or names a
/// scheme (holds a `:`).
pub open spec fn normalized(s: Seq<char>) -> Option<Seq<char>> {
    let t = strip_relative(s);
    if t.len() == 0 || t.contains(':') {
        None
    } else {
        Some(t)
    }
}

/// The source of the module at canonical path `p`, if there is one.
pub open spec fn module_source(p: Seq<char>) -> Option<Seq<char>> {
    if p == "abc"@ {
        Some(ABC_SOURCE@)
    } else if p == "xyz"@ {
        Some(XYZ_SOURCE@)
    } else {
        None
    }
}

fn has_colon(s: &str) -> (r: bool)
    ensures
        r == s@.contains(':'),
{
    let n = s.unicode_len();
    let mut i: usize = 0;
    while i < n
        invariant
            n == s@.len(),
            0 <= i <= n,
            forall|j: int| 0 <= j < i ==> s@[j] != ':',
        decreases n - i,
    {
        if s.get_char(i) == ':' {
            assert(s@[i as int] == ':');
            return true;
        }
        i = i + 1;
    }
    false
}

impl ModuleLoader {
    pub fn new() -> (r: ModuleLoader) {
        ModuleLoader {}
    }

    /// Resolves `path`, imported from `_ref_path`, to a canonical module
    /// path: a leading `./` is dropped; an empty specifier or one with a
    /// scheme cannot be resolved.
    pub fn normalize_path(&self, _ref_path: &str, path: &str) -> (r: Option<String>)
        ensures
            match r {
                Some(p) => normalized(path@) == Some(p@),
                None => normalized(path@) is None,
            },
    {
        let n = path.unicode_len();
        let t = if n >= 2 && path.get_char(0) == '.' && path.get_char(1) == '/' {
            let t = path.substring_char(2, n);
            assert(t@ =~= strip_relative(path@));
            t
        } else {
            path
        };
        if t.unicode_len() == 0 || has_colon(t) {
            None
        } else {
            Some(String::from_str(t))
        }
    }

    /// The source of the module at `absolute_path`; `ModuleNotFound` for a
    /// path that names no module.
    pub fn load_module(&self, absolute_path: &str) -> (r: Result<String, EngineError>)
        ensures
            match r {
                Ok(s) => module_source(absolute_path@) == Some(s@),
                Err(e) => module_source(absolute_path@) is None && e == EngineError::ModuleNotFound,
            },
    {
        let p = String::from_str(absolute_path);
        if p.eq(&String::from_str("abc")) {
            Ok(String::from_str(ABC_SOURCE))
        } else if p.eq(&String::from_str("xyz")) {
            Ok(String::from_str(XYZ_SOURCE))
        } else {
            Err(EngineError::ModuleNotFound)
        }
    }

    /// The text the engine evaluates for `absolute_path`: the module's source,
    /// or a script that raises the module-not-found error.
    pub fn module_text(&self, absolute_path: &str) -> (r: String)
        ensures
            r@ == (match module_source(absolute_path@) {
                Some(s) => s,
                None => MODULE_NOT_FOUND_SOURCE@,
            }),
    {
        match self.load_module(absolute_path) {
            Ok(s) => s,
            Err(_) => String::from_str(MODULE_NOT_FOUND_SOURCE),
        }
    }
}

} // verus!
