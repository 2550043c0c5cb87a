use vstd::prelude::*;

verus! {

/// An opaque token standing for one engine-owned value (an export looked up
/// in a module namespace, or a module produced by an import resolver).
pub type ValueHandle = u64;

/// Why a module failed to load. Any of these stops the run before the
/// entry point is ever invoked; none of them is recovered from.
#[derive(Clone, Copy, PartialEq, Eq, Structural, Debug)]
pub enum LoadError {
    /// The source did not compile (for example, a syntax error).
    Compilation,
    /// The module could not be instantiated; with this loader's import
    /// policy that is the fate of every module with a static import.
    Instantiation,
    /// Evaluation threw an uncaught top-level exception.
    Evaluation,
}

/// What the engine reported for the compile step, reduced to plain values:
/// a compiled module is summarized by how many static imports it requests.
#[derive(Clone, Copy, PartialEq, Eq, Structural, Debug)]
pub enum CompileOutcome {
    Compiled { static_import_count: usize },
    SyntaxError,
}

/// What the engine reported for the evaluation step.
#[derive(Clone, Copy, PartialEq, Eq, Structural, Debug)]
pub enum EvalOutcome {
    Completed,
    Threw,
}

/// The value exported under `name`, scanning the namespace front to back.
pub open spec fn lookup_export(entries: Seq<(Seq<char>, ValueHandle)>, name: Seq<char>) -> Option<
    ValueHandle,
>
    decreases entries.len(),
{
    if entries.len() == 0 {
        None
    } else if entries[0].0 == name {
        Some(entries[0].1)
    } else {
        lookup_export(entries.drop_first(), name)
    }
}

/// A compiled, instantiated and evaluated module: from here on it is
/// read-only, exposing only its namespace of named exports.
pub struct ModuleUnit {
    exports: Vec<(String, ValueHandle)>,
}

impl View for ModuleUnit {
    type V = Seq<(Seq<char>, ValueHandle)>;

    closed spec fn view(&self) -> Seq<(Seq<char>, ValueHandle)> {
        self.exports@.map_values(|e: (String, ValueHandle)| (e.0@, e.1))
    }
}

impl ModuleUnit {
    /// Fetch a named export from the module's namespace.
    pub fn get_export(&self, name: &String) -> (r: Option<ValueHandle>)
        ensures
            r == lookup_export(self@, name@),
    {
        let mut i: usize = 0;
        proof {
            assert(self@.skip(0) =~= self@);
        }
        while i < self.exports.len()
            invariant
                i <= self.exports@.len(),
                lookup_export(self@.skip(i as int), name@) == lookup_export(self@, name@),
            decreases self.exports@.len() - i,
        {
            proof {
                assert(self@.skip(i as int).drop_first() =~= self@.skip(i + 1));
                assert(self@.skip(i as int)[0] == self@[i as int]);
            }
            if self.exports[i].0 == *name {
                return Some(self.exports[i].1);
            }
            i = i + 1;
        }
        proof {
            assert(self@.skip(self.exports@.len() as int) =~= Seq::<(
                Seq<char>,
                ValueHandle,
            )>::empty());
        }
        None
    }
}

/// The module loader around the engine's compile / instantiate / evaluate
/// steps: it owns the import policy and decides, from what the engine
/// reports as plain values, whether loading proceeds or which LoadError
/// stops it.
pub struct ModuleProvider {}

impl ModuleProvider {
    /// The import resolution policy: static and dynamic cross-module
    /// imports are unsupported on this platform, so no specifier resolves,
    /// whether or not it would be valid elsewhere.
    pub fn resolve_module_imports(_specifier: &String) -> (r: Option<ValueHandle>)
        ensures
            r is None,
    {
        None
    }

    /// Law (import isolation), decided after the compile step: because the
    /// import policy resolves no specifier, a module instantiates exactly
    /// when it requests no static import at all; a module that did not even
    /// compile is a compilation error, and one with any static import —
    /// valid or not — fails instantiation.
    pub fn check_instantiation(compile: CompileOutcome) -> (r: Result<(), LoadError>)
        ensures
            r is Ok <==> (compile matches CompileOutcome::Compiled { static_import_count }
                && static_import_count == 0),
            compile is SyntaxError ==> r == Result::<(), LoadError>::Err(LoadError::Compilation),
            (compile matches CompileOutcome::Compiled { static_import_count }
                && static_import_count > 0) ==> r == Result::<(), LoadError>::Err(
                LoadError::Instantiation,
            ),
    {
        match compile {
            CompileOutcome::SyntaxError => Err(LoadError::Compilation),
            CompileOutcome::Compiled { static_import_count } => {
                if static_import_count == 0 {
                    Ok(())
                } else {
                    Err(LoadError::Instantiation)
                }
            },
        }
    }

    /// Finish loading an instantiated module: a throwing evaluation is an
    /// evaluation error and installs nothing; a completed one yields the
    /// read-only module unit with exactly the reported exports.
    pub fn complete_load(exports: Vec<(String, ValueHandle)>, eval: EvalOutcome) -> (r: Result<
        ModuleUnit,
        LoadError,
    >)
        ensures
            match r {
                Ok(unit) => eval is Completed && unit@ == exports@.map_values(
                    |e: (String, ValueHandle)| (e.0@, e.1),
                ),
                Err(e) => eval is Threw && e is Evaluation,
            },
    {
        match eval {
            EvalOutcome::Threw => Err(LoadError::Evaluation),
            EvalOutcome::Completed => Ok(ModuleUnit { exports }),
        }
    }
}

} // verus!
