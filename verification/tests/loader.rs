use promise_bridge::loader::{CompileOutcome, EvalOutcome, LoadError, ModuleProvider};

#[test]
fn no_import_specifier_ever_resolves() {
    // The platform supports no cross-module imports: every specifier is
    // refused, whether or not it would be valid elsewhere.
    assert_eq!(ModuleProvider::resolve_module_imports(&String::from("./other.js")), None);
    assert_eq!(ModuleProvider::resolve_module_imports(&String::from("fs")), None);
    assert_eq!(ModuleProvider::resolve_module_imports(&String::from("")), None);
}

#[test]
fn any_static_import_fails_instantiation() {
    let one = CompileOutcome::Compiled { static_import_count: 1 };
    assert_eq!(ModuleProvider::check_instantiation(one), Err(LoadError::Instantiation));
    let several = CompileOutcome::Compiled { static_import_count: 3 };
    assert_eq!(ModuleProvider::check_instantiation(several), Err(LoadError::Instantiation));
}

#[test]
fn self_contained_module_instantiates() {
    let none = CompileOutcome::Compiled { static_import_count: 0 };
    assert_eq!(ModuleProvider::check_instantiation(none), Ok(()));
}

#[test]
fn syntax_error_is_a_load_error() {
    // A source such as `export async function doit(){ return 1 + ; }` does
    // not compile; loading stops before anything is instantiated, so no
    // export is ever installed.
    assert_eq!(
        ModuleProvider::check_instantiation(CompileOutcome::SyntaxError),
        Err(LoadError::Compilation)
    );
}

#[test]
fn throwing_evaluation_installs_no_export() {
    let exports = vec![(String::from("doit"), 5)];
    assert!(ModuleProvider::complete_load(exports, EvalOutcome::Threw).is_err());
    assert_eq!(
        ModuleProvider::complete_load(Vec::new(), EvalOutcome::Threw).err(),
        Some(LoadError::Evaluation)
    );
}

#[test]
fn completed_evaluation_exposes_the_namespace() {
    let exports = vec![(String::from("doit"), 5), (String::from("other"), 9)];
    let unit = ModuleProvider::complete_load(exports, EvalOutcome::Completed)
        .expect("evaluation completed");
    assert_eq!(unit.get_export(&String::from("doit")), Some(5));
    assert_eq!(unit.get_export(&String::from("other")), Some(9));
    assert_eq!(unit.get_export(&String::from("missing")), None);
}
