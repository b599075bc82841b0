use lecturecut::modules::{
    check_marshal, check_module_file, check_symbols, module_file_name, module_location, ModuleError, Role,
    QUIET_LOG_LEVEL,
};
use lecturecut::platform::Platform;

#[test]
fn file_names_per_platform() {
    assert_eq!(module_file_name(Role::Render, Platform::Linux), "librender.so");
    assert_eq!(module_file_name(Role::Generator, Platform::Windows), "generator.dll");
    assert_eq!(module_file_name(Role::Generator, Platform::MacOs), "libgenerator.dylib");
    assert_eq!(module_location(Role::Render, Platform::Linux), "modules/librender.so");
}

#[test]
fn missing_module_file_fails_closed() {
    let r = check_module_file("/opt/tool/modules/librender.so", Role::Render, false);
    let e = r.unwrap_err();
    assert_eq!(
        e,
        ModuleError::ModuleNotFound { path: "/opt/tool/modules/librender.so".to_string(), role: Role::Render }
    );
    assert_eq!(
        e.message(),
        "/opt/tool/modules/librender.so does not exist. Please compile the render module first."
    );
    assert_eq!(check_module_file("x", Role::Generator, true), Ok(()));
}

#[test]
fn first_missing_symbol_is_reported() {
    assert_eq!(check_symbols(Role::Render, &vec![true, true, true, true]), Ok(()));
    let e = check_symbols(Role::Render, &vec![true, true, false, false]).unwrap_err();
    assert_eq!(e, ModuleError::SymbolResolutionError { symbol: "prepare".to_string() });
    assert_eq!(e.message(), "The module does not export prepare.");
    let e = check_symbols(Role::Generator, &vec![true, true, false]).unwrap_err();
    assert_eq!(e, ModuleError::SymbolResolutionError { symbol: "generate".to_string() });
    assert_eq!(Role::Generator.required_symbols(), vec!["init", "version", "generate"]);
}

#[test]
fn nul_cannot_cross_boundary() {
    assert_eq!(check_marshal("clip.mp4"), Ok(()));
    assert_eq!(check_marshal("cl\0ip.mp4"), Err(ModuleError::MarshalError));
    assert_eq!(QUIET_LOG_LEVEL, "error");
}
