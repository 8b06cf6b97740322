use cargo_compile::mode::CompileMode;

#[test]
fn every_mode_is_listed_once() {
    let modes = CompileMode::all_modes();
    assert_eq!(modes.len(), 9);
    for (i, mode) in modes.iter().enumerate() {
        assert!(!modes[i + 1..].contains(mode));
    }
    assert_eq!(modes[0], CompileMode::Test);
    assert_eq!(modes[3], CompileMode::Check { test: false });
    assert_eq!(modes[8], CompileMode::RunCustomBuild);
}

#[test]
fn modes_are_classified() {
    let checks: Vec<bool> = CompileMode::all_modes().iter().map(|m| m.is_check()).collect();
    let docs: Vec<bool> = CompileMode::all_modes().iter().map(|m| m.is_doc()).collect();
    let tests: Vec<bool> = CompileMode::all_modes().iter().map(|m| m.is_any_test()).collect();
    let builds: Vec<bool> =
        CompileMode::all_modes().iter().map(|m| m.is_run_custom_build()).collect();
    assert_eq!(checks, [false, false, true, true, false, false, false, false, false]);
    assert_eq!(docs, [false, false, false, false, false, true, true, true, false]);
    assert_eq!(tests, [true, false, true, false, true, false, false, true, false]);
    assert_eq!(builds, [false, false, false, false, false, false, false, false, true]);
}
