use concoct::driver::{clippy_args, plan, plan_with_stem, str_contains, Callbacks, DriverPlan};

fn strs(v: &[&str]) -> Vec<String> {
    v.iter().map(|s| s.to_string()).collect()
}

fn clippy_cfg() -> Vec<String> {
    strs(&["--cfg", "feature=\"cargo-clippy\""])
}

#[test]
fn rustc_subcommand_runs_plain_rustc() {
    let r = plan(strs(&["clippy-driver", "--rustc", "--version"]), None, None, false);
    assert_eq!(
        r,
        DriverPlan::Run { args: strs(&["rustc", "--version"]), callbacks: Callbacks::Default }
    );
}

#[test]
fn rustc_subcommand_passes_sysroot_env() {
    let r = plan(strs(&["clippy-driver", "--rustc", "a.rs"]), Some("/sys".to_string()), None, false);
    assert_eq!(
        r,
        DriverPlan::Run {
            args: strs(&["rustc", "a.rs", "--sysroot", "/sys"]),
            callbacks: Callbacks::Default
        }
    );
}

#[test]
fn sysroot_argument_wins_over_env() {
    let r = plan(
        strs(&["clippy-driver", "--rustc", "--sysroot=/mine", "a.rs"]),
        Some("/sys".to_string()),
        None,
        false,
    );
    assert_eq!(
        r,
        DriverPlan::Run {
            args: strs(&["rustc", "--sysroot=/mine", "a.rs"]),
            callbacks: Callbacks::Default
        }
    );
}

#[test]
fn version_exits() {
    assert_eq!(plan(strs(&["clippy-driver", "--version"]), None, None, false), DriverPlan::Exit);
    assert_eq!(plan(strs(&["clippy-driver", "a.rs", "-V"]), None, None, false), DriverPlan::Exit);
}

#[test]
fn help_or_no_argument_exits() {
    assert_eq!(plan(strs(&["clippy-driver"]), None, None, false), DriverPlan::Exit);
    assert_eq!(plan(strs(&["clippy-driver", "-h"]), None, None, false), DriverPlan::Exit);
    assert_eq!(plan(strs(&["clippy-driver", "a.rs", "--help"]), None, None, false), DriverPlan::Exit);
}

#[test]
fn wrapper_mode_drops_rustc_and_runs_clippy() {
    let r = plan(strs(&["clippy-driver", "/usr/bin/rustc", "a.rs"]), None, None, false);
    let mut expected = strs(&["clippy-driver", "a.rs"]);
    expected.extend(clippy_cfg());
    assert_eq!(r, DriverPlan::Run { args: expected, callbacks: Callbacks::Clippy });
}

#[test]
fn wrapper_mode_does_not_exit_on_help() {
    let r = plan(strs(&["clippy-driver", "rustc", "--help"]), None, None, false);
    let mut expected = strs(&["clippy-driver", "--help"]);
    expected.extend(clippy_cfg());
    assert_eq!(r, DriverPlan::Run { args: expected, callbacks: Callbacks::Clippy });
}

#[test]
fn wrapper_mode_from_given_stem() {
    let r = plan_with_stem(
        strs(&["clippy-driver", "anything", "a.rs"]),
        None,
        None,
        false,
        Some("rustc".to_string()),
    );
    let mut expected = strs(&["clippy-driver", "a.rs"]);
    expected.extend(clippy_cfg());
    assert_eq!(r, DriverPlan::Run { args: expected, callbacks: Callbacks::Clippy });
}

#[test]
fn capped_lints_run_rustc() {
    let r = plan(strs(&["clippy-driver", "a.rs", "--cap-lints", "allow"]), None, None, false);
    assert_eq!(
        r,
        DriverPlan::Run {
            args: strs(&["clippy-driver", "a.rs", "--cap-lints", "allow"]),
            callbacks: Callbacks::Rustc
        }
    );
}

#[test]
fn forced_clippy_lint_runs_clippy_despite_cap() {
    let r = plan(
        strs(&["clippy-driver", "a.rs", "--cap-lints=allow", "--force-warn", "clippy::all"]),
        None,
        None,
        false,
    );
    let mut expected = strs(&["clippy-driver", "a.rs", "--cap-lints=allow", "--force-warn", "clippy::all"]);
    expected.extend(clippy_cfg());
    assert_eq!(r, DriverPlan::Run { args: expected, callbacks: Callbacks::Clippy });
}

#[test]
fn clippy_args_are_split_and_appended() {
    let r = plan(
        strs(&["clippy-driver", "a.rs"]),
        Some("/sys".to_string()),
        Some("-W__CLIPPY_HACKERY__clippy::pedantic__CLIPPY_HACKERY__".to_string()),
        false,
    );
    let expected = strs(&[
        "clippy-driver",
        "a.rs",
        "--sysroot",
        "/sys",
        "-W",
        "clippy::pedantic",
        "--cfg",
        "feature=\"cargo-clippy\"",
    ]);
    assert_eq!(r, DriverPlan::Run { args: expected, callbacks: Callbacks::Clippy });
}

#[test]
fn no_deps_keeps_clippy_to_the_primary_package() {
    let var = Some("--no-deps__CLIPPY_HACKERY__-D".to_string());
    let dep = plan(strs(&["clippy-driver", "a.rs"]), None, var.clone(), false);
    assert_eq!(
        dep,
        DriverPlan::Run { args: strs(&["clippy-driver", "a.rs"]), callbacks: Callbacks::Rustc }
    );
    let primary = plan(strs(&["clippy-driver", "a.rs"]), None, var, true);
    let mut expected = strs(&["clippy-driver", "a.rs", "-D"]);
    expected.extend(clippy_cfg());
    assert_eq!(primary, DriverPlan::Run { args: expected, callbacks: Callbacks::Clippy });
}

#[test]
fn clippy_args_without_variable() {
    assert_eq!(clippy_args(None), (clippy_cfg(), false));
    assert_eq!(clippy_args(Some("")), (clippy_cfg(), false));
    let (args, no_deps) = clippy_args(Some("a__CLIPPY_HACKERY____CLIPPY_HACKERY__--no-deps"));
    let mut expected = strs(&["a"]);
    expected.extend(clippy_cfg());
    assert_eq!(args, expected);
    assert!(no_deps);
}

#[test]
fn contains_finds_patterns() {
    assert!(str_contains("clippy::all", "clippy::"));
    assert!(!str_contains("clippy:all", "clippy::"));
    assert!(str_contains("abc", ""));
    assert!(!str_contains("", "a"));
    assert!(str_contains("aab", "ab"));
}
