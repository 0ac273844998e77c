use compdb_rewriter::BuildCommand;

fn record(command: &str) -> BuildCommand {
    BuildCommand::new(
        command.to_string(),
        "/build".to_string(),
        "a.c".to_string(),
    )
}

#[test]
fn bare_gcc_uses_configured_target() {
    let mut r = record("gcc -c foo.c");
    r.rewrite("aarch64-linux-gnu");
    assert_eq!(r.command, "clang --target=aarch64-linux-gnu -c foo.c");
    assert_eq!(r.directory, "/build");
    assert_eq!(r.file, "a.c");
}

#[test]
fn cross_gcc_uses_captured_prefix() {
    let mut r = record("arm-linux-gnueabi-gcc -c foo.c");
    r.rewrite("aarch64-linux-gnu");
    assert_eq!(r.command, "clang --target=arm-linux-gnueabi -c foo.c");
}

#[test]
fn cross_gcc_prefix_with_digits() {
    let mut r = record("x86-64-gcc -O2 main.c");
    r.set_target("aarch64-linux-gnu");
    assert_eq!(r.command, "clang --target=x86-64 -O2 main.c");
}

#[test]
fn non_matching_command_unchanged_by_rule_a() {
    for cmd in [
        "cc -c foo.c",
        "g++ -c foo.c",
        "xgcc -c foo.c",
        " gcc -c foo.c",
        "gcc",
        "gcc-c foo.c",
        "arm_linux-gcc -c foo.c",
        "-gcc foo.c",
        "",
    ] {
        let mut r = record(cmd);
        r.set_target("aarch64-linux-gnu");
        assert_eq!(r.command, cmd);
    }
}

#[test]
fn conserve_stack_removed_once() {
    let mut r = record("cc -a -fconserve-stack -b");
    r.hide_unknown_arguments();
    assert_eq!(r.command, "cc -a -b");
}

#[test]
fn conserve_stack_second_occurrence_kept() {
    let mut r = record("cc -fconserve-stack -fconserve-stack x");
    r.hide_unknown_arguments();
    assert_eq!(r.command, "cc -fconserve-stack x");
}

#[test]
fn all_three_flags_removed() {
    let mut r = record(
        "cc -fno-allow-store-data-races -O2 -fconserve-stack -g -femit-struct-debug-baseonly out.c",
    );
    r.hide_unknown_arguments();
    assert_eq!(r.command, "cc -O2 -g out.c");
}

#[test]
fn flag_without_surrounding_spaces_not_matched() {
    let mut r = record("-fconserve-stack x");
    r.hide_unknown_arguments();
    assert_eq!(r.command, "-fconserve-stack x");

    let mut r = record("cc -fconserve-stack");
    r.hide_unknown_arguments();
    assert_eq!(r.command, "cc -fconserve-stack");
}

#[test]
fn mabi_lp64_removed() {
    let mut r = record("cc -mabi=lp64 -O2");
    r.censor_mabi_lp64();
    assert_eq!(r.command, "cc  -O2");
}

#[test]
fn mabi_lp64_only_first_occurrence_removed() {
    let mut r = record("cc -mabi=lp64 -mabi=lp64");
    r.censor_mabi_lp64();
    assert_eq!(r.command, "cc  -mabi=lp64");
}

#[test]
fn mabi_lp64_absent_unchanged() {
    let mut r = record("cc -mabi=ilp32 -O2");
    r.censor_mabi_lp64();
    assert_eq!(r.command, "cc -mabi=ilp32 -O2");
}

#[test]
fn full_pipeline_on_kernel_style_command() {
    let mut r = record("gcc -c -fconserve-stack -mabi=lp64 foo.c");
    r.rewrite("aarch64-linux-gnu");
    assert_eq!(r.command, "clang --target=aarch64-linux-gnu -c  foo.c");
}

#[test]
fn pipeline_idempotent_on_typical_command() {
    let mut r = record("gcc -c -fno-allow-store-data-races -mabi=lp64 foo.c");
    r.rewrite("aarch64-linux-gnu");
    let once = r.command.clone();
    r.rewrite("aarch64-linux-gnu");
    assert_eq!(r.command, once);
}

#[test]
fn pipeline_idempotent_on_cross_command() {
    let mut r = record("riscv64-linux-gnu-gcc -femit-struct-debug-baseonly -c a.c");
    r.rewrite("aarch64-linux-gnu");
    let once = r.command.clone();
    r.rewrite("aarch64-linux-gnu");
    assert_eq!(r.command, once);
}

#[test]
fn pipeline_not_idempotent_when_flag_left_behind() {
    // A command holding the same flag twice keeps the second occurrence after
    // one pass, so a second pass still changes it.
    let mut r = record("cc -fconserve-stack -fconserve-stack x");
    r.rewrite("aarch64-linux-gnu");
    let once = r.command.clone();
    assert_eq!(once, "cc -fconserve-stack x");
    r.rewrite("aarch64-linux-gnu");
    assert_eq!(r.command, "cc x");
}

#[test]
fn rewrite_never_fails_on_odd_inputs() {
    for cmd in ["", " ", "gcc ", "-", "a", "日本語 gcc ", "gcc  -mabi=lp64"] {
        let mut r = record(cmd);
        r.rewrite("t");
        // The pipeline has no error conditions; reaching this point is the test.
    }
    let mut r = record("gcc ");
    r.rewrite("t");
    assert_eq!(r.command, "clang --target=t ");
}
