//! Output-formatting helpers, response post-processing, and the
//! runtime-evaluation command's flag parsing.

use docdex::commands::compile_target;
use docdex::commands::js_request;
use docdex::commands::CommandError;
use docdex::commands::TargetLang;
use docdex::godbolt::parse_godbolt_output;
use docdex::godbolt::GodboltResponse;
use docdex::godbolt::C;
use docdex::godbolt::Rust;
use docdex::playground::wrap_in_println;
use docdex::playground::PlaygroundBody;
use docdex::playground::PlaygroundResponse;
use docdex::shared::HostMessage;
use docdex::shared::Opt;
use docdex::util::codeblock;
use docdex::util::codeblock_with_lang;
use docdex::util::get_worker_path;
use docdex::util::shrink_to_fit;
use docdex::util::strip_ansi;
use docdex::util::strip_header_stderr;

#[test]
fn codeblock_wraps_and_shrinks() {
    assert_eq!(codeblock("let x = 1;"), "```rs\nlet x = 1;\n```");
    assert_eq!(codeblock_with_lang("x86asm", "mov eax, 1"), "```x86asm\nmov eax, 1\n```");
    let long = "z".repeat(2500);
    let shrunk = shrink_to_fit(&long);
    assert_eq!(shrunk.chars().count(), 1980);
    let block = codeblock(&long);
    assert_eq!(block.chars().count(), 1980 + "```rs\n\n```".len());
}

#[test]
fn shrink_keeps_short_input_whole() {
    let exactly = "a".repeat(1980);
    assert_eq!(shrink_to_fit(&exactly), exactly);
    assert_eq!(shrink_to_fit("short"), "short");
}

#[test]
fn strip_ansi_removes_color_escapes() {
    assert_eq!(strip_ansi("\u{1b}[31mred\u{1b}[0m text"), "red text");
    assert_eq!(strip_ansi("plain"), "plain");
}

#[test]
fn strip_header_drops_finished_status_lines() {
    let input = "   Compiling playground v0.0.1 (/playground)\nFinished dev profile\nRunning target\nhello\n";
    assert_eq!(strip_header_stderr(input), "\nhello\n");
}

#[test]
fn strip_header_keeps_errors() {
    let input = "   Compiling playground v0.0.1 (/playground)\nerror[E0308]: mismatched types\n";
    assert_eq!(strip_header_stderr(input), "error[E0308]: mismatched types\n");
    let warn = "warning: unused variable\n";
    assert_eq!(strip_header_stderr(warn), "warning: unused variable\n");
}

#[test]
fn strip_header_empties_truncated_finished_output() {
    assert_eq!(strip_header_stderr("Finished without second newline"), "");
}

#[test]
fn worker_path_by_profile() {
    assert_eq!(get_worker_path(true), "./target/debug/worker");
    assert_eq!(get_worker_path(false), "./target/release/worker");
}

#[test]
fn playground_output_puts_diagnostics_first() {
    let resp = PlaygroundResponse {
        stdout: "out".to_string(),
        stderr: "err\n".to_string(),
    };
    assert_eq!(resp.output(), "err\nout");
}

#[test]
fn wrap_in_println_wraps_expressions_only() {
    let has_main = "fn main() { }".to_string();
    assert_eq!(wrap_in_println(has_main.clone()), has_main);
    let wrapped = wrap_in_println("1 + 2".to_string());
    assert_eq!(
        wrapped,
        "\nfn main() {\n    println!(\"{:?}\", {\n        1 + 2\n    });\n}\n    "
    );
}

#[test]
fn js_request_defaults_to_basic_evaluation() {
    let m = js_request("1+1".to_string(), "").unwrap();
    assert_eq!(m, HostMessage::Eval("1+1".to_string(), Opt::Basic));
}

#[test]
fn js_request_parses_flags_left_to_right() {
    let m = js_request("x".to_string(), "-O0 -ir").unwrap();
    assert_eq!(m, HostMessage::DumpIr("x".to_string(), Opt::Off));
    let m2 = js_request("x".to_string(), "-O1 -O2").unwrap();
    assert_eq!(m2, HostMessage::Eval("x".to_string(), Opt::Aggressive));
    // Tokens without a dash are ignored.
    let m3 = js_request("x".to_string(), "stray -O0").unwrap();
    assert_eq!(m3, HostMessage::Eval("x".to_string(), Opt::Off));
}

#[test]
fn js_request_rejects_unknown_flags() {
    assert_eq!(
        js_request("x".to_string(), "-O3"),
        Err(CommandError::UnknownFlag { flag: "O3".to_string() })
    );
}

#[test]
fn godbolt_response_parses_after_the_heading() {
    let raw = "# Compilation provided by service\nmov eax, 1\nret\n";
    let parsed = parse_godbolt_output(raw).unwrap();
    assert_eq!(parsed.0, "mov eax, 1\nret\n");
}

#[test]
fn godbolt_response_strips_ansi_before_parsing() {
    let raw = "\u{1b}[32m# Compilation\u{1b}[0m ok\nxor eax, eax\n";
    let parsed = parse_godbolt_output(raw).unwrap();
    assert_eq!(parsed.0, "xor eax, eax\n");
}

#[test]
fn godbolt_response_rejects_other_shapes() {
    assert!(parse_godbolt_output("unexpected body").is_none());
    assert!(parse_godbolt_output("# Compilation but single line").is_none());
}

#[test]
fn asm_diff_marks_changed_lines() {
    let a = GodboltResponse("push rbp\nmov eax, 1\nret\n".to_string());
    let b = GodboltResponse("push rbp\nmov eax, 2\nret\n".to_string());
    let d = a.diff(b);
    assert_eq!(d, "  push rbp\n- mov eax, 1\n+ mov eax, 2\n  ret\n");
}

#[test]
fn asm_diff_of_identical_outputs_has_no_markers() {
    let a = GodboltResponse("ret\n".to_string());
    let b = GodboltResponse("ret\n".to_string());
    assert_eq!(a.diff(b), "  ret\n");
}

#[test]
fn compile_target_urls() {
    assert_eq!(Rust::url(), "https://godbolt.org/api/compiler/nightly/compile");
    assert_eq!(C::url(), "https://godbolt.org/api/compiler/cclang1600/compile");
}

#[test]
fn compile_target_dispatches_on_language_tag() {
    assert_eq!(compile_target(None), Ok(TargetLang::Rust));
    assert_eq!(compile_target(Some("rs")), Ok(TargetLang::Rust));
    assert_eq!(compile_target(Some("rust")), Ok(TargetLang::Rust));
    assert_eq!(compile_target(Some("c")), Ok(TargetLang::C));
    assert_eq!(
        compile_target(Some("py")),
        Err(CommandError::UnknownLanguage { language: "py".to_string() })
    );
}

#[test]
fn run_request_fills_the_debug_profile() {
    let body = PlaygroundBody::run_request("1 + 2".to_string());
    assert_eq!(body.channel, "nightly");
    assert_eq!(body.mode, "debug");
    assert_eq!(body.edition, "2021");
    assert_eq!(body.crate_type, "bin");
    assert!(!body.tests && !body.backtrace);
    assert!(body.code.contains("fn main"));
}

#[test]
fn bench_request_fills_the_release_profile() {
    let body = PlaygroundBody::bench_request("fn main() { }".to_string());
    assert_eq!(body.mode, "release");
    assert_eq!(body.code, "fn main() { }");
}

#[test]
fn compile_target_default_flags() {
    assert_eq!(
        docdex::godbolt::Rust::default_flags(),
        "-Copt-level=3 -Clto=on -Ctarget-feature=+sse3,+avx -Ctarget-cpu=native"
    );
    assert_eq!(docdex::godbolt::C::default_flags(), "-O3 -march=native");
}

#[test]
fn repeated_compiler_headings_are_all_stripped() {
    let h = "   Compiling playground v0.0.1 (/playground)";
    let input = format!("{h}{h}warning: twice\n");
    assert_eq!(strip_header_stderr(&input), "warning: twice\n");
}

#[test]
fn benchmark_template_substitutes_both_markers() {
    let template = "a /*{{TEST1}}*/ b /*{{TEST2}}*/ c";
    assert_eq!(
        docdex::playground::fill_benchmark_template(template, "one", "two"),
        "a one b two c"
    );
    // Every occurrence of a marker is replaced.
    let double = "/*{{TEST1}}*/ and /*{{TEST1}}*/";
    assert_eq!(
        docdex::playground::fill_benchmark_template(double, "x", "unused"),
        "x and x"
    );
}
