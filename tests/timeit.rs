use timeit::config::{parse_args, ArgError, Config, OutputTarget};
use timeit::report::{format_report, format_report_with, format_seconds, ReportStyle};

fn tokens(words: &[&str]) -> Vec<String> {
    words.iter().map(|w| w.to_string()).collect()
}

fn parsed(words: &[&str]) -> Config {
    match parse_args(&tokens(words)) {
        Ok(c) => c,
        Err(e) => panic!("unexpected error: {}", e.message()),
    }
}

#[test]
fn empty_command_line_names_no_program() {
    assert_eq!(parse_args(&tokens(&[])).unwrap_err(), ArgError::NoProgram);
}

#[test]
fn options_alone_name_no_program() {
    assert_eq!(parse_args(&tokens(&["-p", "-a"])).unwrap_err(), ArgError::NoProgram);
    assert_eq!(parse_args(&tokens(&["-o", "out.txt"])).unwrap_err(), ArgError::NoProgram);
    assert_eq!(parse_args(&tokens(&["-o", "-p", "-a"])).unwrap_err(), ArgError::NoProgram);
}

#[test]
fn empty_program_name_is_refused() {
    assert_eq!(parse_args(&tokens(&["-p", ""])).unwrap_err(), ArgError::NoProgram);
}

#[test]
fn no_program_message() {
    assert_eq!(ArgError::NoProgram.message(), "No program specified");
}

#[test]
fn trailing_o_misses_its_filename() {
    assert_eq!(parse_args(&tokens(&["-o"])).unwrap_err(), ArgError::MissingFilename);
    assert_eq!(parse_args(&tokens(&["-p", "-a", "-o"])).unwrap_err(), ArgError::MissingFilename);
    assert_eq!(ArgError::MissingFilename.message(), "Missing filename after -o");
}

#[test]
fn trailing_o_after_program_is_an_argument() {
    let c = parsed(&["echo", "-o"]);
    assert_eq!(c.program, "echo");
    assert_eq!(c.args, vec!["-o".to_string()]);
    assert_eq!(c.output_file, None);
}

#[test]
fn options_after_program_pass_through() {
    let c = parsed(&["-p", "-a", "echo", "-p", "hello"]);
    assert!(c.posix_format);
    assert!(c.append);
    assert_eq!(c.program, "echo");
    assert_eq!(c.args, vec!["-p".to_string(), "hello".to_string()]);
    assert_eq!(c.output_file, None);
}

#[test]
fn plain_program_has_defaults() {
    let c = parsed(&["ls", "-l", "/tmp"]);
    assert!(!c.posix_format);
    assert!(!c.append);
    assert_eq!(c.output_file, None);
    assert_eq!(c.program, "ls");
    assert_eq!(c.args, vec!["-l".to_string(), "/tmp".to_string()]);
}

#[test]
fn output_file_is_read() {
    let c = parsed(&["-o", "out.txt", "true"]);
    assert_eq!(c.output_file, Some("out.txt".to_string()));
    assert_eq!(c.program, "true");
    assert!(c.args.is_empty());
}

#[test]
fn seconds_rounded_to_places() {
    assert_eq!(format_seconds(1_500_000_000, 2), "1.50");
    assert_eq!(format_seconds(1_500_000_000, 3), "1.500");
    assert_eq!(format_seconds(12_345_000_000, 3), "12.345");
    assert_eq!(format_seconds(12_345_000_000, 2), "12.35");
    assert_eq!(format_seconds(12_344_999_999, 2), "12.34");
    assert_eq!(format_seconds(0, 2), "0.00");
    assert_eq!(format_seconds(999_999_999, 3), "1.000");
    assert_eq!(format_seconds(1_234_567, 3), "0.001");
    assert_eq!(format_seconds(42, 9), "0.000000042");
}

#[test]
fn seconds_of_largest_duration() {
    assert_eq!(format_seconds(u64::MAX, 3), "18446744073.710");
    assert_eq!(format_seconds(u64::MAX, 9), "18446744073.709551615");
}

#[test]
fn posix_report_of_one_and_a_half_seconds() {
    let r = format_report(1_500_000_000, true, ReportStyle::Plain);
    assert_eq!(r, "real 1.50\nuser 0.00\nsys 0.00\n");
    assert!(r.lines().any(|l| l == "real 1.50"));
}

#[test]
fn default_report_of_one_and_a_half_seconds() {
    let r = format_report(1_500_000_000, false, ReportStyle::Plain);
    assert_eq!(r, "\nreal\t0m1.500s\nuser\t0m0.000s\nsys\t0m0.000s\n");
    assert!(r.lines().any(|l| l == "real\t0m1.500s"));
}

#[test]
fn cpu_times_read_zero_for_any_duration() {
    for nanos in [0u64, 1, 1_500_000_000, 123_456_789_012, u64::MAX] {
        let p = format_report(nanos, true, ReportStyle::Plain);
        assert!(p.ends_with("user 0.00\nsys 0.00\n"));
        let d = format_report(nanos, false, ReportStyle::Plain);
        assert!(d.ends_with("user\t0m0.000s\nsys\t0m0.000s\n"));
    }
}

#[test]
fn report_with_given_labels() {
    let r = format_report_with("R", "U", "S", 2_000_000, true);
    assert_eq!(r, "R 0.00\nU 0.00\nS 0.00\n");
    let d = format_report_with("R", "U", "S", 2_000_000, false);
    assert_eq!(d, "\nR\t0m0.002s\nU\t0m0.000s\nS\t0m0.000s\n");
}

#[test]
fn styled_report_colors_labels_when_forced() {
    colored::control::set_override(true);
    let r = format_report(1_500_000_000, true, ReportStyle::Styled);
    assert_ne!(r, "real 1.50\nuser 0.00\nsys 0.00\n");
    assert!(r.contains("\x1B["));
    assert!(r.contains("real\x1B[0m 1.50\n"));
    assert!(r.ends_with("sys\x1B[0m 0.00\n"));
}

#[test]
fn styled_report_is_plain_when_colors_are_off() {
    colored::control::set_override(false);
    let r = format_report(1_500_000_000, false, ReportStyle::Styled);
    assert_eq!(r, "\nreal\t0m1.500s\nuser\t0m0.000s\nsys\t0m0.000s\n");
}

#[test]
fn file_destination_overwrites_by_default() {
    let c = parsed(&["-o", "out.txt", "true"]);
    match c.output_target() {
        OutputTarget::File { path, append } => {
            assert_eq!(path, "out.txt");
            assert!(!append);
        }
        OutputTarget::Stdout => panic!("expected a file"),
    }
}

#[test]
fn file_destination_appends_with_a() {
    let c = parsed(&["-o", "out.txt", "-a", "true"]);
    match c.output_target() {
        OutputTarget::File { path, append } => {
            assert_eq!(path, "out.txt");
            assert!(append);
        }
        OutputTarget::Stdout => panic!("expected a file"),
    }
}

#[test]
fn no_output_file_goes_to_stdout() {
    let c = parsed(&["-a", "true"]);
    assert!(matches!(c.output_target(), OutputTarget::Stdout));
    assert_eq!(c.report_style(), ReportStyle::Styled);
}

#[test]
fn file_report_is_plain_text() {
    colored::control::set_override(true);
    let c = parsed(&["-p", "-o", "out.txt", "true"]);
    assert_eq!(c.report_style(), ReportStyle::Plain);
    assert_eq!(c.render_report(1_500_000_000), "real 1.50\nuser 0.00\nsys 0.00\n");
    let d = parsed(&["-o", "out.txt", "true"]);
    assert_eq!(d.render_report(250_000_000), "\nreal\t0m0.250s\nuser\t0m0.000s\nsys\t0m0.000s\n");
}
