//! Formatting arithmetic and text helpers.

use pinix::config::Config;
use pinix::program::{OutputStream, WrappedProgram};
use pinix::record::{format_record_line, parse_record_line};
use pinix::strutil::{capitalize_first, join, u64_to_string, u64_to_string_padded};
use pinix::style::{advancement, format_build_target, format_short_build_target, MultiBar, template_layout};

#[test]
fn short_target_labels() {
    assert_eq!(
        format_short_build_target("/nix/store/abc123-hello-2.12.drv"),
        "hello-2.12"
    );
    assert_eq!(
        format_short_build_target("/nix/store/abc123-hello-2024-01-15"),
        "hello-2024-01-15"
    );
    assert_eq!(format_short_build_target("/nix/store/abc123-justname"), "justname");
    // Text outside the store-path grammar passes through unchanged.
    assert_eq!(format_short_build_target("not a store path"), "not a store path");
}

#[test]
fn full_target_labels() {
    assert_eq!(
        format_build_target("/nix/store/abc123-hello-2.12.drv"),
        "/nix/store/abc123-hello-2.12"
    );
    assert_eq!(format_build_target("plain"), "plain");
}

#[test]
fn multibar_scales_to_the_requested_width() {
    let bar = MultiBar(vec![('#', 1), ('-', 1)]);
    let scaled = bar.scale(30);
    assert_eq!(scaled.0, vec![('#', 15), ('-', 15)]);
    assert_eq!(scaled.length(), 30);
    assert_eq!(scaled.render(), "#".repeat(15) + &"-".repeat(15));

    // An empty bar scales to nothing.
    let empty = MultiBar(vec![('#', 0), (' ', 0)]);
    assert_eq!(empty.scale(30).length(), 0);

    // Rounding never loses cells: the shares still cover the bar.
    let uneven = MultiBar(vec![('a', 1), ('b', 1), ('c', 1)]);
    assert_eq!(uneven.scale(10).length(), 10);
}

#[test]
fn advancement_guards_the_zero_total() {
    assert_eq!(advancement(30, 5, 0), 0);
    assert_eq!(advancement(30, 5, 10), 15);
    assert_eq!(advancement(30, 10, 10), 30);
    // More done than expected is clamped to the bar.
    assert_eq!(advancement(30, 25, 10), 30);
}

#[test]
fn template_layout_splits_the_width() {
    let wide = template_layout(120, true);
    assert_eq!(wide.bar_size, 40);
    assert_eq!(wide.main_size, 74);
    assert!(wide.elapsed);
    let narrow = template_layout(60, true);
    assert_eq!(narrow.bar_size, 20);
    assert_eq!(narrow.main_size, 40);
    assert!(!narrow.elapsed);
}

#[test]
fn decimal_writing() {
    assert_eq!(u64_to_string(0), "0");
    assert_eq!(u64_to_string(1234567890), "1234567890");
    assert_eq!(u64_to_string_padded(42, 7), "0000042");
    assert_eq!(u64_to_string_padded(12345678, 7), "12345678");
}

#[test]
fn joining_and_capitalizing() {
    assert_eq!(join(&vec!["a".to_string(), "b".to_string(), "c".to_string()], ", "), "a, b, c");
    assert_eq!(join(&vec![], ", "), "");
    assert_eq!(capitalize_first("querying info"), "Querying info");
    assert_eq!(capitalize_first("Zebra"), "Zebra");
    assert_eq!(capitalize_first(""), " ");
}

#[test]
fn record_lines_are_framed_with_padded_timestamps() {
    assert_eq!(
        format_record_line(OutputStream::StdOut, 42, "hello"),
        "stdout 0000042 hello\n"
    );
    assert_eq!(
        format_record_line(OutputStream::StdErr, 12345678, "e"),
        "stderr 12345678 e\n"
    );
}

#[test]
fn program_and_stream_names() {
    assert_eq!(WrappedProgram::Nix.as_str(), "nix");
    assert_eq!(WrappedProgram::from("nix-shell".to_string()).as_str(), "nix-shell");
    assert_eq!(WrappedProgram::from("cargo".to_string()).as_str(), "cargo");
    assert_eq!(OutputStream::StdOut.as_str(), "stdout");
    assert_eq!(OutputStream::parse("stderr"), Some(OutputStream::StdErr));
    assert_eq!(OutputStream::parse("other"), None);
}

#[test]
fn config_defaults() {
    let config = Config::default();
    assert!(!config.debug);
    assert!(!config.summary.download);
    assert_eq!(config.log_history.size, 1000);
    assert_eq!(config.log_history.failure_size, 1000);
    assert_eq!(config.log_window.size, 10);
    let session = config.session();
    assert_eq!(session.log_window_size, 10);
    assert!(!session.summary_download);
}

#[test]
fn record_lines_parse_back() {
    assert_eq!(
        parse_record_line("stdout 0000042 hello world"),
        Some((OutputStream::StdOut, 42, "hello world".to_string()))
    );
    // A round trip through the writer (minus its newline framing).
    let framed = format_record_line(OutputStream::StdErr, 1234, "text with spaces");
    assert_eq!(
        parse_record_line(framed.trim_end_matches('\n')),
        Some((OutputStream::StdErr, 1234, "text with spaces".to_string()))
    );
    // A missing text column reads as empty text.
    assert_eq!(
        parse_record_line("stderr 7"),
        Some((OutputStream::StdErr, 7, String::new()))
    );
    // Unknown channels, non-numbers and spaceless lines do not parse.
    assert_eq!(parse_record_line("socket 7 x"), None);
    assert_eq!(parse_record_line("stdout 7a x"), None);
    assert_eq!(parse_record_line("stdout"), None);
    assert_eq!(parse_record_line("stdout 99999999999999999999999 x"), None);
}
