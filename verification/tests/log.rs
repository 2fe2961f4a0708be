use noda::web::log::{failed, finished, lost, millis_of, refused, route_of, wanted, Directives, Level, Record, Sieve, SLOW_REQUEST_NANOS, UNMATCHED};
use tracing_subscriber::filter::{LevelFilter, Targets};

fn has(record: &Record, name: &str, value: &str) -> bool {
    record.fields.iter().any(|(n, v)| n == name && v == value)
}

#[test]
fn a_finished_request_says_what_it_was_and_how_long_it_took() {
    let log = finished("GET", "/nb/{book}", 200, 12_000_000);
    assert_eq!(log.event, "http.request");
    assert_eq!(log.level, Level::Debug);
    assert!(has(&log, "method", "GET"));
    assert!(has(&log, "status", "200"));
    assert!(has(&log, "elapsed_ms", "12"));
}

#[test]
fn a_note_is_logged_as_its_route_and_never_as_its_address() {
    let log = finished("GET", "/nb/{book}/n/{key}", 200, 0);
    assert!(has(&log, "route", "/nb/{book}/n/{key}"));
    assert!(!log.fields.iter().any(|(_, v)| v.contains("k3f9m2p1")));
}

#[test]
fn a_request_that_matched_nothing_is_labelled_rather_than_repeated() {
    assert_eq!(route_of(None), UNMATCHED);
    assert_eq!(route_of(Some("/nb/{book}")), "/nb/{book}");
}

#[test]
fn a_request_at_the_threshold_is_a_warning_instead() {
    let log = finished("GET", "/", 200, SLOW_REQUEST_NANOS);
    assert_eq!(log.event, "http.slow_request");
    assert_eq!(log.level, Level::Warn);
    assert!(has(&log, "threshold_ms", "1000"));
}

#[test]
fn a_request_just_under_it_stays_at_debug() {
    assert_eq!(SLOW_REQUEST_NANOS, 1_000_000_000);
    let log = finished("GET", "/", 200, 999_000_000);
    assert_eq!(log.event, "http.request");
    assert!(!log.event.contains("slow_request"));
    assert!(!log.fields.iter().any(|(n, _)| n == "threshold_ms"));
}

#[test]
fn a_refusal_says_what_it_was_given() {
    let log = refused(Some("evil.example"), None, "the Host is not allowed");
    assert_eq!(log.event, "http.refused");
    assert_eq!(log.level, Level::Warn);
    assert!(has(&log, "host", "evil.example"));
    assert!(has(&log, "origin", "<none>"));
}

#[test]
fn a_failure_records_what_the_page_only_showed() {
    let log = failed("could not open the notebook");
    assert_eq!(log.event, "http.failed");
    assert_eq!(log.level, Level::Error);
    assert!(has(&log, "error", "could not open the notebook"));
}

#[test]
fn a_lost_request_is_an_error_with_nothing_to_add() {
    let log = lost();
    assert_eq!(log.event, "http.lost");
    assert_eq!(log.level, Level::Error);
    assert!(log.fields.is_empty());
}

#[test]
fn milliseconds_are_written_exactly() {
    assert_eq!(millis_of(0), "0");
    assert_eq!(millis_of(12_000_000), "12");
    assert_eq!(millis_of(1_500_000), "1.5");
    assert_eq!(millis_of(1), "0.000001");
    assert_eq!(millis_of(1_000_010), "1.00001");
    assert_eq!(millis_of(2_500_000_000), "2500");
}

/// The subscriber's filter for what the library decided, built as the server
/// builds it.
fn targets(decided: Directives) -> Targets {
    let level = |s: Sieve| match s {
        Sieve::Off => LevelFilter::OFF,
        Sieve::Error => LevelFilter::ERROR,
        Sieve::Warn => LevelFilter::WARN,
        Sieve::Info => LevelFilter::INFO,
        Sieve::Debug => LevelFilter::DEBUG,
        Sieve::Trace => LevelFilter::TRACE,
    };
    let mut built = Targets::new();
    if let Some(d) = decided.default {
        built = built.with_default(level(d));
    }
    built.with_targets(decided.targets.into_iter().map(|(t, l)| (t, level(l))))
}

#[test]
fn a_mistyped_rust_log_cannot_silence_the_server() {
    let typo = targets(wanted(Some("nonsense")));
    assert!(
        typo.would_enable("noda::web::log", &tracing::Level::WARN),
        "a refusal must still be said: {typo:?}"
    );
    assert!(typo.would_enable("nonsense", &tracing::Level::TRACE), "{typo:?}");
}

#[test]
fn what_rust_log_asks_for_wins_over_the_default() {
    let asked = targets(wanted(Some("noda=debug")));
    assert!(asked.would_enable("noda::web::log", &tracing::Level::DEBUG));
    assert!(asked.would_enable("git2", &tracing::Level::ERROR), "{asked:?}");
}

#[test]
fn a_bare_level_replaces_the_default_outright() {
    let off = targets(wanted(Some("off")));
    assert!(!off.would_enable("noda::web::log", &tracing::Level::ERROR), "{off:?}");
    let all = targets(wanted(Some("debug")));
    assert!(all.would_enable("git2", &tracing::Level::DEBUG), "{all:?}");
}

#[test]
fn nothing_set_is_the_default_filter() {
    let quiet = targets(wanted(None));
    assert!(quiet.would_enable("noda::web::log", &tracing::Level::INFO));
    assert!(!quiet.would_enable("noda::web::log", &tracing::Level::DEBUG));
    assert!(!quiet.would_enable("git2", &tracing::Level::WARN));
}

#[test]
fn the_decided_filter_is_the_default_with_what_was_asked_after_it() {
    let none = wanted(None);
    assert_eq!(none.default, Some(Sieve::Error));
    assert_eq!(none.targets, vec![("noda".to_string(), Sieve::Info)]);
    let typo = wanted(Some("nonsense"));
    assert_eq!(typo.default, Some(Sieve::Error));
    assert_eq!(
        typo.targets,
        vec![("noda".to_string(), Sieve::Info), ("nonsense".to_string(), Sieve::Trace)]
    );
    let bare = wanted(Some("warn"));
    assert_eq!(bare.default, Some(Sieve::Warn));
    assert!(bare.targets.is_empty());
    // A value that does not parse is as good as none.
    let broken = wanted(Some("noda=loud"));
    assert_eq!(broken.default, Some(Sieve::Error));
    assert_eq!(broken.targets, vec![("noda".to_string(), Sieve::Info)]);
}
