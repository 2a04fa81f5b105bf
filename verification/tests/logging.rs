use ez_logger::ez_logger::{LogLevel, LogStream, Logger};
use ez_logger::template::{substitute, LogError};
use ez_logger::timestamp::{timestamp_fmt, tstamp};

fn buffer_logger() -> Logger {
    let mut l = Logger::new();
    l.set_stream(LogStream::Buffer(String::new()));
    l
}

fn buffer_of(l: &Logger) -> &str {
    match &l.out_stream {
        LogStream::Buffer(s) => s.as_str(),
        _ => panic!("expected a buffer sink"),
    }
}

fn is_default_ts(s: &str) -> bool {
    let cs: Vec<char> = s.chars().collect();
    if cs.len() != 15 {
        return false;
    }
    for (i, c) in cs.iter().enumerate() {
        let ok = match i {
            2 | 5 => *c == ':',
            8 => *c == '.',
            _ => c.is_ascii_digit(),
        };
        if !ok {
            return false;
        }
    }
    true
}

#[test]
fn timestamp_test() {
    let ts = tstamp();
    assert_eq!(ts.len(), 15);
}

#[test]
fn default_timestamp_shape() {
    let ts = tstamp();
    assert!(is_default_ts(&ts));
}

#[test]
fn timestamp_template_rendering() {
    let r = timestamp_fmt(Some(&String::from("hours={hours}"))).unwrap();
    assert_eq!(r.len(), 8);
    assert!(r.starts_with("hours="));
    assert!(r[6..].chars().all(|c| c.is_ascii_digit()));
}

#[test]
fn timestamp_template_errors() {
    assert_eq!(
        timestamp_fmt(Some(&String::from("x{foo}"))),
        Err(LogError::UnknownPlaceholder)
    );
    assert_eq!(
        timestamp_fmt(Some(&String::from("{hours"))),
        Err(LogError::BadSyntax)
    );
}

#[test]
fn new_logger_defaults() {
    let l = Logger::new();
    assert_eq!(l.min_level, LogLevel::INFO);
    assert!(matches!(l.out_stream, LogStream::Stdout));
    assert!(l.ts_format.is_none());
    assert!(l.rec_format.is_none());
}

#[test]
fn default_record_line() {
    let mut l = buffer_logger();
    l.log(LogLevel::INFO, "hello", "main").unwrap();
    let line = buffer_of(&l).to_string();
    assert!(line.ends_with('\n'));
    let body = &line[..line.len() - 1];
    assert!(!body.contains('\n'));
    assert!(is_default_ts(&body[..15]));
    assert_eq!(&body[15..], " INFO hello");
}

#[test]
fn threshold_filters_below_and_passes_at_or_above() {
    let mut l = buffer_logger();
    l.set_min_level(LogLevel::WARNING);
    assert_eq!(l.min_level, LogLevel::WARNING);

    l.log(LogLevel::INFO, "x", "t").unwrap();
    assert_eq!(buffer_of(&l).len(), 0);

    l.log(LogLevel::WARNING, "y", "t").unwrap();
    let out = buffer_of(&l).to_string();
    assert_eq!(out.matches('\n').count(), 1);
    assert!(out.contains("WARNING"));
    assert!(out.contains('y'));
}

#[test]
fn threshold_is_reflexive() {
    let mut l = buffer_logger();
    l.set_min_level(LogLevel::ERROR);
    l.log(LogLevel::TRACE, "quiet", "t").unwrap();
    l.log(LogLevel::ERROR, "loud", "t").unwrap();
    let out = buffer_of(&l);
    assert!(!out.contains("quiet"));
    assert!(out.contains("loud"));
    assert!(out.contains("ERROR"));
}

#[test]
fn empty_record_template_reverts_to_default() {
    let mut l = buffer_logger();
    l.set_rec_format(String::from("msg only: {message}"));
    l.log(LogLevel::INFO, "first", "t").unwrap();
    assert!(buffer_of(&l).starts_with("msg only: first"));

    l.set_rec_format(String::new());
    assert!(l.rec_format.is_none());
    l.set_stream(LogStream::Buffer(String::new()));
    l.log(LogLevel::INFO, "second", "t").unwrap();
    let line = buffer_of(&l).to_string();
    assert!(is_default_ts(&line[..15]));
    assert_eq!(&line[15..], " INFO second\n");
}

#[test]
fn record_template_gets_exactly_one_trailing_newline() {
    let mut l = buffer_logger();
    l.set_rec_format(String::from(
        "--- {timestamp} --- {thread} [[{level}]] {message}",
    ));
    match &l.rec_format {
        Some(t) => {
            assert!(t.ends_with('\n'));
            assert!(!t.ends_with("\n\n"));
        }
        None => panic!("template should be stored"),
    }
    l.log(LogLevel::FATAL, "first", "7").unwrap();
    l.log(LogLevel::FATAL, "second", "7").unwrap();
    let out = buffer_of(&l).to_string();
    assert!(out.ends_with('\n'));
    assert!(!out.contains("\n\n"));
    assert_eq!(out.matches('\n').count(), 2);
    let first = out.lines().next().unwrap();
    assert!(first.starts_with("--- "));
    assert!(first.contains("--- 7 [[FATAL]] first"));
}

#[test]
fn record_template_already_newline_terminated_is_kept() {
    let mut l = buffer_logger();
    l.set_min_level(LogLevel::DEBUG);
    l.set_rec_format(String::from("{level}: {message}\n"));
    match &l.rec_format {
        Some(t) => assert_eq!(t, "{level}: {message}\n"),
        None => panic!("template should be stored"),
    }
    l.log(LogLevel::DEBUG, "dbg", "t").unwrap();
    assert_eq!(buffer_of(&l), "DEBUG: dbg\n");
}

#[test]
fn unknown_placeholder_is_reported() {
    let mut l = buffer_logger();
    l.set_rec_format(String::from("{nope}"));
    let r = l.log(LogLevel::INFO, "m", "t");
    assert_eq!(r, Err(LogError::UnknownPlaceholder));
    assert_eq!(buffer_of(&l).len(), 0);
}

#[test]
fn malformed_templates_are_reported() {
    let mut l = buffer_logger();
    l.set_rec_format(String::from("{message"));
    assert_eq!(l.log(LogLevel::INFO, "m", "t"), Err(LogError::BadSyntax));

    l.set_rec_format(String::from("}{message}"));
    assert_eq!(l.log(LogLevel::INFO, "m", "t"), Err(LogError::BadSyntax));

    l.set_rec_format(String::from("{mes{sage}"));
    assert_eq!(l.log(LogLevel::INFO, "m", "t"), Err(LogError::BadSyntax));
    assert_eq!(buffer_of(&l).len(), 0);
}

#[test]
fn timestamp_template_feeds_records() {
    let mut l = buffer_logger();
    l.set_ts_format(String::from("at {seconds}s"));
    l.log(LogLevel::ERROR, "boom", "t").unwrap();
    let out = buffer_of(&l).to_string();
    assert!(out.starts_with("at "));
    assert!(out.contains("s ERROR boom"));

    l.set_ts_format(String::new());
    assert!(l.ts_format.is_none());
    l.set_stream(LogStream::Buffer(String::new()));
    l.log(LogLevel::ERROR, "boom", "t").unwrap();
    assert!(is_default_ts(&buffer_of(&l)[..15]));
}

#[test]
fn records_arrive_whole_and_in_call_order() {
    let mut l = buffer_logger();
    l.set_min_level(LogLevel::TRACE);
    l.log(LogLevel::TRACE, "one", "t").unwrap();
    l.log(LogLevel::INFO, "two", "t").unwrap();
    l.log(LogLevel::FATAL, "three", "t").unwrap();
    let out = buffer_of(&l).to_string();
    assert_eq!(out.matches('\n').count(), 3);
    let i1 = out.find("one").unwrap();
    let i2 = out.find("two").unwrap();
    let i3 = out.find("three").unwrap();
    assert!(i1 < i2 && i2 < i3);
    for line in out.lines() {
        assert!(is_default_ts(&line[..15]));
    }
}

#[test]
fn substitute_fills_known_placeholders() {
    let vars = vec![
        (String::from("x"), String::from("1")),
        (String::from("y"), String::from("22")),
    ];
    assert_eq!(substitute("a{x}b{y}c", &vars), Ok(String::from("a1b22c")));
    assert_eq!(substitute("", &vars), Ok(String::new()));
    assert_eq!(substitute("plain", &vars), Ok(String::from("plain")));
    assert_eq!(substitute("{z}", &vars), Err(LogError::UnknownPlaceholder));
    assert_eq!(substitute("{x", &vars), Err(LogError::BadSyntax));
    assert_eq!(substitute("x}", &vars), Err(LogError::BadSyntax));
}

#[test]
fn severity_names_render_symbolically() {
    let mut l = buffer_logger();
    l.set_min_level(LogLevel::TRACE);
    l.set_rec_format(String::from("{level}"));
    for (lvl, name) in [
        (LogLevel::TRACE, "TRACE"),
        (LogLevel::DEBUG, "DEBUG"),
        (LogLevel::INFO, "INFO"),
        (LogLevel::WARNING, "WARNING"),
        (LogLevel::ERROR, "ERROR"),
        (LogLevel::FATAL, "FATAL"),
    ] {
        l.set_stream(LogStream::Buffer(String::new()));
        l.log(lvl, "m", "t").unwrap();
        assert_eq!(buffer_of(&l), format!("{}\n", name));
    }
}
