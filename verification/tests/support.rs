use sptcloud::error::{ProtocolError, RelayError};
use sptcloud::executor::{
    container_arguments, log_file_name, mount_argument, ARCHIVE_NAME, ARTIFACT_NAME,
    CONTAINER_IMAGE, CONTAINER_PROGRAM, MANIFEST_NAME,
};
use sptcloud::logger::{decimal_string, Level, Line, Logger, Record, ORIGIN_COLOUR};
use sptcloud::workspace::Lease;

fn record(level: Level) -> Record {
    Record {
        level,
        message: "listening".to_string(),
        file: Some("src/server/mod.rs".to_string()),
        line: Some(20),
        module: Some("sptcloud::server".to_string()),
    }
}

#[test]
fn errors_describe_themselves() {
    assert_eq!(RelayError::InvalidInput.describe(), "invalid input");
    assert_eq!(RelayError::Io.describe(), "i/o error");
    assert_eq!(RelayError::Executor.describe(), "build executor failed");
    assert_eq!(RelayError::Resource.describe(), "workspace could not be managed");
    assert_eq!(
        RelayError::Protocol(ProtocolError::ShortLength { received: 1 }).describe(),
        "protocol error: short read"
    );
    assert_eq!(
        RelayError::Protocol(ProtocolError::ShortPayload { declared: 2, received: 1 }).describe(),
        "protocol error: short read"
    );
    assert_eq!(
        RelayError::Protocol(ProtocolError::Oversized { declared: 2, limit: 1 }).describe(),
        "protocol error: oversized frame"
    );
}

#[test]
fn lease_moves_forward() {
    let lease = Lease::new();
    assert_eq!(lease, Lease::Unclaimed);
    assert!(!lease.is_held());
    let lease = lease.acquire();
    assert_eq!(lease, Lease::Held);
    assert!(lease.is_held());
    let lease = lease.release();
    assert_eq!(lease, Lease::Released);
    assert!(!lease.is_held());
}

#[test]
fn names_of_the_filesystem_contract() {
    assert_eq!(MANIFEST_NAME, ".sptcloud.json");
    assert_eq!(ARTIFACT_NAME, "main.pdf");
    assert_eq!(ARCHIVE_NAME, "archive.zip");
    assert_eq!(CONTAINER_PROGRAM, "docker");
    assert_eq!(
        CONTAINER_IMAGE,
        "docker.pkg.github.com/texnak/sptcloud/sptcloud-pandoc-build:latest"
    );
}

#[test]
fn workspace_is_mounted_into_the_container() {
    assert_eq!(mount_argument("/srv/sptcloud-build-x1"), "/srv/sptcloud-build-x1:/mount");
    assert_eq!(mount_argument(""), ":/mount");
    assert_eq!(
        container_arguments("./sptcloud-build-abc"),
        vec![
            "run",
            "--rm",
            "-it",
            "-v",
            "./sptcloud-build-abc:/mount",
            "docker.pkg.github.com/texnak/sptcloud/sptcloud-pandoc-build:latest",
        ]
    );
}

#[test]
fn build_log_is_named_by_the_simple_form_of_the_identifier() {
    assert_eq!(
        log_file_name(0x936D_A01F_9ABD_4D9D_80C7_02AF_85C8_22A8),
        "936da01f9abd4d9d80c702af85c822a8.log"
    );
    assert_eq!(log_file_name(0), "00000000000000000000000000000000.log");
    assert_eq!(log_file_name(0xabc), "00000000000000000000000000000abc.log");
    assert_eq!(log_file_name(u128::MAX), "ffffffffffffffffffffffffffffffff.log");
    let id = uuid::Uuid::new_v4();
    assert_eq!(log_file_name(id.as_u128()), format!("{}.log", id.to_simple()));
}

#[test]
fn decimal_digits_of_a_number() {
    assert_eq!(decimal_string(0), "0");
    assert_eq!(decimal_string(7), "7");
    assert_eq!(decimal_string(10), "10");
    assert_eq!(decimal_string(20), "20");
    assert_eq!(decimal_string(109), "109");
    assert_eq!(decimal_string(u32::MAX), "4294967295");
}

/// The level that `text` names for a logger, or `None` if the logger falls
/// back on its default.
fn named(text: &str) -> Option<Level> {
    let low = Logger::init(Level::Error, Some(text), None).level;
    let high = Logger::init(Level::Trace, Some(text), None).level;
    if low == high {
        Some(low)
    } else {
        None
    }
}

#[test]
fn levels_are_named_in_any_case() {
    assert_eq!(named("error"), Some(Level::Error));
    assert_eq!(named("WARN"), Some(Level::Warn));
    assert_eq!(named("Info"), Some(Level::Info));
    assert_eq!(named("DeBuG"), Some(Level::Debug));
    assert_eq!(named("trace"), Some(Level::Trace));
    assert_eq!(named("off"), None);
    assert_eq!(named("warning"), None);
    assert_eq!(named(""), None);
    assert_eq!(named(" info"), None);
}

#[test]
fn levels_have_rank_label_and_colour() {
    let table = [
        (Level::Error, 1, "       Error", 160),
        (Level::Warn, 2, "     Warning", 214),
        (Level::Info, 3, "        Info", 10),
        (Level::Debug, 4, "       Debug", 244),
        (Level::Trace, 5, "       Trace", 239),
    ];
    for (level, rank, label, colour) in table {
        assert_eq!(level.severity(), rank);
        assert_eq!(level.label(), label);
        assert_eq!(level.label().len(), 12);
        assert_eq!(level.colour(), colour);
    }
    assert_eq!(ORIGIN_COLOUR, 239);
}

#[test]
fn logger_takes_its_level_from_the_environment() {
    assert_eq!(
        Logger::init(Level::Info, None, None),
        Logger { level: Level::Info, show_paths: false }
    );
    assert_eq!(Logger::init(Level::Info, Some("debug"), None).level, Level::Debug);
    assert_eq!(Logger::init(Level::Info, Some("TRACE"), None).level, Level::Trace);
    assert_eq!(Logger::init(Level::Warn, Some("verbose"), None).level, Level::Warn);
    assert_eq!(Logger::init(Level::Warn, Some("off"), None).level, Level::Warn);
    assert_eq!(Logger::init(Level::Error, Some(""), None).level, Level::Error);
}

#[test]
fn logger_shows_paths_only_for_the_word_true() {
    assert!(Logger::init(Level::Info, None, Some("true")).show_paths);
    for other in ["TRUE", "True", "1", "yes", "", "false", "true "] {
        assert!(!Logger::init(Level::Info, None, Some(other)).show_paths, "{:?}", other);
    }
    assert!(!Logger::init(Level::Info, None, None).show_paths);
}

#[test]
fn logger_shows_what_matters_at_least_as_much_as_its_level() {
    let levels = [Level::Error, Level::Warn, Level::Info, Level::Debug, Level::Trace];
    for (own, level) in levels.iter().enumerate() {
        let logger = Logger { level: *level, show_paths: false };
        for (other, asked) in levels.iter().enumerate() {
            assert_eq!(logger.enabled(*asked), other <= own);
            assert_eq!(logger.log(&record(*asked)).is_some(), other <= own);
        }
    }
}

#[test]
fn origin_goes_by_the_level_of_the_logger() {
    let trace = Logger { level: Level::Trace, show_paths: true };
    let debug = Logger { level: Level::Debug, show_paths: true };
    let info = Logger { level: Level::Info, show_paths: true };
    assert_eq!(trace.origin(&record(Level::Error)), "src/server/mod.rs:20");
    assert_eq!(debug.origin(&record(Level::Error)), "sptcloud::server");
    assert_eq!(info.origin(&record(Level::Error)), "");
    let bare = Record { level: Level::Info, message: String::new(), file: None, line: None, module: None };
    assert_eq!(trace.origin(&bare), "-:0");
    assert_eq!(debug.origin(&bare), "-");
}

#[test]
fn line_of_a_message() {
    let quiet = Logger { level: Level::Debug, show_paths: false };
    assert_eq!(
        quiet.log(&record(Level::Warn)),
        Some(Line {
            label: "     Warning",
            colour: 214,
            message: "listening".to_string(),
            origin: None,
        })
    );
    let verbose = Logger { level: Level::Trace, show_paths: true };
    assert_eq!(
        verbose.log(&record(Level::Info)),
        Some(Line {
            label: "        Info",
            colour: 10,
            message: "listening".to_string(),
            origin: Some("src/server/mod.rs:20".to_string()),
        })
    );
    assert_eq!(quiet.log(&record(Level::Trace)), None);
}
