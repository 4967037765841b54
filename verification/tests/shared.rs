use axum::http::StatusCode;
use imaged::shared::error::{AppError, DbError, DbErrorKind};
use imaged::shared::logging::log_filter;
use imaged::shared::multicast::{get_multicast_port, MAX_MULTICAST_SLOT};
use imaged::shared::types::{ServerEvent, Task, TaskType};
use std::collections::HashSet;

fn msg() -> String {
    "the message".to_string()
}

#[test]
fn as_status_code_maps_every_variant_exhaustively() {
    for err in [
        AppError::NotFound(msg()),
        AppError::InvalidArgument(msg()),
        AppError::AlreadyExists(msg()),
        AppError::FailedPrecondition(msg()),
        AppError::Internal(msg()),
        AppError::Database(msg()),
    ] {
        let expected = match &err {
            AppError::NotFound(_) => StatusCode::NOT_FOUND,
            AppError::InvalidArgument(_) => StatusCode::BAD_REQUEST,
            AppError::AlreadyExists(_) => StatusCode::BAD_REQUEST,
            AppError::FailedPrecondition(_) => StatusCode::PRECONDITION_FAILED,
            AppError::Internal(_) => StatusCode::INTERNAL_SERVER_ERROR,
            AppError::Database(_) => StatusCode::INTERNAL_SERVER_ERROR,
        };
        assert_eq!(err.as_status_code(), expected.as_u16(), "wrong status for {err:?}");
    }
}

#[test]
fn display_renders_the_documented_prefix_for_every_variant() {
    assert_eq!(
        AppError::NotFound(msg()).to_string(),
        "not found: the message"
    );
    assert_eq!(
        AppError::InvalidArgument(msg()).to_string(),
        "invalid argument: the message"
    );
    assert_eq!(
        AppError::AlreadyExists(msg()).to_string(),
        "already exists: the message"
    );
    assert_eq!(
        AppError::FailedPrecondition(msg()).to_string(),
        "failed precondition: the message"
    );
    assert_eq!(
        AppError::Internal(msg()).to_string(),
        "internal: the message"
    );
    assert_eq!(
        AppError::Database(msg()).to_string(),
        "database: the message"
    );
}

#[test]
fn into_response_exposes_client_errors_verbatim() {
    for (err, status) in [
        (AppError::NotFound("host 5".into()), StatusCode::NOT_FOUND),
        (AppError::InvalidArgument("host 5".into()), StatusCode::BAD_REQUEST),
        (AppError::AlreadyExists("host 5".into()), StatusCode::BAD_REQUEST),
        (AppError::FailedPrecondition("host 5".into()), StatusCode::PRECONDITION_FAILED),
    ] {
        let (code, body) = err.into_response();
        assert_eq!(code, status.as_u16());
        assert_eq!(body, "host 5");
    }
}

#[test]
fn into_response_hides_internal_and_database_messages() {
    for err in [AppError::Internal("secret".into()), AppError::Database("secret".into())] {
        let (code, body) = err.into_response();
        assert_eq!(code, 500);
        assert_eq!(body, "An internal server error occurred");
    }
}

#[test]
fn database_failures_map_to_the_documented_errors() {
    let cases = vec![
        (DbError::RowNotFound, "not found: record not found"),
        (
            DbError::Database { kind: DbErrorKind::UniqueViolation, message: "dup".into() },
            "already exists: dup",
        ),
        (
            DbError::Database { kind: DbErrorKind::ForeignKeyViolation, message: "fk".into() },
            "failed precondition: foreign key violation: fk",
        ),
        (
            DbError::Database { kind: DbErrorKind::NotNullViolation, message: "nn".into() },
            "invalid argument: nn",
        ),
        (
            DbError::Database { kind: DbErrorKind::CheckViolation, message: "ck".into() },
            "invalid argument: ck",
        ),
        (
            DbError::Database { kind: DbErrorKind::Other, message: "other".into() },
            "database: other",
        ),
        (DbError::PoolTimedOut, "database: database pool timed out - server under heavy load"),
        (DbError::PoolClosed, "internal: database pool was closed"),
        (DbError::Io("reset".into()), "database: IO error: reset"),
        (DbError::ColumnNotFound("name".into()), "internal: column not found: name"),
        (
            DbError::ColumnIndexOutOfBounds { index: 7, len: 3 },
            "internal: column index out of bounds: 7 (len: 3)",
        ),
        (DbError::BeginFailed, "database: failed to start transaction"),
        (DbError::WorkerCrashed, "internal: internal worker crashed"),
        (DbError::Other, "internal: an unexpected database error occurred"),
    ];
    for (db, text) in cases {
        assert_eq!(AppError::from_db_error(db).to_string(), text);
    }
}

#[test]
fn every_named_crate_is_raised_above_the_warn_default() {
    assert_eq!(
        log_filter(&["imaged-server", "imaged_core"], "info"),
        "warn,imaged_server=info,imaged_core=info"
    );
}

#[test]
fn a_lone_crate_leaves_every_dependency_at_warn() {
    assert_eq!(log_filter(&["imaged-tftp"], "debug"), "warn,imaged_tftp=debug");
}

#[test]
fn no_crates_leave_everything_at_warn() {
    assert_eq!(log_filter(&[], "trace"), "warn");
}

#[test]
fn slot_zero_is_the_partition_table_base_port() {
    assert_eq!(get_multicast_port(0), 50_000);
}

#[test]
fn each_slot_maps_to_its_even_offset_from_the_base() {
    for slot in 0..=64i64 {
        assert_eq!(get_multicast_port(slot), 50_000 + (slot as u16) * 2);
    }
}

#[test]
fn realistic_partition_slots_never_collide() {
    let ports: HashSet<u16> = (0..=64i64)
        .flat_map(|slot| {
            let port = get_multicast_port(slot);
            [port, port + 1]
        })
        .collect();
    assert_eq!(ports.len(), 130);
}

#[test]
fn out_of_range_slots_return_the_reserved_sentinel_port_never_a_valid_slots_port() {
    assert_eq!(get_multicast_port(MAX_MULTICAST_SLOT + 1), u16::MAX);
    assert_eq!(get_multicast_port(8_000), u16::MAX);
    assert_eq!(get_multicast_port(i64::MAX), u16::MAX);
    assert_eq!(get_multicast_port(-1), u16::MAX);
    assert_eq!(u16::MAX % 2, 1);
    assert_eq!(get_multicast_port(MAX_MULTICAST_SLOT) % 2, 0);
    assert_ne!(get_multicast_port(MAX_MULTICAST_SLOT) + 1, u16::MAX);
}

#[test]
fn a_slot_that_would_wrap_the_u16_cast_no_longer_collides_with_the_partition_table() {
    assert_ne!(get_multicast_port(32_768), get_multicast_port(0));
}

#[test]
fn the_highest_slot_uses_the_last_even_port_below_the_sentinel() {
    assert_eq!(MAX_MULTICAST_SLOT, 7766);
    assert_eq!(get_multicast_port(MAX_MULTICAST_SLOT), 65_532);
}

#[test]
fn task_type_display_uses_the_variant_name() {
    assert_eq!(TaskType::Capture.to_string(), "Capture");
    assert_eq!(TaskType::Deploy.to_string(), "Deploy");
    assert_eq!(TaskType::Multicast.to_string(), "Multicast");
    assert_eq!(TaskType::Reboot.to_string(), "Reboot");
}

#[test]
fn task_type_is_variant_helpers_discriminate_variants() {
    assert!(TaskType::Capture.is_capture());
    assert!(!TaskType::Capture.is_deploy());
    assert!(TaskType::Reboot.is_reboot());
    assert!(!TaskType::Reboot.is_multicast());
}

#[test]
fn task_constructor_sets_all_fields() {
    let t = Task::new(7, TaskType::Deploy, Some(3));
    assert_eq!(t.id, 7);
    assert_eq!(t.task_type, TaskType::Deploy);
    assert_eq!(t.image_id, Some(3));
}

#[test]
fn server_event_from_task_and_from_i64_pick_the_right_variant() {
    let t = Task::new(1, TaskType::Reboot, None);
    assert!(matches!(ServerEvent::from(t), ServerEvent::Task(inner) if inner.id == 1));
    assert!(matches!(ServerEvent::from(42i64), ServerEvent::Cancel(42)));
}
