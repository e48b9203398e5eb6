use edgezone_node::errors::{parse_id, ErrorKind};
use edgezone_node::messages::{
    deployment_dir, env_file, marker_path, marker_pid, pid_file, pid_marker, project_root,
};
use edgezone_node::text::{i64_text, parse_i32, trim, u64_text};

#[test]
fn decimal_text() {
    assert_eq!(u64_text(0), "0");
    assert_eq!(u64_text(4242), "4242");
    assert_eq!(u64_text(u64::MAX), "18446744073709551615");
    assert_eq!(i64_text(-15), "-15");
    assert_eq!(i64_text(i64::MIN), "-9223372036854775808");
    assert_eq!(i64_text(i64::MAX), "9223372036854775807");
}

#[test]
fn trims_white_space() {
    assert_eq!(trim("  1234\n"), "1234");
    assert_eq!(trim("\t\u{a0}a b\u{3000}"), "a b");
    assert_eq!(trim("   "), "");
    assert_eq!(trim(""), "");
}

#[test]
fn parses_i32_as_std_does() {
    for s in ["0", "42", "+7", "-7", "2147483647", "-2147483648", "007"] {
        assert_eq!(parse_i32(s), s.parse::<i32>().ok());
    }
    for s in ["", "-", "+", "2147483648", "-2147483649", "12a", " 1", "99999999999999999999", "--1"] {
        assert_eq!(parse_i32(s), None);
        assert!(s.parse::<i32>().is_err());
    }
}

#[test]
fn layout_paths() {
    assert_eq!(project_root("web"), "projects/web");
    assert_eq!(deployment_dir("web", 31), "projects/web/31");
    assert_eq!(pid_file("projects/web/31"), "projects/web/31/pid");
    assert_eq!(env_file("projects/web/31"), "projects/web/31/.env");
    assert_eq!(marker_path("web", 31), "projects/web/31/pid");
}

#[test]
fn pid_marker_round_trip() {
    assert_eq!(pid_marker(31337), "31337");
    assert_eq!(marker_pid(&pid_marker(31337)), Some(31337));
    assert_eq!(marker_pid(" 77\n"), Some(77));
    assert_eq!(marker_pid("garbage"), None);
    assert_eq!(marker_pid(""), None);
}

#[test]
fn request_ids() {
    assert_eq!(parse_id("12"), Ok(12));
    assert_eq!(parse_id("abc"), Err(ErrorKind::BadRequest));
    assert_eq!(ErrorKind::BadRequest.http_status(), 400);
    assert_eq!(ErrorKind::NotFound.http_status(), 404);
    assert_eq!(ErrorKind::Database.http_status(), 500);
    assert_eq!(ErrorKind::Internal.http_status(), 500);
}
