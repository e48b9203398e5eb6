use edgezone_node::records::{Deployment, Info};
use edgezone_node::registry::Registry;
use edgezone_node::status::Status;

#[test]
fn status_codes_round_trip() {
    let all = [
        Status::Pending,
        Status::Installing,
        Status::Building,
        Status::Running,
        Status::Failed,
        Status::Stopped,
    ];
    for (i, s) in all.iter().enumerate() {
        assert_eq!(s.code(), i as i32);
        assert_eq!(Status::from_code(i as i32), Some(*s));
    }
    assert_eq!(Status::from_code(6), None);
    assert_eq!(Status::from_code(-1), None);
}

#[test]
fn transition_table() {
    assert!(Status::Pending.can_move_to(Status::Installing));
    assert!(Status::Pending.can_move_to(Status::Running));
    assert!(Status::Installing.can_move_to(Status::Building));
    assert!(Status::Building.can_move_to(Status::Running));
    assert!(Status::Running.can_move_to(Status::Stopped));
    assert!(Status::Running.can_move_to(Status::Failed));
    assert!(!Status::Running.can_move_to(Status::Installing));
    assert!(!Status::Building.can_move_to(Status::Installing));
    assert!(!Status::Failed.can_move_to(Status::Running));
    assert!(!Status::Stopped.can_move_to(Status::Pending));
    assert!(Status::Building.is_active());
    assert!(!Status::Stopped.is_active());
    assert!(!Status::Failed.is_active());
}

#[test]
fn requested_deployment_record() {
    let mut d = Deployment::requested(8);
    assert_eq!(d.id, Some(0));
    assert_eq!(d.project_id, 8);
    assert_eq!(d.status, 0);
    assert_eq!(d.logs, "Starting deployment...\n");
    d.append_log("Cloning x into y\n");
    assert_eq!(d.logs, "Starting deployment...\nCloning x into y\n");
}

#[test]
fn info_record() {
    let i = Info::new("n".to_string(), "1.0".to_string(), "1.80".to_string(), "linux".to_string(), "x86_64".to_string());
    assert_eq!(i.os, "linux");
    assert_eq!(i.version, "1.0");
}

#[test]
fn back_to_back_deploys_leave_one_active() {
    let mut r = Registry::new();
    assert_eq!(r.supersede(1, 10), None);
    assert_eq!(r.supersede(2, 20), None);
    assert_eq!(r.supersede(1, 11), Some(10));
    assert_eq!(r.active(1), Some(11));
    assert_eq!(r.active(2), Some(20));
    assert!(!r.release(1, 10));
    assert_eq!(r.active(1), Some(11));
    assert!(r.release(1, 11));
    assert_eq!(r.active(1), None);
    assert_eq!(r.active(2), Some(20));
    assert!(!r.release(3, 1));
}
