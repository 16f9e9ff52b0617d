use mario::connector::{check_status, inspect_path, is_success_status, DockerAPIError, ContainerState, INFO_PATH, LIST_CONTAINERS_PATH};

#[test]
fn successes_pass() {
    assert!(check_status(200, "x").is_ok());
    assert!(check_status(299, "x").is_ok());
    assert!(is_success_status(204));
    assert!(!is_success_status(199));
    assert!(!is_success_status(300));
}

#[test]
fn other_statuses_are_reported_as_displayed() {
    match check_status(404, "failed to list containers") {
        Err(DockerAPIError::InvalidApiResponse { status_code, message }) => {
            assert_eq!(status_code, "404 Not Found");
            assert_eq!(message, "failed to list containers");
        }
        _ => panic!("expected an invalid response"),
    }
    match check_status(599, "failed to inspect container") {
        Err(DockerAPIError::InvalidApiResponse { status_code, .. }) => {
            assert_eq!(status_code, "599 <unknown status code>");
        }
        _ => panic!("expected an invalid response"),
    }
}

#[test]
fn paths() {
    assert_eq!(inspect_path("abc123"), "/containers/abc123/json");
    assert_eq!(INFO_PATH, "/info");
    assert_eq!(LIST_CONTAINERS_PATH, "/containers/json");
    assert_eq!(ContainerState::default().pid, 0);
}
