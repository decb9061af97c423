use alter::application::{close_done, login_step, Application, AuthAction, AuthState};
use alter::media::largest_by_area;

#[test]
fn application_keeps_its_credentials() {
    let app = Application::new(12345, "abcdef", "tg-db");
    assert_eq!(app.app_id, 12345);
    assert_eq!(app.app_hash, "abcdef");
    assert_eq!(app.database_name, "tg-db");
}

#[test]
fn login_steps_follow_authorization_state() {
    assert_eq!(login_step(AuthState::WaitParameters), AuthAction::SetParameters);
    assert_eq!(login_step(AuthState::WaitPhoneNumber), AuthAction::AskPhoneNumber);
    assert_eq!(login_step(AuthState::WaitCode), AuthAction::AskCode);
    assert_eq!(login_step(AuthState::WaitPassword), AuthAction::AskPassword);
    assert_eq!(login_step(AuthState::Ready), AuthAction::Done);
    assert_eq!(login_step(AuthState::Closed), AuthAction::Wait);
    assert_eq!(login_step(AuthState::Other), AuthAction::Wait);
}

#[test]
fn close_waits_for_closed() {
    assert!(close_done(AuthState::Closed));
    assert!(!close_done(AuthState::Ready));
    assert!(!close_done(AuthState::Other));
}

#[test]
fn largest_rendition_is_picked() {
    let sizes = vec![(100, 100), (800, 600), (200, 300)];
    assert_eq!(largest_by_area(&sizes), Some(1));
}

#[test]
fn last_of_equal_renditions_is_picked() {
    let sizes = vec![(600, 800), (800, 600), (10, 10)];
    assert_eq!(largest_by_area(&sizes), Some(1));
}

#[test]
fn no_renditions_no_pick() {
    assert_eq!(largest_by_area(&Vec::new()), None);
}
