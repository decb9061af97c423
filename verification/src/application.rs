//! Application configuration and the login/close decision steps: given the
//! transport's authorization state, which action the surrounding loop must
//! take next. The loop itself (prompts, network) lives outside the library.

use vstd::prelude::*;

verus! {

/// The credentials and storage location the transport session is opened with.
#[derive(Clone, Debug)]
pub struct Application {
    pub app_id: i32,
    pub app_hash: String,
    pub database_name: String,
}

impl Application {
    pub fn new(app_id: i32, app_hash: &str, database_directory: &str) -> (r: Application)
        ensures
            r.app_id == app_id,
            r.app_hash@ == app_hash@,
            r.database_name@ == database_directory@,
    {
        Application {
            app_id,
            app_hash: app_hash.to_owned(),
            database_name: database_directory.to_owned(),
        }
    }
}

/// The transport's authorization state, as far as the login loop reads it.
#[derive(Clone, Copy, Debug, PartialEq, Eq, Structural)]
pub enum AuthState {
    WaitParameters,
    WaitPhoneNumber,
    WaitCode,
    WaitPassword,
    Ready,
    Closed,
    Other,
}

/// What the login loop does in response to an authorization state.
#[derive(Clone, Copy, Debug, PartialEq, Eq, Structural)]
pub enum AuthAction {
    SetParameters,
    AskPhoneNumber,
    AskCode,
    AskPassword,
    Done,
    Wait,
}

/// The next login action for an authorization state.
pub open spec fn spec_login_step(state: AuthState) -> AuthAction {
    match state {
        AuthState::WaitParameters => AuthAction::SetParameters,
        AuthState::WaitPhoneNumber => AuthAction::AskPhoneNumber,
        AuthState::WaitCode => AuthAction::AskCode,
        AuthState::WaitPassword => AuthAction::AskPassword,
        AuthState::Ready => AuthAction::Done,
        AuthState::Closed => AuthAction::Wait,
        AuthState::Other => AuthAction::Wait,
    }
}

pub fn login_step(state: AuthState) -> (r: AuthAction)
    ensures
        r == spec_login_step(state),
{
    match state {
        AuthState::WaitParameters => AuthAction::SetParameters,
        AuthState::WaitPhoneNumber => AuthAction::AskPhoneNumber,
        AuthState::WaitCode => AuthAction::AskCode,
        AuthState::WaitPassword => AuthAction::AskPassword,
        AuthState::Ready => AuthAction::Done,
        AuthState::Closed => AuthAction::Wait,
        AuthState::Other => AuthAction::Wait,
    }
}

/// During connection close, the loop is done exactly when the transport
/// reports the closed state.
pub fn close_done(state: AuthState) -> (r: bool)
    ensures
        r == (state is Closed),
{
    match state {
        AuthState::Closed => true,
        _ => false,
    }
}

} // verus!
