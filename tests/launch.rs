use rotmg_stash::launch::{
    build_launch_argument, LaunchAction, LaunchError, LaunchEvent, LaunchSession, LaunchStage,
};
use rotmg_stash::text::join_path;
use rotmg_stash::token::{AccessTokenResponse, AuthError};

fn token() -> AccessTokenResponse {
    AccessTokenResponse {
        access_token: "abc123".to_string(),
        timestamp: "1700000000".to_string(),
        expiration: "1700003600".to_string(),
    }
}

#[test]
fn launch_argument_exact() {
    assert_eq!(
        build_launch_argument("user@example.com", &token()),
        "data:{platform:Deca,guid:dXNlckBleGFtcGxlLmNvbQ==,token:YWJjMTIz,tokenTimestamp:MTcwMDAwMDAwMA==,tokenExpiration:MTcwMDAwMzYwMA==,env:4}"
    );
}

#[test]
fn launch_argument_is_deterministic() {
    let a = build_launch_argument("steamworks:12345", &token());
    let b = build_launch_argument("steamworks:12345", &token());
    assert_eq!(a, b);
}

#[test]
fn launch_argument_padding_and_empty_fields() {
    let t = AccessTokenResponse {
        access_token: String::new(),
        timestamp: "a".to_string(),
        expiration: "é".to_string(),
    };
    assert_eq!(
        build_launch_argument("ab", &t),
        "data:{platform:Deca,guid:YWI=,token:,tokenTimestamp:YQ==,tokenExpiration:w6k=,env:4}"
    );
}

#[test]
fn paths_are_joined() {
    assert_eq!(join_path("C:\\Games\\RotMG", "RotMG Exalt.exe"), "C:\\Games\\RotMG/RotMG Exalt.exe");
    assert_eq!(join_path("/opt/game/", "RotMG Exalt.exe"), "/opt/game/RotMG Exalt.exe");
    assert_eq!(join_path("", "RotMG Exalt.exe"), "RotMG Exalt.exe");
}

#[test]
fn missing_executable_never_spawns() {
    let mut s = LaunchSession::new("/nowhere", "user@example.com");
    match s.step(LaunchEvent::ExecutableChecked(false)) {
        LaunchAction::Finish(Err(e @ LaunchError::ExecutableNotFound(_))) => {
            assert_eq!(e.message(), "Exalt executable not found at: /nowhere/RotMG Exalt.exe")
        }
        _ => panic!("expected ExecutableNotFound"),
    }
    assert_eq!(s.stage, LaunchStage::Done);
    assert!(matches!(s.step(LaunchEvent::TokenReceived(Ok(token()))), LaunchAction::Ignore));
    assert!(matches!(s.step(LaunchEvent::SpawnFinished(Ok(()))), LaunchAction::Ignore));
    assert_eq!(s.stage, LaunchStage::Done);
}

#[test]
fn launch_runs_to_success() {
    let mut s = LaunchSession::new("/opt/game", "user@example.com");
    assert_eq!(s.executable_path(), "/opt/game/RotMG Exalt.exe");
    assert!(matches!(s.step(LaunchEvent::ExecutableChecked(true)), LaunchAction::FetchToken));
    match s.step(LaunchEvent::TokenReceived(Ok(token()))) {
        LaunchAction::Spawn(r) => {
            assert_eq!(r.program, "/opt/game/RotMG Exalt.exe");
            assert_eq!(r.working_dir, "/opt/game");
            assert_eq!(r.argument, build_launch_argument("user@example.com", &token()));
        }
        _ => panic!("expected a spawn"),
    }
    match s.step(LaunchEvent::SpawnFinished(Ok(()))) {
        LaunchAction::Finish(Ok(m)) => assert_eq!(m, "Successfully launched Exalt"),
        _ => panic!("expected success"),
    }
    assert_eq!(s.stage, LaunchStage::Done);
}

#[test]
fn launch_reports_token_failure() {
    let mut s = LaunchSession::new("/opt/game", "g");
    s.step(LaunchEvent::ExecutableChecked(true));
    match s.step(LaunchEvent::TokenReceived(Err(AuthError::TokenNotFound))) {
        LaunchAction::Finish(Err(e @ LaunchError::Auth(AuthError::TokenNotFound))) => {
            assert_eq!(e.message(), "Access token not found in response")
        }
        _ => panic!("expected the token error"),
    }
}

#[test]
fn launch_reports_spawn_failure() {
    let mut s = LaunchSession::new("/opt/game", "g");
    s.step(LaunchEvent::ExecutableChecked(true));
    s.step(LaunchEvent::TokenReceived(Ok(token())));
    match s.step(LaunchEvent::SpawnFinished(Err("permission denied".to_string()))) {
        LaunchAction::Finish(Err(e @ LaunchError::SpawnFailed(_))) => {
            assert_eq!(e.message(), "Failed to launch Exalt: permission denied")
        }
        _ => panic!("expected the spawn error"),
    }
}

#[test]
fn launch_without_directory_is_invalid_path() {
    let mut s = LaunchSession::new("", "g");
    s.step(LaunchEvent::ExecutableChecked(true));
    match s.step(LaunchEvent::TokenReceived(Ok(token()))) {
        LaunchAction::Finish(Err(e @ LaunchError::InvalidPath)) => {
            assert_eq!(e.message(), "Invalid path")
        }
        _ => panic!("expected InvalidPath"),
    }
}

#[test]
fn out_of_order_events_are_ignored() {
    let mut s = LaunchSession::new("/opt/game", "g");
    assert!(matches!(s.step(LaunchEvent::SpawnFinished(Ok(()))), LaunchAction::Ignore));
    assert_eq!(s.stage, LaunchStage::CheckExecutable);
}
