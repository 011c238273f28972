use launcher_core::startup::{launch_step, startup_decision, LaunchEvent, LaunchState, StartupCheck};

#[test]
fn missing_backend_is_fatal() {
    assert_eq!(startup_decision(false, true), StartupCheck::MissingBackend);
    assert_eq!(startup_decision(false, false), StartupCheck::MissingBackend);
}

#[test]
fn missing_index_is_fatal() {
    assert_eq!(startup_decision(true, false), StartupCheck::MissingIndex);
}

#[test]
fn both_files_present_proceeds() {
    assert_eq!(startup_decision(true, true), StartupCheck::Proceed);
}

#[test]
fn missing_backend_aborts_before_ports() {
    let s = launch_step(
        LaunchState::Init,
        LaunchEvent::FilesChecked { backend_present: false, index_present: true },
    );
    assert_eq!(s, LaunchState::Aborted);
    // Whatever is observed later, the machine never grants port binding.
    let s = launch_step(s, LaunchEvent::PortsReady { rpc: 10001, ui: 10000 });
    assert_eq!(s, LaunchState::Aborted);
}

#[test]
fn happy_path_reaches_serving() {
    let s = launch_step(
        LaunchState::Init,
        LaunchEvent::FilesChecked { backend_present: true, index_present: true },
    );
    assert_eq!(s, LaunchState::Verified);
    let s = launch_step(s, LaunchEvent::PortsReady { rpc: 10001, ui: 10000 });
    assert_eq!(s, LaunchState::Serving);
}

#[test]
fn colliding_ports_abort() {
    let s = launch_step(
        LaunchState::Init,
        LaunchEvent::FilesChecked { backend_present: true, index_present: true },
    );
    let s = launch_step(s, LaunchEvent::PortsReady { rpc: 10000, ui: 10000 });
    assert_eq!(s, LaunchState::Aborted);
}

#[test]
fn ports_before_checks_abort() {
    let s = launch_step(LaunchState::Init, LaunchEvent::PortsReady { rpc: 1, ui: 2 });
    assert_eq!(s, LaunchState::Aborted);
}
