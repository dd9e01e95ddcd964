use shuttle_runtime::lifecycle::{shutdown_result, AxumWasm, ControllerState, LifecycleError};

fn fresh() -> AxumWasm<&'static str, u32, char> {
    AxumWasm::new(7u32)
}

#[test]
fn new_controller_is_unloaded() {
    let c = fresh();
    assert_eq!(c.state(), ControllerState::Unloaded);
}

#[test]
fn subscribe_twice_fails_the_second_time() {
    let mut c = fresh();
    assert_eq!(c.subscribe_logs(), Ok(7));
    assert_eq!(c.subscribe_logs(), Err(LifecycleError::AlreadySubscribed));
}

#[test]
fn start_before_load_is_not_loaded() {
    let mut c = fresh();
    assert_eq!(c.start('k'), Err(LifecycleError::NotLoaded));
    assert_eq!(c.state(), ControllerState::Unloaded);
}

#[test]
fn stop_before_start_is_not_running() {
    let mut c = fresh();
    assert_eq!(c.stop(), Err(LifecycleError::NotRunning));
    assert_eq!(c.load(Ok("module")), Ok(()));
    assert_eq!(c.stop(), Err(LifecycleError::NotRunning));
    assert_eq!(c.state(), ControllerState::Loaded);
}

#[test]
fn failed_compile_keeps_state() {
    let mut c = fresh();
    assert_eq!(
        c.load(Err("bad magic".to_string())),
        Err(LifecycleError::Compile("bad magic".to_string()))
    );
    assert_eq!(c.state(), ControllerState::Unloaded);
    assert_eq!(c.start('k'), Err(LifecycleError::NotLoaded));
}

#[test]
fn full_lifecycle() {
    let mut c = fresh();
    assert_eq!(c.load(Ok("first")), Ok(()));
    assert_eq!(c.load(Ok("second")), Ok(()));
    assert_eq!(c.state(), ControllerState::Loaded);
    assert_eq!(c.start('k'), Ok("second"));
    assert_eq!(c.state(), ControllerState::Running);
    assert_eq!(c.start('j'), Err(LifecycleError::NotLoaded));
    assert_eq!(c.load(Ok("third")), Err(LifecycleError::AlreadyStarted));
    assert_eq!(c.stop(), Ok('k'));
    assert_eq!(c.state(), ControllerState::Stopped);
    assert_eq!(c.stop(), Err(LifecycleError::NotRunning));
    assert_eq!(c.load(Ok("fourth")), Err(LifecycleError::AlreadyStarted));
}

#[test]
fn shutdown_outcome() {
    assert_eq!(shutdown_result(true), Ok(()));
    assert_eq!(shutdown_result(false), Err(LifecycleError::ShutdownFailed));
}

#[test]
fn refused_start_keeps_running_server_signal() {
    let mut c = fresh();
    assert_eq!(c.load(Ok("module")), Ok(()));
    assert_eq!(c.start('a'), Ok("module"));
    assert_eq!(c.start('b'), Err(LifecycleError::NotLoaded));
    assert_eq!(c.subscribe_logs(), Ok(7));
    assert_eq!(c.stop(), Ok('a'));
}
