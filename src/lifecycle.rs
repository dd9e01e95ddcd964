use vstd::prelude::*;

verus! {

/// The lifecycle of one guest deployment.
#[derive(Clone, Copy, Debug, PartialEq, Eq, Structural)]
pub enum ControllerState {
    Unloaded,
    Loaded,
    Running,
    Stopped,
}

/// Misuse of the control plane, or a module that could not be compiled.
#[derive(Debug, PartialEq, Eq)]
pub enum LifecycleError {
    /// The module could not be compiled; the message says why.
    Compile(String),
    /// `load` was called after the service was started.
    AlreadyStarted,
    /// `start` was called while no module is stored.
    NotLoaded,
    /// `stop` was called while nothing is running.
    NotRunning,
    /// The log stream was already handed out.
    AlreadySubscribed,
    /// The stop signal could not reach the running server.
    ShutdownFailed,
}

/// What a caller can observe of a controller.
pub struct ControllerView {
    pub state: ControllerState,
    /// The log stream has been handed out.
    pub subscribed: bool,
}

pub open spec fn load_spec(v: ControllerView, compiled_ok: bool) -> Result<ControllerView, ()> {
    if v.state == ControllerState::Running || v.state == ControllerState::Stopped || !compiled_ok {
        Err(())
    } else {
        Ok(ControllerView { state: ControllerState::Loaded, subscribed: v.subscribed })
    }
}

pub open spec fn start_spec(v: ControllerView) -> Result<ControllerView, LifecycleError> {
    if v.state == ControllerState::Loaded {
        Ok(ControllerView { state: ControllerState::Running, subscribed: v.subscribed })
    } else {
        Err(LifecycleError::NotLoaded)
    }
}

pub open spec fn subscribe_spec(v: ControllerView) -> Result<ControllerView, LifecycleError> {
    if v.subscribed {
        Err(LifecycleError::AlreadySubscribed)
    } else {
        Ok(ControllerView { state: v.state, subscribed: true })
    }
}

pub open spec fn stop_spec(v: ControllerView) -> Result<ControllerView, LifecycleError> {
    if v.state == ControllerState::Running {
        Ok(ControllerView { state: ControllerState::Stopped, subscribed: v.subscribed })
    } else {
        Err(LifecycleError::NotRunning)
    }
}

/// The controller of one guest deployment. `M` is the compiled module, `R` the
/// receiving end of the log queue, `K` the sender of the stop signal. Each of
/// the three is held in a slot that is emptied exactly once.
pub struct AxumWasm<M, R, K> {
    state: ControllerState,
    module: Option<M>,
    logs_rx: Option<R>,
    kill_tx: Option<K>,
}

impl<M, R, K> View for AxumWasm<M, R, K> {
    type V = ControllerView;

    closed spec fn view(&self) -> ControllerView {
        ControllerView { state: self.state, subscribed: self.logs_rx.is_none() }
    }
}

impl<M, R, K> AxumWasm<M, R, K> {
    /// A module is stored exactly while the controller is loaded, and a stop
    /// signal exactly while it runs.
    pub closed spec fn wf(&self) -> bool {
        &&& (self.module.is_some() <==> self.state == ControllerState::Loaded)
        &&& (self.kill_tx.is_some() <==> self.state == ControllerState::Running)
    }

    /// The module that `start` hands out next.
    pub closed spec fn stored_module(&self) -> Option<M> {
        self.module
    }

    /// The log receiver that `subscribe_logs` hands out.
    pub closed spec fn pending_logs(&self) -> Option<R> {
        self.logs_rx
    }

    /// The stop signal that `stop` hands out.
    pub closed spec fn pending_kill(&self) -> Option<K> {
        self.kill_tx
    }

    /// A controller with nothing loaded, holding the receiving end of the log queue.
    pub fn new(logs_rx: R) -> (r: Self)
        ensures
            r.wf(),
            r@.state == ControllerState::Unloaded,
            !r@.subscribed,
            r.pending_logs() == Some(logs_rx),
    {
        AxumWasm { state: ControllerState::Unloaded, module: None, logs_rx: Some(logs_rx), kill_tx: None }
    }

    pub fn state(&self) -> (r: ControllerState)
        ensures
            r == self@.state,
    {
        self.state
    }

    /// Stores the result of compiling a module, replacing any module stored
    /// before. Refused once the service has been started.
    pub fn load(&mut self, compiled: Result<M, String>) -> (r: Result<(), LifecycleError>)
        requires
            old(self).wf(),
        ensures
            final(self).wf(),
            final(self).pending_logs() == old(self).pending_logs(),
            final(self).pending_kill() == old(self).pending_kill(),
            match load_spec(old(self)@, compiled is Ok) {
                Ok(v) => {
                    &&& r is Ok
                    &&& final(self)@ == v
                    &&& final(self).stored_module() == Some(compiled->Ok_0)
                },
                Err(_) => {
                    &&& final(self)@ == old(self)@
                    &&& final(self).stored_module() == old(self).stored_module()
                    &&& (old(self)@.state == ControllerState::Running || old(self)@.state
                        == ControllerState::Stopped) ==> r == Err::<(), _>(LifecycleError::AlreadyStarted)
                    &&& !(old(self)@.state == ControllerState::Running || old(self)@.state
                        == ControllerState::Stopped) ==> r == Err::<(), _>(LifecycleError::Compile(compiled->Err_0))
                },
            },
    {
        match self.state {
            ControllerState::Running | ControllerState::Stopped => Err(LifecycleError::AlreadyStarted),
            _ => match compiled {
                Ok(m) => {
                    self.module = Some(m);
                    self.state = ControllerState::Loaded;
                    Ok(())
                },
                Err(msg) => Err(LifecycleError::Compile(msg)),
            },
        }
    }

    /// Takes the stored module out to serve it, and keeps the stop signal of
    /// the server that will run it.
    pub fn start(&mut self, kill_tx: K) -> (r: Result<M, LifecycleError>)
        requires
            old(self).wf(),
        ensures
            final(self).wf(),
            final(self).pending_logs() == old(self).pending_logs(),
            match start_spec(old(self)@) {
                Ok(v) => {
                    &&& r == Ok::<M, LifecycleError>(old(self).stored_module()->Some_0)
                    &&& final(self)@ == v
                    &&& final(self).stored_module() is None
                    &&& final(self).pending_kill() == Some(kill_tx)
                },
                Err(e) => {
                    &&& r == Err::<M, _>(e)
                    &&& final(self)@ == old(self)@
                    &&& final(self).stored_module() == old(self).stored_module()
                    &&& final(self).pending_kill() == old(self).pending_kill()
                },
            },
    {
        if self.state == ControllerState::Loaded {
            let m = self.module.take();
            match m {
                Some(m) => {
                    self.kill_tx = Some(kill_tx);
                    self.state = ControllerState::Running;
                    Ok(m)
                },
                None => Err(LifecycleError::NotLoaded),
            }
        } else {
            Err(LifecycleError::NotLoaded)
        }
    }

    /// Hands out the receiving end of the log queue; only the first call succeeds.
    pub fn subscribe_logs(&mut self) -> (r: Result<R, LifecycleError>)
        requires
            old(self).wf(),
        ensures
            final(self).wf(),
            final(self).stored_module() == old(self).stored_module(),
            final(self).pending_kill() == old(self).pending_kill(),
            match subscribe_spec(old(self)@) {
                Ok(v) => r == Ok::<R, LifecycleError>(old(self).pending_logs()->Some_0) && final(self)@ == v,
                Err(e) => r == Err::<R, _>(e) && final(self)@ == old(self)@,
            },
    {
        match self.logs_rx.take() {
            Some(rx) => Ok(rx),
            None => Err(LifecycleError::AlreadySubscribed),
        }
    }

    /// Takes out the stop signal of the running server, which the caller then
    /// delivers.
    pub fn stop(&mut self) -> (r: Result<K, LifecycleError>)
        requires
            old(self).wf(),
        ensures
            final(self).wf(),
            final(self).pending_logs() == old(self).pending_logs(),
            final(self).stored_module() == old(self).stored_module(),
            match stop_spec(old(self)@) {
                Ok(v) => {
                    &&& r == Ok::<K, LifecycleError>(old(self).pending_kill()->Some_0)
                    &&& final(self)@ == v
                    &&& final(self).pending_kill() is None
                },
                Err(e) => {
                    &&& r == Err::<K, _>(e)
                    &&& final(self)@ == old(self)@
                    &&& final(self).pending_kill() == old(self).pending_kill()
                },
            },
    {
        if self.state == ControllerState::Running {
            match self.kill_tx.take() {
                Some(k) => {
                    self.state = ControllerState::Stopped;
                    Ok(k)
                },
                None => Err(LifecycleError::NotRunning),
            }
        } else {
            Err(LifecycleError::NotRunning)
        }
    }
}

/// The outcome of a stop, given whether its signal reached the server.
pub fn shutdown_result(delivered: bool) -> (r: Result<(), LifecycleError>)
    ensures
        delivered <==> r is Ok,
        !delivered ==> r == Err::<(), _>(LifecycleError::ShutdownFailed),
{
    if delivered {
        Ok(())
    } else {
        Err(LifecycleError::ShutdownFailed)
    }
}

/// The log stream is handed out once: on a fresh controller the first
/// subscription succeeds and the one after it fails as already subscribed.
pub proof fn lemma_subscribe_once(v: ControllerView)
    requires
        !v.subscribed,
    ensures
        subscribe_spec(v) is Ok,
        subscribe_spec(subscribe_spec(v)->Ok_0) == Err::<ControllerView, _>(LifecycleError::AlreadySubscribed),
{
}

/// Starting with no module loaded fails as not loaded, and stopping before a
/// start fails as not running; neither changes the controller.
pub proof fn lemma_misuse_rejected(v: ControllerView)
    ensures
        v.state == ControllerState::Unloaded ==> start_spec(v) == Err::<ControllerView, _>(LifecycleError::NotLoaded),
        (v.state == ControllerState::Unloaded || v.state == ControllerState::Loaded) ==> stop_spec(v)
            == Err::<ControllerView, _>(LifecycleError::NotRunning),
{
}

/// A control-plane call, as far as the controller's state is concerned.
pub enum Call {
    /// A load whose module compiled, or did not.
    Load(bool),
    Start,
    SubscribeLogs,
    Stop,
}

pub open spec fn after_call(v: ControllerView, c: Call) -> ControllerView {
    match c {
        Call::Load(ok) => match load_spec(v, ok) {
            Ok(w) => w,
            Err(_) => v,
        },
        Call::Start => match start_spec(v) {
            Ok(w) => w,
            Err(_) => v,
        },
        Call::SubscribeLogs => match subscribe_spec(v) {
            Ok(w) => w,
            Err(_) => v,
        },
        Call::Stop => match stop_spec(v) {
            Ok(w) => w,
            Err(_) => v,
        },
    }
}

/// The controller after a sequence of calls.
pub open spec fn after_calls(v: ControllerView, calls: Seq<Call>) -> ControllerView
    decreases calls.len(),
{
    if calls.len() == 0 {
        v
    } else {
        after_calls(after_call(v, calls[0]), calls.drop_first())
    }
}

/// Whatever calls an unloaded controller receives, as long as no load among
/// them succeeds it stays unloaded, so a start then fails as not loaded and a
/// stop as not running.
pub proof fn lemma_unloaded_until_loaded(v: ControllerView, calls: Seq<Call>)
    requires
        v.state == ControllerState::Unloaded,
        forall|i: int| 0 <= i < calls.len() ==> calls[i] != Call::Load(true),
    ensures
        after_calls(v, calls).state == ControllerState::Unloaded,
        start_spec(after_calls(v, calls)) == Err::<ControllerView, _>(LifecycleError::NotLoaded),
        stop_spec(after_calls(v, calls)) == Err::<ControllerView, _>(LifecycleError::NotRunning),
    decreases calls.len(),
{
    if calls.len() > 0 {
        let rest = calls.drop_first();
        assert forall|i: int| 0 <= i < rest.len() implies rest[i] != Call::Load(true) by {
            assert(rest[i] == calls[i + 1]);
        }
        assert(calls[0] != Call::Load(true));
        lemma_unloaded_until_loaded(after_call(v, calls[0]), rest);
    }
}

} // verus!
