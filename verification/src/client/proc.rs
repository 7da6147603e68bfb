//! The client processor, which decides what sockets are kept open to its backends.
use crate::backoff::{clamped_base, clamped_max, Backoff};
use crate::client::pool::{ActionView, EndedTask, PoolView, SocketAction, SocketPool};
use crate::error::HyperProcError;
use crate::io::{
    http_alpn, normalized_target, seq_view, TargetSetting,
    TargetView,
};
use vstd::prelude::*;

verus! {

/// Settings of the client processor.
#[derive(Debug)]
pub struct HyperClientSettings {
    /// Name of the service the sockets serve.
    pub service_name: String,
    /// Backends to connect to.
    pub backends: Vec<TargetSetting>,
    /// Number of sockets per backend, at least one.
    pub nb_socket: u32,
    /// Time given to an HTTP message, in milliseconds.
    pub http_timeout: u64,
    /// Delay before a socket that just failed reconnects, in milliseconds.
    pub reconnect_delay: u64,
    /// Longest delay between two attempts of a socket to connect, in milliseconds.
    pub max_reconnect_delay: u64,
}

/// What the settings of the client processor stand for.
pub struct ClientView {
    /// Name of the service the sockets serve.
    pub service_name: Seq<char>,
    /// Backends to connect to.
    pub backends: Seq<TargetView>,
    /// Number of sockets per backend as configured.
    pub nb_socket: u32,
    /// Time given to an HTTP message, in milliseconds.
    pub http_timeout: u64,
    /// Delay before a socket that just failed reconnects, in milliseconds.
    pub reconnect_delay: u64,
    /// Longest delay between two attempts of a socket to connect, in milliseconds.
    pub max_reconnect_delay: u64,
}

impl View for HyperClientSettings {
    type V = ClientView;

    open spec fn view(&self) -> ClientView {
        ClientView {
            service_name: self.service_name@,
            backends: seq_view(self.backends@),
            nb_socket: self.nb_socket,
            http_timeout: self.http_timeout,
            reconnect_delay: self.reconnect_delay,
            max_reconnect_delay: self.max_reconnect_delay,
        }
    }
}

impl ClientView {
    /// Number of sockets kept open per backend: a client without socket serves nothing, so asking
    /// for none is asking for one.
    pub open spec fn sockets(self) -> u32 {
        if self.nb_socket == 0 {
            1
        } else {
            self.nb_socket
        }
    }

    /// The settings with HTTP/2 negotiated first on every SSL backend.
    pub open spec fn normalized(self) -> ClientView {
        ClientView {
            backends: self.backends.map_values(|backend: TargetView| normalized_target(backend)),
            ..self
        }
    }
}

/// The settings when only the service is named.
pub open spec fn default_client(service_name: Seq<char>) -> ClientView {
    ClientView {
        service_name,
        backends: Seq::empty(),
        nb_socket: 1,
        http_timeout: 5000,
        reconnect_delay: 500,
        max_reconnect_delay: 30000,
    }
}

impl Default for HyperClientSettings {
    fn default() -> (r: Self)
        ensures
            r@ == default_client("hyper"@),
    {
        let r = HyperClientSettings::new("hyper".to_owned());
        r
    }
}

impl Clone for HyperClientSettings {
    fn clone(&self) -> (r: Self)
        ensures
            r@ == self@,
    {
        let mut backends: Vec<TargetSetting> = Vec::new();
        let mut i: usize = 0;
        while i < self.backends.len()
            invariant
                i <= self.backends.len(),
                backends.len() == i,
                forall|j: int| 0 <= j < i ==> #[trigger] backends@[j]@ == self.backends@[j]@,
            decreases self.backends.len() - i,
        {
            backends.push(self.backends[i].clone());
            i += 1;
        }
        assert(seq_view(backends@) =~= seq_view(self.backends@));
        HyperClientSettings {
            service_name: self.service_name.clone(),
            backends,
            nb_socket: self.nb_socket,
            http_timeout: self.http_timeout,
            reconnect_delay: self.reconnect_delay,
            max_reconnect_delay: self.max_reconnect_delay,
        }
    }
}

impl HyperClientSettings {
    /// Settings that serve `service_name`, without backend yet.
    pub fn new(service_name: String) -> (r: HyperClientSettings)
        ensures
            r@ == default_client(service_name@),
    {
        let r = HyperClientSettings {
            service_name,
            backends: Vec::new(),
            nb_socket: 1,
            http_timeout: 5000,
            reconnect_delay: 500,
            max_reconnect_delay: 30000,
        };
        assert(r@.backends =~= Seq::empty());
        r
    }

    /// Add a backend after the ones there are.
    pub fn add_backend(&mut self, target: TargetSetting)
        ensures
            final(self)@ == (ClientView {
                backends: old(self)@.backends.push(target@),
                ..old(self)@
            }),
    {
        self.backends.push(target);
        assert(self@.backends =~= old(self)@.backends.push(target@));
    }

    /// Number of sockets kept open per backend, never zero.
    pub fn nb_socket(&self) -> (r: u32)
        ensures
            r == self@.sockets(),
    {
        if self.nb_socket == 0 {
            1
        } else {
            self.nb_socket
        }
    }

    /// Time given to an HTTP message, in milliseconds.
    pub fn http_timeout(&self) -> (r: u64)
        ensures
            r == self@.http_timeout,
    {
        self.http_timeout
    }

    /// How a socket spaces out its attempts to reach a backend that is down.
    pub fn backoff(&self) -> (r: Backoff)
        ensures
            r.wf(),
            r.spec_base() == clamped_base(self@.reconnect_delay, self@.max_reconnect_delay),
            r.spec_max() == clamped_max(self@.max_reconnect_delay),
    {
        Backoff::new(self.reconnect_delay, self.max_reconnect_delay)
    }

    /// Negotiate HTTP/2 first on every SSL backend.
    pub fn normalize_backends(&mut self)
        ensures
            final(self)@ == old(self)@.normalized(),
    {
        let ghost before = self.backends@;
        let mut i: usize = 0;
        while i < self.backends.len()
            invariant
                i <= self.backends.len(),
                self.backends.len() == before.len(),
                before == old(self).backends@,
                self.service_name == old(self).service_name,
                self.nb_socket == old(self).nb_socket,
                self.http_timeout == old(self).http_timeout,
                self.reconnect_delay == old(self).reconnect_delay,
                self.max_reconnect_delay == old(self).max_reconnect_delay,
                forall|j: int| 0 <= j < i ==> #[trigger] self.backends@[j]@ == normalized_target(before[j]@),
                forall|j: int| i <= j < before.len() ==> self.backends@[j] == before[j],
            decreases before.len() - i,
        {
            self.backends[i].set_alpn(http_alpn());
            i += 1;
        }
        assert(self@.backends =~= old(self)@.normalized().backends);
    }
}

/// What reaches the client processor.
#[derive(Debug)]
pub enum ClientEvent {
    /// The bus sent a new service table.
    Service,
    /// The configuration was read again, and gave settings or not.
    Config(Option<HyperClientSettings>),
    /// ProSA shuts down.
    Shutdown,
    /// The task of a socket came to its end, while ProSA is on its way out or not.
    Ended { ended: EndedTask, stopping: bool },
}

/// What the client processor stands for.
pub struct ClientProcView {
    /// Settings in force.
    pub settings: ClientView,
    /// Sockets.
    pub pool: PoolView,
    /// Whether the processor was told to stop.
    pub stopping: bool,
}

impl ClientProcView {
    /// The settings a reload brings in force, if it does.
    pub open spec fn reloaded(config: Option<HyperClientSettings>) -> Option<ClientView> {
        match config {
            Some(settings) => if settings@.backends.len() == 0 {
                None
            } else {
                Some(settings@.normalized())
            },
            None => None,
        }
    }

    /// The processor once it was started.
    pub open spec fn started(self) -> ClientProcView {
        let settings = self.settings.normalized();
        ClientProcView { settings, pool: self.pool.aligned(settings), ..self }
    }

    /// There are slot ids left for what the event asks.
    pub open spec fn expects(self, event: ClientEvent) -> bool {
        match event {
            ClientEvent::Config(config) => !self.stopping ==> {
                Self::reloaded(config) matches Some(settings) ==> self.pool.has_room(settings)
            },
            ClientEvent::Ended { ended, stopping } => self.stopping || self.pool.can_take_back(
                ended,
                self.settings,
                stopping,
            ),
            _ => true,
        }
    }

    /// The processor once an event reached it.
    pub open spec fn after(self, event: ClientEvent) -> ClientProcView {
        match event {
            ClientEvent::Service => self,
            ClientEvent::Config(config) => match Self::reloaded(config) {
                Some(settings) => if self.stopping {
                    self
                } else {
                    ClientProcView { settings, pool: self.pool.aligned(settings), ..self }
                },
                None => self,
            },
            ClientEvent::Shutdown => ClientProcView {
                pool: self.pool.stopped(),
                stopping: true,
                ..self
            },
            ClientEvent::Ended { ended, stopping } => ClientProcView {
                pool: if self.stopping {
                    self.pool.drained(ended)
                } else {
                    self.pool.taken_back(ended, self.settings, stopping)
                },
                ..self
            },
        }
    }

    /// What is asked of the sockets when an event reaches the processor.
    pub open spec fn actions(self, event: ClientEvent) -> Seq<ActionView> {
        match event {
            ClientEvent::Service => Seq::empty(),
            ClientEvent::Config(config) => match Self::reloaded(config) {
                Some(settings) => if self.stopping {
                    Seq::empty()
                } else {
                    self.pool.align_actions(settings)
                },
                None => Seq::empty(),
            },
            ClientEvent::Shutdown => self.pool.stop_actions(),
            ClientEvent::Ended { ended, stopping } => if self.stopping {
                match ended {
                    EndedTask::Ended { id } => seq![ActionView::Retire { id }],
                    EndedTask::Panicked { .. } => Seq::empty(),
                }
            } else {
                self.pool.take_back_actions(ended, self.settings, stopping)
            },
        }
    }
}

/// The client processor.
#[derive(Debug)]
pub struct HyperClientProc {
    settings: HyperClientSettings,
    pool: SocketPool,
    stopping: bool,
}

impl View for HyperClientProc {
    type V = ClientProcView;

    closed spec fn view(&self) -> ClientProcView {
        ClientProcView {
            settings: self.settings@,
            pool: self.pool@,
            stopping: self.stopping,
        }
    }
}

impl HyperClientProc {
    /// A processor without socket yet.
    pub fn new(settings: HyperClientSettings) -> (r: HyperClientProc)
        ensures
            r@ == (ClientProcView {
                settings: settings@,
                pool: PoolView::empty(),
                stopping: false,
            }),
    {
        HyperClientProc { settings, pool: SocketPool::new(), stopping: false }
    }

    /// Settings in force.
    pub fn settings(&self) -> (r: &HyperClientSettings)
        ensures
            r@ == self@.settings,
    {
        &self.settings
    }

    /// Sockets of the processor.
    pub fn pool(&self) -> (r: &SocketPool)
        ensures
            r@ == self@.pool,
    {
        &self.pool
    }

    /// Whether a reload brings settings in force: they need a backend, and the processor not to be
    /// stopping.
    pub fn takes(&self, settings: &HyperClientSettings) -> (r: bool)
        ensures
            r == (!self@.stopping && settings@.backends.len() > 0),
            r == (!self@.stopping && ClientProcView::reloaded(Some(*settings)) is Some),
    {
        !self.stopping && settings.backends.len() > 0
    }

    /// Open the sockets of the settings. A processor without backend can't start.
    pub fn start(&mut self) -> (r: Result<Vec<SocketAction>, HyperProcError>)
        requires
            old(self)@.pool.has_room(old(self)@.settings.normalized()),
        ensures
            match r {
                Ok(actions) => {
                    &&& old(self)@.settings.backends.len() > 0
                    &&& final(self)@ == old(self)@.started()
                    &&& seq_view(actions@) == old(self)@.pool.align_actions(
                        old(self)@.settings.normalized(),
                    )
                },
                Err(error) => {
                    &&& old(self)@.settings.backends.len() == 0
                    &&& final(self)@ == old(self)@
                    &&& error matches HyperProcError::Other(message) && message@
                        == "No backend configured for the Hyper client processor"@
                },
            },
    {
        if self.settings.backends.len() == 0 {
            return Err(
                HyperProcError::Other(
                    "No backend configured for the Hyper client processor".to_owned(),
                ),
            );
        }
        self.settings.normalize_backends();
        Ok(self.pool.align(&self.settings))
    }

    /// Take an event, and say what is asked of the sockets. A configuration that can't be read or
    /// that has no backend is ignored.
    pub fn step(&mut self, event: ClientEvent) -> (r: Vec<SocketAction>)
        requires
            old(self)@.expects(event),
        ensures
            final(self)@ == old(self)@.after(event),
            seq_view(r@) == old(self)@.actions(event),
    {
        match event {
            ClientEvent::Service => no_action(),
            ClientEvent::Config(config) => match config {
                Some(settings) => {
                    if !self.takes(&settings) {
                        return no_action();
                    }
                    let mut settings = settings;
                    settings.normalize_backends();
                    self.settings = settings;
                    self.pool.align(&self.settings)
                },
                None => no_action(),
            },
            ClientEvent::Shutdown => {
                self.stopping = true;
                self.pool.shutdown()
            },
            ClientEvent::Ended { ended, stopping } => if self.stopping {
                let mut r: Vec<SocketAction> = Vec::new();
                match self.pool.take_back_stopping(ended) {
                    Some(action) => r.push(action),
                    None => {},
                }
                assert(seq_view(r@) =~= old(self)@.actions(event));
                r
            } else {
                self.pool.take_back(ended, &self.settings, stopping)
            },
        }
    }

    /// Whether there are slot ids left for the sockets some settings ask for, once HTTP/2 is
    /// negotiated first on their SSL backends.
    fn has_room(&self, settings: &HyperClientSettings) -> (r: bool)
        ensures
            r == self@.pool.has_room(settings@.normalized()),
    {
        let mut normalized = settings.clone();
        normalized.normalize_backends();
        self.pool.has_room(&normalized)
    }

    /// Open the sockets of the settings, or do nothing when there are no slot ids left for them.
    pub fn try_start(&mut self) -> (r: Option<Result<Vec<SocketAction>, HyperProcError>>)
        ensures
            r is Some <==> old(self)@.pool.has_room(old(self)@.settings.normalized()),
            match r {
                Some(Ok(actions)) => {
                    &&& old(self)@.settings.backends.len() > 0
                    &&& final(self)@ == old(self)@.started()
                    &&& seq_view(actions@) == old(self)@.pool.align_actions(
                        old(self)@.settings.normalized(),
                    )
                },
                Some(Err(error)) => {
                    &&& old(self)@.settings.backends.len() == 0
                    &&& final(self)@ == old(self)@
                    &&& error matches HyperProcError::Other(message) && message@
                        == "No backend configured for the Hyper client processor"@
                },
                None => final(self)@ == old(self)@,
            },
    {
        if self.has_room(&self.settings) {
            Some(self.start())
        } else {
            None
        }
    }

    /// Whether there are slot ids left for what an event asks.
    fn expects(&self, event: &ClientEvent) -> (r: bool)
        ensures
            r == self@.expects(*event),
    {
        match event {
            ClientEvent::Config(Some(settings)) => !self.takes(settings) || self.has_room(
                settings,
            ),
            ClientEvent::Ended { ended, stopping } => self.stopping || self.pool.can_take_back(
                *ended,
                &self.settings,
                *stopping,
            ),
            _ => true,
        }
    }

    /// Take an event, or do nothing when there are no slot ids left for what it asks.
    pub fn try_step(&mut self, event: ClientEvent) -> (r: Option<Vec<SocketAction>>)
        ensures
            r is Some <==> old(self)@.expects(event),
            match r {
                Some(actions) => {
                    &&& final(self)@ == old(self)@.after(event)
                    &&& seq_view(actions@) == old(self)@.actions(event)
                },
                None => final(self)@ == old(self)@,
            },
    {
        if self.expects(&event) {
            Some(self.step(event))
        } else {
            None
        }
    }

    /// Whether the processor was told to stop and every socket came to its end.
    pub fn is_done(&self) -> (r: bool)
        ensures
            r == (self@.stopping && self@.pool.tasks == Set::<u32>::empty()),
    {
        self.stopping && !self.pool.is_running()
    }
}

/// Ask nothing of the sockets.
fn no_action() -> (r: Vec<SocketAction>)
    ensures
        seq_view(r@) == Seq::<ActionView>::empty(),
{
    let r: Vec<SocketAction> = Vec::new();
    assert(seq_view(r@) =~= Seq::empty());
    r
}

} // verus!
