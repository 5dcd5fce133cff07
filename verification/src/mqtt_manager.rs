//! The Connection Orchestrator and Message Router: per-broker connection
//! lifecycles, protocol dispatch, and the per-client sensor stores. All
//! network work is returned as data — connection actions, outbound
//! publishes and persistence records — for an unverified shell to execute.

use vstd::prelude::*;

use crate::clock::{local_time_now, TimeOfDay};
use crate::config::{ConfigView, MqttClientConfig, MqttClientConfigs};
use crate::payload::{
    is_valid_sensor_payload, parse_sensor_payload, payload_error_spec, payload_id_part,
    payload_value_part, PayloadError,
};
use crate::router::{classify, route_spec, Route};
use crate::sensor_manager::{
    encoded_seq, has_sensor, lemma_update_sensor, sensor_index, sensors_wf, spec_update_sensor,
    Sensor, SensorManager, SensorView,
};
use crate::text::str_eq;

verus! {

/// Connection lifecycle of one broker client.
#[derive(Clone, Copy, PartialEq, Eq, Structural, Debug)]
pub enum ConnectionState {
    Disconnected,
    Connecting,
    Connected,
}

/// A lifecycle notification delivered by one broker connection's transport.
#[derive(Clone, Copy, PartialEq, Eq, Structural, Debug)]
pub enum ConnectionEvent {
    /// A connection attempt completed successfully.
    ConnectSucceeded,
    /// A connection attempt failed.
    ConnectFailed,
    /// An established connection was lost.
    ConnectionLost,
}

/// Delay before a lost or failed connection is retried, in milliseconds.
pub const RETRY_DELAY_MS: u64 = 5000;

/// Quality of service for subscriptions and outbound publishes:
/// delivery-acknowledged, at least once.
pub const QOS_AT_LEAST_ONCE: i32 = 1;

/// Ghost image of a connection-management action.
pub enum ActionView {
    StartConnect { client_id: Seq<char> },
    Subscribe { client_id: Seq<char>, topic: Seq<char>, qos: i32 },
    ScheduleRetry { client_id: Seq<char>, delay_ms: u64 },
    Disconnect { client_id: Seq<char> },
}

/// An instruction to the connection shell.
#[derive(Debug)]
pub enum ClientAction {
    /// Begin a connection attempt for this client.
    StartConnect { client_id: String },
    /// Subscribe the freshly connected client to a topic.
    Subscribe { client_id: String, topic: String, qos: i32 },
    /// Wait `delay_ms`, then call `reconnect` for this client.
    ScheduleRetry { client_id: String, delay_ms: u64 },
    /// Request graceful session termination, with a bounded wait.
    Disconnect { client_id: String },
}

impl View for ClientAction {
    type V = ActionView;

    open spec fn view(&self) -> ActionView {
        match self {
            ClientAction::StartConnect { client_id } => ActionView::StartConnect {
                client_id: client_id@,
            },
            ClientAction::Subscribe { client_id, topic, qos } => ActionView::Subscribe {
                client_id: client_id@,
                topic: topic@,
                qos: *qos,
            },
            ClientAction::ScheduleRetry { client_id, delay_ms } => ActionView::ScheduleRetry {
                client_id: client_id@,
                delay_ms: *delay_ms,
            },
            ClientAction::Disconnect { client_id } => ActionView::Disconnect {
                client_id: client_id@,
            },
        }
    }
}

/// Ghost image of an outbound publish.
pub struct MessageView {
    pub topic: Seq<char>,
    pub payload: Seq<char>,
    pub qos: i32,
}

/// One outbound MQTT publish on a client's connection.
#[derive(Debug)]
pub struct OutboundMessage {
    pub topic: String,
    pub payload: String,
    pub qos: i32,
}

impl View for OutboundMessage {
    type V = MessageView;

    open spec fn view(&self) -> MessageView {
        MessageView { topic: self.topic@, payload: self.payload@, qos: self.qos }
    }
}

/// Ghost image of a persistence-sink append.
pub struct RecordView {
    pub client_id: Seq<char>,
    pub sensor_id: Seq<char>,
    pub value: Seq<char>,
}

/// One persistence-sink append: `(client_id, sensor_id, value)`.
#[derive(Debug)]
pub struct SensorRecord {
    pub client_id: String,
    pub sensor_id: String,
    pub value: String,
}

impl View for SensorRecord {
    type V = RecordView;

    open spec fn view(&self) -> RecordView {
        RecordView {
            client_id: self.client_id@,
            sensor_id: self.sensor_id@,
            value: self.value@,
        }
    }
}

/// Ghost image of one managed broker client.
pub struct ClientView {
    pub config: ConfigView,
    pub state: ConnectionState,
    pub sensors: Seq<SensorView>,
}

/// One managed broker client: its configuration, its connection state and
/// its sensor store.
pub struct MqttClient {
    pub config: MqttClientConfig,
    pub state: ConnectionState,
    pub sensor_manager: SensorManager,
}

impl View for MqttClient {
    type V = ClientView;

    open spec fn view(&self) -> ClientView {
        ClientView { config: self.config@, state: self.state, sensors: self.sensor_manager@ }
    }
}

impl MqttClient {
    /// Registers a client from its configuration: initially disconnected,
    /// with an empty sensor store.
    pub fn new(config: MqttClientConfig) -> (c: MqttClient)
        ensures
            c@ == (ClientView {
                config: config@,
                state: ConnectionState::Disconnected,
                sensors: Seq::<SensorView>::empty(),
            }),
    {
        MqttClient {
            config,
            state: ConnectionState::Disconnected,
            sensor_manager: SensorManager::new(),
        }
    }
}

/// The registry holds a client with this identifier.
pub open spec fn has_client(cs: Seq<ClientView>, id: Seq<char>) -> bool {
    exists|i: int| 0 <= i < cs.len() && cs[i].config.name == id
}

/// The position of the client with this identifier.
pub open spec fn client_index(cs: Seq<ClientView>, id: Seq<char>) -> int {
    choose|i: int| 0 <= i < cs.len() && cs[i].config.name == id
}

/// Registry well-formedness: at most one client per identifier, and each
/// client's sensor store is well formed.
pub open spec fn manager_wf(cs: Seq<ClientView>) -> bool {
    &&& forall|i: int, j: int|
        #![trigger cs[i].config.name, cs[j].config.name]
        0 <= i < j < cs.len() ==> cs[i].config.name != cs[j].config.name
    &&& forall|i: int| 0 <= i < cs.len() ==> sensors_wf((#[trigger] cs[i]).sensors)
}

/// What registering one configuration does: a fresh, disconnected client
/// replaces any client of the same name, or is appended.
pub open spec fn spec_add_client(cs: Seq<ClientView>, c: ConfigView) -> Seq<ClientView> {
    let fresh = ClientView {
        config: c,
        state: ConnectionState::Disconnected,
        sensors: Seq::<SensorView>::empty(),
    };
    if has_client(cs, c.name) {
        cs.update(client_index(cs, c.name), fresh)
    } else {
        cs.push(fresh)
    }
}

/// What registering a configuration set does, first to last.
pub open spec fn spec_add_clients(cs: Seq<ClientView>, configs: Seq<ConfigView>) -> Seq<
    ClientView,
>
    decreases configs.len(),
{
    if configs.len() == 0 {
        cs
    } else {
        spec_add_clients(spec_add_client(cs, configs[0]), configs.drop_first())
    }
}

/// Registration refusal: the configuration at `index` is structurally
/// invalid. Registration fails fast, with no partial registration.
#[derive(Clone, Copy, PartialEq, Eq, Structural, Debug)]
pub struct InvalidConfig {
    pub index: usize,
}

/// The Connection Orchestrator and per-client registry.
pub struct MqttManager {
    pub clients: Vec<MqttClient>,
}

impl View for MqttManager {
    type V = Seq<ClientView>;

    open spec fn view(&self) -> Seq<ClientView> {
        self.clients@.map_values(|c: MqttClient| c@)
    }
}

impl MqttManager {
    /// An empty registry.
    pub fn new() -> (m: MqttManager)
        ensures
            m@ == Seq::<ClientView>::empty(),
            manager_wf(m@),
    {
        let m = MqttManager { clients: Vec::new() };
        proof {
            assert(m@ =~= Seq::<ClientView>::empty());
        }
        m
    }

    /// Registers one client, replacing any previous client of the same name.
    fn register_client(&mut self, config: MqttClientConfig)
        requires
            manager_wf(old(self)@),
        ensures
            final(self)@ == spec_add_client(old(self)@, config@),
            manager_wf(final(self)@),
    {
        let ghost orig = self@;
        let mut i: usize = 0;
        while i < self.clients.len()
            invariant
                *self == *old(self),
                self@ == orig,
                manager_wf(orig),
                i <= self.clients@.len(),
                forall|j: int| 0 <= j < i ==> orig[j].config.name != config@.name,
            decreases self.clients@.len() - i,
        {
            if str_eq(self.clients[i].config.name.as_str(), config.name.as_str()) {
                proof {
                    assert(orig[i as int].config.name == config@.name);
                    assert(has_client(orig, config@.name));
                }
                let fresh = MqttClient::new(config);
                self.clients.set(i, fresh);
                proof {
                    let k = client_index(orig, config@.name);
                    assert(0 <= k < orig.len() && orig[k].config.name == config@.name);
                    assert(k == i as int) by {
                        if k < i as int {
                            assert(orig[k].config.name != orig[i as int].config.name);
                        }
                        if k > i as int {
                            assert(orig[i as int].config.name != orig[k].config.name);
                        }
                    }
                    assert(self@ =~= spec_add_client(orig, config@));
                    assert forall|a: int| 0 <= a < self@.len() implies (#[trigger] self@[a]).config.name
                        == orig[a].config.name && sensors_wf(self@[a].sensors) by {
                        if a != i as int {
                            assert(self@[a] == orig[a]);
                        }
                    }
                    assert forall|a: int, b: int|
                        #![trigger self@[a].config.name, self@[b].config.name]
                        0 <= a < b < self@.len() implies self@[a].config.name
                        != self@[b].config.name by {
                        assert(orig[a].config.name != orig[b].config.name);
                    }
                }
                return;
            }
            i += 1;
        }
        let fresh = MqttClient::new(config);
        self.clients.push(fresh);
        proof {
            assert(!has_client(orig, config@.name));
            assert(self@ =~= spec_add_client(orig, config@));
        }
    }

    /// Registers every configured broker client, in order. Fails fast,
    /// registering nothing, if any configuration is structurally invalid.
    pub fn add_clients_from_config(&mut self, client_configs: MqttClientConfigs) -> (r: Result<
        (),
        InvalidConfig,
    >)
        requires
            manager_wf(old(self)@),
        ensures
            manager_wf(final(self)@),
            r is Ok <==> (forall|i: int|
                0 <= i < client_configs@.len() ==> (#[trigger] client_configs@[i]).structurally_valid()),
            r matches Ok(()) ==> final(self)@ == spec_add_clients(old(self)@, client_configs@),
            r matches Err(e) ==> {
                &&& final(self)@ == old(self)@
                &&& 0 <= (e.index as int) < client_configs@.len()
                &&& !client_configs@[e.index as int].structurally_valid()
                &&& forall|j: int|
                    0 <= j < e.index as int ==> (#[trigger] client_configs@[j]).structurally_valid()
            },
    {
        let mut i: usize = 0;
        while i < client_configs.mqtt_clients.len()
            invariant
                *self == *old(self),
                manager_wf(old(self)@),
                i <= client_configs@.len(),
                forall|j: int| 0 <= j < i ==> (#[trigger] client_configs@[j]).structurally_valid(),
            decreases client_configs@.len() - i,
        {
            if !client_configs.mqtt_clients[i].is_structurally_valid() {
                proof {
                    assert(client_configs@[i as int] == client_configs.mqtt_clients@[i as int]@);
                }
                return Err(InvalidConfig { index: i });
            }
            i += 1;
        }
        let ghost cv = client_configs@;
        let mut rest = client_configs.mqtt_clients;
        proof {
            assert(cv =~= rest@.map_values(|c: MqttClientConfig| c@));
        }
        while rest.len() > 0
            invariant
                manager_wf(self@),
                forall|j: int| 0 <= j < cv.len() ==> (#[trigger] cv[j]).structurally_valid(),
                spec_add_clients(self@, rest@.map_values(|c: MqttClientConfig| c@))
                    == spec_add_clients(old(self)@, cv),
            decreases rest@.len(),
        {
            let ghost before = rest@.map_values(|c: MqttClientConfig| c@);
            let config = rest.remove(0);
            proof {
                assert(rest@.map_values(|c: MqttClientConfig| c@) =~= before.drop_first());
                assert(before[0] == config@);
            }
            self.register_client(config);
        }
        proof {
            assert(rest@.map_values(|c: MqttClientConfig| c@) =~= Seq::<ConfigView>::empty());
        }
        Ok(())
    }

    /// Finds the registry position of `client_id`.
    fn find_client(&self, client_id: &str) -> (r: Option<usize>)
        requires
            manager_wf(self@),
        ensures
            match r {
                Option::Some(i) => {
                    &&& has_client(self@, client_id@)
                    &&& i < self@.len()
                    &&& self@[i as int].config.name == client_id@
                    &&& i as int == client_index(self@, client_id@)
                },
                Option::None => !has_client(self@, client_id@),
            },
    {
        let mut i: usize = 0;
        while i < self.clients.len()
            invariant
                manager_wf(self@),
                i <= self@.len(),
                forall|j: int| 0 <= j < i ==> (#[trigger] self@[j]).config.name != client_id@,
            decreases self@.len() - i,
        {
            if str_eq(self.clients[i].config.name.as_str(), client_id) {
                proof {
                    assert(self@[i as int].config.name == client_id@);
                    let k = client_index(self@, client_id@);
                    assert(0 <= k < self@.len() && self@[k].config.name == client_id@);
                    assert(k == i as int) by {
                        if k < i as int {
                            assert(self@[k].config.name != self@[i as int].config.name);
                        }
                        if k > i as int {
                            assert(self@[i as int].config.name != self@[k].config.name);
                        }
                    }
                }
                return Some(i);
            }
            i += 1;
        }
        None
    }
}

/// What beginning a connection attempt does to one client: a disconnected
/// client starts connecting; any other is left alone.
pub open spec fn spec_begin_connect(c: ClientView) -> ClientView {
    if c.state is Disconnected {
        ClientView { config: c.config, state: ConnectionState::Connecting, sensors: c.sensors }
    } else {
        c
    }
}

/// The start-connect actions of `connect_all`: one per disconnected
/// client, in registry order.
pub open spec fn spec_connect_actions(cs: Seq<ClientView>) -> Seq<ActionView>
    decreases cs.len(),
{
    if cs.len() == 0 {
        Seq::<ActionView>::empty()
    } else {
        spec_connect_actions(cs.drop_last()) + if cs.last().state is Disconnected {
            seq![ActionView::StartConnect { client_id: cs.last().config.name }]
        } else {
            Seq::<ActionView>::empty()
        }
    }
}

/// What requesting termination does to one client: any client that is not
/// already disconnected becomes disconnected.
pub open spec fn spec_drop_connection(c: ClientView) -> ClientView {
    ClientView { config: c.config, state: ConnectionState::Disconnected, sensors: c.sensors }
}

/// The termination actions of `disconnect_all`: one per client that is
/// not already disconnected, in registry order.
pub open spec fn spec_disconnect_actions(cs: Seq<ClientView>) -> Seq<ActionView>
    decreases cs.len(),
{
    if cs.len() == 0 {
        Seq::<ActionView>::empty()
    } else {
        spec_disconnect_actions(cs.drop_last()) + if !(cs.last().state is Disconnected) {
            seq![ActionView::Disconnect { client_id: cs.last().config.name }]
        } else {
            Seq::<ActionView>::empty()
        }
    }
}

impl MqttManager {
    /// Initiates connection for every registered client that is still
    /// disconnected, independently: one start-connect action per such
    /// client, in registry order, so that no failing attempt can block
    /// another client's attempt.
    pub fn connect_all(&mut self) -> (actions: Vec<ClientAction>)
        requires
            manager_wf(old(self)@),
        ensures
            manager_wf(final(self)@),
            final(self)@ == old(self)@.map_values(|c: ClientView| spec_begin_connect(c)),
            actions@.map_values(|a: ClientAction| a@) == spec_connect_actions(old(self)@),
    {
        let ghost orig = self@;
        let mut actions: Vec<ClientAction> = Vec::new();
        let mut i: usize = 0;
        proof {
            assert(actions@.map_values(|a: ClientAction| a@) =~= spec_connect_actions(
                orig.subrange(0, 0),
            ));
        }
        while i < self.clients.len()
            invariant
                manager_wf(orig),
                orig == old(self)@,
                self@.len() == orig.len(),
                i <= orig.len(),
                forall|j: int| i <= j < orig.len() ==> self@[j] == orig[j],
                forall|j: int| 0 <= j < i ==> self@[j] == spec_begin_connect(#[trigger] orig[j]),
                actions@.map_values(|a: ClientAction| a@) == spec_connect_actions(
                    orig.subrange(0, i as int),
                ),
            decreases orig.len() - i,
        {
            let ghost prefix = orig.subrange(0, i as int);
            if self.clients[i].state == ConnectionState::Disconnected {
                let id = self.clients[i].config.name.clone();
                self.clients[i].state = ConnectionState::Connecting;
                actions.push(ClientAction::StartConnect { client_id: id });
            }
            i += 1;
            proof {
                assert(orig.subrange(0, i as int).drop_last() =~= prefix);
                assert(orig.subrange(0, i as int).last() == orig[i - 1]);
                assert(actions@.map_values(|a: ClientAction| a@) =~= spec_connect_actions(
                    orig.subrange(0, i as int),
                ));
            }
        }
        proof {
            assert(orig.subrange(0, orig.len() as int) =~= orig);
            assert(self@ =~= orig.map_values(|c: ClientView| spec_begin_connect(c)));
            assert forall|a: int| 0 <= a < self@.len() implies (#[trigger] self@[a]).config.name
                == orig[a].config.name && sensors_wf(self@[a].sensors) by {}
            assert forall|a: int, b: int|
                #![trigger self@[a].config.name, self@[b].config.name]
                0 <= a < b < self@.len() implies self@[a].config.name != self@[b].config.name by {
                assert(orig[a].config.name != orig[b].config.name);
            }
        }
        actions
    }

    /// Re-attempts connection for one client after its stream went dead; a
    /// no-op while the client is already connecting or connected.
    pub fn reconnect(&mut self, client_id: String) -> (actions: Vec<ClientAction>)
        requires
            manager_wf(old(self)@),
            has_client(old(self)@, client_id@),
        ensures
            manager_wf(final(self)@),
            ({
                let k = client_index(old(self)@, client_id@);
                if old(self)@[k].state is Disconnected {
                    &&& final(self)@ == old(self)@.update(k, spec_begin_connect(old(self)@[k]))
                    &&& actions@.map_values(|a: ClientAction| a@) == seq![
                        ActionView::StartConnect { client_id: client_id@ },
                    ]
                } else {
                    &&& final(self)@ == old(self)@
                    &&& actions@.len() == 0
                }
            }),
    {
        let ghost orig = self@;
        let mut actions: Vec<ClientAction> = Vec::new();
        let i = match self.find_client(client_id.as_str()) {
            Some(i) => i,
            None => {
                proof {
                    assert(false);
                }
                return actions;
            },
        };
        if self.clients[i].state == ConnectionState::Disconnected {
            self.clients[i].state = ConnectionState::Connecting;
            actions.push(ClientAction::StartConnect { client_id });
            proof {
                assert(self@ =~= orig.update(i as int, spec_begin_connect(orig[i as int])));
                assert(actions@.map_values(|a: ClientAction| a@) =~= seq![
                    ActionView::StartConnect { client_id: orig[i as int].config.name },
                ]);
                lemma_update_same_names(orig, self@);
            }
        } else {
            proof {
                assert(self@ =~= orig);
            }
        }
        actions
    }

    /// Applies one transport lifecycle notification and decides what the
    /// shell must do next: subscribe to all topics of interest on a
    /// successful connect; schedule a fixed-backoff retry after a failed
    /// attempt or a lost connection. A notification that does not match
    /// the client's current state changes nothing.
    pub fn connection_event(&mut self, client_id: String, event: ConnectionEvent) -> (actions:
        Vec<ClientAction>)
        requires
            manager_wf(old(self)@),
            has_client(old(self)@, client_id@),
        ensures
            manager_wf(final(self)@),
            ({
                let k = client_index(old(self)@, client_id@);
                let c = old(self)@[k];
                match event {
                    ConnectionEvent::ConnectSucceeded => if c.state is Connecting {
                        &&& final(self)@ == old(self)@.update(
                            k,
                            ClientView {
                                config: c.config,
                                state: ConnectionState::Connected,
                                sensors: c.sensors,
                            },
                        )
                        &&& actions@.map_values(|a: ClientAction| a@) == seq![
                            ActionView::Subscribe {
                                client_id: client_id@,
                                topic: "#"@,
                                qos: QOS_AT_LEAST_ONCE,
                            },
                        ]
                    } else {
                        final(self)@ == old(self)@ && actions@.len() == 0
                    },
                    ConnectionEvent::ConnectFailed => if c.state is Connecting {
                        &&& final(self)@ == old(self)@.update(k, spec_drop_connection(c))
                        &&& actions@.map_values(|a: ClientAction| a@) == seq![
                            ActionView::ScheduleRetry {
                                client_id: client_id@,
                                delay_ms: RETRY_DELAY_MS,
                            },
                        ]
                    } else {
                        final(self)@ == old(self)@ && actions@.len() == 0
                    },
                    ConnectionEvent::ConnectionLost => if c.state is Connected {
                        &&& final(self)@ == old(self)@.update(k, spec_drop_connection(c))
                        &&& actions@.map_values(|a: ClientAction| a@) == seq![
                            ActionView::ScheduleRetry {
                                client_id: client_id@,
                                delay_ms: RETRY_DELAY_MS,
                            },
                        ]
                    } else {
                        final(self)@ == old(self)@ && actions@.len() == 0
                    },
                }
            }),
    {
        let ghost orig = self@;
        let mut actions: Vec<ClientAction> = Vec::new();
        let i = match self.find_client(client_id.as_str()) {
            Some(i) => i,
            None => {
                proof {
                    assert(false);
                }
                return actions;
            },
        };
        match event {
            ConnectionEvent::ConnectSucceeded => {
                if self.clients[i].state == ConnectionState::Connecting {
                    self.clients[i].state = ConnectionState::Connected;
                    actions.push(
                        ClientAction::Subscribe {
                            client_id,
                            topic: "#".to_owned(),
                            qos: QOS_AT_LEAST_ONCE,
                        },
                    );
                    proof {
                        let c = orig[i as int];
                        assert(self@ =~= orig.update(
                            i as int,
                            ClientView {
                                config: c.config,
                                state: ConnectionState::Connected,
                                sensors: c.sensors,
                            },
                        ));
                        assert(actions@.map_values(|a: ClientAction| a@) =~= seq![
                            ActionView::Subscribe {
                                client_id: c.config.name,
                                topic: "#"@,
                                qos: QOS_AT_LEAST_ONCE,
                            },
                        ]);
                        lemma_update_same_names(orig, self@);
                    }
                } else {
                    proof {
                        assert(self@ =~= orig);
                    }
                }
            },
            ConnectionEvent::ConnectFailed => {
                if self.clients[i].state == ConnectionState::Connecting {
                    self.clients[i].state = ConnectionState::Disconnected;
                    actions.push(
                        ClientAction::ScheduleRetry { client_id, delay_ms: RETRY_DELAY_MS },
                    );
                    proof {
                        assert(self@ =~= orig.update(
                            i as int,
                            spec_drop_connection(orig[i as int]),
                        ));
                        assert(actions@.map_values(|a: ClientAction| a@) =~= seq![
                            ActionView::ScheduleRetry {
                                client_id: orig[i as int].config.name,
                                delay_ms: RETRY_DELAY_MS,
                            },
                        ]);
                        lemma_update_same_names(orig, self@);
                    }
                } else {
                    proof {
                        assert(self@ =~= orig);
                    }
                }
            },
            ConnectionEvent::ConnectionLost => {
                if self.clients[i].state == ConnectionState::Connected {
                    self.clients[i].state = ConnectionState::Disconnected;
                    actions.push(
                        ClientAction::ScheduleRetry { client_id, delay_ms: RETRY_DELAY_MS },
                    );
                    proof {
                        assert(self@ =~= orig.update(
                            i as int,
                            spec_drop_connection(orig[i as int]),
                        ));
                        assert(actions@.map_values(|a: ClientAction| a@) =~= seq![
                            ActionView::ScheduleRetry {
                                client_id: orig[i as int].config.name,
                                delay_ms: RETRY_DELAY_MS,
                            },
                        ]);
                        lemma_update_same_names(orig, self@);
                    }
                } else {
                    proof {
                        assert(self@ =~= orig);
                    }
                }
            },
        }
        actions
    }

    /// Requests graceful termination for one client: best effort, with a
    /// bounded wait performed by the shell; the client counts as
    /// disconnected at once and no retry is scheduled.
    pub fn disconnect(&mut self, client_id: String) -> (actions: Vec<ClientAction>)
        requires
            manager_wf(old(self)@),
            has_client(old(self)@, client_id@),
        ensures
            manager_wf(final(self)@),
            ({
                let k = client_index(old(self)@, client_id@);
                if old(self)@[k].state is Disconnected {
                    final(self)@ == old(self)@ && actions@.len() == 0
                } else {
                    &&& final(self)@ == old(self)@.update(
                        k,
                        spec_drop_connection(old(self)@[k]),
                    )
                    &&& actions@.map_values(|a: ClientAction| a@) == seq![
                        ActionView::Disconnect { client_id: client_id@ },
                    ]
                }
            }),
    {
        let ghost orig = self@;
        let mut actions: Vec<ClientAction> = Vec::new();
        let i = match self.find_client(client_id.as_str()) {
            Some(i) => i,
            None => {
                proof {
                    assert(false);
                }
                return actions;
            },
        };
        if self.clients[i].state == ConnectionState::Disconnected {
            proof {
                assert(self@ =~= orig);
            }
        } else {
            self.clients[i].state = ConnectionState::Disconnected;
            actions.push(ClientAction::Disconnect { client_id });
            proof {
                assert(self@ =~= orig.update(i as int, spec_drop_connection(orig[i as int])));
                assert(actions@.map_values(|a: ClientAction| a@) =~= seq![
                    ActionView::Disconnect { client_id: orig[i as int].config.name },
                ]);
                lemma_update_same_names(orig, self@);
            }
        }
        actions
    }

    /// Requests graceful termination for every client, in registry order.
    pub fn disconnect_all(&mut self) -> (actions: Vec<ClientAction>)
        requires
            manager_wf(old(self)@),
        ensures
            manager_wf(final(self)@),
            final(self)@ == old(self)@.map_values(|c: ClientView| spec_drop_connection(c)),
            actions@.map_values(|a: ClientAction| a@) == spec_disconnect_actions(old(self)@),
    {
        let ghost orig = self@;
        let mut actions: Vec<ClientAction> = Vec::new();
        let mut i: usize = 0;
        proof {
            assert(actions@.map_values(|a: ClientAction| a@) =~= spec_disconnect_actions(
                orig.subrange(0, 0),
            ));
        }
        while i < self.clients.len()
            invariant
                manager_wf(orig),
                orig == old(self)@,
                self@.len() == orig.len(),
                i <= orig.len(),
                forall|j: int| i <= j < orig.len() ==> self@[j] == orig[j],
                forall|j: int| 0 <= j < i ==> self@[j] == spec_drop_connection(#[trigger] orig[j]),
                actions@.map_values(|a: ClientAction| a@) == spec_disconnect_actions(
                    orig.subrange(0, i as int),
                ),
            decreases orig.len() - i,
        {
            let ghost prefix = orig.subrange(0, i as int);
            if self.clients[i].state != ConnectionState::Disconnected {
                let id = self.clients[i].config.name.clone();
                self.clients[i].state = ConnectionState::Disconnected;
                actions.push(ClientAction::Disconnect { client_id: id });
            }
            i += 1;
            proof {
                assert(orig.subrange(0, i as int).drop_last() =~= prefix);
                assert(orig.subrange(0, i as int).last() == orig[i - 1]);
                assert(actions@.map_values(|a: ClientAction| a@) =~= spec_disconnect_actions(
                    orig.subrange(0, i as int),
                ));
            }
        }
        proof {
            assert(orig.subrange(0, orig.len() as int) =~= orig);
            assert(self@ =~= orig.map_values(|c: ClientView| spec_drop_connection(c)));
            lemma_update_same_names(orig, self@);
        }
        actions
    }
}

/// A registry that keeps, client by client, the names of a well-formed
/// registry and either that registry's sensor store or a well-formed one
/// is well formed itself.
proof fn lemma_update_same_names(orig: Seq<ClientView>, cur: Seq<ClientView>)
    requires
        manager_wf(orig),
        cur.len() == orig.len(),
        forall|a: int|
            0 <= a < cur.len() ==> (#[trigger] cur[a]).config.name == orig[a].config.name && (
            cur[a].sensors == orig[a].sensors || sensors_wf(cur[a].sensors)),
    ensures
        manager_wf(cur),
{
    assert forall|a: int, b: int|
        #![trigger cur[a].config.name, cur[b].config.name]
        0 <= a < b < cur.len() implies cur[a].config.name != cur[b].config.name by {
        assert(orig[a].config.name != orig[b].config.name);
    }
    assert forall|a: int| 0 <= a < cur.len() implies sensors_wf((#[trigger] cur[a]).sensors) by {
        assert(sensors_wf(orig[a].sensors));
    }
}

/// The snapshot publish for one reading: its encoded form, on the
/// `datalogger/` prefix of the topic the reading arrived on, delivery
/// acknowledged.
pub open spec fn spec_snapshot_message(sv: SensorView) -> MessageView {
    MessageView {
        topic: "datalogger/"@ + sv.topic,
        payload: encoded_seq(sv),
        qos: QOS_AT_LEAST_ONCE,
    }
}

/// The snapshot publishes for one client's store: one message per
/// reading, in first-seen order.
pub open spec fn spec_snapshot_messages(sensors: Seq<SensorView>) -> Seq<MessageView> {
    sensors.map_values(|sv: SensorView| spec_snapshot_message(sv))
}

/// The liveness acknowledgment: the gateway's display name, on the ping
/// reply topic, delivery acknowledged.
pub open spec fn spec_ping_ack(name: Seq<char>) -> MessageView {
    MessageView { topic: "datalogger/ping/ack"@, payload: name, qos: QOS_AT_LEAST_ONCE }
}

/// What one stored observation does to the registry: the client at `k`
/// has its sensor store updated, everything else is untouched.
pub open spec fn spec_ingest(
    cs: Seq<ClientView>,
    k: int,
    sensor_id: Seq<char>,
    value: Seq<char>,
    topic: Seq<char>,
    now: TimeOfDay,
) -> Seq<ClientView> {
    let c = cs[k];
    cs.update(
        k,
        ClientView {
            config: c.config,
            state: c.state,
            sensors: spec_update_sensor(c.sensors, sensor_id, value, topic, now),
        },
    )
}

/// What handling one inbound message amounted to; the shell reports it to
/// the operator's log.
#[derive(Clone, Copy, PartialEq, Eq, Structural, Debug)]
pub enum RouterReport {
    /// A sensor reading was stored and queued for persistence.
    Ingested,
    /// The sensor payload was malformed; it was dropped.
    MalformedPayload(PayloadError),
    /// A snapshot of the client's readings was queued.
    SnapshotSent,
    /// The reserved filtered snapshot command is not implemented.
    GetValidNotImplemented,
    /// An unknown command arrived on a command topic.
    UnknownCommand,
    /// A liveness acknowledgment was queued.
    PingAcked,
    /// Unrecognized topic; the payload is short enough to report in full.
    UnknownTopicShort,
    /// Unrecognized topic; only the payload length is reported.
    UnknownTopicLong,
}

/// Everything one inbound message asks the shell to do: the publishes to
/// send on the client's connection, the appends for the persistence sink,
/// and what to report.
pub struct MessageOutcome {
    pub publishes: Vec<OutboundMessage>,
    pub records: Vec<SensorRecord>,
    pub report: RouterReport,
}

/// What one inbound message does, as a function of the registry, the
/// client's position `k`, the message, the gateway name and the time: the
/// registry afterwards, the outbound publishes, the persistence records,
/// and the report.
pub open spec fn spec_route_outcome(
    cs: Seq<ClientView>,
    k: int,
    topic: Seq<char>,
    payload: Seq<char>,
    name: Seq<char>,
    now: TimeOfDay,
) -> (Seq<ClientView>, Seq<MessageView>, Seq<RecordView>, RouterReport) {
    let c = cs[k];
    match route_spec(topic, payload) {
        Route::SensorIngest => if is_valid_sensor_payload(payload) {
            (
                spec_ingest(
                    cs,
                    k,
                    payload_id_part(payload),
                    payload_value_part(payload),
                    topic,
                    now,
                ),
                Seq::<MessageView>::empty(),
                seq![
                    RecordView {
                        client_id: c.config.name,
                        sensor_id: payload_id_part(payload),
                        value: payload_value_part(payload),
                    },
                ],
                RouterReport::Ingested,
            )
        } else {
            (
                cs,
                Seq::<MessageView>::empty(),
                Seq::<RecordView>::empty(),
                RouterReport::MalformedPayload(payload_error_spec(payload)),
            )
        },
        Route::SnapshotGet => (
            cs,
            spec_snapshot_messages(c.sensors),
            Seq::<RecordView>::empty(),
            RouterReport::SnapshotSent,
        ),
        Route::SnapshotGetValid => (
            cs,
            Seq::<MessageView>::empty(),
            Seq::<RecordView>::empty(),
            RouterReport::GetValidNotImplemented,
        ),
        Route::SnapshotUnknownCommand => (
            cs,
            Seq::<MessageView>::empty(),
            Seq::<RecordView>::empty(),
            RouterReport::UnknownCommand,
        ),
        Route::Ping => (
            cs,
            seq![spec_ping_ack(name)],
            Seq::<RecordView>::empty(),
            RouterReport::PingAcked,
        ),
        Route::PingUnknownCommand => (
            cs,
            Seq::<MessageView>::empty(),
            Seq::<RecordView>::empty(),
            RouterReport::UnknownCommand,
        ),
        Route::UnknownTopicShort => (
            cs,
            Seq::<MessageView>::empty(),
            Seq::<RecordView>::empty(),
            RouterReport::UnknownTopicShort,
        ),
        Route::UnknownTopicLong => (
            cs,
            Seq::<MessageView>::empty(),
            Seq::<RecordView>::empty(),
            RouterReport::UnknownTopicLong,
        ),
    }
}

/// An outcome that publishes nothing, records nothing and only reports.
fn empty_outcome(report: RouterReport) -> (o: MessageOutcome)
    ensures
        o.publishes@.map_values(|m: OutboundMessage| m@) == Seq::<MessageView>::empty(),
        o.records@.map_values(|x: SensorRecord| x@) == Seq::<RecordView>::empty(),
        o.report == report,
{
    let o = MessageOutcome { publishes: Vec::new(), records: Vec::new(), report };
    proof {
        assert(o.publishes@.map_values(|m: OutboundMessage| m@) =~= Seq::<MessageView>::empty());
        assert(o.records@.map_values(|x: SensorRecord| x@) =~= Seq::<RecordView>::empty());
    }
    o
}

impl MqttManager {
    /// Builds the snapshot publishes for `client_id`: one message per
    /// known sensor, in the order the sensors were first observed; an
    /// empty collection, never an error, for a client with no
    /// observations yet.
    pub fn publish_sensors_of_client(&self, client_id: String) -> (msgs: Vec<OutboundMessage>)
        requires
            manager_wf(self@),
            has_client(self@, client_id@),
        ensures
            msgs@.map_values(|m: OutboundMessage| m@) == spec_snapshot_messages(
                self@[client_index(self@, client_id@)].sensors,
            ),
    {
        let i = match self.find_client(client_id.as_str()) {
            Some(i) => i,
            None => {
                proof {
                    assert(false);
                }
                return Vec::new();
            },
        };
        let ghost svs = self@[i as int].sensors;
        let sensors = self.clients[i].sensor_manager.get_sensors();
        let mut msgs: Vec<OutboundMessage> = Vec::new();
        let mut j: usize = 0;
        proof {
            assert(msgs@.map_values(|m: OutboundMessage| m@) =~= spec_snapshot_messages(
                svs.subrange(0, 0),
            ));
        }
        while j < sensors.len()
            invariant
                sensors_wf(svs),
                sensors@.map_values(|s: Sensor| s@) == svs,
                j <= svs.len(),
                msgs@.map_values(|m: OutboundMessage| m@) == spec_snapshot_messages(
                    svs.subrange(0, j as int),
                ),
            decreases svs.len() - j,
        {
            let ghost prefix = svs.subrange(0, j as int);
            let s = &sensors[j];
            proof {
                assert(s@ == svs[j as int]);
            }
            let mut topic = "datalogger/".to_owned();
            let suffix = s.get_topic_string();
            topic.append(suffix.as_str());
            let payload = s.get_encoded_string();
            msgs.push(OutboundMessage { topic, payload, qos: QOS_AT_LEAST_ONCE });
            j += 1;
            proof {
                assert(svs.subrange(0, j as int).drop_last() =~= prefix);
                assert(svs.subrange(0, j as int).last() == svs[j - 1]);
                assert(spec_snapshot_messages(svs.subrange(0, j as int)) =~= spec_snapshot_messages(
                    prefix,
                ).push(spec_snapshot_message(svs[j - 1])));
                assert(msgs@.map_values(|m: OutboundMessage| m@) =~= spec_snapshot_messages(
                    svs.subrange(0, j as int),
                ));
            }
        }
        proof {
            assert(svs.subrange(0, svs.len() as int) =~= svs);
        }
        msgs
    }

    /// Builds the liveness acknowledgment published on `client_id`'s
    /// connection: the gateway's configured display name, on the ping
    /// reply topic.
    pub fn publish_ping_ack(&self, client_id: String, name: &str) -> (msg: OutboundMessage)
        requires
            manager_wf(self@),
            has_client(self@, client_id@),
        ensures
            msg@ == spec_ping_ack(name@),
    {
        let _ = client_id;
        OutboundMessage {
            topic: "datalogger/ping/ack".to_owned(),
            payload: name.to_owned(),
            qos: QOS_AT_LEAST_ONCE,
        }
    }

    /// Stores one parsed sensor observation for `client_id`, stamped with
    /// the given time.
    pub fn received_sensor_temperature_at(
        &mut self,
        client_id: String,
        sensor_id: String,
        value: String,
        topic: String,
        now: TimeOfDay,
    )
        requires
            manager_wf(old(self)@),
            has_client(old(self)@, client_id@),
            now.wf(),
        ensures
            manager_wf(final(self)@),
            final(self)@ == spec_ingest(
                old(self)@,
                client_index(old(self)@, client_id@),
                sensor_id@,
                value@,
                topic@,
                now,
            ),
    {
        let ghost orig = self@;
        let i = match self.find_client(client_id.as_str()) {
            Some(i) => i,
            None => {
                proof {
                    assert(false);
                }
                return ;
            },
        };
        self.clients[i].sensor_manager.update_sensor_at(sensor_id, value, topic, now);
        proof {
            assert(self@ =~= spec_ingest(
                orig,
                i as int,
                sensor_id@,
                value@,
                topic@,
                now,
            ));
            lemma_update_same_names(orig, self@);
        }
    }

    /// Handles one inbound message for `client_id`, stamped with the given
    /// time: classifies its topic, updates the sensor store on the ingest
    /// path, and returns every outbound publish and persistence record the
    /// shell must perform. Malformed payloads, unknown commands and
    /// unrecognized topics are reported in the outcome and change nothing.
    pub fn received_mqtt_message_at(
        &mut self,
        client_id: String,
        topic: String,
        payload: String,
        name: &str,
        now: TimeOfDay,
    ) -> (outcome: MessageOutcome)
        requires
            manager_wf(old(self)@),
            has_client(old(self)@, client_id@),
            now.wf(),
        ensures
            manager_wf(final(self)@),
            ({
                let r = spec_route_outcome(
                    old(self)@,
                    client_index(old(self)@, client_id@),
                    topic@,
                    payload@,
                    name@,
                    now,
                );
                &&& final(self)@ == r.0
                &&& outcome.publishes@.map_values(|m: OutboundMessage| m@) == r.1
                &&& outcome.records@.map_values(|x: SensorRecord| x@) == r.2
                &&& outcome.report == r.3
            }),
    {
        let ghost orig = self@;
        let ghost k = client_index(orig, client_id@);
        let route = classify(topic.as_str(), payload.as_str());
        match route {
            Route::SensorIngest => {
                match parse_sensor_payload(payload.as_str()) {
                    Ok(parts) => {
                        let (value, sensor_id) = parts;
                        let record = SensorRecord {
                            client_id: client_id.clone(),
                            sensor_id: sensor_id.clone(),
                            value: value.clone(),
                        };
                        proof {
                            assert(orig[k].config.name == client_id@);
                        }
                        self.received_sensor_temperature_at(client_id, sensor_id, value, topic, now);
                        let mut records: Vec<SensorRecord> = Vec::new();
                        records.push(record);
                        let outcome = MessageOutcome {
                            publishes: Vec::new(),
                            records,
                            report: RouterReport::Ingested,
                        };
                        proof {
                            assert(outcome.publishes@.map_values(|m: OutboundMessage| m@)
                                =~= Seq::<MessageView>::empty());
                            assert(outcome.records@.map_values(|x: SensorRecord| x@) =~= seq![
                                RecordView {
                                    client_id: orig[k].config.name,
                                    sensor_id: payload_id_part(payload@),
                                    value: payload_value_part(payload@),
                                },
                            ]);
                        }
                        outcome
                    },
                    Err(e) => empty_outcome(RouterReport::MalformedPayload(e)),
                }
            },
            Route::SnapshotGet => {
                let publishes = self.publish_sensors_of_client(client_id);
                let outcome = MessageOutcome {
                    publishes,
                    records: Vec::new(),
                    report: RouterReport::SnapshotSent,
                };
                proof {
                    assert(outcome.records@.map_values(|x: SensorRecord| x@)
                        =~= Seq::<RecordView>::empty());
                }
                outcome
            },
            Route::SnapshotGetValid => empty_outcome(RouterReport::GetValidNotImplemented),
            Route::SnapshotUnknownCommand => empty_outcome(RouterReport::UnknownCommand),
            Route::Ping => {
                let msg = self.publish_ping_ack(client_id, name);
                let mut publishes: Vec<OutboundMessage> = Vec::new();
                publishes.push(msg);
                let outcome = MessageOutcome {
                    publishes,
                    records: Vec::new(),
                    report: RouterReport::PingAcked,
                };
                proof {
                    assert(outcome.publishes@.map_values(|m: OutboundMessage| m@) =~= seq![
                        spec_ping_ack(name@),
                    ]);
                    assert(outcome.records@.map_values(|x: SensorRecord| x@)
                        =~= Seq::<RecordView>::empty());
                }
                outcome
            },
            Route::PingUnknownCommand => empty_outcome(RouterReport::UnknownCommand),
            Route::UnknownTopicShort => empty_outcome(RouterReport::UnknownTopicShort),
            Route::UnknownTopicLong => empty_outcome(RouterReport::UnknownTopicLong),
        }
    }

    /// Handles one inbound message for `client_id`, stamped with the
    /// current local time.
    pub fn received_mqtt_message(
        &mut self,
        client_id: String,
        topic: String,
        payload: String,
        name: &str,
    ) -> (outcome: MessageOutcome)
        requires
            manager_wf(old(self)@),
            has_client(old(self)@, client_id@),
        ensures
            manager_wf(final(self)@),
            exists|now: TimeOfDay|
                #[trigger] now.wf() && ({
                    let r = spec_route_outcome(
                        old(self)@,
                        client_index(old(self)@, client_id@),
                        topic@,
                        payload@,
                        name@,
                        now,
                    );
                    &&& final(self)@ == r.0
                    &&& outcome.publishes@.map_values(|m: OutboundMessage| m@) == r.1
                    &&& outcome.records@.map_values(|x: SensorRecord| x@) == r.2
                    &&& outcome.report == r.3
                }),
    {
        let now = local_time_now();
        self.received_mqtt_message_at(client_id, topic, payload, name, now)
    }

    /// Stores one parsed sensor observation for `client_id`, made now.
    pub fn received_sensor_temperature(
        &mut self,
        client_id: String,
        sensor_id: String,
        value: String,
        topic: String,
    )
        requires
            manager_wf(old(self)@),
            has_client(old(self)@, client_id@),
        ensures
            manager_wf(final(self)@),
            exists|now: TimeOfDay|
                #[trigger] now.wf() && final(self)@ == spec_ingest(
                    old(self)@,
                    client_index(old(self)@, client_id@),
                    sensor_id@,
                    value@,
                    topic@,
                    now,
                ),
    {
        let now = local_time_now();
        self.received_sensor_temperature_at(client_id, sensor_id, value, topic, now);
    }
}

/// For every valid sensor payload `"<value>#<sensor_id>"`, handling the
/// message leaves the client's snapshot with exactly one reading for that
/// sensor, holding that value and stamped with the handling time, and
/// queues exactly one persistence record `(client_id, sensor_id, value)`
/// and no publish.
pub proof fn lemma_ingest_updates_snapshot(
    cs: Seq<ClientView>,
    k: int,
    topic: Seq<char>,
    payload: Seq<char>,
    name: Seq<char>,
    now: TimeOfDay,
)
    requires
        manager_wf(cs),
        0 <= k < cs.len(),
        route_spec(topic, payload) is SensorIngest,
        is_valid_sensor_payload(payload),
        now.wf(),
    ensures
        ({
            let r = spec_route_outcome(cs, k, topic, payload, name, now);
            let id = payload_id_part(payload);
            let v = payload_value_part(payload);
            let sensors = r.0[k].sensors;
            &&& r.0.len() == cs.len()
            &&& has_sensor(sensors, id)
            &&& sensors[sensor_index(sensors, id)].value == v
            &&& sensors[sensor_index(sensors, id)].timestamp == now
            &&& forall|i: int|
                0 <= i < sensors.len() && (#[trigger] sensors[i]).id == id ==> i == sensor_index(
                    sensors,
                    id,
                )
            &&& r.1.len() == 0
            &&& r.2 == seq![
                RecordView { client_id: cs[k].config.name, sensor_id: id, value: v },
            ]
            &&& r.3 == RouterReport::Ingested
        }),
{
    let id = payload_id_part(payload);
    let v = payload_value_part(payload);
    assert(sensors_wf(cs[k].sensors));
    lemma_update_sensor(cs[k].sensors, id, v, topic, now);
    let r = spec_route_outcome(cs, k, topic, payload, name, now);
    assert(r.0[k].sensors == spec_update_sensor(cs[k].sensors, id, v, topic, now));
}

/// Snapshot stability: a client with no observations yet has an empty
/// snapshot — an empty collection of publishes, never an error.
pub proof fn lemma_snapshot_of_empty_store(sensors: Seq<SensorView>)
    requires
        sensors.len() == 0,
    ensures
        spec_snapshot_messages(sensors).len() == 0,
{
}

/// An unrecognized topic never mutates the Sensor State Store: the
/// registry comes back unchanged, and nothing is published or recorded.
pub proof fn lemma_unknown_topic_no_mutation(
    cs: Seq<ClientView>,
    k: int,
    topic: Seq<char>,
    payload: Seq<char>,
    name: Seq<char>,
    now: TimeOfDay,
)
    requires
        route_spec(topic, payload) is UnknownTopicShort || route_spec(topic, payload)
            is UnknownTopicLong,
    ensures
        ({
            let r = spec_route_outcome(cs, k, topic, payload, name, now);
            &&& r.0 == cs
            &&& r.1.len() == 0
            &&& r.2.len() == 0
        }),
{
}

/// A malformed sensor payload is rejected without creating or mutating
/// any store entry: the registry comes back unchanged, nothing is
/// published or recorded, and the malformation is reported.
pub proof fn lemma_malformed_payload_rejected(
    cs: Seq<ClientView>,
    k: int,
    topic: Seq<char>,
    payload: Seq<char>,
    name: Seq<char>,
    now: TimeOfDay,
)
    requires
        route_spec(topic, payload) is SensorIngest,
        !is_valid_sensor_payload(payload),
    ensures
        ({
            let r = spec_route_outcome(cs, k, topic, payload, name, now);
            &&& r.0 == cs
            &&& r.1.len() == 0
            &&& r.2.len() == 0
            &&& r.3 == RouterReport::MalformedPayload(payload_error_spec(payload))
        }),
{
}

} // verus!
