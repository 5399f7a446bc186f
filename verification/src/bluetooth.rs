//! Bluetooth: adapter and device state, pairing requests and their answers,
//! and the monitor's decisions.
use vstd::prelude::*;
use crate::signal::{emitted, Signal, SignalHandler};
use crate::text::{chars_of, numeral, push_padded, push_str, string_of, zero_padded};

verus! {

#[verifier::external_type_specification]
#[verifier::external_body]
#[verifier::reject_recursive_types(T)]
pub struct ExOneshotSender<T>(tokio::sync::oneshot::Sender<T>);

/// Errors of the Bluetooth service.
#[derive(Debug, Clone, PartialEq, Eq)]
pub enum BluetoothError {
    /// The adapter or BlueZ failed, with its message.
    Adapter(String),
    /// A text is no Bluetooth address.
    InvalidAddress(String),
    /// No adapter is monitored yet.
    NotMonitoring,
}

/// Whether `name` is one of `names`.
pub open spec fn text_listed(names: Seq<String>, name: Seq<char>) -> bool {
    exists|j: int| 0 <= j < names.len() && names[j]@ == name
}

/// Whether `name` is one of `names`.
fn listed(names: &Vec<String>, name: &str) -> (b: bool)
    ensures
        b == text_listed(names@, name@),
{
    let mut i: usize = 0;
    while i < names.len()
        invariant
            i <= names@.len(),
            forall|j: int| 0 <= j < i ==> (#[trigger] names@[j])@ != name@,
        decreases names.len() - i,
    {
        if crate::text::str_eq(names[i].as_str(), name) {
            return true;
        }
        i = i + 1;
    }
    false
}

/// BlueZ's message for an object that does not exist.
pub open spec fn adapter_not_found() -> Seq<char> {
    "the target object was either not present or removed"@
}

/// The message of an error.
pub open spec fn error_text(e: BluetoothError) -> Seq<char> {
    match e {
        BluetoothError::Adapter(m) => "bluetooth adapter error: "@ + m@,
        BluetoothError::InvalidAddress(a) => "invalid bluetooth address: "@ + a@,
        BluetoothError::NotMonitoring => "no adapter currently monitored, start_dbus_monitor() first"@,
    }
}

impl BluetoothError {
    /// The message of the error.
    pub fn message(&self) -> (s: String)
        ensures
            s@ == error_text(*self),
    {
        match self {
            BluetoothError::Adapter(m) => crate::wm::prefixed("bluetooth adapter error: ", m.as_str()),
            BluetoothError::InvalidAddress(a) => crate::wm::prefixed("invalid bluetooth address: ", a.as_str()),
            BluetoothError::NotMonitoring => "no adapter currently monitored, start_dbus_monitor() first".to_string(),
        }
    }
}

/// What a pairing request asks.
#[derive(Clone, Debug, PartialEq, Eq)]
pub enum PairingRequestKind {
    DisplayPasskey { passkey: u32, entered: u16 },
    DisplayPinCode { pincode: String },
    RequestConfirmation { passkey: u32 },
    RequestAuthorization,
    RequestPinCode,
    RequestPasskey,
    RequestServiceAuthorization { service: String },
}

/// The answer to a pairing request.
#[derive(Clone, Debug, PartialEq, Eq)]
pub enum PairingResponse {
    Confirm,
    Reject,
    PinCode(String),
    Passkey(u32),
}

/// A pairing request for the user interface.
#[derive(Clone, Debug)]
pub struct PairingRequest {
    pub device_address: String,
    pub kind: PairingRequestKind,
}

/// A pairing request with, for requests that wait for an answer, the
/// channel that takes it.
pub struct PairingEnvelope {
    pub request: PairingRequest,
    pub responder: Option<tokio::sync::oneshot::Sender<PairingResponse>>,
}

/// Whether BlueZ waits for an answer to a request: every kind but the two
/// display-only ones.
pub open spec fn waits_for_answer(kind: PairingRequestKind) -> bool {
    !(kind is DisplayPasskey || kind is DisplayPinCode)
}

/// What the agent answers BlueZ.
#[derive(Clone, Debug, PartialEq, Eq)]
pub enum AgentReply {
    /// The request is accepted.
    Accepted,
    /// The PIN code to use.
    PinCode(String),
    /// The passkey to use.
    Passkey(u32),
    /// The request is rejected.
    Rejected,
}

/// The agent's answer to a request given the user's response (`None` where
/// none came, e.g. nobody listens): confirmations and authorizations are
/// accepted on `Confirm`, PIN and passkey requests take the matching answer,
/// display requests are accepted at once; anything else is a rejection.
pub open spec fn reply_for(kind: PairingRequestKind, response: Option<PairingResponse>) -> AgentReply {
    match kind {
        PairingRequestKind::DisplayPasskey { .. } => AgentReply::Accepted,
        PairingRequestKind::DisplayPinCode { .. } => AgentReply::Accepted,
        PairingRequestKind::RequestPinCode => match response {
            Some(PairingResponse::PinCode(p)) => AgentReply::PinCode(p),
            _ => AgentReply::Rejected,
        },
        PairingRequestKind::RequestPasskey => match response {
            Some(PairingResponse::Passkey(k)) => AgentReply::Passkey(k),
            _ => AgentReply::Rejected,
        },
        _ => match response {
            Some(PairingResponse::Confirm) => AgentReply::Accepted,
            _ => AgentReply::Rejected,
        },
    }
}

impl PairingRequestKind {
    /// Whether BlueZ waits for an answer.
    pub fn waits_for_answer(&self) -> (b: bool)
        ensures
            b == waits_for_answer(*self),
    {
        match self {
            PairingRequestKind::DisplayPasskey { .. } => false,
            PairingRequestKind::DisplayPinCode { .. } => false,
            _ => true,
        }
    }
}

/// The envelope that the pairing agent hands out for a request; requests
/// that wait for an answer carry the channel that takes it.
pub fn pairing_envelope(
    device_address: String,
    kind: PairingRequestKind,
    responder: Option<tokio::sync::oneshot::Sender<PairingResponse>>,
) -> (e: Option<PairingEnvelope>)
    ensures
        e is Some <==> (waits_for_answer(kind) == responder is Some),
        e matches Some(env) ==> env.request.device_address@ == device_address@ && env.request.kind == kind
            && env.responder is Some == waits_for_answer(kind),
{
    if kind.waits_for_answer() != responder.is_some() {
        return None;
    }
    Some(PairingEnvelope { request: PairingRequest { device_address, kind }, responder })
}

/// The agent's answer to BlueZ for a request and the user's response.
pub fn agent_reply(kind: &PairingRequestKind, response: Option<PairingResponse>) -> (r: AgentReply)
    ensures
        r == reply_for(*kind, response),
{
    match kind {
        PairingRequestKind::DisplayPasskey { .. } => AgentReply::Accepted,
        PairingRequestKind::DisplayPinCode { .. } => AgentReply::Accepted,
        PairingRequestKind::RequestPinCode => match response {
            Some(PairingResponse::PinCode(p)) => AgentReply::PinCode(p),
            _ => AgentReply::Rejected,
        },
        PairingRequestKind::RequestPasskey => match response {
            Some(PairingResponse::Passkey(k)) => AgentReply::Passkey(k),
            _ => AgentReply::Rejected,
        },
        _ => match response {
            Some(PairingResponse::Confirm) => AgentReply::Accepted,
            _ => AgentReply::Rejected,
        },
    }
}

/// A rejection is the answer whenever the user gives none.
pub proof fn law_no_answer_rejects(kind: PairingRequestKind)
    requires
        waits_for_answer(kind),
    ensures
        reply_for(kind, None) == AgentReply::Rejected,
{
}

/// A device's properties.
#[derive(Clone, Debug, PartialEq)]
pub struct BluetoothDevice {
    pub path: String,
    pub address: String,
    pub name: String,
    pub alias: String,
    pub icon: Option<String>,
    pub adapter: String,
    pub connected: bool,
    pub paired: bool,
    pub trusted: bool,
    pub blocked: bool,
    pub battery_percentage: Option<u8>,
    pub rssi: Option<i16>,
    pub modalias: Option<String>,
}

/// An adapter's properties.
#[derive(Clone, Debug, PartialEq)]
pub struct BluetoothAdapter {
    pub name: String,
    pub address: String,
    pub alias: String,
    pub powered: bool,
    pub discoverable: bool,
    pub discoverable_timeout: u32,
    pub discovering: bool,
}

/// The number of connected devices among the first `n`.
pub open spec fn connected_among(ds: Seq<BluetoothDevice>, n: int) -> nat
    decreases n,
{
    if n <= 0 {
        0
    } else {
        connected_among(ds, n - 1) + if ds[n - 1].connected {
            1nat
        } else {
            0nat
        }
    }
}

/// Only the `connected` flags count: two lists whose flags agree on the
/// first `n` devices (whatever their names, batteries or other fields) have
/// as many connected devices among them; with every one of them connected
/// that is `n`, with none of them `0`, and never more than `n`.
pub proof fn law_connected_count_reads_flags(ds: Seq<BluetoothDevice>, es: Seq<BluetoothDevice>, n: int)
    requires
        0 <= n <= ds.len(),
        n <= es.len(),
        forall|i: int| 0 <= i < n ==> #[trigger] ds[i].connected == es[i].connected,
    ensures
        connected_among(ds, n) == connected_among(es, n),
        connected_among(ds, n) <= n,
        (forall|i: int| 0 <= i < n ==> #[trigger] ds[i].connected) ==> connected_among(ds, n) == n,
        (forall|i: int| 0 <= i < n ==> !(#[trigger] ds[i].connected)) ==> connected_among(ds, n) == 0,
    decreases n,
{
    if n > 0 {
        law_connected_count_reads_flags(ds, es, n - 1);
        assert(ds[n - 1].connected == es[n - 1].connected);
    }
}

/// Adding a device to the end of the list adds one to the count exactly when
/// it is connected.
pub proof fn law_connected_count_push(ds: Seq<BluetoothDevice>, d: BluetoothDevice)
    ensures
        connected_among(ds.push(d), ds.len() + 1int) == connected_among(ds, ds.len() as int) + if d.connected {
            1int
        } else {
            0int
        },
{
    law_connected_count_reads_flags(ds.push(d), ds, ds.len() as int);
}

/// `address` with every `:` turned into `_`.
pub open spec fn underscored(address: Seq<char>) -> Seq<char> {
    address.map_values(|c: char| if c == ':' { '_' } else { c })
}

/// BlueZ's object path of a device: `/org/bluez/<adapter>/dev_<address>`
/// with `_` for `:`.
pub open spec fn dbus_path(adapter: Seq<char>, address: Seq<char>) -> Seq<char> {
    "/org/bluez/"@ + adapter + "/dev_"@ + underscored(address)
}

/// `<source>:vVVVVpPPPPdDDDD` in upper-case hexadecimal, at least four digits.
pub open spec fn modalias_text(source: Seq<char>, vendor: u32, product: u32, device: u32) -> Seq<char> {
    source + ":v"@ + zero_padded(numeral(vendor as nat, 16), 4) + "p"@ + zero_padded(numeral(product as nat, 16), 4)
        + "d"@ + zero_padded(numeral(device as nat, 16), 4)
}

/// The number of connected devices, as a byte (it wraps past 255).
pub fn count_connected(devices: &Vec<BluetoothDevice>) -> (n: u8)
    ensures
        n == connected_among(devices@, devices@.len() as int) % 256,
{
    let mut count: u8 = 0;
    let mut i: usize = 0;
    while i < devices.len()
        invariant
            i <= devices@.len(),
            count == connected_among(devices@, i as int) % 256,
        decreases devices.len() - i,
    {
        if devices[i].connected {
            count = if count == 255 {
                0
            } else {
                count + 1
            };
        }
        i = i + 1;
    }
    count
}

/// BlueZ's object path of a device.
pub fn device_dbus_path(adapter_name: &str, address: &str) -> (s: String)
    ensures
        s@ == dbus_path(adapter_name@, address@),
{
    let mut out = chars_of("/org/bluez/");
    push_str(adapter_name, &mut out);
    push_str("/dev_", &mut out);
    let a = chars_of(address);
    let ghost start = out@;
    let mut i: usize = 0;
    while i < a.len()
        invariant
            i <= a@.len(),
            a@ == address@,
            out@ == start + underscored(a@.take(i as int)),
        decreases a.len() - i,
    {
        let c = if a[i] == ':' {
            '_'
        } else {
            a[i]
        };
        out.push(c);
        assert(underscored(a@.take(i + 1)) =~= underscored(a@.take(i as int)).push(c));
        i = i + 1;
    }
    assert(a@.take(a@.len() as int) =~= a@);
    assert(out@ =~= dbus_path(adapter_name@, address@));
    string_of(out.as_slice())
}

/// The modalias string of a device.
pub fn format_modalias(source: &str, vendor: u32, product: u32, device: u32) -> (s: String)
    ensures
        s@ == modalias_text(source@, vendor, product, device),
{
    let mut out = chars_of(source);
    push_str(":v", &mut out);
    push_padded(vendor as u64, 16, 4, &mut out);
    push_str("p", &mut out);
    push_padded(product as u64, 16, 4, &mut out);
    push_str("d", &mut out);
    push_padded(device as u64, 16, 4, &mut out);
    assert(out@ =~= modalias_text(source@, vendor, product, device));
    string_of(out.as_slice())
}

/// What the monitor does when the scan is toggled.
#[derive(Debug, Clone, Copy, PartialEq, Eq, Structural)]
pub enum ScanStep {
    /// Drop the discovery session.
    Stop,
    /// Open a discovery session.
    Start,
    /// Nothing to do.
    Keep,
}

/// The Bluetooth service's state: power, devices, the adapter chosen and the
/// one monitored, and the scan.
pub struct BluetoothService {
    adapter_powered: bool,
    devices: Vec<BluetoothDevice>,
    selected_adapter: Option<String>,
    monitored_adapter: Option<String>,
    scan_paused: bool,
    scan_override: Option<bool>,
    switch_requested: bool,
    adapter_changed: Signal<BluetoothAdapter>,
    device_added: Signal<BluetoothDevice>,
    device_changed: Signal<BluetoothDevice>,
    device_removed: Signal<String>,
}

impl BluetoothService {
    pub closed spec fn powered(&self) -> bool {
        self.adapter_powered
    }

    pub closed spec fn device_list(&self) -> Seq<BluetoothDevice> {
        self.devices@
    }

    pub closed spec fn selected(&self) -> Option<Seq<char>> {
        crate::text::opt_text(self.selected_adapter)
    }

    pub closed spec fn monitored(&self) -> Option<Seq<char>> {
        crate::text::opt_text(self.monitored_adapter)
    }

    pub closed spec fn paused(&self) -> bool {
        self.scan_paused
    }

    pub closed spec fn override_value(&self) -> Option<bool> {
        self.scan_override
    }

    /// Whether the running monitor has been asked to reconnect to the
    /// selected adapter and has not taken the request yet.
    pub closed spec fn switch_pending(&self) -> bool {
        self.switch_requested
    }

    pub closed spec fn device_added_signal(&self) -> Signal<BluetoothDevice> {
        self.device_added
    }

    pub closed spec fn device_changed_signal(&self) -> Signal<BluetoothDevice> {
        self.device_changed
    }

    pub closed spec fn device_removed_signal(&self) -> Signal<String> {
        self.device_removed
    }

    pub closed spec fn adapter_changed_signal(&self) -> Signal<BluetoothAdapter> {
        self.adapter_changed
    }

    /// Everything but the four signals.
    pub closed spec fn state(&self) -> (bool, Seq<BluetoothDevice>, Option<Seq<char>>, Option<Seq<char>>, bool, Option<bool>) {
        (
            self.adapter_powered,
            self.devices@,
            crate::text::opt_text(self.selected_adapter),
            crate::text::opt_text(self.monitored_adapter),
            self.scan_paused,
            self.scan_override,
        )
    }

    /// A service that knows nothing yet: unpowered, no device, the default
    /// adapter, nothing monitored.
    pub fn new() -> (s: Self)
        ensures
            !s.powered(),
            s.device_list().len() == 0,
            s.selected() is None,
            s.monitored() is None,
            !s.paused(),
            s.override_value() is None,
    {
        BluetoothService {
            adapter_powered: false,
            devices: Vec::new(),
            selected_adapter: None,
            monitored_adapter: None,
            scan_paused: false,
            scan_override: None,
            switch_requested: false,
            adapter_changed: Signal::new(),
            device_added: Signal::new(),
            device_changed: Signal::new(),
            device_removed: Signal::new(),
        }
    }

    /// Forces the scan state at the next monitor connection (once).
    pub fn set_scan_override(&mut self, value: Option<bool>)
        ensures
            final(self).override_value() == value,
            final(self).powered() == old(self).powered(),
            final(self).device_list() == old(self).device_list(),
            final(self).monitored() == old(self).monitored(),
            final(self).paused() == old(self).paused(),
    {
        self.scan_override = value;
    }

    pub fn get_powered(&self) -> (b: bool)
        ensures
            b == self.powered(),
    {
        self.adapter_powered
    }

    /// The number of connected devices, wrapping past 255.
    pub fn get_connected_count(&self) -> (n: u8)
        ensures
            n == connected_among(self.device_list(), self.device_list().len() as int) % 256,
    {
        count_connected(&self.devices)
    }

    pub fn get_devices(&self) -> (r: &Vec<BluetoothDevice>)
        ensures
            r@ == self.device_list(),
    {
        &self.devices
    }

    /// The adapter chosen, if any (`None` is BlueZ's default).
    pub fn current_adapter_name(&self) -> (r: Option<String>)
        ensures
            crate::text::opt_text(r) == self.selected(),
    {
        crate::calendar::event::clone_text(&self.selected_adapter)
    }

    /// Subsequent calls target the adapter `name`, which must be one of the
    /// adapters BlueZ knows (`known`); an unknown name is refused with BlueZ's
    /// not-found message and nothing changes. On success the running monitor
    /// is asked to reconnect (see [`BluetoothService::take_switch_request`]),
    /// and the state is to be refreshed for the adapter chosen (see
    /// [`BluetoothService::refresh_outcome`], whose result is the selection's).
    pub fn select_adapter(&mut self, name: String, known: &Vec<String>) -> (r: Result<(), BluetoothError>)
        ensures
            text_listed(known@, name@) ==> r is Ok && final(self).selected() == Some(name@)
                && final(self).switch_pending(),
            !text_listed(known@, name@) ==> (r matches Err(BluetoothError::Adapter(m))
                && m@ == adapter_not_found()) && final(self).selected() == old(self).selected()
                && final(self).switch_pending() == old(self).switch_pending(),
            final(self).device_list() == old(self).device_list(),
            final(self).monitored() == old(self).monitored(),
            final(self).powered() == old(self).powered(),
    {
        if !listed(known, name.as_str()) {
            let m = crate::text::string_of(
                crate::text::chars_of("the target object was either not present or removed").as_slice(),
            );
            return Err(BluetoothError::Adapter(m));
        }
        self.selected_adapter = Some(name);
        self.switch_requested = true;
        Ok(())
    }

    /// The monitor takes the reconnect request: returns whether there was
    /// one, which is then cleared.
    pub fn take_switch_request(&mut self) -> (r: bool)
        ensures
            r == old(self).switch_pending(),
            !final(self).switch_pending(),
            final(self).selected() == old(self).selected(),
            final(self).monitored() == old(self).monitored(),
            final(self).device_list() == old(self).device_list(),
            final(self).powered() == old(self).powered(),
    {
        let r = self.switch_requested;
        self.switch_requested = false;
        r
    }

    /// A state refresh: where connecting to the adapter failed, its error is
    /// the result and nothing changes; otherwise the power state and the
    /// devices that could be read replace what the service knew, and the
    /// refresh succeeds.
    pub fn refresh_outcome(
        &mut self,
        read: Result<(Option<bool>, Option<Vec<BluetoothDevice>>), BluetoothError>,
    ) -> (r: Result<(), BluetoothError>)
        ensures
            match read {
                Err(e) => r == Err::<(), BluetoothError>(e) && final(self).powered() == old(self).powered()
                    && final(self).device_list() == old(self).device_list(),
                Ok((p, d)) => r is Ok && final(self).powered() == match p {
                    Some(x) => x,
                    None => old(self).powered(),
                } && final(self).device_list() == match d {
                    Some(v) => v@,
                    None => old(self).device_list(),
                },
            },
            final(self).selected() == old(self).selected(),
            final(self).monitored() == old(self).monitored(),
    {
        match read {
            Err(e) => Err(e),
            Ok((p, d)) => {
                self.state_refreshed(p, d);
                Ok(())
            },
        }
    }

    /// The power state read, where it could be read, and the devices listed,
    /// where they could be listed, replace what the service knew.
    pub fn state_refreshed(&mut self, powered: Option<bool>, devices: Option<Vec<BluetoothDevice>>)
        ensures
            final(self).powered() == match powered {
                Some(p) => p,
                None => old(self).powered(),
            },
            final(self).device_list() == match devices {
                Some(d) => d@,
                None => old(self).device_list(),
            },
            final(self).monitored() == old(self).monitored(),
            final(self).paused() == old(self).paused(),
            final(self).selected() == old(self).selected(),
    {
        if let Some(p) = powered {
            self.adapter_powered = p;
        }
        if let Some(d) = devices {
            self.devices = d;
        }
    }

    /// The monitor connected to `adapter_name`, which is discovering or not:
    /// the override, if set, is used up and decides the scan; otherwise the
    /// live state does. Returns whether a discovery session is opened now
    /// (only when the override asked for a scan).
    pub fn monitor_connected(&mut self, adapter_name: String, is_discovering: bool) -> (open_now: bool)
        ensures
            final(self).monitored() == Some(adapter_name@),
            final(self).override_value() is None,
            final(self).paused() == !match old(self).override_value() {
                Some(v) => v,
                None => is_discovering,
            },
            open_now == (old(self).override_value() == Some(true)),
            final(self).device_list() == old(self).device_list(),
            final(self).powered() == old(self).powered(),
    {
        let over = self.scan_override;
        self.scan_override = None;
        let active = match over {
            Some(v) => v,
            None => is_discovering,
        };
        self.scan_paused = !active;
        self.monitored_adapter = Some(adapter_name);
        match over {
            Some(true) => true,
            _ => false,
        }
    }

    /// The monitor could not connect: nothing is monitored.
    pub fn monitor_lost(&mut self)
        ensures
            final(self).monitored() is None,
            final(self).device_list() == old(self).device_list(),
            final(self).powered() == old(self).powered(),
            final(self).paused() == old(self).paused(),
    {
        self.monitored_adapter = None;
    }

    /// The name of the monitored adapter, or `NotMonitoring`.
    pub fn monitored_adapter_name(&self) -> (r: Result<String, BluetoothError>)
        ensures
            match self.monitored() {
                Some(n) => r matches Ok(s) && s@ == n,
                None => r == Err::<String, BluetoothError>(BluetoothError::NotMonitoring),
            },
    {
        match &self.monitored_adapter {
            Some(n) => Ok(n.clone()),
            None => Err(BluetoothError::NotMonitoring),
        }
    }

    /// Resumes discovery on the monitored adapter; the monitor is woken to
    /// open a session. `NotMonitoring` where no adapter is monitored, and
    /// nothing changes then.
    pub fn start_discovery(&mut self) -> (r: Result<(), BluetoothError>)
        ensures
            old(self).monitored() is None ==> r == Err::<(), BluetoothError>(BluetoothError::NotMonitoring)
                && final(self).paused() == old(self).paused(),
            old(self).monitored() is Some ==> r is Ok && !final(self).paused(),
            final(self).monitored() == old(self).monitored(),
    {
        if self.monitored_adapter.is_none() {
            return Err(BluetoothError::NotMonitoring);
        }
        self.scan_paused = false;
        Ok(())
    }

    /// Pauses discovery on the monitored adapter.
    pub fn stop_discovery(&mut self) -> (r: Result<(), BluetoothError>)
        ensures
            old(self).monitored() is None ==> r == Err::<(), BluetoothError>(BluetoothError::NotMonitoring)
                && final(self).paused() == old(self).paused(),
            old(self).monitored() is Some ==> r is Ok && final(self).paused(),
            final(self).monitored() == old(self).monitored(),
    {
        if self.monitored_adapter.is_none() {
            return Err(BluetoothError::NotMonitoring);
        }
        self.scan_paused = true;
        Ok(())
    }

    /// The monitor's step when the scan is toggled: a paused scan drops the
    /// session, a resumed one opens a session where none is open.
    pub fn scan_toggled(&self, has_session: bool) -> (s: ScanStep)
        ensures
            s == if self.paused() {
                ScanStep::Stop
            } else if !has_session {
                ScanStep::Start
            } else {
                ScanStep::Keep
            },
    {
        if self.scan_paused {
            ScanStep::Stop
        } else if !has_session {
            ScanStep::Start
        } else {
            ScanStep::Keep
        }
    }

    /// The new power state to ask for when toggling.
    pub fn toggled_power(&self) -> (p: bool)
        ensures
            p == !self.powered(),
    {
        !self.adapter_powered
    }

    /// The adapter confirmed a power state.
    pub fn powered_set(&mut self, powered: bool)
        ensures
            final(self).powered() == powered,
            final(self).device_list() == old(self).device_list(),
            final(self).monitored() == old(self).monitored(),
    {
        self.adapter_powered = powered;
    }

    /// Announces a device that appeared.
    pub fn announce_device_added(&mut self, device: BluetoothDevice)
        ensures
            emitted(old(self).device_added_signal(), final(self).device_added_signal(), device),
            final(self).device_changed_signal() == old(self).device_changed_signal(),
            final(self).device_removed_signal() == old(self).device_removed_signal(),
            final(self).adapter_changed_signal() == old(self).adapter_changed_signal(),
            final(self).state() == old(self).state(),
    {
        self.device_added.emit_sync(device);
    }

    /// Announces a device whose properties changed.
    pub fn announce_device_changed(&mut self, device: BluetoothDevice)
        ensures
            emitted(old(self).device_changed_signal(), final(self).device_changed_signal(), device),
            final(self).device_added_signal() == old(self).device_added_signal(),
            final(self).device_removed_signal() == old(self).device_removed_signal(),
            final(self).adapter_changed_signal() == old(self).adapter_changed_signal(),
            final(self).state() == old(self).state(),
    {
        self.device_changed.emit_sync(device);
    }

    /// Announces a device that went away.
    pub fn announce_device_removed(&mut self, address: String)
        ensures
            emitted(old(self).device_removed_signal(), final(self).device_removed_signal(), address),
            final(self).device_added_signal() == old(self).device_added_signal(),
            final(self).device_changed_signal() == old(self).device_changed_signal(),
            final(self).adapter_changed_signal() == old(self).adapter_changed_signal(),
            final(self).state() == old(self).state(),
    {
        self.device_removed.emit_sync(address);
    }

    /// Announces the adapter's properties.
    pub fn announce_adapter_changed(&mut self, adapter: BluetoothAdapter)
        ensures
            emitted(old(self).adapter_changed_signal(), final(self).adapter_changed_signal(), adapter),
            final(self).device_added_signal() == old(self).device_added_signal(),
            final(self).device_changed_signal() == old(self).device_changed_signal(),
            final(self).device_removed_signal() == old(self).device_removed_signal(),
            final(self).state() == old(self).state(),
    {
        self.adapter_changed.emit_sync(adapter);
    }

    /// Connects a handler to devices that appear.
    pub fn connect_device_added<F: Fn(BluetoothDevice) + Send + 'static>(&mut self, callback: F) -> (h: SignalHandler)
        requires
            old(self).device_added_signal().next_id() < u64::MAX,
            forall|v: BluetoothDevice| call_requires(callback, (v,)),
        ensures
            h.spec_id() == old(self).device_added_signal().next_id(),
            final(self).device_list() == old(self).device_list(),
            final(self).powered() == old(self).powered(),
    {
        self.device_added.connect(callback)
    }
}

/// The polling monitor: the power state and connected count it reported
/// last.
pub struct BluetoothMonitor {
    last_powered: bool,
    last_connected_count: u8,
}

impl BluetoothMonitor {
    pub closed spec fn last(&self) -> (bool, u8) {
        (self.last_powered, self.last_connected_count)
    }

    /// A monitor that starts from the service's state.
    pub fn new(powered: bool, connected: u8) -> (m: Self)
        ensures
            m.last() == (powered, connected),
    {
        BluetoothMonitor { last_powered: powered, last_connected_count: connected }
    }

    /// A fresh reading (`None` where refreshing failed): reported where it
    /// differs from the last report.
    pub fn check(&mut self, reading: Option<(bool, u8)>) -> (report: Option<(bool, u8)>)
        ensures
            match reading {
                None => report is None && final(self).last() == old(self).last(),
                Some(r) => if r != old(self).last() {
                    report == Some(r) && final(self).last() == r
                } else {
                    report is None && final(self).last() == old(self).last()
                },
            },
    {
        match reading {
            None => None,
            Some((p, c)) => {
                if p != self.last_powered || c != self.last_connected_count {
                    self.last_powered = p;
                    self.last_connected_count = c;
                    Some((p, c))
                } else {
                    None
                }
            },
        }
    }
}

} // verus!
