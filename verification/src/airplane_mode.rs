//! Airplane mode through rfkill: on when every radio device is blocked.
//!
//! Running `rfkill` and parsing its JSON output is left to the caller; this
//! module decides the state from the device list, which commands to run, and
//! when the monitor reports a change.
use vstd::prelude::*;
use crate::text::{push_str, str_eq, string_of};

verus! {

/// Status of a single rfkill device.
#[derive(Debug, Clone)]
pub struct DeviceStatus {
    pub device_type: String,
    pub device_name: String,
    pub enabled: bool,
}

/// A device is enabled when it is neither soft- nor hard-blocked.
pub open spec fn unblocked(soft: Seq<char>, hard: Seq<char>) -> bool {
    soft == "unblocked"@ && hard == "unblocked"@
}

impl DeviceStatus {
    /// The status of a device from the fields rfkill reports for it.
    pub fn from_rfkill(device_type: String, device: String, soft: &str, hard: &str) -> (d: Self)
        ensures
            d.device_type == device_type,
            d.device_name == device,
            d.enabled == unblocked(soft@, hard@),
    {
        let enabled = str_eq(soft, "unblocked") && str_eq(hard, "unblocked");
        DeviceStatus { device_type, device_name: device, enabled }
    }
}

/// Airplane mode is on when no device is enabled (so also when there is none);
/// a failed status query counts as off.
pub open spec fn airplane_on(status: Option<Seq<bool>>) -> bool {
    match status {
        Some(flags) => none_enabled(flags),
        None => false,
    }
}

/// No flag is set.
pub open spec fn none_enabled(flags: Seq<bool>) -> bool {
    forall|i: int| 0 <= i < flags.len() ==> !#[trigger] flags[i]
}

/// The `enabled` flags of a status list.
pub open spec fn flags_of(v: Seq<DeviceStatus>) -> Seq<bool> {
    Seq::new(v.len(), |i: int| v[i].enabled)
}

pub open spec fn status_view(status: Result<Vec<DeviceStatus>, String>) -> Option<Seq<bool>> {
    match status {
        Ok(v) => Some(flags_of(v@)),
        Err(_) => None,
    }
}

#[derive(Debug, Clone, Copy, PartialEq, Eq, Structural)]
pub enum RfkillAction {
    Block,
    Unblock,
}

#[derive(Debug, Clone, Copy, PartialEq, Eq, Structural)]
pub enum RadioType {
    Wifi,
    Bluetooth,
}

/// One `rfkill <action> <type>` invocation.
#[derive(Debug, Clone, Copy, PartialEq, Eq, Structural)]
pub struct RfkillCommand {
    pub action: RfkillAction,
    pub radio: RadioType,
}

pub open spec fn action_word(a: RfkillAction) -> Seq<char> {
    match a {
        RfkillAction::Block => "block"@,
        RfkillAction::Unblock => "unblock"@,
    }
}

pub open spec fn radio_word(r: RadioType) -> Seq<char> {
    match r {
        RadioType::Wifi => "wifi"@,
        RadioType::Bluetooth => "bluetooth"@,
    }
}

/// The commands that switch airplane mode on (`block`) or off (`unblock`):
/// wifi first, then bluetooth.
pub open spec fn plan(action: RfkillAction) -> Seq<RfkillCommand> {
    seq![
        RfkillCommand { action, radio: RadioType::Wifi },
        RfkillCommand { action, radio: RadioType::Bluetooth },
    ]
}

impl RfkillCommand {
    /// The action argument of the command.
    pub fn action_arg(&self) -> (s: &'static str)
        ensures
            s@ == action_word(self.action),
    {
        match self.action {
            RfkillAction::Block => "block",
            RfkillAction::Unblock => "unblock",
        }
    }

    /// The device type argument of the command.
    pub fn radio_arg(&self) -> (s: &'static str)
        ensures
            s@ == radio_word(self.radio),
    {
        match self.radio {
            RadioType::Wifi => "wifi",
            RadioType::Bluetooth => "bluetooth",
        }
    }

    /// The error reported when the command could not run or failed:
    /// `Failed to <action> <type>: <detail>`.
    pub fn failure(&self, detail: &str) -> (s: String)
        ensures
            s@ == "Failed to "@ + action_word(self.action) + " "@ + radio_word(self.radio) + ": "@
                + detail@,
    {
        let mut out: Vec<char> = Vec::new();
        push_str("Failed to ", &mut out);
        push_str(self.action_arg(), &mut out);
        push_str(" ", &mut out);
        push_str(self.radio_arg(), &mut out);
        push_str(": ", &mut out);
        push_str(detail, &mut out);
        string_of(out.as_slice())
    }
}

/// Outcome of running a plan: the first error stops it.
pub open spec fn plan_outcome(results: Seq<Result<(), Seq<char>>>) -> Result<(), Seq<char>>
    decreases results.len(),
{
    if results.len() == 0 {
        Ok(())
    } else {
        match results[0] {
            Err(e) => Err(e),
            Ok(_) => plan_outcome(results.drop_first()),
        }
    }
}

/// The results of a plan's commands, with error texts as character sequences.
pub open spec fn results_view(v: Seq<Result<(), String>>) -> Seq<Result<(), Seq<char>>> {
    Seq::new(
        v.len(),
        |i: int|
            match v[i] {
                Ok(_) => Ok(()),
                Err(e) => Err(e@),
            },
    )
}

/// Whether an observed state is a change from the last one seen (the first
/// observation always is).
pub open spec fn reports_change(last: Option<bool>, current: bool) -> bool {
    last != Some(current)
}

/// Airplane Mode service - controls WiFi and Bluetooth via rfkill.
pub struct AirplaneModeService {
    last_state: Option<bool>,
}

impl AirplaneModeService {
    /// The last state the monitor saw, if any.
    pub closed spec fn last(&self) -> Option<bool> {
        self.last_state
    }

    /// Create the service with the state of the status read at start.
    pub fn new(status: Result<Vec<DeviceStatus>, String>) -> (s: Self)
        ensures
            s.last() == Some(airplane_on(status_view(status))),
    {
        let initial = Self::is_enabled_static(status);
        AirplaneModeService { last_state: Some(initial) }
    }

    /// Check if airplane mode is enabled (all devices blocked).
    pub fn is_enabled(&self, status: Result<Vec<DeviceStatus>, String>) -> (b: bool)
        ensures
            b == airplane_on(status_view(status)),
    {
        Self::is_enabled_static(status)
    }

    /// Whether airplane mode is on for a status query result.
    pub fn is_enabled_static(status: Result<Vec<DeviceStatus>, String>) -> (b: bool)
        ensures
            b == airplane_on(status_view(status)),
    {
        match &status {
            Ok(devices) => {
                let mut i: usize = 0;
                while i < devices.len()
                    invariant
                        i <= devices@.len(),
                        status_view(status) == Some(flags_of(devices@)),
                        forall|j: int| 0 <= j < i ==> !devices@[j].enabled,
                    decreases devices.len() - i,
                {
                    if devices[i].enabled {
                        let ghost flags = flags_of(devices@);
                        assert(flags[i as int]);
                        assert(!(forall|k: int| 0 <= k < flags.len() ==> !flags[k]));
                        assert(!airplane_on(Some(flags)));
                        return false;
                    }
                    i = i + 1;
                }
                true
            },
            Err(_) => false,
        }
    }

    /// The commands that enable airplane mode (block wifi and bluetooth).
    pub fn enable() -> (v: Vec<RfkillCommand>)
        ensures
            v@ == plan(RfkillAction::Block),
    {
        let v = vec![
            RfkillCommand { action: RfkillAction::Block, radio: RadioType::Wifi },
            RfkillCommand { action: RfkillAction::Block, radio: RadioType::Bluetooth },
        ];
        assert(v@ =~= plan(RfkillAction::Block));
        v
    }

    /// The commands that disable airplane mode (unblock wifi and bluetooth).
    pub fn disable() -> (v: Vec<RfkillCommand>)
        ensures
            v@ == plan(RfkillAction::Unblock),
    {
        let v = vec![
            RfkillCommand { action: RfkillAction::Unblock, radio: RadioType::Wifi },
            RfkillCommand { action: RfkillAction::Unblock, radio: RadioType::Bluetooth },
        ];
        assert(v@ =~= plan(RfkillAction::Unblock));
        v
    }

    /// The commands that toggle airplane mode, given the current status.
    pub fn toggle(&self, status: Result<Vec<DeviceStatus>, String>) -> (v: Vec<RfkillCommand>)
        ensures
            v@ == plan(
                if airplane_on(status_view(status)) {
                    RfkillAction::Unblock
                } else {
                    RfkillAction::Block
                },
            ),
    {
        if self.is_enabled(status) {
            Self::disable()
        } else {
            Self::enable()
        }
    }

    /// The result of running a plan, from the results of its commands in order.
    pub fn plan_result(results: &Vec<Result<(), String>>) -> (r: Result<(), String>)
        ensures
            match r {
                Ok(_) => plan_outcome(results_view(results@)) is Ok,
                Err(e) => plan_outcome(results_view(results@)) == Err::<(), Seq<char>>(e@),
            },
    {
        let ghost view = results_view(results@);
        assert(view.skip(0) =~= view);
        let mut i: usize = 0;
        while i < results.len()
            invariant
                i <= results@.len(),
                view == results_view(results@),
                plan_outcome(view) == plan_outcome(view.skip(i as int)),
            decreases results.len() - i,
        {
            proof {
                assert(view.skip(i as int).drop_first() =~= view.skip(i + 1));
                assert(view.skip(i as int)[0] == view[i as int]);
            }
            match &results[i] {
                Ok(_) => {},
                Err(e) => {
                    return Err(e.clone());
                },
            }
            i = i + 1;
        }
        assert(view.skip(i as int).len() == 0);
        Ok(())
    }

    /// Which command of a plan runs next, given the results of those run so
    /// far (one per command, in order): the following one while every
    /// result was a success, none once one failed or all have run. A plan
    /// stops at its first failure.
    pub fn next_command(plan: &Vec<RfkillCommand>, results: &Vec<Result<(), String>>) -> (r: Option<usize>)
        ensures
            r == if (forall|i: int| 0 <= i < results@.len() ==> results@[i] is Ok) && results@.len() < plan@.len() {
                Some(results@.len() as usize)
            } else {
                None::<usize>
            },
    {
        let mut i: usize = 0;
        while i < results.len()
            invariant
                i <= results@.len(),
                forall|j: int| 0 <= j < i ==> results@[j] is Ok,
            decreases results.len() - i,
        {
            if results[i].is_err() {
                return None;
            }
            i = i + 1;
        }
        if results.len() < plan.len() {
            Some(results.len())
        } else {
            None
        }
    }

    /// Record the state seen by the polling monitor; returns whether it is a
    /// change to report (always true the first time).
    pub fn observe(&mut self, current: bool) -> (changed: bool)
        ensures
            changed == reports_change(old(self).last(), current),
            final(self).last() == Some(current),
    {
        let changed = match self.last_state {
            None => true,
            Some(last) => last != current,
        };
        if changed {
            self.last_state = Some(current);
        }
        changed
    }
}

/// Observing the same state twice reports a change at most once: once the
/// service has observed `current`, observing it again reports nothing.
pub proof fn law_observe_idempotent(first: AirplaneModeService, current: bool)
    requires
        first.last() == Some(current),
    ensures
        !reports_change(first.last(), current),
{
}

/// The enable plan blocks every radio the disable plan unblocks.
pub proof fn law_enable_disable_same_radios()
    ensures
        forall|i: int|
            0 <= i < 2 ==> #[trigger] plan(RfkillAction::Block)[i].radio == plan(
                RfkillAction::Unblock,
            )[i].radio,
{
}

} // verus!
