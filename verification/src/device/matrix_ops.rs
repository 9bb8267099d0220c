//! Operations on every attached panel at once.
//!
//! A broadcast discovers the panels and plans one transaction for each. The
//! host performs the transactions one by one and records what the transport
//! reported for each. A failure on one panel is a report like any other: the
//! transactions of the other panels stay as they were planned.
use vstd::prelude::*;
use crate::config::Config;
use crate::device::bitmap::{encode, packed};
use crate::device::led_matrix::{LedMatrix, Transmission};
use crate::device::util::{convert_model_to_array, model_fits, model_grid};
use crate::device::{
    device_names, discover_devices, matrix_port_names, Command, SerialPortInfo, FWK_MAGIC,
};
use crate::error::{concludes, transaction_result, LedMatrixError, SerialError};

verus! {

/// What became of the transaction with one panel.
#[derive(Debug, PartialEq, Eq)]
pub struct DeviceReport {
    /// Name of the port of the panel.
    pub port_name: String,
    /// Success, or the typed failure.
    pub result: Result<(), LedMatrixError>,
}

/// An attached panel as the host lists it.
#[derive(Debug, Clone, PartialEq, Eq)]
pub struct DeviceInfo {
    /// Name of the port of the panel.
    pub name: String,
    /// State shown for the panel.
    pub status: String,
}

/// One operation on every attached panel: the transactions planned, and the
/// reports of those that were performed so far, in the same order.
#[derive(Debug, PartialEq, Eq)]
pub struct Broadcast {
    operation_name: String,
    transmissions: Vec<Transmission>,
    reports: Vec<DeviceReport>,
}

/// The low eight bits of a level: what is left of it in one byte.
pub open spec fn low_byte(value: i32) -> u8 {
    (value as int % 256) as u8
}

proof fn lemma_cast_keeps_low_byte(value: i32)
    by (bit_vector)
    ensures
        (value as u8) == (value as int % 256) as u8,
{
}

impl Broadcast {
    /// Name of the operation.
    pub closed spec fn operation(self) -> Seq<char> {
        self.operation_name@
    }

    /// The transactions planned, one for each panel.
    pub closed spec fn planned(self) -> Seq<Transmission> {
        self.transmissions@
    }

    /// The reports of the transactions performed so far.
    pub closed spec fn recorded(self) -> Seq<DeviceReport> {
        self.reports@
    }

    /// Whether the broadcast plans to write `wire` to each of the named
    /// ports, in their order, and nothing has been performed yet.
    pub open spec fn plans(self, operation: Seq<char>, port_names: Seq<Seq<char>>, wire: Seq<u8>) -> bool {
        &&& self.operation() == operation
        &&& self.recorded().len() == 0
        &&& self.planned().len() == port_names.len()
        &&& forall|i: int|
            0 <= i < port_names.len() ==> (#[trigger] self.planned()[i]).carries(
                port_names[i],
                wire,
            )
    }

    /// Name of the operation.
    pub fn operation_name(&self) -> (name: &str)
        ensures
            name@ == self.operation(),
    {
        self.operation_name.as_str()
    }

    /// The transaction to perform next: that of the first panel without a
    /// report, whatever the earlier reports say. `None` once every panel has
    /// its report.
    pub fn pending(&self) -> (next: Option<&Transmission>)
        ensures
            match next {
                Some(transmission) => self.recorded().len() < self.planned().len()
                    && *transmission == self.planned()[self.recorded().len() as int],
                None => self.recorded().len() >= self.planned().len(),
            },
    {
        let done = self.reports.len();
        if done < self.transmissions.len() {
            Some(&self.transmissions[done])
        } else {
            None
        }
    }

    /// Whether every panel has its report.
    pub fn is_finished(&self) -> (finished: bool)
        ensures
            finished == (self.recorded().len() >= self.planned().len()),
    {
        self.reports.len() >= self.transmissions.len()
    }

    /// Records what the transport reported for the pending transaction. The
    /// report names the port of that transaction and holds success or the
    /// classified failure. Earlier reports and the plan do not change. Once
    /// every panel has its report, nothing is recorded.
    pub fn record(&mut self, outcome: Result<(), SerialError>)
        ensures
            final(self).operation() == old(self).operation(),
            final(self).planned() == old(self).planned(),
            old(self).recorded().len() < old(self).planned().len() ==> {
                &&& final(self).recorded().len() == old(self).recorded().len() + 1
                &&& final(self).recorded().drop_last() == old(self).recorded()
                &&& final(self).recorded().last().port_name@ == old(self).planned()[old(
                    self,
                ).recorded().len() as int].port_name@
                &&& concludes(outcome, final(self).recorded().last().result)
            },
            old(self).recorded().len() >= old(self).planned().len() ==> final(self).recorded()
                == old(self).recorded(),
    {
        let done = self.reports.len();
        if done < self.transmissions.len() {
            let port_name = self.transmissions[done].port_name.clone();
            let result = transaction_result(outcome);
            self.reports.push(DeviceReport { port_name, result });
            assert(self.reports@.drop_last() =~= old(self).reports@);
        }
    }

    /// The reports recorded so far, in the order of the panels.
    pub fn reports(&self) -> (reports: &Vec<DeviceReport>)
        ensures
            reports@ == self.recorded(),
    {
        &self.reports
    }
}

/// Whether `started` is how a broadcast of the bytes `wire` begins, given
/// what the enumeration of the ports gave.
///
/// A failed enumeration is a transport error and an enumeration without a
/// panel is `NoDevicesFound`: either is reported once, and nothing is planned.
/// Otherwise one transaction is planned for each panel, in the order of the
/// enumeration.
pub open spec fn starts(
    enumerated: Result<Vec<SerialPortInfo>, SerialError>,
    operation: Seq<char>,
    wire: Seq<u8>,
    started: Result<Broadcast, LedMatrixError>,
) -> bool {
    match enumerated {
        Err(cause) => started == Err::<Broadcast, LedMatrixError>(
            LedMatrixError::SerialPort(cause),
        ),
        Ok(ports) => if matrix_port_names(ports@).len() == 0 {
            started == Err::<Broadcast, LedMatrixError>(LedMatrixError::NoDevicesFound)
        } else {
            started is Ok && started->Ok_0.plans(operation, matrix_port_names(ports@), wire)
        },
    }
}

/// Begins one operation on every attached panel: discovers the panels among
/// the enumerated ports and plans the transaction that sends `command` to
/// each.
pub fn for_each_devices(
    operation_name: &str,
    enumerated: Result<Vec<SerialPortInfo>, SerialError>,
    command: &Command,
) -> (started: Result<Broadcast, LedMatrixError>)
    ensures
        starts(enumerated, operation_name@, command.wire(), started),
{
    let devices = match discover_devices(enumerated) {
        Ok(devices) => devices,
        Err(error) => {
            return Err(error);
        },
    };
    let mut transmissions: Vec<Transmission> = Vec::new();
    for i in 0..devices.len()
        invariant
            transmissions@.len() == i,
            forall|k: int|
                0 <= k < i ==> (#[trigger] transmissions@[k]).carries(
                    devices@[k]@,
                    command.wire(),
                ),
    {
        transmissions.push(devices[i].send_command(command));
    }
    proof {
        assert forall|k: int| 0 <= k < devices@.len() implies devices@[k]@ == device_names(
            devices@,
        )[k] by {}
    }
    Ok(Broadcast { operation_name: operation_name.to_owned(), transmissions, reports: Vec::new() })
}

/// The panels to list for the host: one entry for each panel among the
/// enumerated ports, in their order, each shown as connected. Where the
/// enumeration failed, the list is empty.
pub fn refresh_devices(enumerated: Result<Vec<SerialPortInfo>, SerialError>) -> (listed: Vec<
    DeviceInfo,
>)
    ensures
        Seq::new(listed@.len(), |i: int| listed@[i].name@) == (match enumerated {
            Ok(ports) => matrix_port_names(ports@),
            Err(_) => Seq::<Seq<char>>::empty(),
        }),
        forall|i: int| 0 <= i < listed@.len() ==> (#[trigger] listed@[i]).status@ == "Connected"@,
{
    let mut listed: Vec<DeviceInfo> = Vec::new();
    if let Ok(devices) = discover_devices(enumerated) {
        for i in 0..devices.len()
            invariant
                listed@.len() == i,
                forall|k: int| 0 <= k < i ==> (#[trigger] listed@[k]).name@ == devices@[k]@,
                forall|k: int| 0 <= k < i ==> (#[trigger] listed@[k]).status@ == "Connected"@,
        {
            listed.push(
                DeviceInfo {
                    name: devices[i].port_name().to_owned(),
                    status: "Connected".to_owned(),
                },
            );
        }
        assert(Seq::new(listed@.len(), |i: int| listed@[i].name@) =~= device_names(devices@));
    }
    assert(Seq::new(listed@.len(), |i: int| listed@[i].name@) =~= (match enumerated {
        Ok(ports) => matrix_port_names(ports@),
        Err(_) => Seq::<Seq<char>>::empty(),
    }));
    listed
}

/// Begins the selection of the pattern listed at `pattern_idx` on every
/// attached panel. `None` where the configuration lists no pattern at that
/// index: nothing is planned then.
pub fn send_pattern_to_devices(
    pattern_idx: i32,
    config: &Config,
    enumerated: Result<Vec<SerialPortInfo>, SerialError>,
) -> (started: Option<Result<Broadcast, LedMatrixError>>)
    ensures
        match config.spec_pattern_at(pattern_idx as int) {
            Some(id) => started is Some && starts(
                enumerated,
                "pattern"@,
                Command::Pattern(id).wire(),
                started->Some_0,
            ),
            None => started is None,
        },
{
    let Some(id) = config.pattern_at(pattern_idx) else {
        return None;
    };
    Some(for_each_devices("pattern", enumerated, &Command::Pattern(id)))
}

/// Begins setting the brightness of every attached panel. The level is cut
/// to its low eight bits and sent without clamping.
pub fn send_brightness_to_devices(
    brightness: i32,
    enumerated: Result<Vec<SerialPortInfo>, SerialError>,
) -> (started: Result<Broadcast, LedMatrixError>)
    ensures
        starts(
            enumerated,
            "brightness"@,
            Command::Brightness(low_byte(brightness)).wire(),
            started,
        ),
{
    proof {
        lemma_cast_keeps_low_byte(brightness);
    }
    let level: u8 = #[verifier::truncate]
    (brightness as u8);
    for_each_devices("brightness", enumerated, &Command::Brightness(level))
}

/// Begins showing the host's picture on every attached panel.
pub fn send_matrix_to_devices(
    matrix_model: &Vec<Vec<bool>>,
    enumerated: Result<Vec<SerialPortInfo>, SerialError>,
) -> (started: Result<Broadcast, LedMatrixError>)
    requires
        model_fits(matrix_model@),
    ensures
        starts(
            enumerated,
            "matrix"@,
            FWK_MAGIC@.push(0x06u8) + packed(model_grid(matrix_model@)),
            started,
        ),
{
    let matrix_array = convert_model_to_array(matrix_model);
    let bits = encode(&matrix_array);
    for_each_devices("matrix", enumerated, &Command::DisplayBwImage(bits))
}

} // verus!
