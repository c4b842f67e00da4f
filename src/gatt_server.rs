//! The GATT server: the attribute table of this device, and the decisions of
//! the connection event loop that serves one peer until it disconnects.
use vstd::prelude::*;
use vstd::string::StringSliceAdditionalSpecFns;

use crate::attribute_table::{
    is_notifiable, lemma_characteristics_layout_len, lemma_no_descriptors_in, peer_writable,
    service_layout, subscribed, valid_handle, with_value, write_error, AttError, AttributeSpec,
    AttributeTable, NotifyError,
};
use crate::services::{
    battery_spec, device_information_spec, gap_service, gap_service_spec, gatt_service,
    gatt_service_spec, BatteryService, DeviceInformation,
};

verus! {

/// Longest device name that the Generic Access service holds, in bytes.
pub const DEVICE_NAME_MAX_LENGTH: usize = 22;

/// Room in the attribute table, in attributes.
pub const MAX_ATTRIBUTES: u16 = 32;

/// Battery level reported until the first update, in percent.
pub const INITIAL_BATTERY_LEVEL: u8 = 100;

/// Handle of the first Device Information attribute.
pub const DEVICE_INFORMATION_HANDLE: u16 = 7;

/// Handle of the Battery Level value.
pub const BATTERY_LEVEL_HANDLE: u16 = 20;

/// The attribute table of a server for a device called `name` with firmware
/// revision `firmware`: Generic Access, Generic Attribute, Device
/// Information and Battery, in that order.
pub open spec fn server_layout(name: Seq<u8>, firmware: Seq<u8>) -> Seq<AttributeSpec> {
    service_layout(gap_service_spec(name), 1) + service_layout(gatt_service_spec(), 6)
        + service_layout(device_information_spec(firmware), 7) + service_layout(
        battery_spec(INITIAL_BATTERY_LEVEL),
        18,
    )
}

proof fn lemma_service_sizes(name: Seq<u8>, firmware: Seq<u8>)
    ensures
        service_layout(gap_service_spec(name), 1).len() == 5,
        service_layout(gatt_service_spec(), 6).len() == 1,
        service_layout(device_information_spec(firmware), 7).len() == 11,
        service_layout(battery_spec(INITIAL_BATTERY_LEVEL), 18).len() == 4,
{
    let gap = gap_service_spec(name).characteristics;
    let info = device_information_spec(firmware).characteristics;
    let battery = battery_spec(INITIAL_BATTERY_LEVEL).characteristics;
    lemma_characteristics_layout_len(gap, 2);
    lemma_characteristics_layout_len(gatt_service_spec().characteristics, 7);
    lemma_characteristics_layout_len(info, 8);
    lemma_characteristics_layout_len(battery, 19);
    lemma_no_descriptors_in(gap);
    lemma_no_descriptors_in(info);
    assert(battery.drop_last() =~= seq![]);
}

/// A GATT server: the attribute table with the services of this device.
pub struct GattServer {
    table: AttributeTable,
    /// Handles of the Device Information service.
    pub device_information: DeviceInformation,
    /// Handles of the Battery service.
    pub battery: BatteryService,
}

impl View for GattServer {
    type V = Seq<AttributeSpec>;

    closed spec fn view(&self) -> Seq<AttributeSpec> {
        self.table@
    }
}

impl GattServer {
    /// The table is well formed.
    pub closed spec fn wf(&self) -> bool {
        self.table.wf() && self.battery.level == BATTERY_LEVEL_HANDLE
            && self.device_information.handle == DEVICE_INFORMATION_HANDLE
    }

    /// Start the GATT server for a device called `device_name` running
    /// firmware revision `firmware_revision`. Fails when the name is longer
    /// than the Generic Access service holds.
    pub fn start(device_name: &str, firmware_revision: &str) -> (r: Result<Self, &'static str>)
        ensures
            r is Ok <==> device_name.spec_bytes().len() <= DEVICE_NAME_MAX_LENGTH,
            r matches Ok(s) ==> s.wf() && s@ == server_layout(
                device_name.spec_bytes(),
                firmware_revision.spec_bytes(),
            ),
    {
        if device_name.as_bytes().len() > DEVICE_NAME_MAX_LENGTH {
            return Err("Device name is too long. Max length is 22 bytes");
        }
        proof {
            lemma_service_sizes(device_name.spec_bytes(), firmware_revision.spec_bytes());
        }
        let mut table = AttributeTable::new(MAX_ATTRIBUTES);
        if table.add_service(&gap_service(device_name)).is_err() {
            return Err("attribute table is full");
        }
        if table.add_service(&gatt_service()).is_err() {
            return Err("attribute table is full");
        }
        let device_information = match DeviceInformation::new(&mut table, firmware_revision) {
            Ok(d) => d,
            Err(_) => {
                return Err("attribute table is full");
            },
        };
        let level = match table.add_service(&BatteryService::declaration(INITIAL_BATTERY_LEVEL)) {
            Ok(h) => {
                proof {
                    lemma_characteristics_layout_len(
                        battery_spec(INITIAL_BATTERY_LEVEL).characteristics.take(0),
                        19,
                    );
                }
                h.characteristics[0]
            },
            Err(_) => {
                return Err("attribute table is full");
            },
        };
        proof {
            assert(table@ =~= server_layout(
                device_name.spec_bytes(),
                firmware_revision.spec_bytes(),
            ));
        }
        Ok(GattServer { table, device_information, battery: BatteryService { level } })
    }

    /// The attribute table.
    pub fn table(&self) -> (r: &AttributeTable)
        ensures
            r@ == self@,
    {
        &self.table
    }

    /// Take in one event of `connection` and say how to answer it. Reads
    /// answer the stored value, writes store the new value first, and nothing
    /// is acted upon once the connection has ended.
    pub fn handle_event(&mut self, connection: &mut Connection, event: ConnectionEvent) -> (r:
        EventReply)
        requires
            old(self).wf(),
        ensures
            final(self).wf(),
            final(self)@ == table_after(old(self)@, old(connection).state, event@),
            final(connection).state == state_after(old(connection).state, event@),
            r@ == reply_for(old(self)@, old(connection).state, event@),
    {
        if let ConnectionState::Terminated(_) = connection.state {
            return EventReply::Discarded;
        }
        match event {
            ConnectionEvent::Read { handle } => match self.table.get(handle) {
                Some(v) => EventReply::Value(v),
                None => EventReply::Rejected(AttError::InvalidHandle),
            },
            ConnectionEvent::Write { handle, value } => match self.table.write(handle, value) {
                Ok(()) => EventReply::Written,
                Err(e) => EventReply::Rejected(e),
            },
            ConnectionEvent::Other => EventReply::Observed,
            ConnectionEvent::Disconnected { reason } => {
                connection.state = ConnectionState::Terminated(reason);
                EventReply::Closed(reason)
            },
        }
    }

    /// Store battery level `level` and decide whether to notify the peer of
    /// `connection`: only while it is connected and subscribed.
    pub fn notify_battery_level(&mut self, connection: &Connection, level: u8) -> (r: Result<
        (),
        NotifyError,
    >)
        requires
            old(self).wf(),
        ensures
            final(self).wf(),
            is_notifiable(old(self)@, BATTERY_LEVEL_HANDLE as int) ==> final(self)@ == with_value(
                old(self)@,
                BATTERY_LEVEL_HANDLE as int,
                seq![level],
            ),
            !is_notifiable(old(self)@, BATTERY_LEVEL_HANDLE as int) ==> final(self)@ == old(
                self,
            )@,
            r is Ok <==> connection.state == ConnectionState::Active && subscribed(
                old(self)@,
                BATTERY_LEVEL_HANDLE as int,
            ),
            r matches Err(e) ==> (e == NotifyError::Disconnected <==> (is_notifiable(
                old(self)@,
                BATTERY_LEVEL_HANDLE as int,
            ) && connection.state != ConnectionState::Active)),
    {
        let value = vec![level];
        assert(value@ =~= seq![level]);
        let active = connection.is_active();
        let handle = self.battery.level;
        self.table.notify(handle, value, active)
    }
}

/// Where a connection stands.
#[derive(Clone, Copy, Debug, PartialEq, Eq, Structural)]
pub enum ConnectionState {
    Active,
    /// Disconnected, with the reason that the link reported; no event is
    /// acted upon any more.
    Terminated(u8),
}

/// One active link to a peer, as the event loop sees it.
pub struct Connection {
    pub state: ConnectionState,
}

impl Connection {
    /// A link that a peer has just completed.
    pub fn new() -> (r: Self)
        ensures
            r.state == ConnectionState::Active,
    {
        Connection { state: ConnectionState::Active }
    }

    /// Whether the link is still up.
    pub fn is_active(&self) -> (r: bool)
        ensures
            r == (self.state == ConnectionState::Active),
    {
        match self.state {
            ConnectionState::Active => true,
            ConnectionState::Terminated(_) => false,
        }
    }
}

/// An event that the link delivers, in arrival order.
pub enum ConnectionEvent {
    /// The peer reads the attribute at `handle`.
    Read { handle: u16 },
    /// The peer writes `value` to the attribute at `handle`.
    Write { handle: u16, value: Vec<u8> },
    /// An administrative event (PHY or connection parameter update).
    Other,
    /// The link is gone.
    Disconnected { reason: u8 },
}

/// An event as a value.
pub enum EventSpec {
    Read(u16),
    Write(u16, Seq<u8>),
    Other,
    Disconnected(u8),
}

impl View for ConnectionEvent {
    type V = EventSpec;

    open spec fn view(&self) -> EventSpec {
        match self {
            ConnectionEvent::Read { handle } => EventSpec::Read(*handle),
            ConnectionEvent::Write { handle, value } => EventSpec::Write(*handle, value@),
            ConnectionEvent::Other => EventSpec::Other,
            ConnectionEvent::Disconnected { reason } => EventSpec::Disconnected(*reason),
        }
    }
}

/// How to answer an event.
#[derive(Debug)]
pub enum EventReply {
    /// Accept a read, answering this value.
    Value(Vec<u8>),
    /// Accept a write: it has been stored.
    Written,
    /// Refuse the request with this error.
    Rejected(AttError),
    /// Observed for diagnostics; nothing changes.
    Observed,
    /// The connection ended for this reason: return to advertising.
    Closed(u8),
    /// The connection had already ended: nothing is done.
    Discarded,
}

/// A reply as a value.
pub enum ReplySpec {
    Value(Seq<u8>),
    Written,
    Rejected(AttError),
    Observed,
    Closed(u8),
    Discarded,
}

impl View for EventReply {
    type V = ReplySpec;

    open spec fn view(&self) -> ReplySpec {
        match self {
            EventReply::Value(v) => ReplySpec::Value(v@),
            EventReply::Written => ReplySpec::Written,
            EventReply::Rejected(e) => ReplySpec::Rejected(*e),
            EventReply::Observed => ReplySpec::Observed,
            EventReply::Closed(r) => ReplySpec::Closed(*r),
            EventReply::Discarded => ReplySpec::Discarded,
        }
    }
}

/// The reply to event `e` on table `t` in state `s`.
pub open spec fn reply_for(t: Seq<AttributeSpec>, s: ConnectionState, e: EventSpec) -> ReplySpec {
    match s {
        ConnectionState::Terminated(_) => ReplySpec::Discarded,
        ConnectionState::Active => match e {
            EventSpec::Read(h) => if valid_handle(t, h as int) {
                ReplySpec::Value(t[h - 1].value)
            } else {
                ReplySpec::Rejected(AttError::InvalidHandle)
            },
            EventSpec::Write(h, v) => if peer_writable(t, h as int, v.len() as int) {
                ReplySpec::Written
            } else {
                ReplySpec::Rejected(write_error(t, h as int, v.len() as int))
            },
            EventSpec::Other => ReplySpec::Observed,
            EventSpec::Disconnected(r) => ReplySpec::Closed(r),
        },
    }
}

/// The table after event `e` on table `t` in state `s`.
pub open spec fn table_after(t: Seq<AttributeSpec>, s: ConnectionState, e: EventSpec) -> Seq<
    AttributeSpec,
> {
    match (s, e) {
        (ConnectionState::Active, EventSpec::Write(h, v)) => if peer_writable(
            t,
            h as int,
            v.len() as int,
        ) {
            with_value(t, h as int, v)
        } else {
            t
        },
        _ => t,
    }
}

/// The connection state after event `e` in state `s`.
pub open spec fn state_after(s: ConnectionState, e: EventSpec) -> ConnectionState {
    match (s, e) {
        (ConnectionState::Active, EventSpec::Disconnected(r)) => ConnectionState::Terminated(r),
        _ => s,
    }
}

/// Events are applied in arrival order: after a peer's write of `v` to `h`, a
/// read of `h` answers `v`; a disconnect ends the connection, and no event
/// after it changes the table or the state or gets an answer.
pub proof fn lemma_write_read_disconnect(
    t: Seq<AttributeSpec>,
    h: u16,
    v: Seq<u8>,
    reason: u8,
    later: EventSpec,
)
    requires
        peer_writable(t, h as int, v.len() as int),
    ensures
        ({
            let s0 = ConnectionState::Active;
            let t1 = table_after(t, s0, EventSpec::Write(h, v));
            let s1 = state_after(s0, EventSpec::Write(h, v));
            let t2 = table_after(t1, s1, EventSpec::Read(h));
            let s2 = state_after(s1, EventSpec::Read(h));
            let t3 = table_after(t2, s2, EventSpec::Disconnected(reason));
            let s3 = state_after(s2, EventSpec::Disconnected(reason));
            &&& reply_for(t, s0, EventSpec::Write(h, v)) == ReplySpec::Written
            &&& reply_for(t1, s1, EventSpec::Read(h)) == ReplySpec::Value(v)
            &&& reply_for(t2, s2, EventSpec::Disconnected(reason)) == ReplySpec::Closed(reason)
            &&& s3 == ConnectionState::Terminated(reason)
            &&& table_after(t3, s3, later) == t3
            &&& state_after(s3, later) == s3
            &&& reply_for(t3, s3, later) == ReplySpec::Discarded
        }),
{
}

/// The table and state after events `es`, in order, from table `t` in state `s`.
pub open spec fn run_events(t: Seq<AttributeSpec>, s: ConnectionState, es: Seq<EventSpec>) -> (
    Seq<AttributeSpec>,
    ConnectionState,
)
    decreases es.len(),
{
    if es.len() == 0 {
        (t, s)
    } else {
        let p = run_events(t, s, es.drop_last());
        (table_after(p.0, p.1, es.last()), state_after(p.1, es.last()))
    }
}

/// The value at handle `h` that events `es` leave: that of the last write to
/// `h` that was applied, else the value it had.
pub open spec fn last_written(
    t: Seq<AttributeSpec>,
    s: ConnectionState,
    es: Seq<EventSpec>,
    h: int,
) -> Seq<u8>
    decreases es.len(),
{
    if es.len() == 0 {
        t[h - 1].value
    } else {
        let p = run_events(t, s, es.drop_last());
        match es.last() {
            EventSpec::Write(w, v) => if w as int == h && p.1 == ConnectionState::Active
                && peer_writable(p.0, h, v.len() as int) {
                v
            } else {
                last_written(t, s, es.drop_last(), h)
            },
            _ => last_written(t, s, es.drop_last(), h),
        }
    }
}

/// Over any sequence of events the table keeps its handles, and each
/// attribute holds the value of the last write to it that was applied.
pub proof fn lemma_events_keep_last_write(
    t: Seq<AttributeSpec>,
    s: ConnectionState,
    es: Seq<EventSpec>,
    h: int,
)
    requires
        valid_handle(t, h),
    ensures
        run_events(t, s, es).0.len() == t.len(),
        run_events(t, s, es).0[h - 1].value == last_written(t, s, es, h),
    decreases es.len(),
{
    if es.len() > 0 {
        lemma_events_keep_last_write(t, s, es.drop_last(), h);
    }
}

/// After any sequence of events, a read of `h` on a connection that is still
/// up answers the value of the last write to `h` that was applied.
pub proof fn lemma_read_answers_last_write(
    t: Seq<AttributeSpec>,
    s: ConnectionState,
    es: Seq<EventSpec>,
    h: u16,
)
    requires
        valid_handle(t, h as int),
        run_events(t, s, es).1 == ConnectionState::Active,
    ensures
        reply_for(run_events(t, s, es).0, run_events(t, s, es).1, EventSpec::Read(h))
            == ReplySpec::Value(last_written(t, s, es, h as int)),
{
    lemma_events_keep_last_write(t, s, es, h as int);
}

} // verus!
