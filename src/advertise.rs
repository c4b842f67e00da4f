//! Advertising: the discovery payload, and the advertise → serve → advertise
//! again cycle that keeps at most one connection at a time.
use trouble_host::advertise::{AdStructure, BR_EDR_NOT_SUPPORTED, LE_GENERAL_DISCOVERABLE};
use vstd::prelude::*;

use crate::attribute_table::le_bytes;
use crate::device_name::DeviceName;

verus! {

/// Largest advertisement payload, in bytes.
pub const MAX_ADVERTISEMENT_LENGTH: usize = 31;

/// Flags element of the payload: LE general discoverable (0x02) and BR/EDR
/// not supported (0x04).
pub const ADVERTISING_FLAGS: u8 = 0x06;

/// The 16-bit UUIDs `us`, each least significant byte first.
pub open spec fn uuid_list_bytes(us: Seq<u16>) -> Seq<u8>
    decreases us.len(),
{
    if us.len() == 0 {
        seq![]
    } else {
        uuid_list_bytes(us.drop_last()) + le_bytes(us.last())
    }
}

proof fn lemma_uuid_list_len(us: Seq<u16>)
    ensures
        uuid_list_bytes(us).len() == 2 * us.len(),
    decreases us.len(),
{
    if us.len() > 0 {
        lemma_uuid_list_len(us.drop_last());
    }
}

/// An advertisement payload: a flags element, a complete list of 16-bit
/// service UUIDs and a complete local name, each as (length, type, payload).
pub open spec fn advertisement_bytes(flags: u8, uuids: Seq<u16>, name: Seq<u8>) -> Seq<u8> {
    seq![2u8, 0x01u8, flags] + seq![(2 * uuids.len() + 1) as u8, 0x03u8] + uuid_list_bytes(uuids)
        + seq![(name.len() + 1) as u8, 0x09u8] + name
}

/// Relies on trouble_host's AdStructure::encode_slice, which writes the
/// flags, complete 16-bit service UUID list and complete local name
/// structures in order, each as length, type and payload, into a buffer of
/// `capacity` bytes, and fails when they do not fit.
#[verifier::external_body]
fn encode_ad_structures(flags: u8, uuids: &[u16], name: &[u8], capacity: usize) -> (r: Option<
    Vec<u8>,
>)
    requires
        2 * uuids@.len() + 1 <= 255,
        name@.len() + 1 <= 255,
    ensures
        r is Some <==> advertisement_bytes(flags, uuids@, name@).len() <= capacity,
        r matches Some(b) ==> b@ == advertisement_bytes(flags, uuids@, name@),
{
    let raw: Vec<[u8; 2]> = uuids.iter().map(|u| u.to_le_bytes()).collect();
    let mut buf = vec![0u8; capacity];
    let structures = [
        AdStructure::Flags(flags),
        AdStructure::CompleteServiceUuids16(&raw),
        AdStructure::CompleteLocalName(name),
    ];
    let len = AdStructure::encode_slice(&structures, &mut buf).ok()?;
    buf.truncate(len);
    Some(buf)
}

/// Relies on trouble_host's LE_GENERAL_DISCOVERABLE (0x02) and
/// BR_EDR_NOT_SUPPORTED (0x04) flag bits.
#[verifier::external_body]
fn discoverable_flag_bits() -> (r: (u8, u8))
    ensures
        r.0 == 0x02,
        r.1 == 0x04,
{
    (LE_GENERAL_DISCOVERABLE, BR_EDR_NOT_SUPPORTED)
}

/// Why advertising could not begin.
#[derive(Clone, Copy, Debug, PartialEq, Eq, Structural)]
pub enum AdvertiseError {
    /// Flags, UUID list and name together exceed the payload size.
    PayloadTooLong,
    /// A cycle is already under way: advertising or connected.
    Busy,
}

/// Encode the advertisement payload for `name` with the service UUID hints
/// `uuids`. Fails, rather than truncating, when it exceeds 31 bytes.
pub fn encode_advertisement(name: &DeviceName, uuids: &[u16]) -> (r: Result<Vec<u8>, AdvertiseError>)
    ensures
        r is Ok <==> advertisement_bytes(ADVERTISING_FLAGS, uuids@, name@).len()
            <= MAX_ADVERTISEMENT_LENGTH,
        r matches Ok(b) ==> b@ == advertisement_bytes(ADVERTISING_FLAGS, uuids@, name@),
        r matches Err(e) ==> e == AdvertiseError::PayloadTooLong,
{
    proof {
        lemma_uuid_list_len(uuids@);
    }
    if uuids.len() > 16 {
        return Err(AdvertiseError::PayloadTooLong);
    }
    let (discoverable, no_br_edr) = discoverable_flag_bits();
    let flags = discoverable | no_br_edr;
    assert(0x02u8 | 0x04u8 == ADVERTISING_FLAGS) by (bit_vector);
    let bytes = name.as_ptr();
    match encode_ad_structures(flags, uuids, bytes, MAX_ADVERTISEMENT_LENGTH) {
        Some(b) => Ok(b),
        None => Err(AdvertiseError::PayloadTooLong),
    }
}

/// Where the advertise → serve cycle stands.
#[derive(Clone, Copy, Debug, PartialEq, Eq, Structural)]
pub enum LinkPhase {
    /// Ready to begin advertising.
    Idle,
    /// Broadcasting, waiting for a peer.
    Advertising,
    /// Serving the one connection.
    Connected,
}

/// What the controller reported.
#[derive(Clone, Copy, Debug, PartialEq, Eq, Structural)]
pub enum LinkEvent {
    /// Advertising ended without a connection.
    AdvertiseFailed,
    /// A peer completed a connection.
    PeerConnected,
    /// The connection's event loop reached its end.
    PeerDisconnected,
}

/// What the caller does next.
#[derive(Clone, Copy, Debug, PartialEq, Eq, Structural)]
pub enum LinkAction {
    /// Hand the connection to the connection event loop.
    Serve,
    /// Advertise again.
    Readvertise,
    /// The event does not apply in this phase: nothing changes.
    Ignore,
}

/// The advertise → serve cycle, with counts of what it has done.
pub struct AdvertiserState {
    pub phase: LinkPhase,
    /// Advertising cycles begun.
    pub advertisements: nat,
    /// Connections that ended.
    pub disconnects: nat,
    /// Advertising cycles that ended without a connection.
    pub failures: nat,
}

/// The cycle after advertising begins with a payload.
pub open spec fn after_start(s: AdvertiserState) -> AdvertiserState {
    if s.phase == LinkPhase::Idle {
        AdvertiserState { phase: LinkPhase::Advertising, advertisements: s.advertisements + 1, ..s }
    } else {
        s
    }
}

/// The cycle after event `e`.
pub open spec fn after_event(s: AdvertiserState, e: LinkEvent) -> AdvertiserState {
    match (s.phase, e) {
        (LinkPhase::Advertising, LinkEvent::PeerConnected) => AdvertiserState {
            phase: LinkPhase::Connected,
            ..s
        },
        (LinkPhase::Advertising, LinkEvent::AdvertiseFailed) => AdvertiserState {
            phase: LinkPhase::Idle,
            failures: s.failures + 1,
            ..s
        },
        (LinkPhase::Connected, LinkEvent::PeerDisconnected) => AdvertiserState {
            phase: LinkPhase::Idle,
            disconnects: s.disconnects + 1,
            ..s
        },
        _ => s,
    }
}

/// The action that goes with event `e` in `s`.
pub open spec fn action_for(s: AdvertiserState, e: LinkEvent) -> LinkAction {
    match (s.phase, e) {
        (LinkPhase::Advertising, LinkEvent::PeerConnected) => LinkAction::Serve,
        (LinkPhase::Advertising, LinkEvent::AdvertiseFailed) => LinkAction::Readvertise,
        (LinkPhase::Connected, LinkEvent::PeerDisconnected) => LinkAction::Readvertise,
        _ => LinkAction::Ignore,
    }
}

/// Every advertising cycle begun is still running, or ended in exactly one
/// disconnect or one failure.
pub open spec fn cycles_balanced(s: AdvertiserState) -> bool {
    s.advertisements == s.disconnects + s.failures + if s.phase == LinkPhase::Idle {
        0nat
    } else {
        1nat
    }
}

/// The decisions of the advertise → serve loop.
pub struct Advertiser {
    phase: LinkPhase,
    advertisements: Ghost<nat>,
    disconnects: Ghost<nat>,
    failures: Ghost<nat>,
}

impl View for Advertiser {
    type V = AdvertiserState;

    closed spec fn view(&self) -> AdvertiserState {
        AdvertiserState {
            phase: self.phase,
            advertisements: self.advertisements@,
            disconnects: self.disconnects@,
            failures: self.failures@,
        }
    }
}

impl Advertiser {
    /// A cycle that has not begun.
    pub fn new() -> (r: Self)
        ensures
            r@ == (AdvertiserState {
                phase: LinkPhase::Idle,
                advertisements: 0,
                disconnects: 0,
                failures: 0,
            }),
    {
        Advertiser {
            phase: LinkPhase::Idle,
            advertisements: Ghost(0),
            disconnects: Ghost(0),
            failures: Ghost(0),
        }
    }

    /// The current phase.
    pub fn phase(&self) -> (r: LinkPhase)
        ensures
            r == self@.phase,
    {
        self.phase
    }

    /// Take in event `e` and say what to do next.
    pub fn on_event(&mut self, e: LinkEvent) -> (r: LinkAction)
        ensures
            final(self)@ == after_event(old(self)@, e),
            r == action_for(old(self)@, e),
    {
        match (self.phase, e) {
            (LinkPhase::Advertising, LinkEvent::PeerConnected) => {
                self.phase = LinkPhase::Connected;
                LinkAction::Serve
            },
            (LinkPhase::Advertising, LinkEvent::AdvertiseFailed) => {
                self.phase = LinkPhase::Idle;
                self.failures = Ghost(self.failures@ + 1);
                LinkAction::Readvertise
            },
            (LinkPhase::Connected, LinkEvent::PeerDisconnected) => {
                self.phase = LinkPhase::Idle;
                self.disconnects = Ghost(self.disconnects@ + 1);
                LinkAction::Readvertise
            },
            _ => LinkAction::Ignore,
        }
    }
}

/// Begin an advertising cycle for `name`, advertising the service UUID hints
/// `uuids`: hands back the payload to broadcast. Fails, with nothing to
/// transmit and the cycle unchanged, while a cycle is under way or when the
/// payload exceeds 31 bytes.
pub fn advertise(advertiser: &mut Advertiser, name: &DeviceName, uuids: &[u16]) -> (r: Result<
    Vec<u8>,
    AdvertiseError,
>)
    ensures
        r is Ok <==> old(advertiser)@.phase == LinkPhase::Idle && advertisement_bytes(
            ADVERTISING_FLAGS,
            uuids@,
            name@,
        ).len() <= MAX_ADVERTISEMENT_LENGTH,
        r is Ok ==> final(advertiser)@ == after_start(old(advertiser)@),
        r is Err ==> final(advertiser)@ == old(advertiser)@,
        r matches Ok(b) ==> b@ == advertisement_bytes(ADVERTISING_FLAGS, uuids@, name@),
        r matches Err(e) ==> (e == AdvertiseError::Busy <==> old(advertiser)@.phase
            != LinkPhase::Idle),
{
    if advertiser.phase != LinkPhase::Idle {
        return Err(AdvertiseError::Busy);
    }
    let payload = encode_advertisement(name, uuids);
    if payload.is_ok() {
        advertiser.phase = LinkPhase::Advertising;
        advertiser.advertisements = Ghost(advertiser.advertisements@ + 1);
    }
    payload
}

/// Each step of the cycle keeps it balanced: advertising begins again
/// exactly once per disconnect or failure, never twice for one.
pub proof fn lemma_cycles_stay_balanced(s: AdvertiserState, e: LinkEvent)
    requires
        cycles_balanced(s),
    ensures
        cycles_balanced(after_start(s)),
        cycles_balanced(after_event(s, e)),
{
}

/// `n` cycles in which a peer connects and later disconnects.
pub open spec fn run_cycles(s: AdvertiserState, n: nat) -> AdvertiserState
    decreases n,
{
    if n == 0 {
        s
    } else {
        after_event(
            after_event(after_start(run_cycles(s, (n - 1) as nat)), LinkEvent::PeerConnected),
            LinkEvent::PeerDisconnected,
        )
    }
}

/// Over `n` connect/disconnect cycles from an idle advertiser, advertising is
/// entered exactly `n` times, once per disconnect, and the loop ends idle.
pub proof fn lemma_readvertise_once_per_disconnect(s: AdvertiserState, n: nat)
    requires
        s.phase == LinkPhase::Idle,
    ensures
        run_cycles(s, n).phase == LinkPhase::Idle,
        run_cycles(s, n).advertisements == s.advertisements + n,
        run_cycles(s, n).disconnects == s.disconnects + n,
        run_cycles(s, n).failures == s.failures,
    decreases n,
{
    if n > 0 {
        lemma_readvertise_once_per_disconnect(s, (n - 1) as nat);
    }
}

/// One step of the advertise → serve loop: begin advertising with a payload
/// that fits, or take in a reported event.
pub enum CycleStep {
    Start,
    Event(LinkEvent),
}

/// The cycle after steps `steps`, in order.
pub open spec fn run_steps(s: AdvertiserState, steps: Seq<CycleStep>) -> AdvertiserState
    decreases steps.len(),
{
    if steps.len() == 0 {
        s
    } else {
        let p = run_steps(s, steps.drop_last());
        match steps.last() {
            CycleStep::Start => after_start(p),
            CycleStep::Event(e) => after_event(p, e),
        }
    }
}

/// Whatever the controller reports, in whatever order, advertising has been
/// entered exactly once per disconnect and per failure, plus once for a cycle
/// still under way: never twice for one disconnect, never missed.
pub proof fn lemma_any_steps_stay_balanced(s: AdvertiserState, steps: Seq<CycleStep>)
    requires
        cycles_balanced(s),
    ensures
        cycles_balanced(run_steps(s, steps)),
    decreases steps.len(),
{
    if steps.len() > 0 {
        lemma_any_steps_stay_balanced(s, steps.drop_last());
    }
}

} // verus!
