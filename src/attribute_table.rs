//! The attribute table: a fixed-capacity, append-only arena of attributes
//! built from service declarations, with handles assigned sequentially from 1.
use vstd::prelude::*;

verus! {

/// 16-bit UUID of a primary service declaration attribute.
pub const PRIMARY_SERVICE_UUID: u16 = 0x2800;

/// 16-bit UUID of a characteristic declaration attribute.
pub const CHARACTERISTIC_UUID: u16 = 0x2803;

/// 16-bit UUID of a Client Characteristic Configuration descriptor.
pub const CLIENT_CONFIGURATION_UUID: u16 = 0x2902;

/// Operations that a peer may perform on a characteristic.
#[derive(Clone, Copy, Debug, PartialEq, Eq, Structural)]
pub enum CharacteristicAccess {
    ReadOnly,
    ReadNotify,
    ReadWriteNotify,
}

/// What an attribute of the table stands for.
#[derive(Clone, Copy, Debug, PartialEq, Eq, Structural)]
pub enum AttributeKind {
    PrimaryService,
    CharacteristicDeclaration,
    CharacteristicValue,
    ClientConfiguration,
}

/// Declaration of one characteristic: its UUID, its access and its initial value.
pub struct CharacteristicDecl {
    pub uuid: u16,
    pub access: CharacteristicAccess,
    pub value: Vec<u8>,
}

/// Declaration of one primary service and its characteristics, in order.
pub struct ServiceDecl {
    pub uuid: u16,
    pub characteristics: Vec<CharacteristicDecl>,
}

/// A characteristic declaration as a value: UUID, access, initial value.
pub struct CharacteristicSpec {
    pub uuid: u16,
    pub access: CharacteristicAccess,
    pub value: Seq<u8>,
}

/// A service declaration as a value: UUID and characteristics, in order.
pub struct ServiceSpec {
    pub uuid: u16,
    pub characteristics: Seq<CharacteristicSpec>,
}

/// One attribute as the table holds it.
pub struct AttributeSpec {
    pub kind: AttributeKind,
    pub uuid: u16,
    pub access: CharacteristicAccess,
    pub value: Seq<u8>,
}

impl View for CharacteristicDecl {
    type V = CharacteristicSpec;

    open spec fn view(&self) -> CharacteristicSpec {
        CharacteristicSpec { uuid: self.uuid, access: self.access, value: self.value@ }
    }
}

impl View for ServiceDecl {
    type V = ServiceSpec;

    open spec fn view(&self) -> ServiceSpec {
        ServiceSpec {
            uuid: self.uuid,
            characteristics: self.characteristics@.map_values(|c: CharacteristicDecl| c@),
        }
    }
}

/// The two bytes of `v`, least significant first.
pub open spec fn le_bytes(v: u16) -> Seq<u8> {
    seq![(v % 256) as u8, (v / 256) as u8]
}

/// The properties byte of a characteristic declaration (read 0x02, write
/// 0x08, notify 0x10).
pub open spec fn properties_byte(access: CharacteristicAccess) -> u8 {
    match access {
        CharacteristicAccess::ReadOnly => 0x02,
        CharacteristicAccess::ReadNotify => 0x12,
        CharacteristicAccess::ReadWriteNotify => 0x1a,
    }
}

/// A notify-capable characteristic carries a configuration descriptor.
pub open spec fn has_descriptor(access: CharacteristicAccess) -> bool {
    access != CharacteristicAccess::ReadOnly
}

/// The attributes that characteristic `c` adds when its declaration takes
/// handle `first`: declaration, value, and a descriptor if it can notify.
pub open spec fn characteristic_layout(c: CharacteristicSpec, first: nat) -> Seq<AttributeSpec> {
    let declaration = AttributeSpec {
        kind: AttributeKind::CharacteristicDeclaration,
        uuid: CHARACTERISTIC_UUID,
        access: CharacteristicAccess::ReadOnly,
        value: seq![properties_byte(c.access)] + le_bytes((first + 1) as u16) + le_bytes(c.uuid),
    };
    let value = AttributeSpec {
        kind: AttributeKind::CharacteristicValue,
        uuid: c.uuid,
        access: c.access,
        value: c.value,
    };
    let descriptor = AttributeSpec {
        kind: AttributeKind::ClientConfiguration,
        uuid: CLIENT_CONFIGURATION_UUID,
        access: CharacteristicAccess::ReadWriteNotify,
        value: seq![0u8, 0u8],
    };
    if has_descriptor(c.access) {
        seq![declaration, value, descriptor]
    } else {
        seq![declaration, value]
    }
}

/// The attributes of characteristics `cs`, the first of them at handle `first`.
pub open spec fn characteristics_layout(cs: Seq<CharacteristicSpec>, first: nat) -> Seq<
    AttributeSpec,
>
    decreases cs.len(),
{
    if cs.len() == 0 {
        seq![]
    } else {
        let prefix = characteristics_layout(cs.drop_last(), first);
        prefix + characteristic_layout(cs.last(), first + prefix.len())
    }
}

/// The attributes of service `s` when its declaration takes handle `first`.
pub open spec fn service_layout(s: ServiceSpec, first: nat) -> Seq<AttributeSpec> {
    seq![
        AttributeSpec {
            kind: AttributeKind::PrimaryService,
            uuid: PRIMARY_SERVICE_UUID,
            access: CharacteristicAccess::ReadOnly,
            value: le_bytes(s.uuid),
        },
    ] + characteristics_layout(s.characteristics, first + 1)
}

/// The whole table built from services `ss`, in order, from handle 1.
pub open spec fn table_layout(ss: Seq<ServiceSpec>) -> Seq<AttributeSpec>
    decreases ss.len(),
{
    if ss.len() == 0 {
        seq![]
    } else {
        let prefix = table_layout(ss.drop_last());
        prefix + service_layout(ss.last(), prefix.len() + 1)
    }
}

/// Number of configuration descriptors among characteristics `cs`.
pub open spec fn descriptor_count(cs: Seq<CharacteristicSpec>) -> nat
    decreases cs.len(),
{
    if cs.len() == 0 {
        0
    } else {
        descriptor_count(cs.drop_last()) + if has_descriptor(cs.last().access) {
            1nat
        } else {
            0nat
        }
    }
}

/// Number of characteristics over all services `ss`.
pub open spec fn characteristic_total(ss: Seq<ServiceSpec>) -> nat
    decreases ss.len(),
{
    if ss.len() == 0 {
        0
    } else {
        characteristic_total(ss.drop_last()) + ss.last().characteristics.len()
    }
}

/// Number of configuration descriptors over all services `ss`.
pub open spec fn descriptor_total(ss: Seq<ServiceSpec>) -> nat
    decreases ss.len(),
{
    if ss.len() == 0 {
        0
    } else {
        descriptor_total(ss.drop_last()) + descriptor_count(ss.last().characteristics)
    }
}

/// Number of attributes that services `ss` need.
pub open spec fn attribute_count(ss: Seq<ServiceSpec>) -> nat {
    table_layout(ss).len()
}

/// Characteristics take two attributes each, plus one per descriptor.
pub proof fn lemma_characteristics_layout_len(cs: Seq<CharacteristicSpec>, first: nat)
    ensures
        characteristics_layout(cs, first).len() == 2 * cs.len() + descriptor_count(cs),
    decreases cs.len(),
{
    if cs.len() > 0 {
        lemma_characteristics_layout_len(cs.drop_last(), first);
    }
}

/// The capacity that a declaration needs: one attribute per service, two per
/// characteristic, and one more per notify descriptor.
pub proof fn lemma_attribute_count(ss: Seq<ServiceSpec>)
    ensures
        attribute_count(ss) == ss.len() + 2 * characteristic_total(ss) + descriptor_total(ss),
    decreases ss.len(),
{
    if ss.len() > 0 {
        lemma_attribute_count(ss.drop_last());
        lemma_characteristics_layout_len(ss.last().characteristics, table_layout(ss.drop_last()).len() + 2);
    }
}

/// A declaration whose characteristics are all read-only needs exactly one
/// attribute per service and two per characteristic.
pub proof fn lemma_read_only_attribute_count(ss: Seq<ServiceSpec>)
    requires
        forall|i: int, j: int|
            0 <= i < ss.len() && 0 <= j < ss[i].characteristics.len() ==> (
            #[trigger] ss[i].characteristics[j]).access == CharacteristicAccess::ReadOnly,
    ensures
        attribute_count(ss) == ss.len() + 2 * characteristic_total(ss),
    decreases ss.len(),
{
    lemma_attribute_count(ss);
    lemma_no_descriptors(ss);
}

proof fn lemma_no_descriptors(ss: Seq<ServiceSpec>)
    requires
        forall|i: int, j: int|
            0 <= i < ss.len() && 0 <= j < ss[i].characteristics.len() ==> (
            #[trigger] ss[i].characteristics[j]).access == CharacteristicAccess::ReadOnly,
    ensures
        descriptor_total(ss) == 0,
    decreases ss.len(),
{
    if ss.len() > 0 {
        let last = ss.len() - 1;
        assert forall|j: int| 0 <= j < ss[last].characteristics.len() implies (
        #[trigger] ss[last].characteristics[j]).access == CharacteristicAccess::ReadOnly by {}
        lemma_no_descriptors_in(ss.last().characteristics);
        lemma_no_descriptors(ss.drop_last());
    }
}

pub(crate) proof fn lemma_no_descriptors_in(cs: Seq<CharacteristicSpec>)
    requires
        forall|j: int| 0 <= j < cs.len() ==> (#[trigger] cs[j]).access == CharacteristicAccess::ReadOnly,
    ensures
        descriptor_count(cs) == 0,
    decreases cs.len(),
{
    if cs.len() > 0 {
        lemma_no_descriptors_in(cs.drop_last());
    }
}

/// Number of attributes that a characteristic adds.
fn characteristic_size(access: CharacteristicAccess) -> (r: usize)
    ensures
        r == (if has_descriptor(access) { 3int } else { 2int }),
{
    match access {
        CharacteristicAccess::ReadOnly => 2,
        _ => 3,
    }
}

/// A copy of `v`.
pub(crate) fn copy_bytes(v: &[u8]) -> (r: Vec<u8>)
    ensures
        r@ == v@,
{
    let mut r: Vec<u8> = Vec::new();
    let mut i: usize = 0;
    while i < v.len()
        invariant
            i <= v.len(),
            r@ == v@.subrange(0, i as int),
        decreases v.len() - i,
    {
        r.push(v[i]);
        i = i + 1;
    }
    assert(r@ =~= v@);
    r
}

/// The two bytes of `v`, least significant first.
fn u16_le_bytes(v: u16) -> (r: (u8, u8))
    ensures
        seq![r.0, r.1] == le_bytes(v),
{
    ((v % 256) as u8, (v / 256) as u8)
}

proof fn lemma_layout_len_from(cs: Seq<CharacteristicSpec>, a: nat, b: nat)
    ensures
        characteristics_layout(cs, a).len() == characteristics_layout(cs, b).len(),
{
    lemma_characteristics_layout_len(cs, a);
    lemma_characteristics_layout_len(cs, b);
}

proof fn lemma_layout_len_prefix(ss: Seq<ServiceSpec>, k: int)
    requires
        0 <= k <= ss.len(),
    ensures
        table_layout(ss.take(k)).len() <= table_layout(ss).len(),
    decreases ss.len(),
{
    if k < ss.len() {
        assert(ss.drop_last().take(k) =~= ss.take(k));
        lemma_layout_len_prefix(ss.drop_last(), k);
    } else {
        assert(ss.take(k) =~= ss);
    }
}

/// One attribute of the table.
pub struct Attribute {
    pub kind: AttributeKind,
    pub uuid: u16,
    pub access: CharacteristicAccess,
    pub value: Vec<u8>,
}

impl View for Attribute {
    type V = AttributeSpec;

    open spec fn view(&self) -> AttributeSpec {
        AttributeSpec { kind: self.kind, uuid: self.uuid, access: self.access, value: self.value@ }
    }
}

/// Why the table refused a change.
#[derive(Clone, Copy, Debug, PartialEq, Eq, Structural)]
pub enum TableError {
    /// The declaration needs more attributes than the table has room for.
    CapacityExceeded,
    /// No attribute has this handle.
    InvalidHandle,
    /// The attribute is not a characteristic value.
    NotAValue,
}

/// Why a peer's write was refused.
#[derive(Clone, Copy, Debug, PartialEq, Eq, Structural)]
pub enum AttError {
    /// No attribute has this handle.
    InvalidHandle,
    /// The attribute does not accept writes from a peer.
    WriteNotPermitted,
    /// A configuration descriptor takes exactly two bytes.
    InvalidAttributeValueLength,
}

/// Why a notification was not sent.
#[derive(Clone, Copy, Debug, PartialEq, Eq, Structural)]
pub enum NotifyError {
    /// The handle is not the value of a notify-capable characteristic.
    NotNotifiable,
    /// The peer has not enabled notifications for it.
    NotSubscribed,
    /// The connection is gone.
    Disconnected,
}

/// Handles that adding a service assigned.
pub struct ServiceHandles {
    /// The service declaration.
    pub service: u16,
    /// The value attribute of each characteristic, in declaration order.
    pub characteristics: Vec<u16>,
}

/// The handle of the value of characteristic `i` of `cs`, when the first
/// declaration takes handle `first`.
pub open spec fn value_handle(cs: Seq<CharacteristicSpec>, first: nat, i: int) -> int {
    (first + characteristics_layout(cs.take(i), first).len() + 1) as int
}

/// Whether `h` names an attribute of `t`.
pub open spec fn valid_handle(t: Seq<AttributeSpec>, h: int) -> bool {
    1 <= h <= t.len()
}

/// Whether `h` names a characteristic value of `t`.
pub open spec fn is_value_handle(t: Seq<AttributeSpec>, h: int) -> bool {
    valid_handle(t, h) && t[h - 1].kind == AttributeKind::CharacteristicValue
}

/// `t` with the value at handle `h` replaced by `v`.
pub open spec fn with_value(t: Seq<AttributeSpec>, h: int, v: Seq<u8>) -> Seq<AttributeSpec> {
    t.update(h - 1, AttributeSpec { value: v, ..t[h - 1] })
}

/// Whether a peer may write `len` bytes at handle `h`: a value that allows
/// writing, or a two-byte configuration descriptor.
pub open spec fn peer_writable(t: Seq<AttributeSpec>, h: int, len: int) -> bool {
    valid_handle(t, h) && ((t[h - 1].kind == AttributeKind::CharacteristicValue && t[h
        - 1].access == CharacteristicAccess::ReadWriteNotify) || (t[h - 1].kind
        == AttributeKind::ClientConfiguration && len == 2))
}

/// Why a peer may not write `len` bytes at handle `h` of `t`.
pub open spec fn write_error(t: Seq<AttributeSpec>, h: int, len: int) -> AttError {
    if !valid_handle(t, h) {
        AttError::InvalidHandle
    } else if t[h - 1].kind == AttributeKind::ClientConfiguration {
        AttError::InvalidAttributeValueLength
    } else {
        AttError::WriteNotPermitted
    }
}

/// Whether `h` is the value of a notify-capable characteristic of `t`.
pub open spec fn is_notifiable(t: Seq<AttributeSpec>, h: int) -> bool {
    is_value_handle(t, h) && has_descriptor(t[h - 1].access) && valid_handle(t, h + 1) && t[h].kind
        == AttributeKind::ClientConfiguration
}

/// Whether the peer enabled notifications on the value at `h`: the low bit of
/// its descriptor is set.
pub open spec fn subscribed(t: Seq<AttributeSpec>, h: int) -> bool {
    is_notifiable(t, h) && t[h].value.len() > 0 && t[h].value[0] % 2 == 1
}

/// A fixed-capacity, append-only table of attributes.
pub struct AttributeTable {
    attributes: Vec<Attribute>,
    capacity: u16,
}

impl View for AttributeTable {
    type V = Seq<AttributeSpec>;

    closed spec fn view(&self) -> Seq<AttributeSpec> {
        self.attributes@.map_values(|a: Attribute| a@)
    }
}

impl AttributeTable {
    /// The table holds no more attributes than its capacity.
    pub closed spec fn wf(&self) -> bool {
        self.attributes.len() <= self.capacity
    }

    /// The most attributes that the table can hold.
    pub closed spec fn spec_capacity(&self) -> nat {
        self.capacity as nat
    }

    /// An empty table with room for `capacity` attributes.
    pub fn new(capacity: u16) -> (r: Self)
        ensures
            r.wf(),
            r@ == Seq::<AttributeSpec>::empty(),
            r.spec_capacity() == capacity,
    {
        let r = AttributeTable { attributes: Vec::new(), capacity };
        assert(r@ =~= Seq::<AttributeSpec>::empty());
        r
    }

    /// Number of attributes in the table.
    pub fn len(&self) -> (r: usize)
        requires
            self.wf(),
        ensures
            r == self@.len(),
            r <= self.spec_capacity(),
    {
        self.attributes.len()
    }

    /// The most attributes that the table can hold.
    pub fn capacity(&self) -> (r: u16)
        ensures
            r == self.spec_capacity(),
    {
        self.capacity
    }

    fn push(&mut self, a: Attribute)
        requires
            old(self).wf(),
            old(self)@.len() < old(self).spec_capacity(),
        ensures
            final(self).wf(),
            final(self)@ == old(self)@.push(a@),
            final(self).spec_capacity() == old(self).spec_capacity(),
    {
        self.attributes.push(a);
        assert(self@ =~= old(self)@.push(a@));
    }

    fn add_characteristic(&mut self, c: &CharacteristicDecl) -> (handle: u16)
        requires
            old(self).wf(),
            old(self)@.len() + characteristic_layout(c@, old(self)@.len() + 1).len()
                <= old(self).spec_capacity(),
        ensures
            final(self).wf(),
            final(self)@ == old(self)@ + characteristic_layout(c@, old(self)@.len() + 1),
            handle == old(self)@.len() + 2,
            final(self).spec_capacity() == old(self).spec_capacity(),
    {
        let first = self.attributes.len() as u16 + 1;
        let value_handle = first + 1;
        let (h0, h1) = u16_le_bytes(value_handle);
        let (u0, u1) = u16_le_bytes(c.uuid);
        let props: u8 = match c.access {
            CharacteristicAccess::ReadOnly => 0x02,
            CharacteristicAccess::ReadNotify => 0x12,
            CharacteristicAccess::ReadWriteNotify => 0x1a,
        };
        let declaration = Attribute {
            kind: AttributeKind::CharacteristicDeclaration,
            uuid: CHARACTERISTIC_UUID,
            access: CharacteristicAccess::ReadOnly,
            value: vec![props, h0, h1, u0, u1],
        };
        let ghost d = declaration@;
        assert(d.value =~= seq![properties_byte(c.access)] + le_bytes(value_handle) + le_bytes(
            c.uuid,
        ));
        self.push(declaration);
        let value = Attribute {
            kind: AttributeKind::CharacteristicValue,
            uuid: c.uuid,
            access: c.access,
            value: copy_bytes(c.value.as_slice()),
        };
        self.push(value);
        if c.access != CharacteristicAccess::ReadOnly {
            let descriptor = Attribute {
                kind: AttributeKind::ClientConfiguration,
                uuid: CLIENT_CONFIGURATION_UUID,
                access: CharacteristicAccess::ReadWriteNotify,
                value: vec![0u8, 0u8],
            };
            assert(descriptor@.value =~= seq![0u8, 0u8]);
            self.push(descriptor);
        }
        assert(self@ =~= old(self)@ + characteristic_layout(c@, old(self)@.len() + 1));
        value_handle
    }

    /// Whether service `s` fits in the room that is left.
    fn has_room_for(&self, s: &ServiceDecl) -> (r: bool)
        requires
            self.wf(),
        ensures
            r == (self@.len() + service_layout(s@, self@.len() + 1).len()
                <= self.spec_capacity()),
    {
        let room = (self.capacity as usize) - self.attributes.len();
        let ghost cs = s@.characteristics;
        let mut needed: usize = 1;
        let mut i: usize = 0;
        while i < s.characteristics.len()
            invariant
                cs == s@.characteristics,
                i <= s.characteristics.len(),
                needed == 1 + characteristics_layout(cs.take(i as int), 0).len(),
                needed <= room + 3,
                room <= 0xffff,
                room == self.spec_capacity() - self@.len(),
            decreases s.characteristics.len() - i,
        {
            if needed > room {
                proof {
                    lemma_characteristics_layout_len(cs.take(i as int), 0);
                    lemma_characteristics_layout_len(cs, self@.len() + 2);
                    lemma_descriptor_count_prefix(cs, i as int);
                    assert(service_layout(s@, self@.len() + 1).len() == 1 + characteristics_layout(
                        cs,
                        self@.len() + 2,
                    ).len());
                }
                return false;
            }
            let size = characteristic_size(s.characteristics[i].access);
            proof {
                assert(cs.take(i + 1).drop_last() =~= cs.take(i as int));
                lemma_characteristics_layout_len(cs.take(i as int), 0);
                lemma_characteristics_layout_len(cs.take(i + 1), 0);
            }
            needed = needed + size;
            i = i + 1;
        }
        proof {
            assert(cs.take(i as int) =~= cs);
            lemma_layout_len_from(cs, 0, self@.len() + 2);
        }
        needed <= room
    }

    /// Append service `s` and its characteristics. Fails, and changes
    /// nothing, when they do not fit in the room that is left.
    pub fn add_service(&mut self, s: &ServiceDecl) -> (r: Result<ServiceHandles, TableError>)
        requires
            old(self).wf(),
        ensures
            final(self).wf(),
            final(self).spec_capacity() == old(self).spec_capacity(),
            r is Ok <==> old(self)@.len() + service_layout(s@, old(self)@.len() + 1).len()
                <= old(self).spec_capacity(),
            match r {
                Ok(h) => {
                    &&& final(self)@ == old(self)@ + service_layout(s@, old(self)@.len() + 1)
                    &&& h.service == old(self)@.len() + 1
                    &&& h.characteristics@.len() == s@.characteristics.len()
                    &&& forall|i: int|
                        0 <= i < h.characteristics@.len() ==> h.characteristics@[i] == value_handle(
                            s@.characteristics,
                            old(self)@.len() + 2,
                            i,
                        )
                },
                Err(e) => e == TableError::CapacityExceeded && final(self)@ == old(self)@,
            },
    {
        if !self.has_room_for(s) {
            return Err(TableError::CapacityExceeded);
        }
        let ghost start = self@;
        let ghost cs = s@.characteristics;
        let ghost first = start.len() + 2;
        proof {
            lemma_characteristics_layout_len(cs, first);
        }
        let service = self.attributes.len() as u16 + 1;
        let (b0, b1) = u16_le_bytes(s.uuid);
        let declaration = Attribute {
            kind: AttributeKind::PrimaryService,
            uuid: PRIMARY_SERVICE_UUID,
            access: CharacteristicAccess::ReadOnly,
            value: vec![b0, b1],
        };
        assert(declaration@.value =~= le_bytes(s.uuid));
        self.push(declaration);
        let mut handles: Vec<u16> = Vec::new();
        let mut i: usize = 0;
        while i < s.characteristics.len()
            invariant
                cs == s@.characteristics,
                first == start.len() + 2,
                i <= s.characteristics.len(),
                self.spec_capacity() == old(self).spec_capacity(),
                self.wf(),
                start == old(self)@,
                start.len() + 1 + characteristics_layout(cs, first).len() <= self.spec_capacity(),
                characteristics_layout(cs, first).len() == 2 * cs.len() + descriptor_count(cs),
                self@ == start + seq![declaration@] + characteristics_layout(cs.take(i as int), first),
                handles@.len() == i,
                forall|k: int| 0 <= k < i ==> handles@[k] == value_handle(cs, first, k),
            decreases s.characteristics.len() - i,
        {
            proof {
                assert(cs.take(i + 1).drop_last() =~= cs.take(i as int));
                assert(cs.take(i + 1).last() == cs[i as int]);
                lemma_characteristics_layout_len(cs.take(i as int), first);
                lemma_characteristics_layout_len(cs.take(i + 1), first);
                lemma_descriptor_count_prefix(cs, i + 1);
                assert(s.characteristics@[i as int]@ == cs[i as int]);
                assert(characteristics_layout(cs.take(i + 1), first).len() == characteristics_layout(
                    cs.take(i as int),
                    first,
                ).len() + characteristic_layout(cs[i as int], 0).len());
                assert forall|k: int| 0 <= k < i implies value_handle(cs, first, k) == first
                    + characteristics_layout(cs.take(k), first).len() + 1 by {}
            }
            let h = self.add_characteristic(&s.characteristics[i]);
            handles.push(h);
            proof {
                assert(value_handle(cs, first, i as int) == h);
            }
            i = i + 1;
            proof {
                assert(self@ =~= start + seq![declaration@] + characteristics_layout(
                    cs.take(i as int),
                    first,
                ));
            }
        }
        proof {
            assert(cs.take(i as int) =~= cs);
            assert(self@ =~= old(self)@ + service_layout(s@, old(self)@.len() + 1));
        }
        Ok(ServiceHandles { service, characteristics: handles })
    }

    /// A table with room for `capacity` attributes holding `services`, in
    /// order; fails when they need more than `capacity` attributes.
    pub fn build(services: &Vec<ServiceDecl>, capacity: u16) -> (r: Result<Self, TableError>)
        ensures
            r is Ok <==> attribute_count(services@.map_values(|s: ServiceDecl| s@)) <= capacity,
            match r {
                Ok(t) => t.wf() && t@ == table_layout(services@.map_values(|s: ServiceDecl| s@))
                    && t.spec_capacity() == capacity,
                Err(e) => e == TableError::CapacityExceeded,
            },
    {
        let ghost ss = services@.map_values(|s: ServiceDecl| s@);
        let mut table = AttributeTable::new(capacity);
        let mut i: usize = 0;
        while i < services.len()
            invariant
                ss == services@.map_values(|s: ServiceDecl| s@),
                i <= services.len(),
                table@ == table_layout(ss.take(i as int)),
                table.spec_capacity() == capacity,
                table.wf(),
            decreases services.len() - i,
        {
            proof {
                assert(ss.take(i + 1).drop_last() =~= ss.take(i as int));
                assert(ss.take(i + 1).last() == services@[i as int]@);
            }
            match table.add_service(&services[i]) {
                Ok(_) => {},
                Err(e) => {
                    proof {
                        lemma_layout_len_prefix(ss, i + 1);
                    }
                    return Err(e);
                },
            }
            i = i + 1;
        }
        proof {
            assert(ss.take(i as int) =~= ss);
        }
        Ok(table)
    }

    /// The value of the attribute at `handle`, if there is one.
    pub fn get(&self, handle: u16) -> (r: Option<Vec<u8>>)
        requires
            self.wf(),
        ensures
            r is Some <==> valid_handle(self@, handle as int),
            r matches Some(v) ==> v@ == self@[handle - 1].value,
    {
        if handle == 0 || handle as usize > self.attributes.len() {
            None
        } else {
            Some(copy_bytes(self.attributes[handle as usize - 1].value.as_slice()))
        }
    }

    fn replace_value(&mut self, handle: u16, value: Vec<u8>)
        requires
            old(self).wf(),
            valid_handle(old(self)@, handle as int),
        ensures
            final(self).wf(),
            final(self)@ == with_value(old(self)@, handle as int, value@),
            final(self).spec_capacity() == old(self).spec_capacity(),
    {
        let i = handle as usize - 1;
        let a = Attribute {
            kind: self.attributes[i].kind,
            uuid: self.attributes[i].uuid,
            access: self.attributes[i].access,
            value,
        };
        self.attributes.set(i, a);
        assert(self@ =~= with_value(old(self)@, handle as int, a.value@));
    }

    /// Store `value` as the value of the characteristic whose value attribute
    /// is at `handle`.
    pub fn set(&mut self, handle: u16, value: Vec<u8>) -> (r: Result<(), TableError>)
        requires
            old(self).wf(),
        ensures
            final(self).wf(),
            final(self).spec_capacity() == old(self).spec_capacity(),
            r is Ok <==> is_value_handle(old(self)@, handle as int),
            r is Ok ==> final(self)@ == with_value(old(self)@, handle as int, value@),
            r matches Err(e) ==> final(self)@ == old(self)@ && (e == TableError::InvalidHandle
                <==> !valid_handle(old(self)@, handle as int)) && (e == TableError::InvalidHandle
                || e == TableError::NotAValue),
    {
        if handle == 0 || handle as usize > self.attributes.len() {
            return Err(TableError::InvalidHandle);
        }
        if self.attributes[handle as usize - 1].kind != AttributeKind::CharacteristicValue {
            return Err(TableError::NotAValue);
        }
        self.replace_value(handle, value);
        Ok(())
    }

    /// A peer's write of `value` to the attribute at `handle`.
    pub fn write(&mut self, handle: u16, value: Vec<u8>) -> (r: Result<(), AttError>)
        requires
            old(self).wf(),
        ensures
            final(self).wf(),
            final(self).spec_capacity() == old(self).spec_capacity(),
            r is Ok <==> peer_writable(old(self)@, handle as int, value@.len() as int),
            r is Ok ==> final(self)@ == with_value(old(self)@, handle as int, value@),
            r matches Err(e) ==> final(self)@ == old(self)@ && e == write_error(
                old(self)@,
                handle as int,
                value@.len() as int,
            ),
    {
        if handle == 0 || handle as usize > self.attributes.len() {
            return Err(AttError::InvalidHandle);
        }
        let i = handle as usize - 1;
        let kind = self.attributes[i].kind;
        let access = self.attributes[i].access;
        if kind == AttributeKind::CharacteristicValue && access
            == CharacteristicAccess::ReadWriteNotify {
            self.replace_value(handle, value);
            Ok(())
        } else if kind == AttributeKind::ClientConfiguration {
            if value.len() == 2 {
                self.replace_value(handle, value);
                Ok(())
            } else {
                Err(AttError::InvalidAttributeValueLength)
            }
        } else {
            Err(AttError::WriteNotPermitted)
        }
    }

    /// Whether the peer enabled notifications on the value at `handle`.
    pub fn is_subscribed(&self, handle: u16) -> (r: bool)
        requires
            self.wf(),
        ensures
            r == subscribed(self@, handle as int),
    {
        if handle == 0 || handle as usize >= self.attributes.len() {
            return false;
        }
        let i = handle as usize - 1;
        let value = &self.attributes[i];
        let descriptor = &self.attributes[i + 1];
        value.kind == AttributeKind::CharacteristicValue && value.access
            != CharacteristicAccess::ReadOnly && descriptor.kind
            == AttributeKind::ClientConfiguration && descriptor.value.len() > 0
            && descriptor.value[0] % 2 == 1
    }

    /// Store `value` for the notify-capable characteristic at `handle` and
    /// decide whether it is sent: only to a connected peer that subscribed.
    pub fn notify(&mut self, handle: u16, value: Vec<u8>, connected: bool) -> (r: Result<
        (),
        NotifyError,
    >)
        requires
            old(self).wf(),
        ensures
            final(self).wf(),
            final(self).spec_capacity() == old(self).spec_capacity(),
            is_notifiable(old(self)@, handle as int) ==> final(self)@ == with_value(
                old(self)@,
                handle as int,
                value@,
            ),
            !is_notifiable(old(self)@, handle as int) ==> final(self)@ == old(self)@,
            r is Ok <==> connected && subscribed(old(self)@, handle as int),
            r matches Err(e) ==> (e == NotifyError::NotNotifiable <==> !is_notifiable(
                old(self)@,
                handle as int,
            )) && (e == NotifyError::Disconnected <==> (is_notifiable(old(self)@, handle as int)
                && !connected)),
    {
        if handle == 0 || handle as usize >= self.attributes.len() {
            return Err(NotifyError::NotNotifiable);
        }
        let i = handle as usize - 1;
        if self.attributes[i].kind != AttributeKind::CharacteristicValue || self.attributes[i].access
            == CharacteristicAccess::ReadOnly || self.attributes[i + 1].kind
            != AttributeKind::ClientConfiguration {
            return Err(NotifyError::NotNotifiable);
        }
        let subscribed = self.is_subscribed(handle);
        self.replace_value(handle, value);
        if !connected {
            Err(NotifyError::Disconnected)
        } else if !subscribed {
            Err(NotifyError::NotSubscribed)
        } else {
            Ok(())
        }
    }
}

/// A value stored with `set` is the value that `get` then returns.
pub proof fn lemma_set_then_get(t: Seq<AttributeSpec>, h: int, v: Seq<u8>)
    requires
        is_value_handle(t, h),
    ensures
        valid_handle(with_value(t, h, v), h),
        with_value(t, h, v)[h - 1].value == v,
        with_value(t, h, v).len() == t.len(),
{
}

proof fn lemma_descriptor_count_prefix(cs: Seq<CharacteristicSpec>, k: int)
    requires
        0 <= k <= cs.len(),
    ensures
        descriptor_count(cs.take(k)) <= descriptor_count(cs),
        2 * k + descriptor_count(cs.take(k)) <= 2 * cs.len() + descriptor_count(cs),
    decreases cs.len(),
{
    if k < cs.len() {
        assert(cs.drop_last().take(k) =~= cs.take(k));
        lemma_descriptor_count_prefix(cs.drop_last(), k);
    } else {
        assert(cs.take(k) =~= cs);
    }
}

} // verus!
