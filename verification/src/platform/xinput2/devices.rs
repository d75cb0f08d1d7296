//! What the X drivers tell about a device, and the decisions taken on it while enumerating.

use vstd::prelude::*;

use super::names::ToolNameFields;
use super::strings::{AbsoluteAxisAtoms, WacomAtoms};
use super::{match_valuator_label, spec_valuator_label, DeviceType, Fp3232, ValuatorAxis};
use super::ID;
use crate::pad::{Group, Pad, Ring};
use crate::platform::InternalID;
use crate::tool::{HardwareID, Type};

verus! {

/// The IDs that the wacom driver reports for a device.
#[derive(Copy, Clone, Debug, PartialEq, Eq, Structural)]
pub struct WacomIDs {
    pub hardware_serial: u32,
    pub hardware_id: u32,
    pub tablet_id: u32,
}

/// What the wacom driver says a device is. It does not report tablets.
#[derive(Copy, Clone, Debug, PartialEq, Eq, Structural)]
pub enum WacomInfo {
    Tool { ty: Type, ids: Option<WacomIDs> },
    Pad { ids: Option<WacomIDs> },
}

impl WacomInfo {
    /// The IDs, whatever the kind.
    pub open spec fn spec_ids(self) -> Option<WacomIDs> {
        match self {
            WacomInfo::Pad { ids } => ids,
            WacomInfo::Tool { ids, .. } => ids,
        }
    }

    /// The corresponding device type.
    pub fn device_type(self) -> (r: DeviceType)
        ensures
            r == (match self {
                WacomInfo::Tool { ty, .. } => DeviceType::Tool(Some(ty)),
                WacomInfo::Pad { .. } => DeviceType::Pad,
            }),
    {
        match self {
            WacomInfo::Tool { ty, .. } => DeviceType::Tool(Some(ty)),
            WacomInfo::Pad { .. } => DeviceType::Pad,
        }
    }

    /// The IDs, whatever the kind.
    pub fn ids(self) -> (r: Option<WacomIDs>)
        ensures
            r == self.spec_ids(),
    {
        match self {
            WacomInfo::Pad { ids } => ids,
            WacomInfo::Tool { ids, .. } => ids,
        }
    }

    /// The hardware serial, if the IDs were read.
    pub fn hardware_serial(self) -> (r: Option<u32>)
        ensures
            r == (match self.spec_ids() {
                Some(ids) => Some(ids.hardware_serial),
                None => None,
            }),
    {
        match self.ids() {
            Some(ids) => Some(ids.hardware_serial),
            None => None,
        }
    }

    /// The hardware ID, if the IDs were read.
    pub fn hardware_id(self) -> (r: Option<u32>)
        ensures
            r == (match self.spec_ids() {
                Some(ids) => Some(ids.hardware_id),
                None => None,
            }),
    {
        match self.ids() {
            Some(ids) => Some(ids.hardware_id),
            None => None,
        }
    }
}

/// The device type the wacom driver's type property names: stylus, eraser, pad or cursor.
/// The null atom and any other atom name no type the driver reports.
pub open spec fn spec_wacom_type(type_atom: u32, atoms: WacomAtoms) -> Option<DeviceType> {
    if type_atom == 0 {
        None
    } else if type_atom == atoms.type_stylus.value() {
        Some(DeviceType::Tool(Some(Type::Pen)))
    } else if type_atom == atoms.type_eraser.value() {
        Some(DeviceType::Tool(Some(Type::Eraser)))
    } else if type_atom == atoms.type_pad.value() {
        Some(DeviceType::Pad)
    } else if type_atom == atoms.type_cursor.value() {
        Some(DeviceType::Tool(Some(Type::Mouse)))
    } else {
        None
    }
}

/// The wacom information from the first item of the type property (if the property was read)
/// and the items of the serial-IDs property (if that was read).
pub open spec fn spec_wacom_info(
    type_items: Option<Seq<u32>>,
    id_items: Option<Seq<u32>>,
    atoms: WacomAtoms,
) -> Option<WacomInfo> {
    match type_items {
        Some(items) if items.len() > 0 => {
            let ids = match id_items {
                Some(ids) => spec_wacom_ids(ids),
                None => None,
            };
            match spec_wacom_type(items[0], atoms) {
                Some(DeviceType::Pad) => Some(WacomInfo::Pad { ids }),
                Some(DeviceType::Tool(Some(ty))) => Some(WacomInfo::Tool { ty, ids }),
                _ => None,
            }
        },
        _ => None,
    }
}

/// The IDs from the serial-IDs property: the tablet, the serial and the hardware ID are its
/// first three items; fewer items give none.
pub open spec fn spec_wacom_ids(items: Seq<u32>) -> Option<WacomIDs> {
    if items.len() >= 3 {
        Some(WacomIDs { tablet_id: items[0], hardware_serial: items[1], hardware_id: items[2] })
    } else {
        None
    }
}

/// The wacom information of a device, from what its two driver properties held; `None` if the
/// device does not use the wacom driver.
pub fn wacom_info(type_items: Option<&[u32]>, id_items: Option<&[u32]>, atoms: &WacomAtoms) -> (r: Option<
    WacomInfo,
>)
    ensures
        r == spec_wacom_info(
            match type_items {
                Some(t) => Some(t@),
                None => None,
            },
            match id_items {
                Some(t) => Some(t@),
                None => None,
            },
            *atoms,
        ),
{
    let type_atom = match type_items {
        Some(items) if items.len() > 0 => items[0],
        _ => return None,
    };
    let ids = match id_items {
        Some(items) => {
            if items.len() >= 3 {
                Some(WacomIDs { tablet_id: items[0], hardware_serial: items[1], hardware_id: items[2] })
            } else {
                None
            }
        },
        None => None,
    };
    if type_atom == 0 {
        None
    } else if type_atom == atoms.type_stylus.get() {
        Some(WacomInfo::Tool { ty: Type::Pen, ids })
    } else if type_atom == atoms.type_eraser.get() {
        Some(WacomInfo::Tool { ty: Type::Eraser, ids })
    } else if type_atom == atoms.type_pad.get() {
        Some(WacomInfo::Pad { ids })
    } else if type_atom == atoms.type_cursor.get() {
        Some(WacomInfo::Tool { ty: Type::Mouse, ids })
    } else {
        None
    }
}

/// What the libinput driver tells of a tool.
#[derive(Copy, Clone, Debug, PartialEq, Eq, Structural)]
pub struct LibinputToolInfo {
    /// Never zero: zero stands for no serial.
    pub hardware_serial: Option<u32>,
    pub hardware_id: Option<u32>,
}

/// The tool information from the first items of the serial and ID properties; a zero serial
/// is no serial.
pub fn libinput_tool_info(serial: u32, hardware_id: Option<u32>) -> (r: LibinputToolInfo)
    ensures
        r.hardware_serial == (if serial == 0 {
            None
        } else {
            Some(serial)
        }),
        r.hardware_id == hardware_id,
{
    LibinputToolInfo { hardware_serial: if serial == 0 { None } else { Some(serial) }, hardware_id }
}

/// A mode group of a libinput pad.
#[derive(Copy, Clone, Debug, PartialEq, Eq, Structural)]
pub struct LibinputGroupInfo {
    pub num_modes: u8,
    pub current_mode: u8,
}

/// What the libinput driver tells of a pad with mode groups.
#[derive(Clone, Debug)]
pub struct LibinputGroupfulPadInfo {
    pub groups: Vec<LibinputGroupInfo>,
    pub strip_associations: Vec<Option<u8>>,
    pub ring_associations: Vec<Option<u8>>,
    /// There is no mapping from XInput button numbers to these, so they go unused.
    pub button_associations: Vec<Option<u8>>,
}

/// What the libinput driver tells of a device.
#[derive(Clone, Debug)]
pub enum LibinputInfo {
    Tool(LibinputToolInfo),
    GroupfulPad(LibinputGroupfulPadInfo),
    /// Some other libinput device: a mouse, a keyboard, a pad without groups, a tablet...
    SomethingElse,
}

impl LibinputInfo {
    /// The corresponding device type, if known.
    pub open spec fn spec_device_type(&self) -> Option<DeviceType> {
        match self {
            LibinputInfo::Tool(_) => Some(DeviceType::Tool(None)),
            LibinputInfo::GroupfulPad(_) => Some(DeviceType::Pad),
            LibinputInfo::SomethingElse => None,
        }
    }

    /// The corresponding device type, if known.
    pub fn device_type(&self) -> (r: Option<DeviceType>)
        ensures
            r == self.spec_device_type(),
    {
        match self {
            LibinputInfo::Tool(_) => Some(DeviceType::Tool(None)),
            LibinputInfo::GroupfulPad(_) => Some(DeviceType::Pad),
            LibinputInfo::SomethingElse => None,
        }
    }
}

/// The mode groups from the available-modes and current-mode properties, paired item by item;
/// the longer one's extra items are dropped.
pub fn zip_groups(available: &[u8], current: &[u8]) -> (r: Vec<LibinputGroupInfo>)
    ensures
        r@.len() == if available@.len() <= current@.len() {
            available@.len()
        } else {
            current@.len()
        },
        forall|i: int|
            0 <= i < r@.len() ==> #[trigger] r@[i] == (LibinputGroupInfo {
                num_modes: available@[i],
                current_mode: current@[i],
            }),
{
    let n = if available.len() <= current.len() {
        available.len()
    } else {
        current.len()
    };
    let mut r: Vec<LibinputGroupInfo> = Vec::new();
    let mut i: usize = 0;
    while i < n
        invariant
            n <= available@.len(),
            n <= current@.len(),
            i <= n,
            r@.len() == i,
            forall|j: int|
                0 <= j < i ==> #[trigger] r@[j] == (LibinputGroupInfo {
                    num_modes: available@[j],
                    current_mode: current@[j],
                }),
        decreases n - i,
    {
        r.push(LibinputGroupInfo { num_modes: available[i], current_mode: current[i] });
        i = i + 1;
    }
    r
}

/// The group a ring, strip or button is associated with: the byte is a signed group index,
/// and a negative one (-1 by the property's definition), or one that names no existing
/// group, means none.
pub open spec fn spec_association(byte: u8, groups: nat) -> Option<u8> {
    if byte >= 128 || byte >= groups {
        None
    } else {
        Some(byte)
    }
}

/// The associations of an association property's bytes.
pub fn associations(bytes: &[u8], groups: usize) -> (r: Vec<Option<u8>>)
    ensures
        r@.len() == bytes@.len(),
        forall|i: int| 0 <= i < r@.len() ==> #[trigger] r@[i] == spec_association(bytes@[i], groups as nat),
{
    let mut r: Vec<Option<u8>> = Vec::new();
    let mut i: usize = 0;
    while i < bytes.len()
        invariant
            i <= bytes@.len(),
            r@.len() == i,
            forall|j: int| 0 <= j < i ==> #[trigger] r@[j] == spec_association(bytes@[j], groups as nat),
        decreases bytes.len() - i,
    {
        let b = bytes[i];
        r.push(if b >= 128 || (b as usize) >= groups { None } else { Some(b) });
        i = i + 1;
    }
    r
}

/// The kind of a device: the wacom driver's word first, then libinput's, then the name's.
pub open spec fn spec_resolve_device_type(
    wacom: Option<WacomInfo>,
    libinput: Option<LibinputInfo>,
    name: ToolNameFields,
) -> Option<DeviceType> {
    match wacom {
        Some(WacomInfo::Tool { ty, .. }) => Some(DeviceType::Tool(Some(ty))),
        Some(WacomInfo::Pad { .. }) => Some(DeviceType::Pad),
        None => match libinput {
            Some(l) if l.spec_device_type() is Some => l.spec_device_type(),
            _ => name.spec_device_type(),
        },
    }
}

/// The kind of a device: the wacom driver's word first, then libinput's, then the name's.
pub fn resolve_device_type(
    wacom: Option<WacomInfo>,
    libinput: Option<&LibinputInfo>,
    name: &ToolNameFields,
) -> (r: Option<DeviceType>)
    ensures
        r == spec_resolve_device_type(
            wacom,
            match libinput {
                Some(l) => Some(*l),
                None => None,
            },
            *name,
        ),
{
    match wacom {
        Some(w) => Some(w.device_type()),
        None => {
            let from_libinput = match libinput {
                Some(l) => l.device_type(),
                None => None,
            };
            match from_libinput {
                Some(t) => Some(t),
                None => name.device_type(),
            }
        },
    }
}

/// The serial and hardware ID of a tool: the wacom driver's first, then libinput's.
pub open spec fn spec_tool_ids(wacom: Option<WacomInfo>, libinput: Option<LibinputInfo>) -> (
    Option<HardwareID>,
    Option<u32>,
) {
    let from_libinput = match libinput {
        Some(LibinputInfo::Tool(t)) => t,
        _ => LibinputToolInfo { hardware_serial: None, hardware_id: None },
    };
    let serial = match wacom {
        Some(w) if w.spec_ids() is Some => Some(w.spec_ids()->Some_0.hardware_serial),
        _ => from_libinput.hardware_serial,
    };
    let id = match wacom {
        Some(w) if w.spec_ids() is Some => Some(w.spec_ids()->Some_0.hardware_id),
        _ => from_libinput.hardware_id,
    };
    (
        match serial {
            Some(s) => Some(HardwareID(s as u64)),
            None => None,
        },
        id,
    )
}

/// The serial and hardware ID of a tool: the wacom driver's first, then libinput's.
pub fn tool_ids(wacom: Option<WacomInfo>, libinput: Option<&LibinputInfo>) -> (r: (Option<HardwareID>, Option<u32>))
    ensures
        r == spec_tool_ids(
            wacom,
            match libinput {
                Some(l) => Some(*l),
                None => None,
            },
        ),
{
    let from_libinput = match libinput {
        Some(LibinputInfo::Tool(t)) => *t,
        _ => LibinputToolInfo { hardware_serial: None, hardware_id: None },
    };
    let wacom_ids = match wacom {
        Some(w) => w.ids(),
        None => None,
    };
    let (serial, id) = match wacom_ids {
        Some(ids) => (Some(ids.hardware_serial), Some(ids.hardware_id)),
        None => (from_libinput.hardware_serial, from_libinput.hardware_id),
    };
    (
        match serial {
            Some(s) => Some(HardwareID(s as u64)),
            None => None,
        },
        id,
    )
}

/// The master keyboard paired with master pointer `pointer`: the attachment of the device
/// with that ID, among `(device, attachment)` pairs; zero if there is none.
pub fn master_keyboard_of(devices: &[(u16, u16)], pointer: u16) -> (r: u16)
    ensures
        (exists|i: int| 0 <= i < devices@.len() && devices@[i].0 == pointer) ==> (exists|i: int|
            0 <= i < devices@.len() && devices@[i].0 == pointer && devices@[i].1 == r && forall|j: int|
                0 <= j < i ==> devices@[j].0 != pointer),
        (forall|i: int| 0 <= i < devices@.len() ==> devices@[i].0 != pointer) ==> r == 0,
{
    let mut i: usize = 0;
    while i < devices.len()
        invariant
            i <= devices@.len(),
            forall|j: int| 0 <= j < i ==> devices@[j].0 != pointer,
        decreases devices.len() - i,
    {
        if devices[i].0 == pointer {
            return devices[i].1;
        }
        i = i + 1;
    }
    0
}

/// The axis a valuator stands for, if it can be used: only absolute valuators with a range
/// and one of the known labels.
pub open spec fn spec_usable_valuator(
    absolute: bool,
    min: Fp3232,
    max: Fp3232,
    label: u32,
    atoms: AbsoluteAxisAtoms,
) -> Option<ValuatorAxis> {
    if !absolute || min == max {
        None
    } else {
        spec_valuator_label(label, atoms)
    }
}

/// The axis a valuator stands for, if it can be used.
pub fn usable_valuator(absolute: bool, min: Fp3232, max: Fp3232, label: u32, atoms: &AbsoluteAxisAtoms) -> (r: Option<
    ValuatorAxis,
>)
    ensures
        r == spec_usable_valuator(absolute, min, max, label, *atoms),
{
    if !absolute || (min.integral == max.integral && min.frac == max.frac) {
        None
    } else {
        match_valuator_label(label, atoms)
    }
}

/// The place of a device in the X server's device hierarchy.
#[derive(Clone, Copy, Debug, PartialEq, Eq, Structural)]
pub enum XiDeviceKind {
    MasterPointer,
    MasterKeyboard,
    SlavePointer,
    SlaveKeyboard,
    FloatingSlave,
    /// A kind this crate does not know.
    Other,
}

/// Whether a device is looked at when enumerating: it is enabled and not a master device,
/// which only stands for the devices attached to it.
pub fn enumerable(enabled: bool, kind: XiDeviceKind) -> (r: bool)
    ensures
        r == (enabled && kind != XiDeviceKind::MasterPointer && kind != XiDeviceKind::MasterKeyboard),
{
    enabled && !matches!(kind, XiDeviceKind::MasterPointer | XiDeviceKind::MasterKeyboard)
}

/// Whether a device of kind `kind` can be a tool: tools move a pointer, so only slave
/// pointers can.
pub fn can_be_tool(kind: XiDeviceKind) -> (r: bool)
    ensures
        r == (kind == XiDeviceKind::SlavePointer),
{
    matches!(kind, XiDeviceKind::SlavePointer)
}

/// Whether a device found to be a tool is kept. `definitive` says that a driver reported it
/// as a tool, `absolute_axes` that it has a usable absolute valuator: without either it is
/// something else that only the name made look like a tool. Tablet mice always have a roll
/// axis; a mouse without one is an ordinary mouse.
pub open spec fn spec_keep_tool(definitive: bool, absolute_axes: bool, ty: Option<Type>, has_roll: bool) -> bool {
    (definitive || absolute_axes) && !(ty == Some(Type::Mouse) && !has_roll)
}

/// Whether a device found to be a tool is kept.
pub fn keep_tool(definitive: bool, absolute_axes: bool, ty: Option<Type>, has_roll: bool) -> (r: bool)
    ensures
        r == spec_keep_tool(definitive, absolute_axes, ty, has_roll),
{
    let is_mouse = match ty {
        Some(Type::Mouse) => true,
        _ => false,
    };
    (definitive || absolute_axes) && !(is_mouse && !has_roll)
}

/// Whether the drivers report the device as a tool.
pub fn reported_as_tool(wacom: Option<WacomInfo>, libinput: Option<&LibinputInfo>) -> (r: bool)
    ensures
        r == ((wacom matches Some(WacomInfo::Tool { .. })) || (libinput matches Some(
            LibinputInfo::Tool(_),
        ))),
{
    let w = match wacom {
        Some(WacomInfo::Tool { .. }) => true,
        _ => false,
    };
    let l = match libinput {
        Some(LibinputInfo::Tool(_)) => true,
        _ => false,
    };
    w || l
}

/// Whether a pad is kept: one without buttons or a ring does nothing.
pub fn keep_pad(buttons: u16, has_ring: bool) -> (r: bool)
    ensures
        r == (buttons != 0 || has_ring),
{
    buttons != 0 || has_ring
}

/// The buttons of an X pad's one group: every button of the device, in order.
pub open spec fn xi_pad_buttons(buttons: u16) -> Seq<u32> {
    Seq::new(buttons as nat, |i: int| i as u32)
}

/// The rings of an X pad's one group: the device's ring, if it has one.
pub open spec fn xi_pad_rings(id: ID, has_ring: bool) -> Seq<Ring> {
    if has_ring {
        seq![Ring { internal_id: InternalID::XInput2(id), granularity: None }]
    } else {
        seq![]
    }
}

/// Build the pad that X device `id` stands for: its buttons all belong to its one group, with
/// the ring if it has one.
pub fn xi_pad(id: ID, buttons: u16, has_ring: bool, mode_count: Option<u32>) -> (r: Pad)
    ensures
        r.internal_id == InternalID::XInput2(id),
        r.total_buttons == buttons,
        r.groups@.len() == 1,
        r.groups@[0].internal_id == InternalID::XInput2(id),
        r.groups@[0].mode_count == mode_count,
        r.groups@[0].buttons@ == xi_pad_buttons(buttons),
        r.groups@[0].rings@ == xi_pad_rings(id, has_ring),
        r.groups@[0].strips@.len() == 0,
{
    let mut owned: Vec<u32> = Vec::new();
    let mut i: u16 = 0;
    while i < buttons
        invariant
            i <= buttons,
            owned@ == Seq::new(i as nat, |k: int| k as u32),
        decreases buttons - i,
    {
        owned.push(i as u32);
        proof {
            assert(owned@ =~= Seq::new((i + 1) as nat, |k: int| k as u32));
        }
        i = i + 1;
    }
    let mut rings: Vec<Ring> = Vec::new();
    if has_ring {
        rings.push(Ring { internal_id: InternalID::XInput2(id), granularity: None });
    }
    proof {
        assert(rings@ =~= xi_pad_rings(id, has_ring));
    }
    let group = Group { internal_id: InternalID::XInput2(id), mode_count, buttons: owned, rings, strips: Vec::new() };
    let mut groups: Vec<Group> = Vec::new();
    groups.push(group);
    Pad { internal_id: InternalID::XInput2(id), total_buttons: buttons as u32, groups }
}

/// The mode count of a pad's single group: the modes of libinput's first group, if any and
/// not zero.
pub fn pad_mode_count(libinput: Option<&LibinputGroupfulPadInfo>) -> (r: Option<u32>)
    ensures
        r == (match libinput {
            Some(info) if info.groups@.len() > 0 && info.groups@[0].num_modes != 0 => Some(
                info.groups@[0].num_modes as u32,
            ),
            _ => None,
        }),
{
    match libinput {
        Some(info) => {
            if info.groups.len() > 0 && info.groups[0].num_modes != 0 {
                Some(info.groups[0].num_modes as u32)
            } else {
                None
            }
        },
        None => None,
    }
}

} // verus!
