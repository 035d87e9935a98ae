//! The device catalog: filtering candidate target devices out of raw
//! block-device metadata.
//!
//! The caller gathers one `RawBlockEntry` per entry of the block-device
//! metadata tree — attribute file contents, the resolved device symlink,
//! whether a device node exists — and the catalog decides. A `Device` is
//! only ever constructed for an entry that passes every filter: name not
//! on the virtual/optical exclusion list, removable attribute exactly
//! affirmative, transport resolved to USB, device node present, and size
//! at least the minimum. There is no "unsafe" `Device` variant.

use vstd::prelude::*;
use vstd::string::*;

use crate::errors::BurnError;
use crate::text::contains_seq;
use crate::text::parse_decimal;
use crate::text::starts_with;
use crate::text::str_contains;
use crate::text::str_starts_with;

verus! {

/// Smallest size, in bytes, a device may have and still be listed; smaller
/// ones are taken for empty card-reader slots.
pub const MIN_DEVICE_BYTES: u64 = 100_000_000;

/// Transport bus a block device is attached through.
#[derive(Clone, Copy, Debug, PartialEq, Eq, Structural)]
pub enum Transport {
    Usb,
    Nvme,
    Mmc,
    Ata,
    Unknown,
}

/// The transport encoded in the resolved (canonicalized) target of a
/// device's metadata symlink, decided by substring, USB first.
pub open spec fn transport_of(resolved: Seq<char>) -> Transport {
    if contains_seq(resolved, "usb"@) {
        Transport::Usb
    } else if contains_seq(resolved, "nvme"@) {
        Transport::Nvme
    } else if contains_seq(resolved, "mmc"@) {
        Transport::Mmc
    } else if contains_seq(resolved, "ata"@) {
        Transport::Ata
    } else {
        Transport::Unknown
    }
}

pub fn detect_transport(resolved: &str) -> (t: Transport)
    ensures
        t == transport_of(resolved@),
{
    if str_contains(resolved, "usb") {
        Transport::Usb
    } else if str_contains(resolved, "nvme") {
        Transport::Nvme
    } else if str_contains(resolved, "mmc") {
        Transport::Mmc
    } else if str_contains(resolved, "ata") {
        Transport::Ata
    } else {
        Transport::Unknown
    }
}

/// Device names excluded outright, whatever their other attributes:
/// loopback, RAM-backed, compressed-RAM, device-mapper, software-RAID and
/// optical devices.
pub open spec fn name_excluded(name: Seq<char>) -> bool {
    ||| starts_with(name, "loop"@)
    ||| starts_with(name, "ram"@)
    ||| starts_with(name, "zram"@)
    ||| starts_with(name, "dm-"@)
    ||| starts_with(name, "md"@)
    ||| starts_with(name, "sr"@)
}

pub fn is_name_excluded(name: &str) -> (r: bool)
    ensures
        r == name_excluded(name@),
{
    str_starts_with(name, "loop") || str_starts_with(name, "ram") || str_starts_with(name, "zram")
        || str_starts_with(name, "dm-") || str_starts_with(name, "md") || str_starts_with(
        name,
        "sr",
    )
}

/// Raw metadata gathered for one entry of the block-device tree. Every
/// field is a plain value: attribute file contents come trimmed, the
/// symlink comes resolved, the device-node check comes already made.
pub struct RawBlockEntry {
    /// The entry's short name (for example "sdb").
    pub name: String,
    /// Trimmed contents of the entry's removable attribute, if readable.
    pub removable_attr: Option<String>,
    /// Resolved target of the entry's device symlink, if it resolves.
    pub resolved_link: Option<String>,
    /// A device node for this name exists in the device-file namespace.
    pub dev_node_exists: bool,
    /// Trimmed contents of the entry's sector-count attribute, if readable.
    pub size_attr: Option<String>,
    /// Trimmed contents of the entry's model attribute, if readable.
    pub model_attr: Option<String>,
    /// Trimmed contents of the fallback product attribute, if readable.
    pub product_attr: Option<String>,
}

/// Mathematical image of a `RawBlockEntry`.
pub ghost struct RawEntryView {
    pub name: Seq<char>,
    pub removable_attr: Option<Seq<char>>,
    pub resolved_link: Option<Seq<char>>,
    pub dev_node_exists: bool,
    pub size_attr: Option<Seq<char>>,
    pub model_attr: Option<Seq<char>>,
    pub product_attr: Option<Seq<char>>,
}

pub open spec fn view_of_opt(o: Option<String>) -> Option<Seq<char>> {
    match o {
        Some(s) => Some(s@),
        None => None,
    }
}

impl View for RawBlockEntry {
    type V = RawEntryView;

    open spec fn view(&self) -> RawEntryView {
        RawEntryView {
            name: self.name@,
            removable_attr: view_of_opt(self.removable_attr),
            resolved_link: view_of_opt(self.resolved_link),
            dev_node_exists: self.dev_node_exists,
            size_attr: view_of_opt(self.size_attr),
            model_attr: view_of_opt(self.model_attr),
            product_attr: view_of_opt(self.product_attr),
        }
    }
}

/// One candidate storage target. Instances are immutable snapshots, only
/// ever constructed by the catalog for entries that pass all its filters.
#[derive(Clone, Debug)]
pub struct Device {
    /// Short name, for example "sdb".
    pub name: String,
    /// Device node path, for example "/dev/sdb".
    pub path: String,
    /// Size in bytes.
    pub size: u64,
    /// Human-readable model string.
    pub model: String,
    /// The device is removable.
    pub removable: bool,
    /// The transport it is attached through.
    pub transport: Transport,
}

/// Mathematical image of a `Device`.
pub ghost struct DeviceView {
    pub name: Seq<char>,
    pub path: Seq<char>,
    pub size: u64,
    pub model: Seq<char>,
    pub removable: bool,
    pub transport: Transport,
}

impl View for Device {
    type V = DeviceView;

    open spec fn view(&self) -> DeviceView {
        DeviceView {
            name: self.name@,
            path: self.path@,
            size: self.size,
            model: self.model@,
            removable: self.removable,
            transport: self.transport,
        }
    }
}

/// The removable attribute is exactly the affirmative value.
pub open spec fn removable_of(attr: Option<Seq<char>>) -> bool {
    match attr {
        Some(s) => s == "1"@,
        None => false,
    }
}

/// The transport of an entry: unknown when its symlink does not resolve.
pub open spec fn entry_transport(e: RawEntryView) -> Transport {
    match e.resolved_link {
        Some(p) => transport_of(p),
        None => Transport::Unknown,
    }
}

/// Sector count of an entry: an unreadable or unparsable attribute counts
/// as zero sectors.
pub open spec fn entry_sectors(e: RawEntryView) -> u64 {
    match e.size_attr {
        Some(s) => match parse_decimal(s) {
            Some(v) => v,
            None => 0,
        },
        None => 0,
    }
}

/// Size in bytes of an entry, as a mathematical integer: sectors of 512
/// bytes each.
pub open spec fn entry_size(e: RawEntryView) -> int {
    entry_sectors(e) * 512
}

/// Model string of an entry: the model attribute, falling back to the
/// product attribute, falling back to a generic label.
pub open spec fn entry_model(e: RawEntryView) -> Seq<char> {
    match e.model_attr {
        Some(m) => m,
        None => match e.product_attr {
            Some(p) => p,
            None => "USB Drive"@,
        },
    }
}

/// All six catalog filters, in order: name pattern, removable flag,
/// transport, device node, representable size, minimum size.
pub open spec fn accepted(e: RawEntryView) -> bool {
    &&& !name_excluded(e.name)
    &&& removable_of(e.removable_attr)
    &&& entry_transport(e) == Transport::Usb
    &&& e.dev_node_exists
    &&& entry_size(e) <= u64::MAX
    &&& entry_size(e) >= MIN_DEVICE_BYTES
}

/// The device an accepted entry becomes.
pub open spec fn device_of(e: RawEntryView) -> DeviceView {
    DeviceView {
        name: e.name,
        path: "/dev/"@ + e.name,
        size: entry_size(e) as u64,
        model: entry_model(e),
        removable: true,
        transport: Transport::Usb,
    }
}

/// Apply all catalog filters to one entry.
pub fn evaluate_entry(e: &RawBlockEntry) -> (r: Option<Device>)
    ensures
        r is Some <==> accepted(e@),
        r matches Some(d) ==> d@ == device_of(e@),
{
    if is_name_excluded(e.name.as_str()) {
        return None;
    }
    let removable = match &e.removable_attr {
        Some(s) => crate::text::str_equal(s.as_str(), "1"),
        None => false,
    };
    if !removable {
        return None;
    }
    let transport = match &e.resolved_link {
        Some(p) => detect_transport(p.as_str()),
        None => Transport::Unknown,
    };
    if !matches!(transport, Transport::Usb) {
        return None;
    }
    if !e.dev_node_exists {
        return None;
    }
    let sectors: u64 = match &e.size_attr {
        Some(s) => match crate::text::parse_plain_decimal(s.as_str()) {
            Some(v) => v,
            None => 0,
        },
        None => 0,
    };
    if sectors > u64::MAX / 512 {
        proof {
            let q = u64::MAX / 512;
            assert(u64::MAX == 512 * q + u64::MAX % 512) by {
                vstd::arithmetic::div_mod::lemma_fundamental_div_mod(u64::MAX as int, 512);
            }
            assert(entry_size(e@) > u64::MAX);
        }
        return None;
    }
    proof {
        let q = u64::MAX / 512;
        assert(u64::MAX == 512 * q + u64::MAX % 512) by {
            vstd::arithmetic::div_mod::lemma_fundamental_div_mod(u64::MAX as int, 512);
        }
        assert(sectors * 512 <= u64::MAX);
    }
    let size: u64 = sectors * 512;
    if size < MIN_DEVICE_BYTES {
        return None;
    }
    let model: String = match &e.model_attr {
        Some(m) => m.clone(),
        None => match &e.product_attr {
            Some(p) => p.clone(),
            None => String::from_str("USB Drive"),
        },
    };
    let path = String::from_str("/dev/").concat(e.name.as_str());
    Some(
        Device {
            name: e.name.clone(),
            path,
            size,
            model,
            removable: true,
            transport: Transport::Usb,
        },
    )
}

/// The devices a sequence of entries yields, in order: one per accepted
/// entry.
pub open spec fn catalog(entries: Seq<RawEntryView>) -> Seq<DeviceView>
    decreases entries.len(),
{
    if entries.len() == 0 {
        Seq::empty()
    } else {
        (if accepted(entries[0]) {
            seq![device_of(entries[0])]
        } else {
            Seq::empty()
        }) + catalog(entries.drop_first())
    }
}

/// Enumerate the devices of a snapshot of raw entries. No entries — for
/// example, an absent metadata tree — yield an empty catalog, not an
/// error.
pub fn enumerate_devices(entries: &Vec<RawBlockEntry>) -> (r: Vec<Device>)
    ensures
        r@.map_values(|d: Device| d@) == catalog(entries@.map_values(|e: RawBlockEntry| e@)),
{
    let ghost all: Seq<RawEntryView> = entries@.map_values(|e: RawBlockEntry| e@);
    let mut out: Vec<Device> = Vec::new();
    let n = entries.len();
    let mut i: usize = 0;
    proof {
        assert(all =~= all.subrange(0, all.len() as int));
    }
    while i < n
        invariant
            n == entries@.len(),
            all == entries@.map_values(|e: RawBlockEntry| e@),
            all.len() == n,
            0 <= i <= n,
            out@.map_values(|d: Device| d@) + catalog(all.subrange(i as int, n as int)) == catalog(
                all,
            ),
        decreases n - i,
    {
        let ghost rest = all.subrange(i as int, n as int);
        proof {
            assert(rest[0] == all[i as int]);
            assert(all[i as int] == entries@[i as int]@);
            assert(rest.drop_first() =~= all.subrange(i + 1, n as int));
        }
        match evaluate_entry(&entries[i]) {
            Some(d) => {
                out.push(d);
                proof {
                    let f = |d: Device| d@;
                    assert(out@.map_values(f) =~= out@.drop_last().map_values(f).push(
                        out@.last()@,
                    ));
                    assert(out@.drop_last().map_values(f).push(d@) + catalog(rest.drop_first())
                        =~= out@.drop_last().map_values(f) + (seq![device_of(rest[0])] + catalog(
                        rest.drop_first(),
                    )));
                }
            },
            None => {
                proof {
                    assert(Seq::<DeviceView>::empty() + catalog(rest.drop_first()) =~= catalog(
                        rest.drop_first(),
                    ));
                }
            },
        }
        i = i + 1;
    }
    proof {
        assert(all.subrange(n as int, n as int) =~= Seq::<RawEntryView>::empty());
        assert(catalog(all.subrange(n as int, n as int)) =~= Seq::<DeviceView>::empty());
        assert(out@.map_values(|d: Device| d@) + Seq::<DeviceView>::empty() =~= out@.map_values(
            |d: Device| d@,
        ));
    }
    out
}

/// Every enumerated device is safe to write to: removable, on the USB
/// transport, at least the minimum size, with an un-excluded name, under
/// a device node that was seen to exist.
pub open spec fn device_safe(d: DeviceView) -> bool {
    &&& d.removable
    &&& d.transport == Transport::Usb
    &&& d.size >= MIN_DEVICE_BYTES
    &&& !name_excluded(d.name)
    &&& starts_with(d.path, "/dev/"@)
}

/// A device stands in the catalog exactly when some entry of the snapshot
/// passed all filters and became it.
#[verifier::rlimit(50)]
pub proof fn lemma_catalog_membership(entries: Seq<RawEntryView>, d: DeviceView)
    ensures
        catalog(entries).contains(d) <==> exists|i: int|
            0 <= i < entries.len() && accepted(entries[i]) && device_of(entries[i]) == d,
    decreases entries.len(),
{
    if entries.len() == 0 {
    } else {
        let rest = entries.drop_first();
        lemma_catalog_membership(rest, d);
        if accepted(entries[0]) && device_of(entries[0]) == d {
            assert(catalog(entries)[0] == d);
            assert(catalog(entries).contains(d));
        }
        if catalog(entries).contains(d) {
            if !(accepted(entries[0]) && device_of(entries[0]) == d) {
                assert(catalog(rest).contains(d)) by {
                    let j = choose|j: int|
                        0 <= j < catalog(entries).len() && catalog(entries)[j] == d;
                    let head_len = catalog(entries).len() - catalog(rest).len();
                    assert(catalog(rest)[j - head_len] == d);
                }
                let i = choose|i: int|
                    0 <= i < rest.len() && accepted(rest[i]) && device_of(rest[i]) == d;
                assert(entries[i + 1] == rest[i]);
            }
        }
        if exists|i: int|
            0 <= i < entries.len() && accepted(entries[i]) && device_of(entries[i]) == d {
            let i = choose|i: int|
                0 <= i < entries.len() && accepted(entries[i]) && device_of(entries[i]) == d;
            if i > 0 {
                assert(rest[i - 1] == entries[i]);
                assert(catalog(rest).contains(d));
                let j = choose|j: int| 0 <= j < catalog(rest).len() && catalog(rest)[j] == d;
                let head_len = catalog(entries).len() - catalog(rest).len();
                assert(catalog(entries)[j + head_len] == d);
            }
        }
    }
}

/// Catalog invariant: every enumerated device satisfies all safety
/// filters.
pub proof fn lemma_catalog_devices_safe(entries: Seq<RawEntryView>)
    ensures
        forall|i: int| 0 <= i < catalog(entries).len() ==> #[trigger] device_safe(
            catalog(entries)[i],
        ),
    decreases entries.len(),
{
    if entries.len() > 0 {
        let rest = entries.drop_first();
        lemma_catalog_devices_safe(rest);
        if accepted(entries[0]) {
            assert(device_safe(device_of(entries[0]))) by {
                let p = "/dev/"@;
                let path = p + entries[0].name;
                assert(forall|i: int| 0 <= i < p.len() ==> path[i] == p[i]);
            }
            assert(forall|i: int| 1 <= i < catalog(entries).len() ==> catalog(entries)[i]
                == catalog(rest)[i - 1]);
        } else {
            assert(forall|i: int| 0 <= i < catalog(entries).len() ==> catalog(entries)[i]
                == catalog(rest)[i]);
        }
    }
}

/// Enumerating the same hardware snapshot twice — in whatever order the
/// metadata tree happens to list its entries — yields the same set of
/// devices.
pub proof fn lemma_catalog_order_insensitive(s1: Seq<RawEntryView>, s2: Seq<RawEntryView>)
    requires
        s1.to_multiset() == s2.to_multiset(),
    ensures
        catalog(s1).to_set() == catalog(s2).to_set(),
{
    broadcast use vstd::seq_lib::group_seq_properties;

    assert forall|d: DeviceView| catalog(s1).contains(d) <==> catalog(s2).contains(d) by {
        lemma_catalog_membership(s1, d);
        lemma_catalog_membership(s2, d);
        s1.to_multiset_ensures();
        s2.to_multiset_ensures();
        if catalog(s1).contains(d) {
            let i = choose|i: int|
                0 <= i < s1.len() && accepted(s1[i]) && device_of(s1[i]) == d;
            assert(s1.contains(s1[i]));
            assert(s1.to_multiset().count(s1[i]) > 0);
            assert(s2.to_multiset().count(s1[i]) > 0);
            assert(s2.contains(s1[i]));
            let j = choose|j: int| 0 <= j < s2.len() && s2[j] == s1[i];
            assert(accepted(s2[j]) && device_of(s2[j]) == d);
        }
        if catalog(s2).contains(d) {
            let i = choose|i: int|
                0 <= i < s2.len() && accepted(s2[i]) && device_of(s2[i]) == d;
            assert(s2.contains(s2[i]));
            assert(s2.to_multiset().count(s2[i]) > 0);
            assert(s1.to_multiset().count(s2[i]) > 0);
            assert(s1.contains(s2[i]));
            let j = choose|j: int| 0 <= j < s1.len() && s1[j] == s2[i];
            assert(accepted(s1[j]) && device_of(s1[j]) == d);
        }
    }
    assert(catalog(s1).to_set() =~= catalog(s2).to_set());
}

/// An enumeration that found nothing is the recoverable "no devices"
/// error — the user can plug a device in and retry — never a failure of
/// the process.
pub fn require_devices(devices: Vec<Device>) -> (r: Result<Vec<Device>, BurnError>)
    ensures
        r is Ok <==> devices@.len() > 0,
        r matches Ok(v) ==> v == devices,
        r matches Err(e) ==> e == BurnError::NoDevicesFound,
{
    if devices.len() > 0 {
        Ok(devices)
    } else {
        Err(BurnError::NoDevicesFound)
    }
}

} // verus!
