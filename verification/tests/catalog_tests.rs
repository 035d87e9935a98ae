use burn_engine::catalog::detect_transport;
use burn_engine::catalog::enumerate_devices;
use burn_engine::catalog::evaluate_entry;
use burn_engine::catalog::is_name_excluded;
use burn_engine::catalog::RawBlockEntry;
use burn_engine::catalog::Transport;

fn usb_entry(name: &str, sectors: &str) -> RawBlockEntry {
    RawBlockEntry {
        name: name.to_string(),
        removable_attr: Some("1".to_string()),
        resolved_link: Some(
            "/sys/devices/pci0000:00/0000:00:14.0/usb2/2-1/2-1:1.0/host4/target4:0:0/4:0:0:0"
                .to_string(),
        ),
        dev_node_exists: true,
        size_attr: Some(sectors.to_string()),
        model_attr: Some("Cruzer Blade".to_string()),
        product_attr: None,
    }
}

#[test]
fn accepted_entry_becomes_device_with_all_fields() {
    // 31266816 sectors of 512 bytes = 16008609792 bytes
    let devices = enumerate_devices(&vec![usb_entry("sdb", "31266816")]);
    assert_eq!(devices.len(), 1);
    let d = &devices[0];
    assert_eq!(d.name, "sdb");
    assert_eq!(d.path, "/dev/sdb");
    assert_eq!(d.size, 31266816 * 512);
    assert_eq!(d.model, "Cruzer Blade");
    assert!(d.removable);
    assert_eq!(d.transport, Transport::Usb);
}

#[test]
fn catalog_invariant_holds_of_every_listed_device() {
    let entries = vec![
        usb_entry("sda", "31266816"),
        usb_entry("sdc", "62533632"),
    ];
    for d in enumerate_devices(&entries) {
        assert!(d.removable);
        assert_eq!(d.transport, Transport::Usb);
        assert!(d.size >= 100_000_000);
        assert!(d.path.starts_with("/dev/"));
    }
}

#[test]
fn excluded_name_prefixes_never_enumerate() {
    // virtual, RAM-backed, RAID, device-mapper and optical names are
    // rejected even with perfect attributes
    for name in ["loop0", "ram1", "zram0", "dm-3", "md127", "sr0"] {
        assert!(is_name_excluded(name), "{name} should be excluded");
        let devices = enumerate_devices(&vec![usb_entry(name, "31266816")]);
        assert!(devices.is_empty(), "{name} must never appear");
    }
    assert!(!is_name_excluded("sdb"));
    assert!(!is_name_excluded("nvme0n1"));
}

#[test]
fn non_removable_entry_is_rejected() {
    let mut e = usb_entry("sda", "31266816");
    e.removable_attr = Some("0".to_string());
    assert!(evaluate_entry(&e).is_none());
    e.removable_attr = None;
    assert!(evaluate_entry(&e).is_none());
}

#[test]
fn non_usb_transport_is_rejected() {
    let mut e = usb_entry("sdb", "31266816");
    e.resolved_link = Some("/sys/devices/pci0000:00/ata3/host2/target2:0:0".to_string());
    assert!(evaluate_entry(&e).is_none(), "eSATA enclosures are blocked");
    e.resolved_link = None;
    assert!(evaluate_entry(&e).is_none());
}

#[test]
fn missing_device_node_is_rejected() {
    let mut e = usb_entry("sdb", "31266816");
    e.dev_node_exists = false;
    assert!(evaluate_entry(&e).is_none(), "stale metadata is rejected");
}

#[test]
fn tiny_or_unreadable_size_is_rejected() {
    // 100 MB floor guards empty card-reader slots
    let mut e = usb_entry("sdb", "195312");
    // 195312 * 512 = 99999744 < 100_000_000
    assert!(evaluate_entry(&e).is_none());
    e = usb_entry("sdb", "195313");
    // 195313 * 512 = 100000256 >= 100_000_000
    assert!(evaluate_entry(&e).is_some());
    e = usb_entry("sdb", "not a number");
    assert!(evaluate_entry(&e).is_none());
    e = usb_entry("sdb", "");
    assert!(evaluate_entry(&e).is_none());
}

#[test]
fn model_falls_back_to_product_then_generic_label() {
    let mut e = usb_entry("sdb", "31266816");
    e.model_attr = None;
    e.product_attr = Some("DataTraveler".to_string());
    assert_eq!(evaluate_entry(&e).unwrap().model, "DataTraveler");
    e.product_attr = None;
    assert_eq!(evaluate_entry(&e).unwrap().model, "USB Drive");
}

#[test]
fn transport_detection_matches_resolved_path() {
    assert_eq!(detect_transport("/sys/devices/pci0000:00/usb2/2-1"), Transport::Usb);
    assert_eq!(detect_transport("/sys/devices/pci0000:00/nvme/nvme0"), Transport::Nvme);
    assert_eq!(detect_transport("/sys/devices/platform/mmc_host/mmc0"), Transport::Mmc);
    assert_eq!(detect_transport("/sys/devices/pci0000:00/ata1/host0"), Transport::Ata);
    assert_eq!(detect_transport("/sys/devices/virtual/block"), Transport::Unknown);
}

fn snapshot(names: &[&str]) -> Vec<RawBlockEntry> {
    names
        .iter()
        .map(|n| {
            if n.starts_with("fixed") {
                let mut e = usb_entry("sdd", "31266816");
                e.removable_attr = Some("0".to_string());
                e
            } else {
                usb_entry(n, "31266816")
            }
        })
        .collect()
}

#[test]
fn enumeration_is_idempotent_and_order_insensitive() {
    let first: Vec<String> = enumerate_devices(&snapshot(&["sda", "sdb", "fixed"]))
        .iter()
        .map(|d| d.path.clone())
        .collect();
    let second: Vec<String> = enumerate_devices(&snapshot(&["sda", "sdb", "fixed"]))
        .iter()
        .map(|d| d.path.clone())
        .collect();
    assert_eq!(first, second, "same snapshot, same devices");

    // the same hardware listed in another order yields the same set
    let mut third: Vec<String> = enumerate_devices(&snapshot(&["fixed", "sdb", "sda"]))
        .iter()
        .map(|d| d.path.clone())
        .collect();
    let mut sorted_first = first.clone();
    sorted_first.sort();
    third.sort();
    assert_eq!(sorted_first, third);
}
