use rebar::network::{
    apply_wifi_metadata, compact_rate, infer_network_kind, kind_label, network_from_samples,
    normalize_name, primary_label, primary_subtitle, signal_label, snapshot_wifi_interface,
    AvailableNetworkSnapshot, InterfaceTraffic, NetworkInterfaceSnapshot, NetworkKind,
    NetworkSnapshot, WifiInterfaceMetadata, WifiScanEntry,
};

fn iface(name: &str, rx: u64, tx: u64) -> NetworkInterfaceSnapshot {
    NetworkInterfaceSnapshot {
        name: name.to_string(),
        description: name.to_string(),
        kind: infer_network_kind(name),
        connected: rx > 0 || tx > 0,
        is_primary: false,
        detail_name: None,
        signal_percent: None,
        received_bps: rx,
        transmitted_bps: tx,
        available_networks: Vec::new(),
    }
}

fn network(ssid: &str, connected: bool, signal: u32) -> AvailableNetworkSnapshot {
    AvailableNetworkSnapshot {
        ssid: ssid.to_string(),
        connected,
        secure: true,
        saved: connected,
        signal_percent: signal,
    }
}

fn metadata(name: &str, current: Option<&str>, signal: Option<u32>) -> WifiInterfaceMetadata {
    WifiInterfaceMetadata {
        interface_name: name.to_string(),
        connected: current.is_some(),
        current_network: current.map(|s| s.to_string()),
        signal_percent: signal,
        available_networks: vec![network("Cafe", false, 40)],
    }
}

/// The merge as written with the standard library's searching and sorting.
fn reference_merge(network: &mut NetworkSnapshot, wifi: Vec<WifiInterfaceMetadata>) {
    fn norm(value: &str) -> String {
        value
            .chars()
            .filter(|c| c.is_ascii_alphanumeric())
            .flat_map(|c| c.to_lowercase())
            .collect()
    }
    for metadata in wifi {
        let w = norm(&metadata.interface_name);
        let index = network.interfaces.iter().position(|i| {
            let n = norm(&i.name);
            let d = norm(&i.description);
            n == w || d == w || n.contains(&w) || w.contains(&n)
        });
        if let Some(index) = index {
            let i = &mut network.interfaces[index];
            i.kind = NetworkKind::Wifi;
            i.connected = metadata.connected || i.connected;
            i.detail_name = metadata.current_network.clone();
            i.signal_percent = metadata.signal_percent;
            i.available_networks = metadata.available_networks.clone();
            i.description = metadata.interface_name.clone();
        } else {
            network.interfaces.push(NetworkInterfaceSnapshot {
                name: metadata.interface_name.clone(),
                description: metadata.interface_name.clone(),
                kind: NetworkKind::Wifi,
                connected: metadata.connected,
                is_primary: false,
                detail_name: metadata.current_network.clone(),
                signal_percent: metadata.signal_percent,
                received_bps: 0,
                transmitted_bps: 0,
                available_networks: metadata.available_networks.clone(),
            });
        }
    }
    let primary = network
        .interfaces
        .iter()
        .position(|i| i.connected && i.kind == NetworkKind::Wifi)
        .or_else(|| {
            network
                .interfaces
                .iter()
                .position(|i| i.connected || i.received_bps > 0 || i.transmitted_bps > 0)
        });
    if let Some(index) = primary {
        network.interfaces[index].is_primary = true;
    }
    network.interfaces.sort_by(|left, right| {
        right
            .is_primary
            .cmp(&left.is_primary)
            .then((right.received_bps + right.transmitted_bps).cmp(&(left.received_bps + left.transmitted_bps)))
            .then(left.name.cmp(&right.name))
    });
}

#[test]
fn kinds_from_names() {
    assert_eq!(infer_network_kind("Wi-Fi"), NetworkKind::Wifi);
    assert_eq!(infer_network_kind("Intel(R) WIRELESS-AC 9560"), NetworkKind::Wifi);
    assert_eq!(infer_network_kind("wlan0 WiFi"), NetworkKind::Wifi);
    assert_eq!(infer_network_kind("Ethernet 2"), NetworkKind::Ethernet);
    assert_eq!(infer_network_kind("Realtek PCIe GbE Family Controller (LAN)"), NetworkKind::Ethernet);
    assert_eq!(infer_network_kind("Bluetooth Network Connection"), NetworkKind::Other);
    assert_eq!(infer_network_kind("Loopback"), NetworkKind::Other);
}

#[test]
fn normalized_names() {
    assert_eq!(normalize_name("Intel(R) Wi-Fi 6 AX201"), "intelrwifi6ax201");
    assert_eq!(normalize_name("  Ünï-Côde  "), "ncde");
    assert_eq!(normalize_name(""), "");
}

#[test]
fn labels() {
    assert_eq!(kind_label(NetworkKind::Wifi), "Wi-Fi");
    assert_eq!(kind_label(NetworkKind::Ethernet), "Ethernet");
    assert_eq!(kind_label(NetworkKind::Other), "Other");
    assert_eq!(signal_label(87), "87% signal");
    assert_eq!(compact_rate(2048), "2.0 KB/s");
    assert_eq!(compact_rate(12), "12 B/s");
    let mut i = iface("Wi-Fi", 10, 0);
    i.kind = NetworkKind::Wifi;
    assert_eq!(primary_label(&i), "Wi-Fi");
    assert_eq!(primary_subtitle(&i), "Wi-Fi • Online");
    i.detail_name = Some(String::from("HomeNet"));
    i.signal_percent = Some(72);
    assert_eq!(primary_label(&i), "HomeNet");
    assert_eq!(primary_subtitle(&i), "Wi-Fi • 72% signal • Online");
    i.connected = false;
    assert_eq!(primary_subtitle(&i), "Wi-Fi • 72% signal");
}

#[test]
fn wifi_report_updates_the_matching_adapter() {
    let mut net = NetworkSnapshot {
        received_bps: 300,
        transmitted_bps: 30,
        interfaces: vec![iface("Ethernet", 100, 10), iface("Wi-Fi", 200, 20)],
    };
    apply_wifi_metadata(&mut net, vec![metadata("Wi Fi", Some("HomeNet"), Some(80))]);
    assert_eq!(net.received_bps, 300);
    assert_eq!(net.interfaces.len(), 2);
    let first = &net.interfaces[0];
    assert_eq!(first.name, "Wi-Fi");
    assert!(first.is_primary);
    assert_eq!(first.kind, NetworkKind::Wifi);
    assert_eq!(first.description, "Wi Fi");
    assert_eq!(first.detail_name.as_deref(), Some("HomeNet"));
    assert_eq!(first.signal_percent, Some(80));
    assert_eq!(first.available_networks.len(), 1);
    assert!(!net.interfaces[1].is_primary);
}

#[test]
fn unknown_wifi_adapter_is_added() {
    let mut net = NetworkSnapshot {
        received_bps: 0,
        transmitted_bps: 0,
        interfaces: vec![iface("Ethernet", 0, 0)],
    };
    apply_wifi_metadata(&mut net, vec![metadata("Qualcomm Atheros", None, None)]);
    assert_eq!(net.interfaces.len(), 2);
    assert_eq!(net.interfaces[0].name, "Ethernet");
    assert_eq!(net.interfaces[1].name, "Qualcomm Atheros");
    assert_eq!(net.interfaces[1].kind, NetworkKind::Wifi);
    assert!(net.interfaces.iter().all(|i| !i.is_primary));
}

#[test]
fn merging_agrees_with_the_standard_library() {
    let base = vec![
        iface("Ethernet", 0, 0),
        iface("vEthernet (WSL)", 5, 5),
        iface("Wi-Fi", 0, 0),
        iface("Local Area Connection", 10, 0),
        iface("Bluetooth", 0, 0),
        iface("Wi-Fi 2", 10, 0),
    ];
    let reports = vec![
        vec![],
        vec![metadata("Wi-Fi", Some("A"), Some(50))],
        vec![metadata("Intel Wireless", Some("B"), Some(60)), metadata("wifi2", None, None)],
        vec![metadata("", None, None)],
        vec![metadata("Bluetooth", None, None), metadata("Fi", Some("C"), Some(1))],
    ];
    for wifi in reports {
        let mut ours = NetworkSnapshot { received_bps: 1, transmitted_bps: 2, interfaces: base.clone() };
        let mut theirs = ours.clone();
        apply_wifi_metadata(&mut ours, wifi.clone());
        reference_merge(&mut theirs, wifi);
        assert_eq!(format!("{ours:?}"), format!("{theirs:?}"));
    }
}

#[test]
fn snapshot_from_traffic_samples() {
    let samples = vec![
        InterfaceTraffic { name: String::from("Ethernet"), received_bps: 10, transmitted_bps: 0 },
        InterfaceTraffic { name: String::from("Wi-Fi"), received_bps: 40, transmitted_bps: 20 },
        InterfaceTraffic { name: String::from("Loopback"), received_bps: 0, transmitted_bps: 0 },
        InterfaceTraffic { name: String::from("vEthernet"), received_bps: 5, transmitted_bps: 5 },
    ];
    let net = network_from_samples(samples);
    assert_eq!(net.received_bps, 55);
    assert_eq!(net.transmitted_bps, 25);
    let names: Vec<&str> = net.interfaces.iter().map(|i| i.name.as_str()).collect();
    assert_eq!(names, vec!["Wi-Fi", "Ethernet", "vEthernet", "Loopback"]);
    assert_eq!(net.interfaces[0].kind, NetworkKind::Wifi);
    assert!(net.interfaces[0].connected);
    assert!(!net.interfaces[3].connected);
    assert_eq!(net.interfaces[1].kind, NetworkKind::Ethernet);
}

fn entry(ssid: &str, connected: bool, saved: bool, signal: u32) -> WifiScanEntry {
    let mut raw = vec![0u8; 32];
    raw[..ssid.len()].copy_from_slice(ssid.as_bytes());
    WifiScanEntry {
        ssid: raw,
        ssid_length: ssid.len() as u32,
        connected,
        secure: true,
        saved,
        signal_quality: signal,
    }
}

#[test]
fn scan_is_ordered_connected_then_signal_then_name() {
    let description: Vec<u16> = "Intel Wi-Fi 6\0".encode_utf16().collect();
    let scan = vec![
        entry("Zeta", false, false, 70),
        entry("", false, false, 99),
        entry("Alpha", false, true, 70),
        entry("Home", true, true, 55),
        entry("   ", false, false, 90),
        entry("Beta", false, false, 90),
    ];
    let m = snapshot_wifi_interface(&description, &scan);
    assert_eq!(m.interface_name, "Intel Wi-Fi 6");
    assert!(m.connected);
    assert_eq!(m.current_network.as_deref(), Some("Home"));
    assert_eq!(m.signal_percent, Some(55));
    let ssids: Vec<&str> = m.available_networks.iter().map(|n| n.ssid.as_str()).collect();
    assert_eq!(ssids, vec!["Home", "Beta", "Alpha", "Zeta"]);
    assert!(m.available_networks[2].saved);
}

#[test]
fn scan_without_connection() {
    let description: Vec<u16> = "wlan".encode_utf16().collect();
    let m = snapshot_wifi_interface(&description, &vec![entry("Cafe", false, false, 10)]);
    assert!(!m.connected);
    assert_eq!(m.current_network, None);
    assert_eq!(m.signal_percent, None);
    assert_eq!(m.available_networks.len(), 1);
}
