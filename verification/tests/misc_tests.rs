use rebar::audio::{mark_default_device, AudioDeviceSnapshot};
use rebar::appbar::{
    appbar_request_rect, begin_reservation, claimed_rect, current_area, flyout_origin,
    partial_region, reported_area, reserved_status,
    window_region, FlyoutAnchor, Rect, ReservedArea,
};
use rebar::config::PaletteMode;
use rebar::format::format_bytes;
use rebar::labels::{
    adapter_row_badge, adapter_row_subtitle, gpu_detail, media_chip_title, media_subtitle,
    wifi_row_badge, wifi_row_subtitle,
};
use rebar::media::{map_playback_state, MediaPlaybackState};
use rebar::network::{AvailableNetworkSnapshot, NetworkInterfaceSnapshot, NetworkKind};
use rebar::palette::{PaletteVariants, WallpaperPalette};

#[test]
fn playback_labels_and_codes() {
    assert_eq!(MediaPlaybackState::default(), MediaPlaybackState::Unknown);
    assert_eq!(MediaPlaybackState::Playing.as_label(), "Playing");
    assert_eq!(MediaPlaybackState::Changing.as_label(), "Changing");
    let expected = [
        MediaPlaybackState::Closed,
        MediaPlaybackState::Opened,
        MediaPlaybackState::Changing,
        MediaPlaybackState::Stopped,
        MediaPlaybackState::Playing,
        MediaPlaybackState::Paused,
    ];
    for (code, state) in expected.iter().enumerate() {
        assert_eq!(map_playback_state(code as i32), *state);
    }
    assert_eq!(map_playback_state(6), MediaPlaybackState::Unknown);
    assert_eq!(map_playback_state(-1), MediaPlaybackState::Unknown);
}

#[test]
fn palettes() {
    let base = WallpaperPalette::default();
    assert_eq!(base.accent, [108, 123, 255]);
    assert_eq!(base.panel, [19, 24, 34]);
    let mut variants = PaletteVariants::default();
    assert_eq!(variants.select(PaletteMode::Vibrant).text, [244, 247, 255]);
    variants.contrast.accent = [1, 2, 3];
    variants.center.accent = [4, 5, 6];
    assert_eq!(variants.select(PaletteMode::Contrast).accent, [1, 2, 3]);
    assert_eq!(variants.select(PaletteMode::Center).accent, [4, 5, 6]);
    assert_eq!(variants.select(PaletteMode::Balanced).accent, [108, 123, 255]);
}

#[test]
fn appbar_geometry() {
    let monitor = Rect { left: -1920, top: 0, right: 0, bottom: 1080 };
    assert_eq!(appbar_request_rect(monitor, 40), Rect { left: -1920, top: 0, right: 0, bottom: 40 });
    let queried = Rect { left: -1920, top: 8, right: -10, bottom: 30 };
    assert_eq!(claimed_rect(queried, 40), Rect { left: -1920, top: 8, right: -10, bottom: 48 });
    let set = Rect { left: -1900, top: 10, right: -20, bottom: 50 };
    let area = reported_area(set, 40, monitor);
    assert_eq!(area, ReservedArea { left: -1900, top: 10, width: 1880, height: 40, monitor_height: 1080 });
    assert_eq!(reserved_status(area), "Reserved 1880x40 at (-1900, 10).");
    let area = reported_area(queried, 40, monitor);
    assert_eq!(area, ReservedArea { left: -1920, top: 8, width: 1910, height: 40, monitor_height: 1080 });
    assert_eq!(reserved_status(area), "Reserved 1910x40 at (-1920, 8).");
    assert_eq!(flyout_origin(FlyoutAnchor { right: 1900, top: 44 }, 656), (1244, 44));
}

#[test]
fn rounded_regions() {
    assert_eq!(window_region(Rect { left: 10, top: 10, right: 110, bottom: 50 }, 8), Some((101, 41, 16)));
    assert_eq!(window_region(Rect { left: 10, top: 10, right: 10, bottom: 50 }, 8), None);
    assert_eq!(partial_region(300, 100, 8), Some((301, 101, 16)));
    assert_eq!(partial_region(300, 5, 8), Some((301, 6, 5)));
    assert_eq!(partial_region(300, 0, 8), None);
    assert_eq!(partial_region(0, 100, i32::MAX), None);
    assert_eq!(window_region(Rect { left: 0, top: 0, right: 0, bottom: 0 }, i32::MAX), None);
    assert_eq!(window_region(Rect { left: 20, top: 0, right: -5, bottom: 10 }, i32::MAX), None);
}

#[test]
fn panel_row_texts() {
    let n = AvailableNetworkSnapshot {
        ssid: String::from("Cafe"),
        connected: false,
        secure: false,
        saved: true,
        signal_percent: 42,
    };
    assert_eq!(wifi_row_subtitle(&n), "Saved • Open • 42% signal");
    assert_eq!(wifi_row_badge(&n), "42%");
    let live = AvailableNetworkSnapshot { connected: true, secure: true, ..n };
    assert_eq!(wifi_row_subtitle(&live), "Connected • Secure • 42% signal");
    assert_eq!(wifi_row_badge(&live), "Live");
    let i = NetworkInterfaceSnapshot {
        name: String::from("Ethernet"),
        description: String::from("Ethernet"),
        kind: NetworkKind::Ethernet,
        connected: true,
        is_primary: false,
        detail_name: None,
        signal_percent: None,
        received_bps: 2048,
        transmitted_bps: 10,
        available_networks: Vec::new(),
    };
    assert_eq!(adapter_row_subtitle(&i), "Ethernet • Online • ↓ 2.0 KB/s • ↑ 10 B/s");
    assert_eq!(adapter_row_badge(&i), "Ethernet");
    let p = NetworkInterfaceSnapshot { is_primary: true, ..i };
    assert_eq!(adapter_row_badge(&p), "Primary");
}

#[test]
fn gpu_and_media_texts() {
    assert_eq!(
        gpu_detail(1073741824, 4294967296, 4294967296, 0),
        format!("1.0 GB / 4.0 GB • dedicated {}", format_bytes(4294967296))
    );
    assert_eq!(gpu_detail(5, 0, 0, 2048), "5 B • dedicated 0 B • shared 2.0 KB");
    assert_eq!(media_chip_title(""), "No media");
    assert_eq!(media_chip_title("A very long song title indeed"), "A very long song ...");
    assert_eq!(media_subtitle("", "", "Spotify.exe"), "Spotify.exe");
    assert_eq!(media_subtitle("Artist", "", "Spotify.exe"), "Artist • Spotify.exe");
    assert_eq!(media_subtitle("Artist", "Album", "Spotify.exe"), "Artist • Album");
}

#[test]
fn reservations_do_not_nest() {
    let mut reserving = false;
    assert!(begin_reservation(&mut reserving));
    assert!(reserving);
    assert!(!begin_reservation(&mut reserving));
    assert!(reserving);
    assert_eq!(
        current_area(Rect { left: 0, top: 0, right: 2560, bottom: 40 }),
        ReservedArea { left: 0, top: 0, width: 2560, height: 40, monitor_height: 0 }
    );
}

fn device(id: &str, name: &str) -> AudioDeviceSnapshot {
    AudioDeviceSnapshot { id: id.to_string(), name: name.to_string(), is_default: true }
}

#[test]
fn default_audio_device_is_marked_and_named() {
    let mut devices = vec![device("a", "Speakers"), device("b", "Headset"), device("c", "Monitor")];
    assert_eq!(mark_default_device(&mut devices, "b"), Some(String::from("Headset")));
    let flags: Vec<bool> = devices.iter().map(|d| d.is_default).collect();
    assert_eq!(flags, vec![false, true, false]);
    assert_eq!(devices[1].name, "Headset");

    let mut devices = vec![device("a", "Speakers"), device("a", "Twin")];
    assert_eq!(mark_default_device(&mut devices, "a"), Some(String::from("Speakers")));
    assert!(devices[0].is_default && devices[1].is_default);

    let mut devices = vec![device("a", "Speakers")];
    assert_eq!(mark_default_device(&mut devices, "z"), None);
    assert!(!devices[0].is_default);
    assert_eq!(mark_default_device(&mut Vec::new(), "z"), None);
}
