use vstd::prelude::*;

use crate::format::{bytes_text, format_bytes, gpu_budget_text, format_gpu_budget, truncate, truncated};
use crate::network::{
    compact_rate, kind_label, kind_text, primary_subtitle, signal_label, signal_text,
    subtitle_text, AvailableNetworkSnapshot, NetworkInterfaceSnapshot,
};
use crate::text::{decimal, push_decimal};

verus! {

// ---------------------------------------------------------------------------
// Network panel
// ---------------------------------------------------------------------------

/// `Connected`, `Saved` or `Visible` • `Secure` or `Open` • signal, for a scanned
/// network.
pub open spec fn wifi_row_subtitle_text(n: AvailableNetworkSnapshot) -> Seq<char> {
    (if n.connected {
        "Connected"@
    } else if n.saved {
        "Saved"@
    } else {
        "Visible"@
    }) + " • "@ + (if n.secure {
        "Secure"@
    } else {
        "Open"@
    }) + " • "@ + signal_text(n.signal_percent as nat)
}

pub fn wifi_row_subtitle(network: &AvailableNetworkSnapshot) -> (r: String)
    ensures
        r@ == wifi_row_subtitle_text(*network),
{
    let mut s = String::from_str(
        if network.connected {
            "Connected"
        } else if network.saved {
            "Saved"
        } else {
            "Visible"
        },
    );
    s.append(" • ");
    s.append(if network.secure { "Secure" } else { "Open" });
    s.append(" • ");
    let l = signal_label(network.signal_percent);
    s.append(l.as_str());
    s
}

/// `Live` for the connected network, else its signal as `N%`.
pub open spec fn wifi_row_badge_text(n: AvailableNetworkSnapshot) -> Seq<char> {
    if n.connected {
        "Live"@
    } else {
        decimal(n.signal_percent as nat) + "%"@
    }
}

pub fn wifi_row_badge(network: &AvailableNetworkSnapshot) -> (r: String)
    ensures
        r@ == wifi_row_badge_text(*network),
{
    if network.connected {
        String::from_str("Live")
    } else {
        let mut s = String::new();
        push_decimal(&mut s, network.signal_percent as u64);
        s.append("%");
        s
    }
}

/// An adapter row's second line: its subtitle and both rates.
pub open spec fn adapter_row_subtitle_text(i: NetworkInterfaceSnapshot) -> Seq<char> {
    subtitle_text(i) + " • ↓ "@ + bytes_text(i.received_bps as nat) + "/s"@ + " • ↑ "@
        + bytes_text(i.transmitted_bps as nat) + "/s"@
}

pub fn adapter_row_subtitle(interface: &NetworkInterfaceSnapshot) -> (r: String)
    ensures
        r@ == adapter_row_subtitle_text(*interface),
{
    let mut s = primary_subtitle(interface);
    s.append(" • ↓ ");
    let down = compact_rate(interface.received_bps);
    s.append(down.as_str());
    s.append(" • ↑ ");
    let up = compact_rate(interface.transmitted_bps);
    s.append(up.as_str());
    assert(s@ =~= adapter_row_subtitle_text(*interface));
    s
}

/// `Primary` for the primary adapter, else its kind.
pub open spec fn adapter_row_badge_text(i: NetworkInterfaceSnapshot) -> Seq<char> {
    if i.is_primary {
        "Primary"@
    } else {
        kind_text(i.kind)
    }
}

pub fn adapter_row_badge(interface: &NetworkInterfaceSnapshot) -> (r: String)
    ensures
        r@ == adapter_row_badge_text(*interface),
{
    if interface.is_primary {
        String::from_str("Primary")
    } else {
        String::from_str(kind_label(interface.kind))
    }
}

// ---------------------------------------------------------------------------
// System panel
// ---------------------------------------------------------------------------

/// A GPU row's second line: the memory budget, the dedicated memory, and the shared
/// memory when there is any.
pub open spec fn gpu_detail_text(used: nat, budget: nat, dedicated: nat, shared: nat) -> Seq<char> {
    gpu_budget_text(used, budget) + " • dedicated "@ + bytes_text(dedicated) + (if shared > 0 {
        " • shared "@ + bytes_text(shared)
    } else {
        Seq::<char>::empty()
    })
}

pub fn gpu_detail(used: u64, budget: u64, dedicated: u64, shared: u64) -> (r: String)
    ensures
        r@ == gpu_detail_text(used as nat, budget as nat, dedicated as nat, shared as nat),
{
    let mut s = format_gpu_budget(used, budget);
    s.append(" • dedicated ");
    let d = format_bytes(dedicated);
    s.append(d.as_str());
    let ghost base = s@;
    if shared > 0 {
        s.append(" • shared ");
        let sh = format_bytes(shared);
        s.append(sh.as_str());
    }
    assert(s@ =~= gpu_detail_text(used as nat, budget as nat, dedicated as nat, shared as nat));
    s
}

// ---------------------------------------------------------------------------
// Media panel
// ---------------------------------------------------------------------------

/// The media chip's title: the track title shortened to 20 characters, or `No media`.
pub open spec fn media_chip_title_text(title: Seq<char>) -> Seq<char> {
    if title.len() == 0 {
        "No media"@
    } else {
        truncated(title, 20)
    }
}

pub fn media_chip_title(title: &str) -> (r: String)
    ensures
        r@ == media_chip_title_text(title@),
{
    if title.unicode_len() == 0 {
        String::from_str("No media")
    } else {
        truncate(title, 20)
    }
}

/// The line under the track title: the player alone when there is no artist; the
/// artist and the player without an album; the artist and the album otherwise.
pub open spec fn media_subtitle_text(artist: Seq<char>, album: Seq<char>, source: Seq<char>) -> Seq<char> {
    if artist.len() == 0 {
        truncated(source, 36)
    } else if album.len() == 0 {
        truncated(artist, 22) + " • "@ + truncated(source, 16)
    } else {
        truncated(artist, 18) + " • "@ + truncated(album, 16)
    }
}

pub fn media_subtitle(artist: &str, album: &str, source_app_id: &str) -> (r: String)
    ensures
        r@ == media_subtitle_text(artist@, album@, source_app_id@),
{
    if artist.unicode_len() == 0 {
        truncate(source_app_id, 36)
    } else if album.unicode_len() == 0 {
        let mut s = truncate(artist, 22);
        s.append(" • ");
        let t = truncate(source_app_id, 16);
        s.append(t.as_str());
        s
    } else {
        let mut s = truncate(artist, 18);
        s.append(" • ");
        let t = truncate(album, 16);
        s.append(t.as_str());
        s
    }
}

} // verus!
