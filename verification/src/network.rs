use vstd::prelude::*;

use crate::format::{bytes_text, format_bytes};
use crate::sort::{key_lt, sort_by_keys, stable_perm_by, stably_sorted_by};
use crate::encoding::{dot11_ssid_to_string, utf16_text, utf16_to_string, utf8_lossy};
use crate::text::{chars_of, decimal, push_char, push_decimal, trim};

verus! {

// ---------------------------------------------------------------------------
// Snapshots
// ---------------------------------------------------------------------------

/// What kind of link a network adapter is.
#[derive(Debug, Clone, Copy, PartialEq, Eq, Structural)]
pub enum NetworkKind {
    Other,
    Ethernet,
    Wifi,
}

impl Default for NetworkKind {
    fn default() -> (r: Self)
        ensures
            r == NetworkKind::Other,
    {
        NetworkKind::Other
    }
}

/// One Wi-Fi network seen in a scan.
#[derive(Debug, Clone, Default)]
pub struct AvailableNetworkSnapshot {
    pub ssid: String,
    pub connected: bool,
    pub secure: bool,
    pub saved: bool,
    pub signal_percent: u32,
}

/// One network adapter with its traffic and, for Wi-Fi, what it sees.
#[derive(Debug, Clone, Default)]
pub struct NetworkInterfaceSnapshot {
    pub name: String,
    pub description: String,
    pub kind: NetworkKind,
    pub connected: bool,
    pub is_primary: bool,
    pub detail_name: Option<String>,
    pub signal_percent: Option<u32>,
    pub received_bps: u64,
    pub transmitted_bps: u64,
    pub available_networks: Vec<AvailableNetworkSnapshot>,
}

/// Totals over all adapters and the adapters themselves.
#[derive(Debug, Clone, Default)]
pub struct NetworkSnapshot {
    pub received_bps: u64,
    pub transmitted_bps: u64,
    pub interfaces: Vec<NetworkInterfaceSnapshot>,
}

/// What the Wi-Fi service reports about one wireless adapter.
#[derive(Debug, Clone, Default)]
pub struct WifiInterfaceMetadata {
    pub interface_name: String,
    pub connected: bool,
    pub current_network: Option<String>,
    pub signal_percent: Option<u32>,
    pub available_networks: Vec<AvailableNetworkSnapshot>,
}

// ---------------------------------------------------------------------------
// ASCII text
// ---------------------------------------------------------------------------

pub open spec fn is_ascii_alnum(c: char) -> bool {
    ||| '0' <= c <= '9'
    ||| 'a' <= c <= 'z'
    ||| 'A' <= c <= 'Z'
}

pub open spec fn ascii_lower(c: char) -> char {
    if 'A' <= c <= 'Z' {
        ((c as u32) + 32) as char
    } else {
        c
    }
}

/// `str::to_ascii_lowercase`.
pub open spec fn lowered(s: Seq<char>) -> Seq<char> {
    s.map_values(|c: char| ascii_lower(c))
}

/// The ASCII letters and digits of `s`, lower-cased, in order.
pub open spec fn normalized(s: Seq<char>) -> Seq<char>
    decreases s.len(),
{
    if s.len() == 0 {
        s
    } else if is_ascii_alnum(s.last()) {
        normalized(s.drop_last()).push(ascii_lower(s.last()))
    } else {
        normalized(s.drop_last())
    }
}

/// `needle` occurs in `hay` (the empty text occurs everywhere).
pub open spec fn contains_seq(hay: Seq<char>, needle: Seq<char>) -> bool {
    exists|i: int|
        0 <= i && i + needle.len() <= hay.len() && #[trigger] hay.subrange(i, i + needle.len())
            == needle
}

fn lower_char(c: char) -> (r: char)
    ensures
        r == ascii_lower(c),
{
    if 'A' <= c && c <= 'Z' {
        let b = c as u8;
        assert(b == c as u32);
        ((b + 32) as char)
    } else {
        c
    }
}

fn alnum(c: char) -> (r: bool)
    ensures
        r == is_ascii_alnum(c),
{
    ('0' <= c && c <= '9') || ('a' <= c && c <= 'z') || ('A' <= c && c <= 'Z')
}

fn lowercase_chars(v: &Vec<char>) -> (r: Vec<char>)
    ensures
        r@ == lowered(v@),
{
    let mut r: Vec<char> = Vec::new();
    let mut i: usize = 0;
    while i < v.len()
        invariant
            i <= v.len(),
            r@ == lowered(v@.take(i as int)),
        decreases v.len() - i,
    {
        r.push(lower_char(v[i]));
        assert(lowered(v@.take(i + 1)) =~= lowered(v@.take(i as int)).push(ascii_lower(v@[i as int])));
        i = i + 1;
    }
    assert(v@.take(v.len() as int) =~= v@);
    r
}

fn normalized_chars(value: &str) -> (r: Vec<char>)
    ensures
        r@ == normalized(value@),
{
    let v = chars_of(value);
    let mut r: Vec<char> = Vec::new();
    let mut i: usize = 0;
    while i < v.len()
        invariant
            i <= v.len(),
            r@ == normalized(v@.take(i as int)),
        decreases v.len() - i,
    {
        let ghost t = v@.take(i + 1);
        assert(t.drop_last() =~= v@.take(i as int));
        assert(t.last() == v@[i as int]);
        if alnum(v[i]) {
            r.push(lower_char(v[i]));
        }
        i = i + 1;
    }
    assert(v@.take(v.len() as int) =~= v@);
    r
}

/// The adapter name reduced to lower-case ASCII letters and digits, for matching names
/// written in different styles.
pub fn normalize_name(value: &str) -> (r: String)
    ensures
        r@ == normalized(value@),
{
    let v = normalized_chars(value);
    crate::text::string_of_range(&v, 0, v.len())
}

fn occurs_at(hay: &Vec<char>, i: usize, needle: &Vec<char>) -> (r: bool)
    requires
        i + needle.len() <= hay.len(),
    ensures
        r == (hay@.subrange(i as int, i + needle.len()) == needle@),
{
    let mut k: usize = 0;
    while k < needle.len()
        invariant
            i + needle.len() <= hay.len(),
            k <= needle.len(),
            forall|j: int| 0 <= j < k ==> hay@[i + j] == needle@[j],
        decreases needle.len() - k,
    {
        if hay[i + k] != needle[k] {
            assert(hay@.subrange(i as int, i + needle.len())[k as int] != needle@[k as int]);
            return false;
        }
        k = k + 1;
    }
    assert(hay@.subrange(i as int, i + needle.len()) =~= needle@);
    true
}

/// Whether `needle` occurs in `hay`.
pub fn contains_chars(hay: &Vec<char>, needle: &Vec<char>) -> (r: bool)
    ensures
        r == contains_seq(hay@, needle@),
{
    if needle.len() > hay.len() {
        return false;
    }
    if needle.len() == 0 {
        assert(hay@.subrange(0int, 0int + needle@.len()) =~= needle@);
        return true;
    }
    let last = hay.len() - needle.len();
    let mut i: usize = 0;
    while i <= last
        invariant
            last == hay.len() - needle.len(),
            1 <= needle.len() <= hay.len(),
            i <= last + 1,
            forall|j: int|
                0 <= j < i ==> #[trigger] hay@.subrange(j, j + needle.len()) != needle@,
        decreases last + 1 - i,
    {
        if occurs_at(hay, i, needle) {
            return true;
        }
        i = i + 1;
    }
    false
}

/// Guesses the kind of adapter from its name.
pub open spec fn kind_from_name(name: Seq<char>) -> NetworkKind {
    let l = lowered(name);
    if contains_seq(l, "wi-fi"@) || contains_seq(l, "wifi"@) || contains_seq(l, "wireless"@) {
        NetworkKind::Wifi
    } else if contains_seq(l, "ethernet"@) || contains_seq(l, "lan"@) {
        NetworkKind::Ethernet
    } else {
        NetworkKind::Other
    }
}

/// Wi-Fi when the name mentions Wi-Fi or wireless, Ethernet when it mentions Ethernet or
/// LAN, in any case; otherwise other.
pub fn infer_network_kind(name: &str) -> (r: NetworkKind)
    ensures
        r == kind_from_name(name@),
{
    let l = lowercase_chars(&chars_of(name));
    if contains_chars(&l, &chars_of("wi-fi")) || contains_chars(&l, &chars_of("wifi"))
        || contains_chars(&l, &chars_of("wireless")) {
        NetworkKind::Wifi
    } else if contains_chars(&l, &chars_of("ethernet")) || contains_chars(&l, &chars_of("lan")) {
        NetworkKind::Ethernet
    } else {
        NetworkKind::Other
    }
}

// ---------------------------------------------------------------------------
// Labels
// ---------------------------------------------------------------------------

pub open spec fn kind_text(kind: NetworkKind) -> Seq<char> {
    match kind {
        NetworkKind::Wifi => "Wi-Fi"@,
        NetworkKind::Ethernet => "Ethernet"@,
        NetworkKind::Other => "Other"@,
    }
}

pub fn kind_label(kind: NetworkKind) -> (r: &'static str)
    ensures
        r@ == kind_text(kind),
{
    match kind {
        NetworkKind::Wifi => "Wi-Fi",
        NetworkKind::Ethernet => "Ethernet",
        NetworkKind::Other => "Other",
    }
}

pub open spec fn signal_text(signal_percent: nat) -> Seq<char> {
    decimal(signal_percent) + "% signal"@
}

pub fn signal_label(signal_percent: u32) -> (r: String)
    ensures
        r@ == signal_text(signal_percent as nat),
{
    let mut s = String::new();
    push_decimal(&mut s, signal_percent as u64);
    s.append("% signal");
    s
}

/// A rate in bytes per second, as `1.5 MB/s`.
pub fn compact_rate(bytes_per_second: u64) -> (r: String)
    ensures
        r@ == bytes_text(bytes_per_second as nat) + "/s"@,
{
    let mut s = format_bytes(bytes_per_second);
    s.append("/s");
    s
}

/// The network an adapter is on when known, else the adapter's name.
pub fn primary_label(interface: &NetworkInterfaceSnapshot) -> (r: String)
    ensures
        r@ == (match interface.detail_name {
            Some(d) => d@,
            None => interface.name@,
        }),
{
    match &interface.detail_name {
        Some(d) => d.clone(),
        None => interface.name.clone(),
    }
}

/// `kind • N% signal • Online`, each part after the kind only when it applies.
pub open spec fn subtitle_text(interface: NetworkInterfaceSnapshot) -> Seq<char> {
    kind_text(interface.kind) + (match interface.signal_percent {
        Some(s) => " • "@ + signal_text(s as nat),
        None => Seq::<char>::empty(),
    }) + (if interface.connected {
        " • Online"@
    } else {
        Seq::<char>::empty()
    })
}

pub fn primary_subtitle(interface: &NetworkInterfaceSnapshot) -> (r: String)
    ensures
        r@ == subtitle_text(*interface),
{
    let mut s = String::new();
    s.append(kind_label(interface.kind));
    let ghost a = s@;
    if let Some(signal) = interface.signal_percent {
        s.append(" • ");
        let l = signal_label(signal);
        s.append(l.as_str());
    }
    let ghost b = s@;
    if interface.connected {
        s.append(" • Online");
    }
    proof {
        assert(s@ =~= subtitle_text(*interface));
    }
    s
}

// ---------------------------------------------------------------------------
// Merging what the Wi-Fi service reports
// ---------------------------------------------------------------------------

/// The first position whose flag is set.
pub open spec fn first_true(flags: Seq<bool>) -> Option<int>
    decreases flags.len(),
{
    if flags.len() == 0 {
        None
    } else if flags[0] {
        Some(0)
    } else {
        match first_true(flags.drop_first()) {
            Some(i) => Some(i + 1),
            None => None,
        }
    }
}

pub proof fn lemma_first_true(flags: Seq<bool>, k: int)
    requires
        0 <= k <= flags.len(),
        forall|i: int| 0 <= i < k ==> !#[trigger] flags[i],
    ensures
        k < flags.len() && flags[k] ==> first_true(flags) == Some(k),
        k == flags.len() ==> first_true(flags) == None::<int>,
    decreases k,
{
    if k > 0 {
        let t = flags.drop_first();
        assert forall|i: int| 0 <= i < k - 1 implies !#[trigger] t[i] by {
            assert(t[i] == flags[i + 1]);
        }
        lemma_first_true(t, k - 1);
        assert(!flags[0]);
    }
}

/// An adapter and a Wi-Fi adapter name (normalized) are the same adapter when the
/// normalized names are equal, the normalized description equals it, or either
/// normalized name contains the other.
pub open spec fn iface_matches(i: NetworkInterfaceSnapshot, w: Seq<char>) -> bool {
    let n = normalized(i.name@);
    let d = normalized(i.description@);
    n == w || d == w || contains_seq(n, w) || contains_seq(w, n)
}

/// The first adapter that `w` names.
pub open spec fn first_match(s: Seq<NetworkInterfaceSnapshot>, w: Seq<char>) -> Option<int> {
    first_true(s.map_values(|i: NetworkInterfaceSnapshot| iface_matches(i, w)))
}

/// An adapter updated with what the Wi-Fi service reports about it.
pub open spec fn with_wifi(i: NetworkInterfaceSnapshot, m: WifiInterfaceMetadata) -> NetworkInterfaceSnapshot {
    NetworkInterfaceSnapshot {
        kind: NetworkKind::Wifi,
        connected: m.connected || i.connected,
        detail_name: m.current_network,
        signal_percent: m.signal_percent,
        available_networks: m.available_networks,
        description: m.interface_name,
        ..i
    }
}

/// A Wi-Fi adapter that the traffic counters did not list.
pub open spec fn wifi_only(m: WifiInterfaceMetadata) -> NetworkInterfaceSnapshot {
    NetworkInterfaceSnapshot {
        name: m.interface_name,
        description: m.interface_name,
        kind: NetworkKind::Wifi,
        connected: m.connected,
        is_primary: false,
        detail_name: m.current_network,
        signal_percent: m.signal_percent,
        received_bps: 0,
        transmitted_bps: 0,
        available_networks: m.available_networks,
    }
}

pub open spec fn merge_one(s: Seq<NetworkInterfaceSnapshot>, m: WifiInterfaceMetadata) -> Seq<NetworkInterfaceSnapshot> {
    match first_match(s, normalized(m.interface_name@)) {
        Some(k) => s.update(k, with_wifi(s[k], m)),
        None => s.push(wifi_only(m)),
    }
}

/// The adapters after each Wi-Fi report in turn is merged in.
pub open spec fn merge_all(s: Seq<NetworkInterfaceSnapshot>, ms: Seq<WifiInterfaceMetadata>) -> Seq<NetworkInterfaceSnapshot>
    decreases ms.len(),
{
    if ms.len() == 0 {
        s
    } else {
        merge_all(merge_one(s, ms[0]), ms.drop_first())
    }
}

pub open spec fn is_wifi_link(i: NetworkInterfaceSnapshot) -> bool {
    i.connected && i.kind == NetworkKind::Wifi
}

pub open spec fn is_active(i: NetworkInterfaceSnapshot) -> bool {
    i.connected || i.received_bps > 0 || i.transmitted_bps > 0
}

/// The primary adapter: the first connected Wi-Fi adapter, else the first one that is
/// connected or moving traffic.
pub open spec fn primary_choice(s: Seq<NetworkInterfaceSnapshot>) -> Option<int> {
    match first_true(s.map_values(|i: NetworkInterfaceSnapshot| is_wifi_link(i))) {
        Some(k) => Some(k),
        None => first_true(s.map_values(|i: NetworkInterfaceSnapshot| is_active(i))),
    }
}

pub open spec fn mark_primary(s: Seq<NetworkInterfaceSnapshot>) -> Seq<NetworkInterfaceSnapshot> {
    match primary_choice(s) {
        Some(k) => s.update(k, NetworkInterfaceSnapshot { is_primary: true, ..s[k] }),
        None => s,
    }
}

pub open spec fn traffic_fits(i: NetworkInterfaceSnapshot) -> bool {
    i.received_bps + i.transmitted_bps <= u64::MAX
}

pub open spec fn char_codes(s: Seq<char>) -> Seq<u64> {
    s.map_values(|c: char| (c as u32) as u64)
}

/// The order of the adapter list: the primary adapter first, then by total traffic,
/// highest first, then by name.
pub open spec fn iface_key(i: NetworkInterfaceSnapshot) -> Seq<u64> {
    seq![
        if i.is_primary {
            0u64
        } else {
            1u64
        },
        (u64::MAX - (i.received_bps + i.transmitted_bps)) as u64,
    ] + char_codes(i.name@)
}

fn push_char_codes(k: &mut Vec<u64>, s: &str)
    ensures
        final(k)@ == old(k)@ + char_codes(s@),
{
    let cs = chars_of(s);
    let ghost start = k@;
    let mut j: usize = 0;
    while j < cs.len()
        invariant
            j <= cs.len(),
            cs@ == s@,
            k@ == start + char_codes(cs@.take(j as int)),
        decreases cs.len() - j,
    {
        k.push(cs[j] as u32 as u64);
        assert(char_codes(cs@.take(j + 1)) =~= char_codes(cs@.take(j as int)).push(
            (cs@[j as int] as u32) as u64,
        ));
        j = j + 1;
    }
    assert(cs@.take(cs.len() as int) =~= cs@);
}

fn interface_key(i: &NetworkInterfaceSnapshot) -> (r: Vec<u64>)
    requires
        traffic_fits(*i),
    ensures
        r@ == iface_key(*i),
{
    let mut k: Vec<u64> = Vec::new();
    k.push(if i.is_primary { 0 } else { 1 });
    k.push(u64::MAX - (i.received_bps + i.transmitted_bps));
    push_char_codes(&mut k, i.name.as_str());
    assert(k@ =~= iface_key(*i));
    k
}

fn chars_eq(a: &Vec<char>, b: &Vec<char>) -> (r: bool)
    ensures
        r == (a@ == b@),
{
    if a.len() != b.len() {
        return false;
    }
    let r = occurs_at(a, 0, b);
    assert(a@.subrange(0, b.len() as int) =~= a@);
    r
}

fn matches_exec(i: &NetworkInterfaceSnapshot, w: &Vec<char>) -> (r: bool)
    ensures
        r == iface_matches(*i, w@),
{
    let n = normalized_chars(i.name.as_str());
    let d = normalized_chars(i.description.as_str());
    chars_eq(&n, w) || chars_eq(&d, w) || contains_chars(&n, w) || contains_chars(w, &n)
}

fn first_matching(s: &Vec<NetworkInterfaceSnapshot>, w: &Vec<char>) -> (r: Option<usize>)
    ensures
        match r {
            Some(k) => k < s.len() && first_match(s@, w@) == Some(k as int),
            None => first_match(s@, w@) == None::<int>,
        },
{
    let ghost flags = s@.map_values(|i: NetworkInterfaceSnapshot| iface_matches(i, w@));
    let mut k: usize = 0;
    while k < s.len()
        invariant
            k <= s.len(),
            flags == s@.map_values(|i: NetworkInterfaceSnapshot| iface_matches(i, w@)),
            forall|j: int| 0 <= j < k ==> !#[trigger] flags[j],
        decreases s.len() - k,
    {
        if matches_exec(&s[k], w) {
            proof {
                lemma_first_true(flags, k as int);
            }
            return Some(k);
        }
        k = k + 1;
    }
    proof {
        lemma_first_true(flags, k as int);
    }
    None
}

fn first_flagged(s: &Vec<NetworkInterfaceSnapshot>, wifi: bool) -> (r: Option<usize>)
    ensures
        ({
            let flags = if wifi {
                s@.map_values(|i: NetworkInterfaceSnapshot| is_wifi_link(i))
            } else {
                s@.map_values(|i: NetworkInterfaceSnapshot| is_active(i))
            };
            match r {
                Some(k) => k < s.len() && first_true(flags) == Some(k as int),
                None => first_true(flags) == None::<int>,
            }
        }),
{
    let ghost flags = if wifi {
        s@.map_values(|i: NetworkInterfaceSnapshot| is_wifi_link(i))
    } else {
        s@.map_values(|i: NetworkInterfaceSnapshot| is_active(i))
    };
    let mut k: usize = 0;
    while k < s.len()
        invariant
            k <= s.len(),
            flags == (if wifi {
                s@.map_values(|i: NetworkInterfaceSnapshot| is_wifi_link(i))
            } else {
                s@.map_values(|i: NetworkInterfaceSnapshot| is_active(i))
            }),
            forall|j: int| 0 <= j < k ==> !#[trigger] flags[j],
        decreases s.len() - k,
    {
        let i = &s[k];
        let hit = if wifi {
            i.connected && i.kind == NetworkKind::Wifi
        } else {
            i.connected || i.received_bps > 0 || i.transmitted_bps > 0
        };
        if hit {
            proof {
                lemma_first_true(flags, k as int);
            }
            return Some(k);
        }
        k = k + 1;
    }
    proof {
        lemma_first_true(flags, k as int);
    }
    None
}

/// Merges the Wi-Fi service's reports into the adapter list, marks the primary adapter
/// and orders the list: each report updates the first adapter whose name matches it
/// (see `iface_matches`) or is added as a new Wi-Fi adapter; then the first connected
/// Wi-Fi adapter, else the first active one, becomes primary; then the list is sorted
/// stably by `iface_key`.
pub fn apply_wifi_metadata(network: &mut NetworkSnapshot, wifi_interfaces: Vec<WifiInterfaceMetadata>)
    requires
        forall|k: int|
            0 <= k < old(network).interfaces@.len() ==> traffic_fits(
                #[trigger] old(network).interfaces@[k],
            ),
    ensures
        final(network).received_bps == old(network).received_bps,
        final(network).transmitted_bps == old(network).transmitted_bps,
        stably_sorted_by(
            final(network).interfaces@,
            mark_primary(merge_all(old(network).interfaces@, wifi_interfaces@)),
            |i: NetworkInterfaceSnapshot| iface_key(i),
        ),
        forall|i: int, j: int|
            0 <= i < j < final(network).interfaces@.len() ==> {
                &&& (#[trigger] final(network).interfaces@[j]).is_primary ==> (
                #[trigger] final(network).interfaces@[i]).is_primary
                &&& final(network).interfaces@[i].is_primary
                    == final(network).interfaces@[j].is_primary
                    ==> final(network).interfaces@[i].received_bps
                    + final(network).interfaces@[i].transmitted_bps
                    >= final(network).interfaces@[j].received_bps
                    + final(network).interfaces@[j].transmitted_bps
            },
{
    let ghost target = merge_all(network.interfaces@, wifi_interfaces@);
    let mut remaining = wifi_interfaces;
    while remaining.len() > 0
        invariant
            merge_all(network.interfaces@, remaining@) == target,
            forall|k: int|
                0 <= k < network.interfaces@.len() ==> traffic_fits(
                    #[trigger] network.interfaces@[k],
                ),
            network.received_bps == old(network).received_bps,
            network.transmitted_bps == old(network).transmitted_bps,
        decreases remaining.len(),
    {
        let ghost before = network.interfaces@;
        let ghost rest = remaining@;
        let m = remaining.remove(0);
        assert(rest.drop_first() =~= remaining@);
        let w = normalized_chars(m.interface_name.as_str());
        let WifiInterfaceMetadata {
            interface_name,
            connected,
            current_network,
            signal_percent,
            available_networks,
        } = m;
        match first_matching(&network.interfaces, &w) {
            Some(k) => {
                let mut iface = network.interfaces.remove(k);
                iface.kind = NetworkKind::Wifi;
                iface.connected = connected || iface.connected;
                iface.detail_name = current_network;
                iface.signal_percent = signal_percent;
                iface.available_networks = available_networks;
                iface.description = interface_name;
                network.interfaces.insert(k, iface);
                assert(network.interfaces@ =~= merge_one(before, m));
            },
            None => {
                let name = interface_name.clone();
                network.interfaces.push(
                    NetworkInterfaceSnapshot {
                        name,
                        description: interface_name,
                        kind: NetworkKind::Wifi,
                        connected,
                        is_primary: false,
                        detail_name: current_network,
                        signal_percent,
                        received_bps: 0,
                        transmitted_bps: 0,
                        available_networks,
                    },
                );
                assert(network.interfaces@ =~= merge_one(before, m));
            },
        }
    }
    assert(merge_all(network.interfaces@, remaining@) == network.interfaces@);
    let ghost merged = network.interfaces@;
    let choice = match first_flagged(&network.interfaces, true) {
        Some(k) => Some(k),
        None => first_flagged(&network.interfaces, false),
    };
    if let Some(k) = choice {
        let mut iface = network.interfaces.remove(k);
        iface.is_primary = true;
        network.interfaces.insert(k, iface);
    }
    assert(network.interfaces@ =~= mark_primary(merged));
    let mut ifaces: Vec<NetworkInterfaceSnapshot> = Vec::new();
    std::mem::swap(&mut ifaces, &mut network.interfaces);
    let mut keys: Vec<Vec<u64>> = Vec::new();
    let mut j: usize = 0;
    while j < ifaces.len()
        invariant
            j <= ifaces.len(),
            keys.len() == j,
            forall|k: int| 0 <= k < ifaces@.len() ==> traffic_fits(#[trigger] ifaces@[k]),
            forall|k: int| 0 <= k < j ==> #[trigger] keys@[k]@ == iface_key(ifaces@[k]),
        decreases ifaces.len() - j,
    {
        keys.push(interface_key(&ifaces[j]));
        j = j + 1;
    }
    let ghost o = ifaces@;
    network.interfaces = sort_by_keys(ifaces, keys, Ghost(|i: NetworkInterfaceSnapshot| iface_key(i)));
    proof {
        lemma_primary_then_busiest(network.interfaces@, o);
    }
}

// ---------------------------------------------------------------------------
// Adapters from traffic counters
// ---------------------------------------------------------------------------

/// One adapter's traffic rates, as sampled from the system's counters.
#[derive(Debug, Clone)]
pub struct InterfaceTraffic {
    pub name: String,
    pub received_bps: u64,
    pub transmitted_bps: u64,
}

/// The adapter entry made from a traffic sample, before any Wi-Fi details: named after
/// itself, its kind guessed from the name, connected when it moves traffic.
pub open spec fn from_traffic(i: NetworkInterfaceSnapshot, t: InterfaceTraffic) -> bool {
    &&& i.name == t.name
    &&& i.description == t.name
    &&& i.kind == kind_from_name(t.name@)
    &&& i.connected == (t.received_bps > 0 || t.transmitted_bps > 0)
    &&& !i.is_primary
    &&& i.detail_name is None
    &&& i.signal_percent is None
    &&& i.received_bps == t.received_bps
    &&& i.transmitted_bps == t.transmitted_bps
    &&& i.available_networks@.len() == 0
}

/// `o` holds one adapter entry per traffic sample, in order.
pub open spec fn traffic_entries(o: Seq<NetworkInterfaceSnapshot>, ts: Seq<InterfaceTraffic>) -> bool {
    &&& o.len() == ts.len()
    &&& forall|k: int| 0 <= k < o.len() ==> from_traffic(#[trigger] o[k], ts[k])
}

/// The order of adapters by traffic alone: the busiest first.
pub open spec fn traffic_key(i: NetworkInterfaceSnapshot) -> Seq<u64> {
    seq![(u64::MAX - (i.received_bps + i.transmitted_bps)) as u64]
}

pub open spec fn sum_received(ts: Seq<InterfaceTraffic>) -> nat
    decreases ts.len(),
{
    if ts.len() == 0 {
        0
    } else {
        sum_received(ts.drop_last()) + ts.last().received_bps as nat
    }
}

pub open spec fn sum_transmitted(ts: Seq<InterfaceTraffic>) -> nat
    decreases ts.len(),
{
    if ts.len() == 0 {
        0
    } else {
        sum_transmitted(ts.drop_last()) + ts.last().transmitted_bps as nat
    }
}

proof fn lemma_sums_monotone(ts: Seq<InterfaceTraffic>, k: int)
    requires
        0 <= k <= ts.len(),
    ensures
        sum_received(ts.take(k)) <= sum_received(ts),
        sum_transmitted(ts.take(k)) <= sum_transmitted(ts),
    decreases ts.len() - k,
{
    if k < ts.len() {
        lemma_sums_monotone(ts, k + 1);
        assert(ts.take(k + 1).drop_last() =~= ts.take(k));
    } else {
        assert(ts.take(k) =~= ts);
    }
}

/// The network snapshot for a set of traffic samples: the totals over all adapters, and
/// one entry per sample (see `from_traffic`), busiest first, ties in sample order.
pub fn network_from_samples(samples: Vec<InterfaceTraffic>) -> (r: NetworkSnapshot)
    requires
        sum_received(samples@) <= u64::MAX,
        sum_transmitted(samples@) <= u64::MAX,
        forall|k: int|
            0 <= k < samples@.len() ==> #[trigger] samples@[k].received_bps
                + samples@[k].transmitted_bps <= u64::MAX,
    ensures
        r.received_bps == sum_received(samples@),
        r.transmitted_bps == sum_transmitted(samples@),
        exists|o: Seq<NetworkInterfaceSnapshot>|
            #[trigger] traffic_entries(o, samples@) && stably_sorted_by(
                r.interfaces@,
                o,
                |i: NetworkInterfaceSnapshot| traffic_key(i),
            ),
        forall|i: int, j: int|
            0 <= i < j < r.interfaces@.len() ==> (#[trigger] r.interfaces@[i]).received_bps
                + r.interfaces@[i].transmitted_bps >= (#[trigger] r.interfaces@[j]).received_bps
                + r.interfaces@[j].transmitted_bps,
{
    let ghost ts = samples@;
    let mut received: u64 = 0;
    let mut transmitted: u64 = 0;
    let mut ifaces: Vec<NetworkInterfaceSnapshot> = Vec::new();
    let mut keys: Vec<Vec<u64>> = Vec::new();
    let mut i: usize = 0;
    while i < samples.len()
        invariant
            i <= samples.len(),
            ts == samples@,
            sum_received(ts) <= u64::MAX,
            sum_transmitted(ts) <= u64::MAX,
            forall|k: int|
                0 <= k < ts.len() ==> #[trigger] ts[k].received_bps + ts[k].transmitted_bps
                    <= u64::MAX,
            received == sum_received(ts.take(i as int)),
            transmitted == sum_transmitted(ts.take(i as int)),
            ifaces.len() == i,
            keys.len() == i,
            forall|k: int| 0 <= k < i ==> from_traffic(#[trigger] ifaces@[k], ts[k]),
            forall|k: int| 0 <= k < i ==> #[trigger] keys@[k]@ == traffic_key(ifaces@[k]),
        decreases samples.len() - i,
    {
        let t = &samples[i];
        proof {
            lemma_sums_monotone(ts, i + 1);
            assert(ts.take(i + 1).drop_last() =~= ts.take(i as int));
        }
        received = received + t.received_bps;
        transmitted = transmitted + t.transmitted_bps;
        let iface = NetworkInterfaceSnapshot {
            name: t.name.clone(),
            description: t.name.clone(),
            kind: infer_network_kind(t.name.as_str()),
            connected: t.received_bps > 0 || t.transmitted_bps > 0,
            is_primary: false,
            detail_name: None,
            signal_percent: None,
            received_bps: t.received_bps,
            transmitted_bps: t.transmitted_bps,
            available_networks: Vec::new(),
        };
        let mut key: Vec<u64> = Vec::new();
        key.push(u64::MAX - (t.received_bps + t.transmitted_bps));
        assert(key@ =~= traffic_key(iface));
        ifaces.push(iface);
        keys.push(key);
        i = i + 1;
    }
    assert(ts.take(i as int) =~= ts);
    let ghost o = ifaces@;
    assert(traffic_entries(o, ts));
    let sorted = sort_by_keys(ifaces, keys, Ghost(|i: NetworkInterfaceSnapshot| traffic_key(i)));
    proof {
        assert forall|k: int| 0 <= k < o.len() implies traffic_fits(#[trigger] o[k]) by {
            assert(from_traffic(o[k], ts[k]));
        }
        lemma_busiest_first(sorted@, o);
    }
    NetworkSnapshot { received_bps: received, transmitted_bps: transmitted, interfaces: sorted }
}

// ---------------------------------------------------------------------------
// A Wi-Fi adapter's scan
// ---------------------------------------------------------------------------

/// One network in a Wi-Fi scan, as the WLAN service lists it.
#[derive(Debug, Clone)]
pub struct WifiScanEntry {
    /// The SSID buffer; its first `ssid_length` bytes are the name.
    pub ssid: Vec<u8>,
    pub ssid_length: u32,
    pub connected: bool,
    pub secure: bool,
    /// Whether a profile is saved for the network.
    pub saved: bool,
    pub signal_quality: u32,
}

/// The name of a scanned network.
pub open spec fn ssid_text(e: WifiScanEntry) -> Seq<char> {
    trim(utf8_lossy(e.ssid@.take(if e.ssid_length as int <= e.ssid@.len() {
        e.ssid_length as int
    } else {
        e.ssid@.len() as int
    })))
}

/// The scanned networks that have a name.
pub open spec fn named_entries(es: Seq<WifiScanEntry>) -> Seq<WifiScanEntry>
    decreases es.len(),
{
    if es.len() == 0 {
        es
    } else if ssid_text(es.last()).len() > 0 {
        named_entries(es.drop_last()).push(es.last())
    } else {
        named_entries(es.drop_last())
    }
}

/// The last of `es` that is connected.
pub open spec fn last_connected(es: Seq<WifiScanEntry>) -> Option<WifiScanEntry>
    decreases es.len(),
{
    if es.len() == 0 {
        None
    } else if es.last().connected {
        Some(es.last())
    } else {
        last_connected(es.drop_last())
    }
}

/// A listed network made from a scan entry.
pub open spec fn network_from_entry(n: AvailableNetworkSnapshot, e: WifiScanEntry) -> bool {
    &&& n.ssid@ == ssid_text(e)
    &&& n.connected == e.connected
    &&& n.secure == e.secure
    &&& n.saved == e.saved
    &&& n.signal_percent == e.signal_quality
}

/// `o` holds one listed network per scan entry, in order.
pub open spec fn scan_entries(o: Seq<AvailableNetworkSnapshot>, es: Seq<WifiScanEntry>) -> bool {
    &&& o.len() == es.len()
    &&& forall|k: int| 0 <= k < o.len() ==> network_from_entry(#[trigger] o[k], es[k])
}

/// The order of a scan: the connected network first, then by signal, strongest first,
/// then by name.
pub open spec fn network_key(n: AvailableNetworkSnapshot) -> Seq<u64> {
    seq![
        if n.connected {
            0u64
        } else {
            1u64
        },
        (u64::MAX - n.signal_percent) as u64,
    ] + char_codes(n.ssid@)
}

fn network_key_of(n: &AvailableNetworkSnapshot) -> (r: Vec<u64>)
    ensures
        r@ == network_key(*n),
{
    let mut k: Vec<u64> = Vec::new();
    k.push(if n.connected { 0 } else { 1 });
    k.push(u64::MAX - n.signal_percent as u64);
    push_char_codes(&mut k, n.ssid.as_str());
    assert(k@ =~= network_key(*n));
    k
}

/// What the scan of a Wi-Fi adapter says: its name (from its description), the network
/// it is connected to and that network's signal (the last connected entry), and the
/// named networks it sees, ordered by `network_key`, ties in scan order.
pub fn snapshot_wifi_interface(description: &[u16], scan: &Vec<WifiScanEntry>) -> (r: WifiInterfaceMetadata)
    ensures
        r.interface_name@ == utf16_text(description@),
        r.connected == (last_connected(named_entries(scan@)) is Some),
        match (r.current_network, last_connected(named_entries(scan@))) {
            (Some(n), Some(e)) => n@ == ssid_text(e) && r.signal_percent == Some(e.signal_quality),
            (None, None) => r.signal_percent is None,
            _ => false,
        },
        exists|o: Seq<AvailableNetworkSnapshot>|
            #[trigger] scan_entries(o, named_entries(scan@)) && stably_sorted_by(
                r.available_networks@,
                o,
                |n: AvailableNetworkSnapshot| network_key(n),
            ),
        exists|p: Seq<int>| #[trigger] lists_scan(r.available_networks@, named_entries(scan@), p),
        forall|a: int, b: int|
            0 <= a < b < r.available_networks@.len() ==> {
                &&& (#[trigger] r.available_networks@[b]).connected ==> (
                #[trigger] r.available_networks@[a]).connected
                &&& r.available_networks@[a].connected == r.available_networks@[b].connected
                    ==> r.available_networks@[a].signal_percent
                    >= r.available_networks@[b].signal_percent
            },
{
    let ghost es = scan@;
    let mut networks: Vec<AvailableNetworkSnapshot> = Vec::new();
    let mut keys: Vec<Vec<u64>> = Vec::new();
    let mut current_network: Option<String> = None;
    let mut signal_percent: Option<u32> = None;
    let mut i: usize = 0;
    while i < scan.len()
        invariant
            i <= scan.len(),
            es == scan@,
            networks.len() == named_entries(es.take(i as int)).len(),
            keys.len() == networks.len(),
            forall|k: int|
                0 <= k < networks.len() ==> network_from_entry(
                    #[trigger] networks@[k],
                    named_entries(es.take(i as int))[k],
                ),
            forall|k: int| 0 <= k < networks.len() ==> #[trigger] keys@[k]@ == network_key(networks@[k]),
            match (current_network, last_connected(named_entries(es.take(i as int)))) {
                (Some(n), Some(e)) => n@ == ssid_text(e) && signal_percent == Some(e.signal_quality),
                (None, None) => signal_percent is None,
                _ => false,
            },
        decreases scan.len() - i,
    {
        let e = &scan[i];
        let ghost prev = named_entries(es.take(i as int));
        assert(es.take(i + 1).drop_last() =~= es.take(i as int));
        assert(es.take(i + 1).last() == es[i as int]);
        let ssid = dot11_ssid_to_string(e.ssid.as_slice(), e.ssid_length);
        if ssid.as_str().unicode_len() != 0 {
            assert(named_entries(es.take(i + 1)) == prev.push(es[i as int]));
            assert(last_connected(prev.push(es[i as int])) == if es[i as int].connected {
                Some(es[i as int])
            } else {
                last_connected(prev)
            }) by {
                assert(prev.push(es[i as int]).drop_last() =~= prev);
            }
            if e.connected {
                current_network = Some(ssid.clone());
                signal_percent = Some(e.signal_quality);
            }
            let n = AvailableNetworkSnapshot {
                ssid,
                connected: e.connected,
                secure: e.secure,
                saved: e.saved,
                signal_percent: e.signal_quality,
            };
            let key = network_key_of(&n);
            networks.push(n);
            keys.push(key);
        }
        i = i + 1;
    }
    assert(es.take(i as int) =~= es);
    assert(scan_entries(networks@, named_entries(es)));
    let ghost o = networks@;
    let sorted = sort_by_keys(networks, keys, Ghost(|n: AvailableNetworkSnapshot| network_key(n)));
    proof {
        lemma_scan_listing(sorted@, o, named_entries(es));
    }
    WifiInterfaceMetadata {
        interface_name: utf16_to_string(description),
        connected: current_network.is_some(),
        current_network,
        signal_percent,
        available_networks: sorted,
    }
}

// ---------------------------------------------------------------------------
// The primary adapter
// ---------------------------------------------------------------------------

pub proof fn lemma_first_true_bounds(flags: Seq<bool>)
    ensures
        first_true(flags) matches Some(k) ==> 0 <= k < flags.len() && flags[k],
    decreases flags.len(),
{
    if flags.len() > 0 && !flags[0] {
        lemma_first_true_bounds(flags.drop_first());
    }
}

pub open spec fn none_primary(s: Seq<NetworkInterfaceSnapshot>) -> bool {
    forall|k: int| 0 <= k < s.len() ==> !(#[trigger] s[k]).is_primary
}

proof fn lemma_merge_keeps_none_primary(s: Seq<NetworkInterfaceSnapshot>, ms: Seq<WifiInterfaceMetadata>)
    requires
        none_primary(s),
    ensures
        none_primary(merge_all(s, ms)),
    decreases ms.len(),
{
    if ms.len() > 0 {
        let t = merge_one(s, ms[0]);
        lemma_first_true_bounds(
            s.map_values(|i: NetworkInterfaceSnapshot| iface_matches(i, normalized(ms[0].interface_name@))),
        );
        assert(none_primary(t));
        lemma_merge_keeps_none_primary(t, ms.drop_first());
    }
}

/// After the Wi-Fi reports are merged into a list without a primary adapter, at most
/// one adapter is primary, and it comes first.
pub proof fn lemma_primary_first(
    before: Seq<NetworkInterfaceSnapshot>,
    wifi: Seq<WifiInterfaceMetadata>,
    after: Seq<NetworkInterfaceSnapshot>,
)
    requires
        none_primary(before),
        stably_sorted_by(
            after,
            mark_primary(merge_all(before, wifi)),
            |i: NetworkInterfaceSnapshot| iface_key(i),
        ),
    ensures
        forall|a: int, b: int|
            0 <= a < b < after.len() && (#[trigger] after[a]).is_primary ==> !(#[trigger] after[b]).is_primary,
        forall|k: int| 0 <= k < after.len() && (#[trigger] after[k]).is_primary ==> k == 0,
{
    let merged = merge_all(before, wifi);
    lemma_merge_keeps_none_primary(before, wifi);
    let o = mark_primary(merged);
    let key = |i: NetworkInterfaceSnapshot| iface_key(i);
    let p = choose|p: Seq<int>| crate::sort::stable_perm_by(p, after, o, key);
    // in o, only the chosen adapter is primary
    lemma_first_true_bounds(merged.map_values(|i: NetworkInterfaceSnapshot| is_wifi_link(i)));
    lemma_first_true_bounds(merged.map_values(|i: NetworkInterfaceSnapshot| is_active(i)));
    assert forall|a: int, b: int|
        0 <= a < b < o.len() && o[a].is_primary implies !o[b].is_primary by {}
    assert forall|k: int| 0 <= k < after.len() && (#[trigger] after[k]).is_primary implies k == 0 by {
        if k > 0 {
            let x = after[0];
            let y = after[k];
            assert(y == o[p[k]]);
            assert(x == o[p[0]]);
            assert(p[0] != p[k]);
            assert(!x.is_primary) by {
                if x.is_primary {
                    if p[0] < p[k] {
                        assert(!o[p[k]].is_primary);
                    } else {
                        assert(!o[p[0]].is_primary);
                    }
                }
            }
            // the primary key starts with 0, any other with 1: y sorts before x
            assert(iface_key(y)[0] == 0u64);
            assert(iface_key(x)[0] == 1u64);
            assert(crate::sort::key_lt(iface_key(y), iface_key(x)));
            assert(!crate::sort::key_lt(key(after[k]), key(after[0])));
        }
    }
}

// ---------------------------------------------------------------------------
// The orders, over the fields
// ---------------------------------------------------------------------------

proof fn lemma_key_lt_single(x: u64, y: u64)
    ensures
        key_lt(seq![x], seq![y]) == (x < y),
{
    reveal_with_fuel(key_lt, 2);
    assert(seq![x].drop_first() =~= Seq::<u64>::empty());
    assert(seq![y].drop_first() =~= Seq::<u64>::empty());
}

proof fn lemma_key_lt_pair(x0: u64, x1: u64, a: Seq<u64>, y0: u64, y1: u64, b: Seq<u64>)
    ensures
        key_lt(seq![x0, x1] + a, seq![y0, y1] + b) == (x0 < y0 || (x0 == y0 && (x1 < y1 || (x1
            == y1 && key_lt(a, b))))),
{
    reveal_with_fuel(key_lt, 3);
    let l = seq![x0, x1] + a;
    let r = seq![y0, y1] + b;
    assert(l[0] == x0);
    assert(r[0] == y0);
    let l1 = l.drop_first();
    let r1 = r.drop_first();
    assert(l1 =~= seq![x1] + a);
    assert(r1 =~= seq![y1] + b);
    assert(l1[0] == x1);
    assert(r1[0] == y1);
    assert(l1.drop_first() =~= a);
    assert(r1.drop_first() =~= b);
}

/// Ordered by `traffic_key`, adapters come busiest first: no adapter moves more bytes
/// in total than one before it.
pub proof fn lemma_busiest_first(r: Seq<NetworkInterfaceSnapshot>, o: Seq<NetworkInterfaceSnapshot>)
    requires
        stably_sorted_by(r, o, |i: NetworkInterfaceSnapshot| traffic_key(i)),
        forall|k: int| 0 <= k < o.len() ==> traffic_fits(#[trigger] o[k]),
    ensures
        forall|i: int, j: int|
            0 <= i < j < r.len() ==> (#[trigger] r[i]).received_bps + r[i].transmitted_bps >= (
            #[trigger] r[j]).received_bps + r[j].transmitted_bps,
{
    let key = |i: NetworkInterfaceSnapshot| traffic_key(i);
    let p = choose|p: Seq<int>| stable_perm_by(p, r, o, key);
    assert forall|i: int, j: int| 0 <= i < j < r.len() implies (#[trigger] r[i]).received_bps
        + r[i].transmitted_bps >= (#[trigger] r[j]).received_bps + r[j].transmitted_bps by {
        assert(r[i] == o[p[i]]);
        assert(r[j] == o[p[j]]);
        assert(traffic_fits(o[p[i]]));
        assert(traffic_fits(o[p[j]]));
        assert(!key_lt(key(r[j]), key(r[i])));
        lemma_key_lt_single(
            (u64::MAX - (r[j].received_bps + r[j].transmitted_bps)) as u64,
            (u64::MAX - (r[i].received_bps + r[i].transmitted_bps)) as u64,
        );
    }
}

/// Ordered by `iface_key`, the primary adapters come first; among adapters that are
/// both primary or both not, no adapter moves more bytes in total than one before it,
/// and equal totals are in order of name.
pub proof fn lemma_primary_then_busiest(r: Seq<NetworkInterfaceSnapshot>, o: Seq<NetworkInterfaceSnapshot>)
    requires
        stably_sorted_by(r, o, |i: NetworkInterfaceSnapshot| iface_key(i)),
        forall|k: int| 0 <= k < o.len() ==> traffic_fits(#[trigger] o[k]),
    ensures
        forall|i: int, j: int|
            0 <= i < j < r.len() ==> {
                &&& (#[trigger] r[j]).is_primary ==> (#[trigger] r[i]).is_primary
                &&& r[i].is_primary == r[j].is_primary ==> r[i].received_bps + r[i].transmitted_bps
                    >= r[j].received_bps + r[j].transmitted_bps
                &&& r[i].is_primary == r[j].is_primary && r[i].received_bps + r[i].transmitted_bps
                    == r[j].received_bps + r[j].transmitted_bps ==> !key_lt(
                    char_codes(r[j].name@),
                    char_codes(r[i].name@),
                )
            },
{
    let key = |i: NetworkInterfaceSnapshot| iface_key(i);
    let p = choose|p: Seq<int>| stable_perm_by(p, r, o, key);
    assert forall|i: int, j: int| 0 <= i < j < r.len() implies {
        &&& (#[trigger] r[j]).is_primary ==> (#[trigger] r[i]).is_primary
        &&& r[i].is_primary == r[j].is_primary ==> r[i].received_bps + r[i].transmitted_bps
            >= r[j].received_bps + r[j].transmitted_bps
        &&& r[i].is_primary == r[j].is_primary && r[i].received_bps + r[i].transmitted_bps
            == r[j].received_bps + r[j].transmitted_bps ==> !key_lt(
            char_codes(r[j].name@),
            char_codes(r[i].name@),
        )
    } by {
        assert(r[i] == o[p[i]]);
        assert(r[j] == o[p[j]]);
        assert(traffic_fits(o[p[i]]));
        assert(traffic_fits(o[p[j]]));
        assert(!key_lt(key(r[j]), key(r[i])));
        lemma_key_lt_pair(
            if r[j].is_primary { 0u64 } else { 1u64 },
            (u64::MAX - (r[j].received_bps + r[j].transmitted_bps)) as u64,
            char_codes(r[j].name@),
            if r[i].is_primary { 0u64 } else { 1u64 },
            (u64::MAX - (r[i].received_bps + r[i].transmitted_bps)) as u64,
            char_codes(r[i].name@),
        );
    }
}

/// `p` pairs the listing `r` one to one with the scan entries `es`, and each listed
/// network carries the name, connection, security, saved profile and signal of its
/// entry.
pub open spec fn lists_scan(r: Seq<AvailableNetworkSnapshot>, es: Seq<WifiScanEntry>, p: Seq<int>) -> bool {
    &&& p.len() == r.len() == es.len()
    &&& forall|k: int| 0 <= k < p.len() ==> 0 <= #[trigger] p[k] < es.len()
    &&& forall|a: int, b: int| 0 <= a < b < p.len() ==> p[a] != p[b]
    &&& forall|k: int|
        0 <= k < r.len() ==> {
            &&& (#[trigger] r[k]).ssid@ == ssid_text(es[p[k]])
            &&& r[k].connected == es[p[k]].connected
            &&& r[k].secure == es[p[k]].secure
            &&& r[k].saved == es[p[k]].saved
            &&& r[k].signal_percent == es[p[k]].signal_quality
        }
}

/// A scan listing, ordered by `network_key`, holds each named scan entry once, with the
/// entry's name, connection, security, saved profile and signal; connected networks
/// come first, then the strongest signal.
pub proof fn lemma_scan_listing(
    r: Seq<AvailableNetworkSnapshot>,
    o: Seq<AvailableNetworkSnapshot>,
    es: Seq<WifiScanEntry>,
)
    requires
        scan_entries(o, es),
        stably_sorted_by(r, o, |n: AvailableNetworkSnapshot| network_key(n)),
    ensures
        exists|p: Seq<int>| #[trigger] lists_scan(r, es, p),
        forall|a: int, b: int|
            0 <= a < b < r.len() ==> {
                &&& (#[trigger] r[b]).connected ==> (#[trigger] r[a]).connected
                &&& r[a].connected == r[b].connected ==> r[a].signal_percent >= r[b].signal_percent
            },
{
    let key = |n: AvailableNetworkSnapshot| network_key(n);
    let p = choose|p: Seq<int>| stable_perm_by(p, r, o, key);
    assert forall|k: int| 0 <= k < r.len() implies {
        &&& (#[trigger] r[k]).ssid@ == ssid_text(es[p[k]])
        &&& r[k].connected == es[p[k]].connected
        &&& r[k].secure == es[p[k]].secure
        &&& r[k].saved == es[p[k]].saved
        &&& r[k].signal_percent == es[p[k]].signal_quality
    } by {
        assert(r[k] == o[p[k]]);
        assert(network_from_entry(o[p[k]], es[p[k]]));
    }
    assert(lists_scan(r, es, p));
    assert forall|a: int, b: int| 0 <= a < b < r.len() implies {
        &&& (#[trigger] r[b]).connected ==> (#[trigger] r[a]).connected
        &&& r[a].connected == r[b].connected ==> r[a].signal_percent >= r[b].signal_percent
    } by {
        assert(!key_lt(key(r[b]), key(r[a])));
        lemma_key_lt_pair(
            if r[b].connected { 0u64 } else { 1u64 },
            (u64::MAX - r[b].signal_percent) as u64,
            char_codes(r[b].ssid@),
            if r[a].connected { 0u64 } else { 1u64 },
            (u64::MAX - r[a].signal_percent) as u64,
            char_codes(r[a].ssid@),
        );
    }
}

} // verus!
