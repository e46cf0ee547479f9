use rebar::text::trimmed;
use rebar::encoding::{dot11_ssid_to_string, dxgi_description_to_string, utf16_bytes, utf16_to_string, wide_null};

#[test]
fn wide_strings_end_with_zero() {
    assert_eq!(wide_null("open"), vec![0x6f, 0x70, 0x65, 0x6e, 0]);
    assert_eq!(wide_null(""), vec![0]);
    let text = "ms-settings:é😀";
    let mut expected: Vec<u16> = text.encode_utf16().collect();
    expected.push(0);
    assert_eq!(wide_null(text), expected);
}

#[test]
fn registry_bytes_are_little_endian() {
    assert_eq!(utf16_bytes("A"), vec![0x41, 0, 0, 0]);
    let text = "\"C:\\Apps\\rebar.exe\" --config \"C:\\rebar.toml\" --background ✓😀";
    let expected: Vec<u8> = text
        .encode_utf16()
        .chain(Some(0))
        .flat_map(|unit| unit.to_le_bytes())
        .collect();
    assert_eq!(utf16_bytes(text), expected);
}

#[test]
fn utf16_buffers_stop_at_zero_and_are_trimmed() {
    let mut buffer = [0u16; 16];
    for (slot, unit) in buffer.iter_mut().zip("  Intel Wi-Fi ".encode_utf16()) {
        *slot = unit;
    }
    assert_eq!(utf16_to_string(&buffer), "Intel Wi-Fi");
    assert_eq!(dxgi_description_to_string(&buffer), "Intel Wi-Fi");
    assert_eq!(utf16_to_string(&[0x41, 0x42]), "AB");
    assert_eq!(utf16_to_string(&[]), "");
}

#[test]
fn utf16_decoding_replaces_lone_surrogates() {
    let cases: Vec<Vec<u16>> = vec![
        vec![0xd83d, 0xde00, 0x41],
        vec![0xd83d, 0x41],
        vec![0xde00, 0x41, 0xd800],
        vec![0xd800, 0xd800, 0xdc00],
        vec![0x20, 0xfeff, 0x3000, 0x42, 0x2028],
    ];
    for units in cases {
        assert_eq!(utf16_to_string(&units), String::from_utf16_lossy(&units).trim());
    }
}

#[test]
fn ssids() {
    let mut raw = [0u8; 32];
    raw[..9].copy_from_slice(b" HomeNet ");
    assert_eq!(dot11_ssid_to_string(&raw, 9), "HomeNet");
    assert_eq!(dot11_ssid_to_string(&raw, 5), "Home");
    assert_eq!(
        dot11_ssid_to_string(&raw, 400),
        String::from_utf8_lossy(&raw).trim().to_string()
    );
    assert_eq!(dot11_ssid_to_string(&[0xff, 0x41], 2), "\u{fffd}A");
    assert_eq!(dot11_ssid_to_string(&raw, 0), "");
}

#[test]
fn trimming_follows_str_trim() {
    for text in ["  a b  ", "\u{3000}x\u{2028}", "", "   ", "\tline\r\n", "\u{85}é\u{a0}"] {
        assert_eq!(trimmed(text), text.trim());
    }
}
