use net_combiner::platform::Platform;
use net_combiner::tray::{
    create_tray_icon, fill_wide_array, icon_from_pixels, icon_planes, is_supported, labels,
    load_failed_message, load_icon_data, menu_event, menu_names, named_menu_event, tray_icon_size, wide_null,
    window_reaction, IconImage, TrayEvent, TrayLanguage, WindowReaction, ID_CONNECTIONS,
    ID_OPTIONS, ID_QUIT, ID_SHOW, WM_CLOSE, WM_COMMAND, WM_DESTROY, WM_LBUTTONDBLCLK,
    WM_LBUTTONUP, WM_RBUTTONUP, WM_TRAY, WM_TRAY_LANGUAGE, WM_TRAY_SHUTDOWN,
};

#[test]
fn tray_is_supported_on_two_systems() {
    assert!(is_supported(Platform::Windows));
    assert!(is_supported(Platform::MacOs));
    assert!(!is_supported(Platform::Linux));
    assert!(!is_supported(Platform::Other));
}

#[test]
fn tray_labels() {
    let english = labels(TrayLanguage::English);
    assert_eq!(english.tooltip, "net-combiner");
    assert_eq!(english.connections, "Connection activity");
    assert_ne!(labels(TrayLanguage::Korean).quit, english.quit);
}

#[test]
fn menu_entries_have_meanings() {
    assert_eq!(menu_event(ID_SHOW), Some(TrayEvent::ShowMain));
    assert_eq!(menu_event(ID_CONNECTIONS), Some(TrayEvent::OpenConnections));
    assert_eq!(menu_event(ID_OPTIONS), Some(TrayEvent::OpenOptions));
    assert_eq!(menu_event(ID_QUIT), Some(TrayEvent::Quit));
    assert_eq!(menu_event(0), None);
    let names = menu_names();
    assert_eq!(named_menu_event(names.show), Some(TrayEvent::ShowMain));
    assert_eq!(named_menu_event(names.connections), Some(TrayEvent::OpenConnections));
    assert_eq!(named_menu_event(names.options), Some(TrayEvent::OpenOptions));
    assert_eq!(named_menu_event(names.quit), Some(TrayEvent::Quit));
    assert_eq!(named_menu_event("other"), None);
}

#[test]
fn window_messages_have_reactions() {
    for (msg, mouse, command, reaction) in [
        (WM_TRAY, WM_LBUTTONUP, 0, WindowReaction::Emit(TrayEvent::ShowMain)),
        (WM_TRAY, WM_LBUTTONDBLCLK, 0, WindowReaction::Emit(TrayEvent::ShowMain)),
        (WM_TRAY, WM_RBUTTONUP, 0, WindowReaction::ShowMenu),
        (WM_TRAY, 0x0200, ID_QUIT, WindowReaction::Ignore),
        (WM_COMMAND, 0, ID_QUIT, WindowReaction::Emit(TrayEvent::Quit)),
        (WM_COMMAND, 0, 7, WindowReaction::Ignore),
        (WM_TRAY_SHUTDOWN, 0, 0, WindowReaction::DestroyWindow),
        (WM_CLOSE, 0, 0, WindowReaction::DestroyWindow),
        (WM_DESTROY, 0, 0, WindowReaction::Cleanup),
        (WM_TRAY_LANGUAGE, 0, 0, WindowReaction::PassOn),
    ] {
        assert_eq!(window_reaction(msg, mouse, command), reaction);
    }
}

#[test]
fn wide_texts() {
    for text in ["", "net-combiner", "\u{c5f4}\u{ae30}", "a\u{1f319}b"] {
        let mut expected: Vec<u16> = text.encode_utf16().collect();
        expected.push(0);
        assert_eq!(wide_null(text), expected);
    }
    let mut target = [9u16; 4];
    fill_wide_array(&mut target, "abcdef");
    assert_eq!(target, ['a' as u16, 'b' as u16, 'c' as u16, 9]);
    let mut short = [9u16; 4];
    fill_wide_array(&mut short, "a");
    assert_eq!(short, ['a' as u16, 9, 9, 9]);
    let mut empty: [u16; 0] = [];
    fill_wide_array(&mut empty, "a");
    assert!(empty.is_empty());
}

#[test]
fn icon_has_a_least_size() {
    assert_eq!(tray_icon_size(0, 0), 16);
    assert_eq!(tray_icon_size(-5, 20), 20);
    assert_eq!(tray_icon_size(32, 24), 32);
}

#[test]
fn planes_are_mirrored() {
    let rgba: Vec<u8> = (0..16).collect();
    let planes = icon_planes(&rgba, 2);
    assert_eq!(planes.xor_bits, vec![10, 9, 8, 11, 14, 13, 12, 15, 2, 1, 0, 3, 6, 5, 4, 7]);
    assert_eq!(planes.and_bits, vec![0; 8]);
    assert_eq!(icon_planes(&vec![1; 33 * 33 * 4], 33).and_bits.len(), 8 * 33);
}

fn crc(bytes: &[u8]) -> u32 {
    let mut value: u32 = 0xffff_ffff;
    for byte in bytes {
        value ^= *byte as u32;
        for _ in 0..8 {
            value = if value & 1 == 1 { (value >> 1) ^ 0xedb8_8320 } else { value >> 1 };
        }
    }
    !value
}

fn chunk(name: &[u8], data: &[u8]) -> Vec<u8> {
    let mut body = name.to_vec();
    body.extend_from_slice(data);
    let mut out = (data.len() as u32).to_be_bytes().to_vec();
    out.extend_from_slice(&body);
    out.extend_from_slice(&crc(&body).to_be_bytes());
    out
}

/// A picture file with stored, uncompressed pixels.
fn png(width: u32, height: u32, rgba: &[u8]) -> Vec<u8> {
    let mut raw = Vec::new();
    for line in rgba.chunks(width as usize * 4) {
        raw.push(0);
        raw.extend_from_slice(line);
    }
    let (mut low, mut high): (u32, u32) = (1, 0);
    for byte in &raw {
        low = (low + *byte as u32) % 65521;
        high = (high + low) % 65521;
    }
    let mut data = vec![0x78, 0x01, 0x01];
    data.extend_from_slice(&(raw.len() as u16).to_le_bytes());
    data.extend_from_slice(&(!(raw.len() as u16)).to_le_bytes());
    data.extend_from_slice(&raw);
    data.extend_from_slice(&((high << 16) | low).to_be_bytes());
    let mut header = width.to_be_bytes().to_vec();
    header.extend_from_slice(&height.to_be_bytes());
    header.extend_from_slice(&[8, 6, 0, 0, 0]);
    let mut out = vec![0x89, b'P', b'N', b'G', 0x0d, 0x0a, 0x1a, 0x0a];
    out.extend_from_slice(&chunk(b"IHDR", &header));
    out.extend_from_slice(&chunk(b"IDAT", &data));
    out.extend_from_slice(&chunk(b"IEND", &[]));
    out
}

#[test]
fn pictures_are_read() {
    let rgba: Vec<u8> = (0..24).map(|i| i * 10).collect();
    let icon = load_icon_data(&png(3, 2, &rgba)).expect("a picture");
    assert_eq!((icon.width, icon.height), (3, 2));
    assert_eq!(icon.rgba, rgba);
    assert!(load_icon_data(b"no picture").is_none());
}

#[test]
fn pictures_become_icons() {
    let rgba: Vec<u8> = (0..16).collect();
    let same = create_tray_icon(&png(2, 2, &rgba), 2).expect("an icon");
    assert_eq!(same.xor_bits, icon_planes(&rgba, 2).xor_bits);
    let plain: Vec<u8> = [10, 20, 30, 255].repeat(16);
    let smaller = create_tray_icon(&png(4, 4, &plain), 2).expect("an icon");
    assert_eq!(smaller.xor_bits, [30, 20, 10, 255].repeat(4));
    assert_eq!(smaller.and_bits, vec![0; 8]);
    let larger = create_tray_icon(&png(4, 4, &plain), 16).expect("an icon");
    assert_eq!(larger.xor_bits, [30, 20, 10, 255].repeat(256));
}

#[test]
fn pictures_without_pixels_are_blank() {
    for (width, height) in [(0, 7), (7, 0), (0, 0)] {
        let empty = IconImage { width, height, rgba: vec![] };
        let planes = icon_from_pixels(&empty, 16).expect("an icon");
        assert_eq!(planes.xor_bits, vec![0; 1024]);
        assert_eq!(planes.and_bits, vec![0; 64]);
    }
}

#[test]
fn faulty_pictures_are_refused() {
    let error = create_tray_icon(b"no picture", 16).unwrap_err();
    assert!(error.starts_with("failed to load tray icon: "));
    assert_eq!(load_failed_message("x"), "failed to load tray icon: x");
    let short = IconImage { width: 2, height: 2, rgba: vec![0; 15] };
    assert_eq!(icon_from_pixels(&short, 16).unwrap_err(), "invalid tray icon pixels");
}
