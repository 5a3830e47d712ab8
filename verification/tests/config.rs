use pulp_os::kernel::config::{
    apply_setting, parse_settings_txt, parse_u16, trim, write_settings_txt, SystemSettings,
    WifiConfig, DEFAULT_MAX_FONT_IDX, SETTINGS_FILE, WIFI_PASS_CAP, WIFI_SSID_CAP,
};

fn parsed(text: &[u8]) -> (SystemSettings, WifiConfig) {
    let mut s = SystemSettings::defaults();
    let mut w = WifiConfig::empty();
    parse_settings_txt(text, &mut s, &mut w);
    (s, w)
}

fn written(s: &SystemSettings, w: &WifiConfig) -> Vec<u8> {
    let mut buf = [0u8; 512];
    let n = write_settings_txt(s, w, &mut buf);
    buf[..n].to_vec()
}

#[test]
fn defaults() {
    let s = SystemSettings::defaults();
    assert_eq!(s.sleep_timeout, 10);
    assert_eq!(s.ghost_clear_every, 10);
    assert_eq!(s.book_font_size_idx, 2);
    assert_eq!(s.ui_font_size_idx, 2);
    assert_eq!(SETTINGS_FILE, "SETTINGS.TXT");
    assert_eq!(DEFAULT_MAX_FONT_IDX, 4);
}

#[test]
fn sanitize_brings_values_into_range() {
    let mut s = SystemSettings {
        sleep_timeout: 500,
        ghost_clear_every: 0,
        book_font_size_idx: 9,
        ui_font_size_idx: 5,
    };
    s.sanitize();
    assert_eq!(s.sleep_timeout, 120);
    assert_eq!(s.ghost_clear_every, 1);
    assert_eq!(s.book_font_size_idx, 4);
    assert_eq!(s.ui_font_size_idx, 4);
    s.ghost_clear_every = 99;
    s.sanitize_with_max_font(1);
    assert_eq!(s.ghost_clear_every, 50);
    assert_eq!(s.book_font_size_idx, 1);
    let before = (s.sleep_timeout, s.ghost_clear_every, s.ui_font_size_idx);
    s.sanitize_with_max_font(1);
    assert_eq!(before, (s.sleep_timeout, s.ghost_clear_every, s.ui_font_size_idx));
}

#[test]
fn credentials_are_cut_to_their_room() {
    let mut w = WifiConfig::empty();
    assert!(!w.has_credentials());
    assert_eq!(w.ssid(), "");
    w.set_ssid(&[b's'; 40]);
    w.set_pass(&[b'p'; 80]);
    assert!(w.has_credentials());
    assert_eq!(w.ssid().len(), WIFI_SSID_CAP);
    assert_eq!(w.password().len(), WIFI_PASS_CAP);
    w.set_ssid(b"net");
    assert_eq!(w.ssid(), "net");
    w.set_pass(&[0xFF]);
    assert_eq!(w.password(), "");
}

#[test]
fn trim_takes_blanks_from_both_ends() {
    assert_eq!(trim(b" \t a b\r "), b"a b");
    assert_eq!(trim(b" \r\t "), b"");
    assert_eq!(trim(b"x\n"), b"x\n");
}

#[test]
fn numbers() {
    assert_eq!(parse_u16(b""), None);
    assert_eq!(parse_u16(b"0"), Some(0));
    assert_eq!(parse_u16(b"00042"), Some(42));
    assert_eq!(parse_u16(b"65535"), Some(65535));
    assert_eq!(parse_u16(b"65536"), None);
    assert_eq!(parse_u16(b"12a"), None);
    assert_eq!(parse_u16(b"-1"), None);
}

#[test]
fn settings_by_name() {
    let mut s = SystemSettings::defaults();
    let mut w = WifiConfig::empty();
    apply_setting(b"sleep_timeout", b"33", &mut s, &mut w);
    apply_setting(b"ghost_clear", b"258", &mut s, &mut w);
    apply_setting(b"book_font", b"1", &mut s, &mut w);
    apply_setting(b"ui_font", b"x", &mut s, &mut w);
    apply_setting(b"wifi_ssid", b"home net", &mut s, &mut w);
    apply_setting(b"wifi_pass", b"a=b", &mut s, &mut w);
    apply_setting(b"unknown", b"7", &mut s, &mut w);
    assert_eq!(s.sleep_timeout, 33);
    assert_eq!(s.ghost_clear_every, 2);
    assert_eq!(s.book_font_size_idx, 1);
    assert_eq!(s.ui_font_size_idx, 2);
    assert_eq!(w.ssid(), "home net");
    assert_eq!(w.password(), "a=b");
}

#[test]
fn lines_of_a_file() {
    let (s, w) = parsed(
        b"# comment = 1\r\n  sleep_timeout = 5 \r\n\nnonsense\nbook_font=3\nwifi_pass= a=b \nui_font=",
    );
    assert_eq!(s.sleep_timeout, 5);
    assert_eq!(s.book_font_size_idx, 3);
    assert_eq!(s.ui_font_size_idx, 2);
    assert_eq!(w.password(), "a=b");
}

#[test]
fn the_last_of_two_lines_counts() {
    let (s, _) = parsed(b"ui_font=1\nui_font=0\n");
    assert_eq!(s.ui_font_size_idx, 0);
}

#[test]
fn written_text() {
    let mut w = WifiConfig::empty();
    w.set_ssid(b"net");
    let text = written(&SystemSettings::defaults(), &w);
    let expected = "# pulp-os settings\n# lines starting with # are ignored\n\nsleep_timeout=10\n\
        ghost_clear=10\nbook_font=2\nui_font=2\n\n# wifi credentials for upload mode\n\
        wifi_ssid=net\nwifi_pass=\n";
    assert_eq!(String::from_utf8(text).unwrap(), expected);
}

#[test]
fn writing_stops_where_the_buffer_ends() {
    let mut buf = [0u8; 10];
    let n = write_settings_txt(&SystemSettings::defaults(), &WifiConfig::empty(), &mut buf);
    assert_eq!(n, 10);
    assert_eq!(&buf, b"# pulp-os ");
}

#[test]
fn what_was_written_is_read_back() {
    let s = SystemSettings {
        sleep_timeout: 0,
        ghost_clear_every: 50,
        book_font_size_idx: 4,
        ui_font_size_idx: 0,
    };
    let mut w = WifiConfig::empty();
    w.set_ssid(b"my net");
    w.set_pass(b"p=#1");
    let (t, v) = parsed(&written(&s, &w));
    assert_eq!(t.sleep_timeout, 0);
    assert_eq!(t.ghost_clear_every, 50);
    assert_eq!(t.book_font_size_idx, 4);
    assert_eq!(t.ui_font_size_idx, 0);
    assert_eq!(v.ssid(), "my net");
    assert_eq!(v.password(), "p=#1");
}

#[test]
fn longest_text_fits() {
    let s = SystemSettings {
        sleep_timeout: 65535,
        ghost_clear_every: 255,
        book_font_size_idx: 255,
        ui_font_size_idx: 255,
    };
    let mut w = WifiConfig::empty();
    w.set_ssid(&[b's'; 32]);
    w.set_pass(&[b'p'; 63]);
    assert_eq!(written(&s, &w).len(), 271);
}
