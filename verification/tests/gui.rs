use org_roamers::gui::{parse_unsigned_exec, LogBuffer, OrgRoamersGUI, Settings};

#[test]
fn default_settings() {
    let s = Settings::default();
    assert_eq!(s.ip_addr, "localhost");
    assert_eq!(s.port, "5000");
    assert_eq!(s.roam_path, "");
}

#[test]
fn port_and_url() {
    let gui = OrgRoamersGUI { settings: Settings::default() };
    assert_eq!(gui.port(), Ok(5000));
    assert_eq!(gui.host(), "localhost");
    assert_eq!(gui.url_with_protocol().unwrap(), "http://localhost:5000");
    let bad = OrgRoamersGUI { settings: Settings { port: "70000".into(), ..Settings::default() } };
    assert!(bad.port().is_err());
    assert_eq!(bad.url_with_protocol().unwrap(), "http://localhost:70000");
}

#[test]
fn parsing_numbers_like_std() {
    for s in ["0", "+7", "65535", "65536", "", "+", "-1", " 1", "1a", "007"] {
        assert_eq!(parse_unsigned_exec(s, 65535), s.parse::<u16>().ok().map(|v| v as u64), "{s}");
    }
    assert_eq!(parse_unsigned_exec("18446744073709551616", u64::MAX), None);
    assert_eq!(parse_unsigned_exec("18446744073709551615", u64::MAX), Some(u64::MAX));
}

#[test]
fn log_ring() {
    let mut log: LogBuffer<3> = LogBuffer::new();
    log.write("a");
    log.write("b");
    assert_eq!(log.get_logs(), "ab");
    log.write("c");
    log.write("d");
    assert_eq!(log.get_logs(), "bdbc");
}
