use sys_scripts::media::{media_view, parse_media_snapshot, parse_media_text, MediaSnapshot, MediaView};
use sys_scripts::sysinfo::{shell_name, sysinfo_rows};

#[test]
fn media_line_fields() {
    let m = parse_media_snapshot(b"Playing;;Song;;Band\n").unwrap();
    assert_eq!((m.status.as_str(), m.title.as_str(), m.artist.as_str()), ("Playing", "Song", "Band"));
    let m = parse_media_text("  Paused;;A;;B;;extra ").unwrap();
    assert_eq!((m.status.as_str(), m.title.as_str(), m.artist.as_str()), ("Paused", "A", "B"));
    let m = parse_media_text("Stopped;;;;").unwrap();
    assert_eq!((m.status.as_str(), m.title.as_str(), m.artist.as_str()), ("Stopped", "", ""));
    let m = parse_media_text("a;;;b;;c").unwrap();
    assert_eq!((m.status.as_str(), m.title.as_str(), m.artist.as_str()), ("a", ";b", "c"));
    assert!(parse_media_text("Playing;;Song").is_none());
    assert!(parse_media_snapshot(b"").is_none());
}

#[test]
fn media_line_invalid_utf8_is_replaced() {
    let m = parse_media_snapshot(b"Pl\xffying;;T;;A").unwrap();
    assert_eq!(m.status, "Pl\u{fffd}ying");
}

#[test]
fn media_card_view() {
    assert!(matches!(media_view(None), MediaView::Hidden));
    let playing = MediaSnapshot { status: "Playing".into(), title: "T".into(), artist: "A".into() };
    match media_view(Some(playing)) {
        MediaView::Shown { title, artist, play_label } => {
            assert_eq!((title.as_str(), artist.as_str(), play_label), ("T", "A", "⏸"));
        }
        MediaView::Hidden => panic!("hidden"),
    }
    let paused = MediaSnapshot { status: "Paused".into(), title: "T".into(), artist: "A".into() };
    match media_view(Some(paused)) {
        MediaView::Shown { play_label, .. } => assert_eq!(play_label, "▶"),
        MediaView::Hidden => panic!("hidden"),
    }
}

#[test]
fn sysinfo_card_rows() {
    assert_eq!(shell_name("/usr/bin/zsh"), "zsh");
    assert_eq!(shell_name("fish"), "fish");
    assert_eq!(shell_name("/bin/"), "");
    let rows = sysinfo_rows("6.9.1".into(), None, Some("niri".into()), "1234".into(), "up 2 hours, 3 minutes");
    let pairs: Vec<(&str, &str)> = rows.iter().map(|r| (r.label, r.value.as_str())).collect();
    assert_eq!(
        pairs,
        vec![
            ("\u{f17c}  Kernel", "6.9.1"),
            ("\u{f489}  Shell", "Unknown"),
            ("\u{f2d0}  WM", "niri"),
            ("📦 Pkgs", "1234"),
            ("\u{f017}  Uptime", "2 hours, 3 minutes"),
        ]
    );
    let rows = sysinfo_rows(String::new(), Some("/bin/bash".into()), None, String::new(), "");
    assert_eq!(rows[1].value, "bash");
    assert_eq!(rows[2].value, "Wayland");
}
