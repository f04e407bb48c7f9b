use mop::config::{Config, MopConfig};

#[test]
fn settings_round_trip_through_toml() {
    let c = Config { mop: MopConfig { run: "vlc --fullscreen".to_string(), auto_close: false } };
    let text = c.to_toml();
    assert_eq!(text, "[mop]\nrun = \"vlc --fullscreen\"\nauto_close = false\n");
    let back = Config::parse_toml(&text).unwrap();
    assert_eq!(back.mop.run, "vlc --fullscreen");
    assert!(!back.mop.auto_close);
}

#[test]
fn settings_defaults_and_unknown_lines() {
    let d = Config::default();
    assert_eq!(d.mop.run, "mpv");
    assert!(d.mop.auto_close);
    let c = Config::parse_toml("# comment\n[mop]\ncolor = 3\n").unwrap();
    assert_eq!(c.mop.run, "mpv");
    assert!(c.mop.auto_close);
    let c = Config::parse_toml("  run = \"\"iina\"\"  \r\nauto_close =   true  \r\n").unwrap();
    assert_eq!(c.mop.run, "iina");
    assert!(c.mop.auto_close);
    let c = Config::parse_toml("auto_close = yes").unwrap();
    assert!(!c.mop.auto_close);
}
