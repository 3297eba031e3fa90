use diagspan::color::Color;

#[test]
fn never_is_inert() {
    let c = Color::never().error();
    assert!(!c.active());
    assert_eq!("", c.prefix());
    assert_eq!("", c.suffix());
    assert_eq!("hello", c.paint("hello"));
    assert_eq!("", Color::never().warning().prefix());
    assert_eq!("tx", Color::never().banner().paint("tx"));
}

#[test]
fn always_is_active() {
    assert!(Color::always().active());
    assert!(Color::always().stdout().active());
    assert!(Color::always().stderr().active());
    assert!(!Color::never().stdout().active());
    assert!(!Color::never().stderr().active());
}

#[test]
fn auto_without_terminal_is_inactive() {
    assert!(!Color::auto().active());
}

#[test]
fn default_policy_is_inert() {
    assert!(!Color::default().active());
    assert_eq!("t", Color::default().error().paint("t"));
    assert_eq!(0usize, diagspan::misc::default());
    assert_eq!(String::new(), diagspan::misc::default::<String>());
}

#[test]
fn fmt_follows_alternate_flag() {
    assert!(Color::fmt(true).active());
    assert!(!Color::fmt(false).active());
}

#[test]
fn role_escape_codes() {
    let c = Color::always();
    assert_eq!("\u{1b}[1;31m", c.error().prefix());
    assert_eq!("\u{1b}[0m", c.error().suffix());
    assert_eq!("\u{1b}[34m", c.doc().prefix());
    assert_eq!("\u{1b}[1;33m", c.warning().prefix());
    assert_eq!("\u{1b}[1;36m", c.banner().prefix());
    assert_eq!("\u{1b}[1m", c.command().prefix());
    assert_eq!("\u{1b}[36m", c.parameter().prefix());
    assert_eq!("\u{1b}[1m", c.message().prefix());
    assert_eq!("\u{1b}[35m", c.annotation().prefix());
    assert_eq!("\u{1b}[32m", c.string().prefix());
    assert_eq!("\u{1b}[1;31mboom\u{1b}[0m", c.error().paint("boom"));
    assert_eq!("", c.prefix());
}
