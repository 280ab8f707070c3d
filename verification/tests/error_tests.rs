use mybox::error::{MyboxError, Result};

#[test]
fn error_derives_thiserror() {
    let err = MyboxError::ConfigNotFound;
    assert!(!err.to_string().is_empty());
    assert!(format!("{err:?}").contains("ConfigNotFound"));
}

#[test]
fn io_error_converts_from_std() {
    let io_err = std::io::Error::new(std::io::ErrorKind::NotFound, "missing");
    let mybox_err: MyboxError = io_err.into();
    assert!(matches!(mybox_err, MyboxError::Io(_)));
}

#[test]
fn result_alias_exists() {
    let r: Result<u32> = Ok(42);
    assert_eq!(r.unwrap(), 42);
}

#[test]
fn error_messages_carry_their_detail() {
    assert_eq!(MyboxError::ConfigNotFound.to_string(), "config file not found");
    assert_eq!(MyboxError::ConfigParse("bad".to_string()).to_string(), "config parse error: bad");
    assert_eq!(MyboxError::HotkeyParse("x".to_string()).to_string(), "hotkey parse error: x");
    assert_eq!(MyboxError::Window("w".to_string()).to_string(), "window error: w");
    assert_eq!(MyboxError::EventBus("e".to_string()).to_string(), "event bus error: e");
    assert_eq!(MyboxError::Softbuffer("s".to_string()).to_string(), "softbuffer error: s");
    assert_eq!(MyboxError::Tray("t".to_string()).to_string(), "tray error: t");
    assert_eq!(MyboxError::Module("m".to_string()).to_string(), "module error: m");
    assert_eq!(MyboxError::Command("c".to_string()).to_string(), "command error: c");
    let io = MyboxError::from(std::io::Error::new(std::io::ErrorKind::NotFound, "missing"));
    assert_eq!(io.to_string(), "io error: missing");
}

#[test]
fn toml_de_error_bridges_to_config_parse() {
    let bad: std::result::Result<toml::Value, toml::de::Error> = toml::from_str("key = = broken");
    let err = bad.unwrap_err();
    let text = err.to_string();
    let mybox_err = mybox::error::from_toml_de(err);
    assert!(matches!(&mybox_err, MyboxError::ConfigParse(t) if *t == text));
}

#[test]
fn toml_ser_error_from_exists() {
    let assert_from = |e: toml::ser::Error| -> MyboxError { mybox::error::from_toml_ser(e) };
    let _ = assert_from;
}

#[test]
fn softbuffer_error_converts() {
    let sb_err = softbuffer::SoftBufferError::Unimplemented;
    let text = sb_err.to_string();
    let mybox_err = mybox::error::from_softbuffer(sb_err);
    assert!(matches!(&mybox_err, MyboxError::Softbuffer(t) if *t == text));
    assert_eq!(mybox_err.to_string(), format!("softbuffer error: {text}"));
}
