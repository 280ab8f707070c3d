//! The framework-wide error type.

use vstd::prelude::*;
use vstd::std_specs::convert::FromSpecImpl;
use vstd::string::to_string_from_display_ensures;

verus! {

#[verifier::external_type_specification]
#[verifier::external_body]
pub struct ExIoError(std::io::Error);

#[verifier::external_type_specification]
#[verifier::external_body]
pub struct ExTomlDeError(toml::de::Error);

#[verifier::external_type_specification]
#[verifier::external_body]
pub struct ExTomlSerError(toml::ser::Error);

#[verifier::external_type_specification]
#[verifier::external_body]
pub struct ExSoftBufferError(softbuffer::SoftBufferError);

/// Framework-wide error type.
#[derive(Debug)]
pub enum MyboxError {
    /// Config file could not be found where the platform path contract expects it.
    ConfigNotFound,
    /// Config file existed but could not be parsed as TOML.
    ConfigParse(String),
    /// A hotkey string in config could not be parsed.
    HotkeyParse(String),
    /// Window creation or window-manager operation failed.
    Window(String),
    /// Event bus publish or dispatch failure.
    EventBus(String),
    /// I/O error (config read/write etc.).
    Io(std::io::Error),
    /// Framebuffer presentation error, mapped to a string message.
    Softbuffer(String),
    /// Tray icon/menu error.
    Tray(String),
    /// A module registration failed (duplicate module id).
    Module(String),
    /// A command registration failed (duplicate command id).
    Command(String),
}

/// Convenience alias used throughout the framework.
pub type Result<T> = std::result::Result<T, MyboxError>;

impl MyboxError {
    /// The display text of every variant but `Io`, whose text embeds the
    /// I/O error's own display text.
    pub open spec fn spec_message(&self) -> Seq<char> {
        match self {
            MyboxError::ConfigNotFound => "config file not found"@,
            MyboxError::ConfigParse(s) => "config parse error: "@ + s@,
            MyboxError::HotkeyParse(s) => "hotkey parse error: "@ + s@,
            MyboxError::Window(s) => "window error: "@ + s@,
            MyboxError::EventBus(s) => "event bus error: "@ + s@,
            MyboxError::Io(_) => "io error: "@,
            MyboxError::Softbuffer(s) => "softbuffer error: "@ + s@,
            MyboxError::Tray(s) => "tray error: "@ + s@,
            MyboxError::Module(s) => "module error: "@ + s@,
            MyboxError::Command(s) => "command error: "@ + s@,
        }
    }

    /// The human-readable error text.
    pub fn to_string(&self) -> (r: String)
        ensures
            !(self is Io) ==> r@ == self.spec_message(),
            self matches MyboxError::Io(e) ==> exists|t: String|
                to_string_from_display_ensures::<std::io::Error>(&e, t) && r@ == self.spec_message()
                    + t@,
    {
        match self {
            MyboxError::ConfigNotFound => String::from_str("config file not found"),
            MyboxError::ConfigParse(s) => String::from_str("config parse error: ").concat(s.as_str()),
            MyboxError::HotkeyParse(s) => String::from_str("hotkey parse error: ").concat(s.as_str()),
            MyboxError::Window(s) => String::from_str("window error: ").concat(s.as_str()),
            MyboxError::EventBus(s) => String::from_str("event bus error: ").concat(s.as_str()),
            MyboxError::Io(e) => {
                let t = e.to_string();
                String::from_str("io error: ").concat(t.as_str())
            },
            MyboxError::Softbuffer(s) => String::from_str("softbuffer error: ").concat(s.as_str()),
            MyboxError::Tray(s) => String::from_str("tray error: ").concat(s.as_str()),
            MyboxError::Module(s) => String::from_str("module error: ").concat(s.as_str()),
            MyboxError::Command(s) => String::from_str("command error: ").concat(s.as_str()),
        }
    }
}

impl From<std::io::Error> for MyboxError {
    fn from(e: std::io::Error) -> (r: MyboxError) {
        MyboxError::Io(e)
    }
}

impl FromSpecImpl<std::io::Error> for MyboxError {
    open spec fn obeys_from_spec() -> bool {
        true
    }

    open spec fn from_spec(v: std::io::Error) -> MyboxError {
        MyboxError::Io(v)
    }
}

/// A TOML read error as a config parse error carrying its display text.
pub fn from_toml_de(e: toml::de::Error) -> (r: MyboxError)
    ensures
        r matches MyboxError::ConfigParse(t) && to_string_from_display_ensures::<toml::de::Error>(&e, t),
{
    MyboxError::ConfigParse(e.to_string())
}

/// A TOML write error as a config parse error carrying its display text.
pub fn from_toml_ser(e: toml::ser::Error) -> (r: MyboxError)
    ensures
        r matches MyboxError::ConfigParse(t) && to_string_from_display_ensures::<toml::ser::Error>(&e, t),
{
    MyboxError::ConfigParse(e.to_string())
}

/// A framebuffer presentation error as a softbuffer error carrying its
/// display text.
pub fn from_softbuffer(e: softbuffer::SoftBufferError) -> (r: MyboxError)
    ensures
        r matches MyboxError::Softbuffer(t) && to_string_from_display_ensures::<softbuffer::SoftBufferError>(&e, t),
{
    MyboxError::Softbuffer(e.to_string())
}

} // verus!
