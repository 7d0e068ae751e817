//! The crate's error type.

use plist::Error as PlistError;
use vstd::prelude::*;
#[allow(unused_imports)]
use vstd::string::*;

verus! {

/// `std::io::Error`, carried and not looked into.
#[verifier::external_type_specification]
#[verifier::external_body]
pub struct ExIoError(std::io::Error);

/// `plist::Error`, carried and not looked into.
#[verifier::external_type_specification]
#[verifier::external_body]
pub struct ExPlistError(PlistError);

/// `tokio::task::JoinError`, carried and not looked into.
#[verifier::external_type_specification]
#[verifier::external_body]
pub struct ExJoinError(tokio::task::JoinError);

/// Everything that can go wrong.
#[derive(Debug)]
pub enum Error {
    /// I/O error (network, file, etc.).
    Io(std::io::Error),
    /// Property list that cannot be read.
    Plist(String),
    /// RPC protocol error (malformed message, missing fields, etc.).
    Rpc(String),
    /// WebInspector protocol error.
    WebInspector(String),
    /// Device connection error.
    DeviceConnection(String),
    /// TLS/SSL error.
    Tls(String),
    /// usbmuxd communication error.
    Usbmuxd(String),
    /// Port binding/allocation error.
    PortBind(String),
    /// A channel between two tasks is closed.
    ChannelClosed,
    /// A background task failed.
    TaskJoin(String),
}

/// Convenience alias.
pub type Result<T> = std::result::Result<T, Error>;

/// What an error says: which kind it is, and its message.
pub enum Failure {
    /// A property-list error with this message.
    Plist(Seq<char>),
    /// A property-list error whose message is this text followed by the words of a decoder's error.
    PlistThen(Seq<char>),
    /// An RPC error with this message.
    Rpc(Seq<char>),
    /// A WebInspector error with this message.
    WebInspector(Seq<char>),
    /// A device connection error with this message.
    DeviceConnection(Seq<char>),
    /// A TLS error with this message.
    Tls(Seq<char>),
    /// A TLS error whose message is this text followed by the words of an I/O error.
    TlsThen(Seq<char>),
    /// A usbmuxd error with this message.
    Usbmuxd(Seq<char>),
    /// A port error with this message.
    PortBind(Seq<char>),
    /// A background task error with this message.
    TaskJoin(Seq<char>),
}

/// Whether `message` is `head` followed by the words that a `plist::Error` displays.
pub open spec fn ends_in_plist_words(message: Seq<char>, head: Seq<char>) -> bool {
    exists|cause: PlistError, words: String| #[trigger]
        to_string_from_display_ensures::<PlistError>(&cause, words) && message == head + words@
}

/// Whether `message` is `head` followed by the words that a `std::io::Error` displays.
pub open spec fn ends_in_io_words(message: Seq<char>, head: Seq<char>) -> bool {
    exists|cause: std::io::Error, words: String| #[trigger]
        to_string_from_display_ensures::<std::io::Error>(&cause, words) && message == head + words@
}

impl Error {
    /// Whether this error says what `f` says.
    pub open spec fn says(self, f: Failure) -> bool {
        match f {
            Failure::Plist(m) => self matches Error::Plist(t) && t@ == m,
            Failure::PlistThen(m) => self matches Error::Plist(t) && ends_in_plist_words(t@, m),
            Failure::Rpc(m) => self matches Error::Rpc(t) && t@ == m,
            Failure::WebInspector(m) => self matches Error::WebInspector(t) && t@ == m,
            Failure::DeviceConnection(m) => self matches Error::DeviceConnection(t) && t@ == m,
            Failure::Tls(m) => self matches Error::Tls(t) && t@ == m,
            Failure::TlsThen(m) => self matches Error::Tls(t) && ends_in_io_words(t@, m),
            Failure::Usbmuxd(m) => self matches Error::Usbmuxd(t) && t@ == m,
            Failure::PortBind(m) => self matches Error::PortBind(t) && t@ == m,
            Failure::TaskJoin(m) => self matches Error::TaskJoin(t) && t@ == m,
        }
    }

    /// The message of a variant that carries one, without the name of its kind.
    pub open spec fn detail(self) -> Seq<char> {
        match self {
            Error::Plist(m) => m@,
            Error::Rpc(m) => m@,
            Error::WebInspector(m) => m@,
            Error::DeviceConnection(m) => m@,
            Error::Tls(m) => m@,
            Error::Usbmuxd(m) => m@,
            Error::PortBind(m) => m@,
            Error::TaskJoin(m) => m@,
            Error::Io(_) => Seq::empty(),
            Error::ChannelClosed => Seq::empty(),
        }
    }

    /// The words that name the kind of error, in front of its message.
    pub open spec fn heading(self) -> Seq<char> {
        match self {
            Error::Io(_) => "I/O error: "@,
            Error::Plist(_) => "plist error: "@,
            Error::Rpc(_) => "RPC error: "@,
            Error::WebInspector(_) => "WebInspector error: "@,
            Error::DeviceConnection(_) => "device connection error: "@,
            Error::Tls(_) => "TLS error: "@,
            Error::Usbmuxd(_) => "usbmuxd error: "@,
            Error::PortBind(_) => "port error: "@,
            Error::ChannelClosed => "internal channel closed"@,
            Error::TaskJoin(_) => "async task error: "@,
        }
    }

    /// The error in words: its kind, then its message. The message of an I/O error is what that
    /// error displays.
    pub fn to_string(&self) -> (r: String)
        ensures
            !(self is Io) ==> r@ == self.heading() + self.detail(),
            *self matches Error::Io(e) ==> exists|words: String| #[trigger]
                to_string_from_display_ensures::<std::io::Error>(&e, words) && r@ == self.heading()
                    + words@,
    {
        let r = match self {
            Error::Io(e) => {
                let words = e.to_string();
                prefixed("I/O error: ", words.as_str())
            },
            Error::Plist(m) => prefixed("plist error: ", m.as_str()),
            Error::Rpc(m) => prefixed("RPC error: ", m.as_str()),
            Error::WebInspector(m) => prefixed("WebInspector error: ", m.as_str()),
            Error::DeviceConnection(m) => prefixed("device connection error: ", m.as_str()),
            Error::Tls(m) => prefixed("TLS error: ", m.as_str()),
            Error::Usbmuxd(m) => prefixed("usbmuxd error: ", m.as_str()),
            Error::PortBind(m) => prefixed("port error: ", m.as_str()),
            Error::ChannelClosed => prefixed("internal channel closed", ""),
            Error::TaskJoin(m) => prefixed("async task error: ", m.as_str()),
        };
        proof {
            reveal_strlit("");
        }
        assert(""@ =~= Seq::<char>::empty());
        r
    }

    /// The I/O error underneath, if that is what this is.
    pub fn source(&self) -> (r: Option<&std::io::Error>)
        ensures
            r == (match *self {
                Error::Io(e) => Some(&e),
                _ => None,
            }),
    {
        match self {
            Error::Io(e) => Some(e),
            _ => None,
        }
    }
}

/// `head` followed by `tail`.
pub fn prefixed(head: &str, tail: &str) -> (r: String)
    ensures
        r@ == head@ + tail@,
{
    let mut s = head.to_owned();
    s.append(tail);
    s
}

impl From<std::io::Error> for Error {
    fn from(e: std::io::Error) -> (r: Self) {
        Error::Io(e)
    }
}

impl vstd::std_specs::convert::FromSpecImpl<std::io::Error> for Error {
    open spec fn obeys_from_spec() -> bool {
        true
    }

    open spec fn from_spec(e: std::io::Error) -> Self {
        Error::Io(e)
    }
}

impl From<plist::Error> for Error {
    fn from(e: plist::Error) -> (r: Self)
        ensures
            r matches Error::Plist(m) && to_string_from_display_ensures::<plist::Error>(&e, m),
    {
        Error::Plist(e.to_string())
    }
}

/// What an error displays is known by a relation and not as a value, so `from` is held to its own
/// `ensures` alone.
impl vstd::std_specs::convert::FromSpecImpl<plist::Error> for Error {
    open spec fn obeys_from_spec() -> bool {
        false
    }

    open spec fn from_spec(e: plist::Error) -> Self {
        arbitrary()
    }
}

impl From<tokio::task::JoinError> for Error {
    fn from(e: tokio::task::JoinError) -> (r: Self)
        ensures
            r matches Error::TaskJoin(m) && to_string_from_display_ensures::<
                tokio::task::JoinError,
            >(&e, m),
    {
        Error::TaskJoin(e.to_string())
    }
}

/// What an error displays is known by a relation and not as a value, so `from` is held to its own
/// `ensures` alone.
impl vstd::std_specs::convert::FromSpecImpl<tokio::task::JoinError> for Error {
    open spec fn obeys_from_spec() -> bool {
        false
    }

    open spec fn from_spec(e: tokio::task::JoinError) -> Self {
        arbitrary()
    }
}

} // verus!
