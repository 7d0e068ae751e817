//! Reaching WebInspector on a device: the dialogue with the device, and what is needed for TLS.

use crate::error;
use crate::error::{Error, Failure, Result};
use crate::plist_dates;
use crate::property_list;
use crate::rpc;
use crate::text;
use vstd::prelude::*;
#[allow(unused_imports)]
use vstd::string::*;

verus! {

// ---------------------------------------------------------------------------------------------
// Versions and codes
// ---------------------------------------------------------------------------------------------

/// The numbers among pieces of text, in order; pieces that are no numbers are passed over.
pub open spec fn numbers_in(pieces: Seq<Seq<char>>) -> Seq<u32>
    decreases pieces.len(),
{
    if pieces.len() == 0 {
        Seq::empty()
    } else {
        let before = numbers_in(pieces.drop_last());
        match text::parsed_u32(pieces.last()) {
            Some(n) => before.push(n),
            None => before,
        }
    }
}

/// A version, packed: the low eight bits of its first three numbers, the third if it is there. A
/// version with fewer than two numbers is none.
pub open spec fn packed_version(version: Seq<char>) -> Option<u32> {
    let parts = numbers_in(text::split_on(version, '.'));
    if parts.len() >= 2 {
        let patch = if parts.len() >= 3 {
            parts[2] as int % 256
        } else {
            0
        };
        Some(((parts[0] as int % 256) * 0x1_0000 + (parts[1] as int % 256) * 0x100 + patch) as u32)
    } else {
        None
    }
}

/// Packs a version.
pub fn pack_version(version: &str) -> (r: Option<u32>)
    ensures
        r == packed_version(version@),
{
    let pieces = text::split(version, '.');
    let ghost views = text::strings(pieces@);
    let mut parts: Vec<u32> = Vec::new();
    let mut i: usize = 0;
    while i < pieces.len()
        invariant
            i <= pieces@.len(),
            views == text::strings(pieces@),
            parts@ == numbers_in(views.take(i as int)),
        decreases pieces@.len() - i,
    {
        assert(views.take(i + 1).drop_last() =~= views.take(i as int));
        assert(views.take(i + 1).last() == pieces@[i as int]@);
        if let Some(n) = text::parse_u32(pieces[i].as_str()) {
            parts.push(n);
        }
        i = i + 1;
    }
    assert(views.take(views.len() as int) =~= views);
    if parts.len() < 2 {
        return None;
    }
    let major: u32 = parts[0];
    let minor: u32 = parts[1];
    let patch: u32 = if parts.len() >= 3 {
        parts[2] & 0xff
    } else {
        0
    };
    assert(parts@.len() >= 3 ==> patch == parts@[2] % 256) by {
        if parts@.len() >= 3 {
            let third = parts@[2];
            assert(third & 0xff == third % 256) by (bit_vector);
        }
    }
    let packed: u32 = ((major & 0xff) << 16) | ((minor & 0xff) << 8) | patch;
    assert(packed == (major % 256) * 0x1_0000 + (minor % 256) * 0x100 + patch) by (bit_vector)
        requires
            patch < 256,
            packed == ((major & 0xffu32) << 16u32) | ((minor & 0xffu32) << 8u32) | patch,
    ;
    Some(packed)
}

/// What a code from lockdownd means to the one who holds the device.
pub open spec fn lockdownd_words(code: i32) -> Seq<char> {
    if code == -17 {
        "Please enter the passcode on the device and try again"@
    } else if code == -18 {
        "Please accept the trust dialog on the device screen and try again"@
    } else if code == -19 {
        "User denied the trust dialog, please re-plug the device and try again"@
    } else if code == -6 || code == -15 {
        "Device is not paired with this host, please re-plug the device and try again"@
    } else {
        "Cannot connect to lockdownd, error code: "@ + text::signed_decimal(code as int)
    }
}

/// Puts a code from lockdownd into words.
pub fn lockdownd_error_string(code: i32) -> (r: String)
    ensures
        r@ == lockdownd_words(code),
{
    if code == -17 {
        "Please enter the passcode on the device and try again".to_owned()
    } else if code == -18 {
        "Please accept the trust dialog on the device screen and try again".to_owned()
    } else if code == -19 {
        "User denied the trust dialog, please re-plug the device and try again".to_owned()
    } else if code == -6 || code == -15 {
        "Device is not paired with this host, please re-plug the device and try again".to_owned()
    } else {
        error::prefixed(
            "Cannot connect to lockdownd, error code: ",
            text::i32_text(code).as_str(),
        )
    }
}

// ---------------------------------------------------------------------------------------------
// The dialogue
// ---------------------------------------------------------------------------------------------

/// A value that the device is asked for.
#[derive(Debug, Clone, Copy, PartialEq, Eq, Structural)]
pub enum Key {
    UniqueDeviceId,
    DeviceName,
    ProductVersion,
}

/// The name of a value that the device is asked for.
pub fn key_name(key: Key) -> (r: &'static str)
    ensures
        r@ == (match key {
            Key::UniqueDeviceId => "UniqueDeviceID"@,
            Key::DeviceName => "DeviceName"@,
            Key::ProductVersion => "ProductVersion"@,
        }),
{
    match key {
        Key::UniqueDeviceId => "UniqueDeviceID",
        Key::DeviceName => "DeviceName",
        Key::ProductVersion => "ProductVersion",
    }
}

/// The name under which this program speaks to the device.
pub const LABEL: &'static str = "ios_webkit_debug_proxy";

/// The service that is asked for.
pub const SERVICE: &'static str = "com.apple.webinspector";

/// A step of the dialogue, and the call that it waits for.
#[derive(Debug, Clone, Copy, PartialEq, Eq, Structural)]
pub enum Call {
    /// Find the device.
    Open,
    /// Connect to lockdownd on it.
    Handshake,
    /// Ask for a value.
    GetValue(Key),
    /// Start the service.
    StartService,
    /// Connect to this port of the device.
    Connect(u16),
    /// Get the connection's file descriptor.
    GetFd,
}

/// What came of a call.
pub enum Reply {
    Opened(i32),
    Shaken(i32),
    /// The value, if there is one.
    Value(Option<String>),
    /// The code, and the port and the TLS flag of the service if there is one.
    Started { code: i32, service: Option<(u16, u8)> },
    Connected(i32),
    Located { code: i32, fd: i32 },
}

/// Something that is held on to while the dialogue goes on.
#[derive(Debug, Clone, Copy, PartialEq, Eq, Structural)]
pub enum Held {
    Device,
    Client,
    Connection,
}

/// What is known of the device so far.
#[derive(Debug)]
pub struct Known {
    pub device_id: String,
    pub device_name: String,
    pub device_os_version: u32,
    pub ssl_enabled: bool,
}

/// A [`Known`] over characters.
pub struct KnownView {
    pub device_id: Seq<char>,
    pub device_name: Seq<char>,
    pub device_os_version: u32,
    pub ssl_enabled: bool,
}

impl View for Known {
    type V = KnownView;

    open spec fn view(&self) -> KnownView {
        KnownView {
            device_id: self.device_id@,
            device_name: self.device_name@,
            device_os_version: self.device_os_version,
            ssl_enabled: self.ssl_enabled,
        }
    }
}

/// A device that was reached.
#[derive(Debug)]
pub struct FfiConnectionResult {
    pub fd: i32,
    pub device_id: String,
    pub device_name: String,
    pub device_os_version: u32,
    pub ssl_enabled: bool,
}

/// What comes next in the dialogue.
pub enum Turn {
    /// Let go of these, in order, and make this call.
    Go { release: Vec<Held>, call: Call },
    /// Let go of these, in order: the device was reached.
    Reached { release: Vec<Held>, connection: FfiConnectionResult },
    /// Let go of these, in order: the device was not reached.
    Failed { release: Vec<Held>, error: Error },
}

/// A [`Turn`] over characters.
pub enum TurnView {
    Go { release: Seq<Held>, call: Call },
    Reached { release: Seq<Held>, fd: i32, known: KnownView },
    Failed { release: Seq<Held>, words: Seq<char> },
}

impl Turn {
    /// Whether this turn is what `v` says.
    pub open spec fn shows(self, v: TurnView) -> bool {
        match v {
            TurnView::Go { release, call } => self matches Turn::Go { release: r, call: c } && r@
                == release && c == call,
            TurnView::Reached { release, fd, known } => self matches Turn::Reached {
                release: r,
                connection: c,
            } && r@ == release && c.fd == fd && c.device_id@ == known.device_id
                && c.device_name@ == known.device_name && c.device_os_version
                == known.device_os_version && c.ssl_enabled == known.ssl_enabled,
            TurnView::Failed { release, words } => self matches Turn::Failed {
                release: r,
                error: e,
            } && r@ == release && e.says(Failure::DeviceConnection(words)),
        }
    }
}

/// Whether a reply is one to a call.
pub open spec fn answers(call: Call, reply: Reply) -> bool {
    match call {
        Call::Open => reply is Opened,
        Call::Handshake => reply is Shaken,
        Call::GetValue(_) => reply is Value,
        Call::StartService => reply is Started,
        Call::Connect(_) => reply is Connected,
        Call::GetFd => reply is Located,
    }
}

/// What a value tells of the device.
pub open spec fn learned(known: KnownView, key: Key, value: Option<Seq<char>>) -> KnownView {
    match value {
        None => known,
        Some(v) => match key {
            Key::UniqueDeviceId => KnownView { device_id: v, ..known },
            Key::DeviceName => KnownView { device_name: v, ..known },
            Key::ProductVersion => match packed_version(v) {
                Some(version) => KnownView { device_os_version: version, ..known },
                None => known,
            },
        },
    }
}

/// What a reply tells of the device.
pub open spec fn known_after(known: KnownView, call: Call, reply: Reply) -> KnownView {
    match (call, reply) {
        (Call::GetValue(key), Reply::Value(value)) => learned(
            known,
            key,
            text::option_view(value),
        ),
        (Call::StartService, Reply::Started { code, service: Some((port, ssl)) }) => if code == 0
            && port != 0 {
            KnownView { ssl_enabled: ssl == 1, ..known }
        } else {
            known
        },
        _ => known,
    }
}

/// What comes after a reply: the device is found, lockdownd is reached, three values are asked for,
/// the service is started, connected to, and handed over.
pub open spec fn turn_after(known: KnownView, call: Call, reply: Reply) -> TurnView {
    match (call, reply) {
        (Call::Open, Reply::Opened(code)) => if code != 0 {
            TurnView::Failed {
                release: Seq::empty(),
                words: "Device not found, please make sure it is connected"@,
            }
        } else {
            TurnView::Go { release: Seq::empty(), call: Call::Handshake }
        },
        (Call::Handshake, Reply::Shaken(code)) => if code != 0 {
            TurnView::Failed { release: seq![Held::Device], words: lockdownd_words(code) }
        } else {
            TurnView::Go { release: Seq::empty(), call: Call::GetValue(Key::UniqueDeviceId) }
        },
        (Call::GetValue(key), Reply::Value(_)) => TurnView::Go {
            release: Seq::empty(),
            call: match key {
                Key::UniqueDeviceId => Call::GetValue(Key::DeviceName),
                Key::DeviceName => Call::GetValue(Key::ProductVersion),
                Key::ProductVersion => Call::StartService,
            },
        },
        (Call::StartService, Reply::Started { code, service }) => if code == 0 && service is Some
            && service.unwrap().0 != 0 {
            TurnView::Go { release: Seq::empty(), call: Call::Connect(service.unwrap().0) }
        } else {
            TurnView::Failed {
                release: seq![Held::Client, Held::Device],
                words: "Cannot start com.apple.webinspector service, error code: "@
                    + text::signed_decimal(code as int),
            }
        },
        (Call::Connect(_), Reply::Connected(code)) => if code != 0 {
            TurnView::Failed {
                release: seq![Held::Client, Held::Device],
                words: "idevice_connect failed"@,
            }
        } else {
            TurnView::Go { release: seq![Held::Client], call: Call::GetFd }
        },
        (Call::GetFd, Reply::Located { code, fd }) => if code != 0 {
            TurnView::Failed {
                release: seq![Held::Device],
                words: "Cannot get connection file descriptor"@,
            }
        } else {
            TurnView::Reached { release: seq![Held::Connection, Held::Device], fd, known }
        },
        _ => arbitrary(),
    }
}

/// A dialogue with a device: the call that it waits for, and what is known so far.
#[derive(Debug)]
pub struct Dialogue {
    pub call: Call,
    pub known: Known,
}

fn failed(release: Vec<Held>, words: &str) -> (r: Turn)
    ensures
        r.shows(TurnView::Failed { release: release@, words: words@ }),
{
    Turn::Failed { release, error: Error::DeviceConnection(words.to_owned()) }
}

impl Dialogue {
    /// A dialogue at its start: the device is to be found, and nothing is known.
    pub fn new() -> (r: Self)
        ensures
            r.call == Call::Open,
            r.known@ == (KnownView {
                device_id: Seq::empty(),
                device_name: Seq::empty(),
                device_os_version: 0,
                ssl_enabled: false,
            }),
    {
        let r = Dialogue {
            call: Call::Open,
            known: Known {
                device_id: String::new(),
                device_name: String::new(),
                device_os_version: 0,
                ssl_enabled: false,
            },
        };
        assert(r.known@.device_id =~= Seq::empty());
        assert(r.known@.device_name =~= Seq::empty());
        r
    }

    /// Goes on to the next call.
    fn go(&mut self, release: Vec<Held>, call: Call) -> (r: Turn)
        ensures
            final(self).call == call,
            final(self).known == old(self).known,
            r.shows(TurnView::Go { release: release@, call }),
    {
        self.call = call;
        Turn::Go { release, call }
    }

    /// Takes the reply to the call that the dialogue waits for, and decides what comes next.
    pub fn advance(&mut self, reply: Reply) -> (r: Turn)
        requires
            answers(old(self).call, reply),
        ensures
            final(self).known@ == known_after(old(self).known@, old(self).call, reply),
            r.shows(
                turn_after(
                    known_after(old(self).known@, old(self).call, reply),
                    old(self).call,
                    reply,
                ),
            ),
            r matches Turn::Go { call, .. } ==> final(self).call == call,
    {
        let none: Vec<Held> = Vec::new();
        assert(none@ =~= Seq::<Held>::empty());
        match reply {
            Reply::Opened(code) => {
                if code != 0 {
                    failed(none, "Device not found, please make sure it is connected")
                } else {
                    self.go(none, Call::Handshake)
                }
            },
            Reply::Shaken(code) => {
                if code != 0 {
                    let mut release: Vec<Held> = Vec::new();
                    release.push(Held::Device);
                    assert(release@ =~= seq![Held::Device]);
                    failed(release, lockdownd_error_string(code).as_str())
                } else {
                    self.go(none, Call::GetValue(Key::UniqueDeviceId))
                }
            },
            Reply::Value(value) => {
                let key = match self.call {
                    Call::GetValue(key) => key,
                    _ => Key::UniqueDeviceId,
                };
                match key {
                    Key::UniqueDeviceId => {
                        if let Some(v) = value {
                            self.known.device_id = v;
                        }
                        self.go(none, Call::GetValue(Key::DeviceName))
                    },
                    Key::DeviceName => {
                        if let Some(v) = value {
                            self.known.device_name = v;
                        }
                        self.go(none, Call::GetValue(Key::ProductVersion))
                    },
                    Key::ProductVersion => {
                        if let Some(v) = value {
                            if let Some(version) = pack_version(v.as_str()) {
                                self.known.device_os_version = version;
                            }
                        }
                        self.go(none, Call::StartService)
                    },
                }
            },
            Reply::Started { code, service } => {
                if code == 0 {
                    if let Some((port, ssl)) = service {
                        if port != 0 {
                            self.known.ssl_enabled = ssl == 1;
                            return self.go(none, Call::Connect(port));
                        }
                    }
                }
                let mut release: Vec<Held> = Vec::new();
                release.push(Held::Client);
                release.push(Held::Device);
                assert(release@ =~= seq![Held::Client, Held::Device]);
                let words = error::prefixed(
                    "Cannot start com.apple.webinspector service, error code: ",
                    text::i32_text(code).as_str(),
                );
                failed(release, words.as_str())
            },
            Reply::Connected(code) => {
                let mut release: Vec<Held> = Vec::new();
                release.push(Held::Client);
                if code != 0 {
                    release.push(Held::Device);
                    assert(release@ =~= seq![Held::Client, Held::Device]);
                    failed(release, "idevice_connect failed")
                } else {
                    assert(release@ =~= seq![Held::Client]);
                    self.go(release, Call::GetFd)
                }
            },
            Reply::Located { code, fd } => {
                let mut release: Vec<Held> = Vec::new();
                if code != 0 {
                    release.push(Held::Device);
                    assert(release@ =~= seq![Held::Device]);
                    failed(release, "Cannot get connection file descriptor")
                } else {
                    release.push(Held::Connection);
                    release.push(Held::Device);
                    assert(release@ =~= seq![Held::Connection, Held::Device]);
                    Turn::Reached {
                        release,
                        connection: FfiConnectionResult {
                            fd,
                            device_id: self.known.device_id.clone(),
                            device_name: self.known.device_name.clone(),
                            device_os_version: self.known.device_os_version,
                            ssl_enabled: self.known.ssl_enabled,
                        },
                    }
                }
            },
        }
    }
}

/// What is held when a call is made.
pub open spec fn held_before(call: Call) -> Set<Held> {
    match call {
        Call::Open => Set::empty(),
        Call::Handshake => set![Held::Device],
        Call::GetValue(_) | Call::StartService | Call::Connect(_) => set![Held::Device, Held::Client],
        Call::GetFd => set![Held::Device, Held::Connection],
    }
}

/// What a reply adds to what is held: a call that succeeds gives the device, the client or the
/// connection.
pub open spec fn gained(call: Call, reply: Reply) -> Set<Held> {
    match (call, reply) {
        (Call::Open, Reply::Opened(0)) => set![Held::Device],
        (Call::Handshake, Reply::Shaken(0)) => set![Held::Client],
        (Call::Connect(_), Reply::Connected(0)) => set![Held::Connection],
        _ => Set::empty(),
    }
}

/// What a turn lets go of.
pub open spec fn released(turn: TurnView) -> Seq<Held> {
    match turn {
        TurnView::Go { release, .. } => release,
        TurnView::Reached { release, .. } => release,
        TurnView::Failed { release, .. } => release,
    }
}

/// Nothing is let go of that is not held, or twice. What is held when the next call is made is what
/// was held, with what was gained and without what was let go of. And nothing is held when the
/// dialogue is over, but for a connection whose file descriptor could not be had.
pub proof fn law_nothing_stays_held(known: KnownView, call: Call, reply: Reply)
    requires
        answers(call, reply),
    ensures
        ({
            let turn = turn_after(known, call, reply);
            let had = held_before(call).union(gained(call, reply));
            let left = had.difference(released(turn).to_set());
            &&& released(turn).no_duplicates()
            &&& released(turn).to_set().subset_of(had)
            &&& match turn {
                TurnView::Go { call: next, .. } => left == held_before(next),
                TurnView::Reached { .. } => left == Set::<Held>::empty(),
                TurnView::Failed { .. } => if call is GetFd {
                    left == set![Held::Connection]
                } else {
                    left == Set::<Held>::empty()
                },
            }
        }),
{
    let turn = turn_after(known, call, reply);
    let release = released(turn);
    let had = held_before(call).union(gained(call, reply));
    let left = had.difference(release.to_set());
    assert(release.len() <= 2);
    assert forall|h: Held| #[trigger]
        release.to_set().contains(h) <==> (release.len() > 0 && release[0] == h) || (
        release.len() > 1 && release[1] == h) by {
        if release.len() > 0 && release[0] == h {
            assert(release.contains(h));
        }
        if release.len() > 1 && release[1] == h {
            assert(release.contains(h));
        }
    }
    match turn {
        TurnView::Go { call: next, .. } => {
            assert(left =~= held_before(next));
        },
        TurnView::Reached { .. } => {
            assert(left =~= Set::<Held>::empty());
        },
        TurnView::Failed { .. } => {
            if call is GetFd {
                assert(left =~= set![Held::Connection]);
            } else {
                assert(left =~= Set::<Held>::empty());
            }
        },
    }
}

// ---------------------------------------------------------------------------------------------
// TLS
// ---------------------------------------------------------------------------------------------

/// How a private key is put into bytes.
#[derive(Debug, Clone, Copy, PartialEq, Eq, Structural)]
pub enum KeyKind {
    Pkcs1,
    Sec1,
    Pkcs8,
}

/// A private key.
pub struct PrivateKey {
    pub kind: KeyKind,
    pub der: Vec<u8>,
}

/// A [`PrivateKey`] over bytes.
pub struct KeyView {
    pub kind: KeyKind,
    pub der: Seq<u8>,
}

impl View for PrivateKey {
    type V = KeyView;

    open spec fn view(&self) -> KeyView {
        KeyView { kind: self.kind, der: self.der@ }
    }
}

/// What this host shows to a device: its certificates and its key.
pub struct TlsIdentity {
    pub certs: Vec<Vec<u8>>,
    pub key: PrivateKey,
}

/// A [`TlsIdentity`] over bytes.
pub struct IdentityView {
    pub certs: Seq<Seq<u8>>,
    pub key: KeyView,
}

impl View for TlsIdentity {
    type V = IdentityView;

    open spec fn view(&self) -> IdentityView {
        IdentityView { certs: bytes_view(self.certs@), key: self.key@ }
    }
}

/// The views of a list of byte vectors.
pub open spec fn bytes_view(v: Seq<Vec<u8>>) -> Seq<Seq<u8>> {
    Seq::new(v.len(), |i: int| v[i]@)
}

/// An optional key by its view.
pub open spec fn key_view(key: Option<PrivateKey>) -> Option<KeyView> {
    match key {
        Some(k) => Some(k@),
        None => None,
    }
}

/// The certificates that `rustls_pemfile::certs` reads in PEM text: nothing where it fails on one.
pub uninterp spec fn pem_certs(pem: Seq<u8>) -> Option<Seq<Seq<u8>>>;

/// What `rustls_pemfile::private_key` reads in PEM text: nothing where it fails, or else the first
/// key, if there is one.
pub uninterp spec fn pem_key(pem: Seq<u8>) -> Option<Option<KeyView>>;

/// `rustls_pemfile::certs`, all of them or the first error. What it reads depends on the text
/// alone.
#[verifier::external_body]
fn read_certs(pem: &[u8]) -> (r: std::result::Result<Vec<Vec<u8>>, std::io::Error>)
    ensures
        r is Ok <==> pem_certs(pem@) is Some,
        r matches Ok(certs) ==> pem_certs(pem@) == Some(bytes_view(certs@)),
{
    rustls_pemfile::certs(&mut std::io::Cursor::new(pem)).map(
        |cert| cert.map(|c| c.to_vec()),
    ).collect()
}

/// `rustls_pemfile::private_key`. What it reads depends on the text alone.
#[verifier::external_body]
fn read_private_key(pem: &[u8]) -> (r: std::result::Result<Option<PrivateKey>, std::io::Error>)
    ensures
        r is Ok <==> pem_key(pem@) is Some,
        r matches Ok(key) ==> pem_key(pem@) == Some(key_view(key)),
{
    let found = rustls_pemfile::private_key(&mut std::io::Cursor::new(pem))?;
    Ok(
        found.map(
            |key|
                PrivateKey {
                    kind: match &key {
                        rustls_pki_types::PrivateKeyDer::Pkcs1(_) => KeyKind::Pkcs1,
                        rustls_pki_types::PrivateKeyDer::Sec1(_) => KeyKind::Sec1,
                        _ => KeyKind::Pkcs8,
                    },
                    der: key.secret_der().to_vec(),
                },
        ),
    )
}

/// What a pair record holds in PEM: a certificate and a key.
pub struct PairRecord {
    pub root_cert: Vec<u8>,
    pub root_privkey: Vec<u8>,
}

fn tls_error(m: &str) -> (e: Error)
    ensures
        e.says(Failure::Tls(m@)),
{
    Error::Tls(m.to_owned())
}

/// The words of refusal for a pair record that could not be had, if it could not: a negative code,
/// or no bytes.
pub open spec fn record_refused(code: i32, size: nat) -> Option<Seq<char>> {
    if code < 0 {
        Some("Cannot read pair record"@)
    } else if size == 0 {
        Some("Pair record is empty"@)
    } else {
        None
    }
}

/// Checks whether a pair record was had.
pub fn check_record(code: i32, size: usize) -> (r: Result<()>)
    ensures
        match record_refused(code, size as nat) {
            Some(words) => r matches Err(e) && e.says(Failure::Tls(words)),
            None => r is Ok,
        },
{
    if code < 0 {
        Err(tls_error("Cannot read pair record"))
    } else if size == 0 {
        Err(tls_error("Pair record is empty"))
    } else {
        Ok(())
    }
}

/// What the bytes of a pair record hold: a certificate and a key in PEM.
pub open spec fn record_in(record: Seq<u8>) -> std::result::Result<(Seq<u8>, Seq<u8>), Failure> {
    match property_list::plist_read(record) {
        None => Err(Failure::PlistThen("Pair record parsing failed: "@)),
        Some(v) => match v.dictionary() {
            None => Err(Failure::Plist("Pair record is not a dictionary"@)),
            Some(dict) => match property_list::data_at(dict, "RootCertificate"@) {
                None => Err(Failure::Tls("Missing RootCertificate"@)),
                Some(cert) => match property_list::data_at(dict, "RootPrivateKey"@) {
                    None => Err(Failure::Tls("Missing RootPrivateKey"@)),
                    Some(key) => Ok((cert, key)),
                },
            },
        },
    }
}

/// Reads a pair record.
pub fn read_pair_record(record: &[u8]) -> (r: Result<PairRecord>)
    requires
        plist_dates::dates_fit(record@),
    ensures
        match record_in(record@) {
            Ok((cert, key)) => r matches Ok(t) && t.root_cert@ == cert && t.root_privkey@ == key,
            Err(f) => r matches Err(e) && e.says(f),
        },
{
    let value = rpc::read_plist(record, "Pair record parsing failed: ")?;
    let dict = match value.as_dictionary() {
        Some(d) => d,
        None => return Err(Error::Plist("Pair record is not a dictionary".to_owned())),
    };
    let root_cert = match property_list::get_data(dict, "RootCertificate") {
        Some(d) => d,
        None => return Err(tls_error("Missing RootCertificate")),
    };
    let root_privkey = match property_list::get_data(dict, "RootPrivateKey") {
        Some(d) => d,
        None => return Err(tls_error("Missing RootPrivateKey")),
    };
    Ok(PairRecord { root_cert, root_privkey })
}

/// The identity that a certificate and a key in PEM make.
pub open spec fn identity_in(cert_pem: Seq<u8>, key_pem: Seq<u8>) -> std::result::Result<
    IdentityView,
    Failure,
> {
    match pem_certs(cert_pem) {
        None => Err(Failure::TlsThen("Certificate parsing failed: "@)),
        Some(certs) => if certs.len() == 0 {
            Err(Failure::Tls("No valid certificate found"@))
        } else {
            match pem_key(key_pem) {
                None => Err(Failure::TlsThen("Private key parsing failed: "@)),
                Some(key) => match key {
                    None => Err(Failure::Tls("No valid private key found"@)),
                    Some(key) => Ok(IdentityView { certs, key }),
                },
            }
        },
    }
}

/// The identity that certificates and a key make: there must be a certificate and a key.
pub fn make_identity(certs: Vec<Vec<u8>>, key: Option<PrivateKey>) -> (r: Result<TlsIdentity>)
    ensures
        certs@.len() == 0 ==> (r matches Err(e) && e.says(
            Failure::Tls("No valid certificate found"@),
        )),
        certs@.len() > 0 && key is None ==> (r matches Err(e) && e.says(
            Failure::Tls("No valid private key found"@),
        )),
        certs@.len() > 0 && key is Some ==> (r matches Ok(t) && t.certs == certs && Some(t.key)
            == key),
{
    if certs.len() == 0 {
        return Err(tls_error("No valid certificate found"));
    }
    match key {
        Some(key) => Ok(TlsIdentity { certs, key }),
        None => Err(tls_error("No valid private key found")),
    }
}

/// Reads the identity in a pair record's certificate and key.
pub fn read_identity(record: &PairRecord) -> (r: Result<TlsIdentity>)
    ensures
        match identity_in(record.root_cert@, record.root_privkey@) {
            Ok(identity) => r matches Ok(t) && t@ == identity,
            Err(f) => r matches Err(e) && e.says(f),
        },
{
    let certs = match read_certs(record.root_cert.as_slice()) {
        Ok(certs) => certs,
        Err(e) => {
            let words = e.to_string();
            return Err(
                Error::Tls(error::prefixed("Certificate parsing failed: ", words.as_str())),
            );
        },
    };
    if certs.len() == 0 {
        return make_identity(certs, None);
    }
    let key = match read_private_key(record.root_privkey.as_slice()) {
        Ok(key) => key,
        Err(e) => {
            let words = e.to_string();
            return Err(
                Error::Tls(error::prefixed("Private key parsing failed: ", words.as_str())),
            );
        },
    };
    make_identity(certs, key)
}

/// The identity in the bytes of a pair record.
pub fn build_tls_identity(record: &[u8]) -> (r: Result<TlsIdentity>)
    requires
        plist_dates::dates_fit(record@),
    ensures
        match record_in(record@) {
            Ok((cert, key)) => match identity_in(cert, key) {
                Ok(identity) => r matches Ok(t) && t@ == identity,
                Err(f) => r matches Err(e) && e.says(f),
            },
            Err(f) => r matches Err(e) && e.says(f),
        },
{
    let pair = read_pair_record(record)?;
    read_identity(&pair)
}

/// The identity in the bytes of a pair record, if no date keeps them from being read.
pub fn try_tls_identity(record: &[u8]) -> (r: Option<Result<TlsIdentity>>)
    ensures
        r is Some <==> plist_dates::dates_fit(record@),
        r matches Some(built) ==> (match record_in(record@) {
            Ok((cert, key)) => match identity_in(cert, key) {
                Ok(identity) => built matches Ok(t) && t@ == identity,
                Err(f) => built matches Err(e) && e.says(f),
            },
            Err(f) => built matches Err(e) && e.says(f),
        }),
{
    if plist_dates::check_dates(record) {
        Some(build_tls_identity(record))
    } else {
        None
    }
}

// ---------------------------------------------------------------------------------------------
// Failures on the way
// ---------------------------------------------------------------------------------------------

/// Where connecting failed outside the dialogue.
pub enum ConnectStage {
    FfiTask,
    NonBlocking,
    Stream,
    TlsTask,
    ServerName,
    TlsConfig,
    TlsHandshake,
}

/// What a failure with the given reason says.
pub open spec fn connect_failed(stage: ConnectStage, reason: Seq<char>) -> Failure {
    match stage {
        ConnectStage::FfiTask => Failure::TaskJoin("FFI task failed: "@ + reason),
        ConnectStage::NonBlocking => Failure::DeviceConnection(
            "Failed to set non-blocking: "@ + reason,
        ),
        ConnectStage::Stream => Failure::DeviceConnection(
            "Failed to convert to tokio TcpStream: "@ + reason,
        ),
        ConnectStage::TlsTask => Failure::TaskJoin("TLS config task failed: "@ + reason),
        ConnectStage::ServerName => Failure::Tls("ServerName creation failed: "@ + reason),
        ConnectStage::TlsConfig => Failure::Tls("rustls configuration failed: "@ + reason),
        ConnectStage::TlsHandshake => Failure::Tls("TLS handshake failed: "@ + reason),
    }
}

/// The error for a failure with the given reason.
pub fn connect_failure(stage: ConnectStage, reason: &str) -> (r: Error)
    ensures
        r.says(connect_failed(stage, reason@)),
{
    match stage {
        ConnectStage::FfiTask => Error::TaskJoin(error::prefixed("FFI task failed: ", reason)),
        ConnectStage::NonBlocking => Error::DeviceConnection(
            error::prefixed("Failed to set non-blocking: ", reason),
        ),
        ConnectStage::Stream => Error::DeviceConnection(
            error::prefixed("Failed to convert to tokio TcpStream: ", reason),
        ),
        ConnectStage::TlsTask => Error::TaskJoin(
            error::prefixed("TLS config task failed: ", reason),
        ),
        ConnectStage::ServerName => Error::Tls(
            error::prefixed("ServerName creation failed: ", reason),
        ),
        ConnectStage::TlsConfig => Error::Tls(
            error::prefixed("rustls configuration failed: ", reason),
        ),
        ConnectStage::TlsHandshake => Error::Tls(
            error::prefixed("TLS handshake failed: ", reason),
        ),
    }
}

} // verus!
