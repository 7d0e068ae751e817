//! iOS WebKit debug proxy.

pub mod device_listener;
pub mod error;
pub mod http_server;
pub mod idevice_ext;
pub mod laws;
pub mod options;
pub mod plist_dates;
pub mod port_config;
pub mod property_list;
pub mod proxy;
pub mod rpc;
pub mod seqs;
pub mod text;
pub mod webinspector;

pub use error::{Error, Result};
pub use proxy::{HttpServiceConfig, ProxyBridge};

use vstd::prelude::*;

verus! {

/// Where the simulator's WebInspector listens unless told otherwise.
pub const DEFAULT_SIM_WI_SOCKET_ADDR: &'static str = "127.0.0.1:27753";

/// Device state change listener.
pub trait DeviceListener: Send + Sync {
    /// Device connected.
    fn device_connected(&self, device_info: DeviceInfo);

    /// Device disconnected.
    fn device_disconnected(&self, device_info: DeviceInfo);

    /// Device page list changed.
    fn device_page_list_changed(&self, device_info: DeviceInfo, pages: Vec<DebuggablePageInfo>);
}

/// Device info (for device list display).
#[derive(Debug)]
pub struct DeviceInfo {
    pub device_id: String,
    pub device_name: String,
    pub device_os_version: u32,
    pub port: u16,
}

/// A [`DeviceInfo`] over characters.
pub struct InfoView {
    pub device_id: Seq<char>,
    pub device_name: Seq<char>,
    pub device_os_version: u32,
    pub port: u16,
}

impl View for DeviceInfo {
    type V = InfoView;

    open spec fn view(&self) -> InfoView {
        InfoView {
            device_id: self.device_id@,
            device_name: self.device_name@,
            device_os_version: self.device_os_version,
            port: self.port,
        }
    }
}

/// The views of a list of devices.
pub open spec fn infos_view(infos: Seq<DeviceInfo>) -> Seq<InfoView> {
    Seq::new(infos.len(), |i: int| infos[i]@)
}

impl Clone for DeviceInfo {
    fn clone(&self) -> (r: Self)
        ensures
            r@ == self@,
    {
        DeviceInfo {
            device_id: self.device_id.clone(),
            device_name: self.device_name.clone(),
            device_os_version: self.device_os_version,
            port: self.port,
        }
    }
}

/// Debuggable page info.
#[derive(Debug)]
pub struct DebuggablePageInfo {
    pub device_id: String,
    pub page_num: u32,
    pub page_type: PageType,
    pub name: String,
    pub web_socket_debugger_url: String,
    pub device_os_version: u32,
}

/// A [`DebuggablePageInfo`] over characters.
pub struct DebuggableView {
    pub device_id: Seq<char>,
    pub page_num: u32,
    pub page_type: PageType,
    pub name: Seq<char>,
    pub web_socket_debugger_url: Seq<char>,
    pub device_os_version: u32,
}

impl View for DebuggablePageInfo {
    type V = DebuggableView;

    open spec fn view(&self) -> DebuggableView {
        DebuggableView {
            device_id: self.device_id@,
            page_num: self.page_num,
            page_type: self.page_type,
            name: self.name@,
            web_socket_debugger_url: self.web_socket_debugger_url@,
            device_os_version: self.device_os_version,
        }
    }
}

impl Clone for DebuggablePageInfo {
    fn clone(&self) -> (r: Self)
        ensures
            r@ == self@,
    {
        DebuggablePageInfo {
            device_id: self.device_id.clone(),
            page_num: self.page_num,
            page_type: self.page_type,
            name: self.name.clone(),
            web_socket_debugger_url: self.web_socket_debugger_url.clone(),
            device_os_version: self.device_os_version,
        }
    }
}

/// Page type.
#[derive(Debug, Clone, Copy, PartialEq, Eq, Structural)]
pub enum PageType {
    Unknown,
    JavaScript,
    WebPage,
}

/// The three parts of a packed device OS version.
pub fn parse_device_os_version(version: u32) -> (parts: (u32, u32, u32))
    ensures
        parts.0 == version as int / 65536,
        parts.1 == (version as int / 256) % 256,
        parts.2 == version as int % 256,
{
    let major: u32 = version >> 16;
    let minor: u32 = (version >> 8) & 0xff;
    let patch: u32 = version & 0xff;
    assert(version >> 16 == version / 65536) by (bit_vector);
    assert((version >> 8) & 0xff == (version / 256) % 256) by (bit_vector);
    assert(version & 0xff == version % 256) by (bit_vector);
    (major, minor, patch)
}

} // verus!
