//! A bridge to the native Wi-Fi plugin of a mobile host: it writes the
//! requests, names the native methods, and reads the replies.
mod bridge;
mod payload;

pub use bridge::{
    init, read_reply, Androidwifi, Error, PingResponse, ANDROID_HANDLER_NAME,
    CONNECT_WIFI_METHOD, GET_WIFI_DETAILS_METHOD, PLUGIN_IDENTIFIER,
};
pub use payload::{ConnectWifiPayload, Empty};
