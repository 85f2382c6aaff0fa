use tauri_plugin_androidwifi::{
    init, read_reply, Androidwifi, ConnectWifiPayload, Empty, Error, PingResponse,
    ANDROID_HANDLER_NAME, CONNECT_WIFI_METHOD, GET_WIFI_DETAILS_METHOD, PLUGIN_IDENTIFIER,
};

fn registered() -> Androidwifi<u32> {
    match init::<u32, String>(Ok(7)) {
        Ok(w) => w,
        Err(_) => panic!("registration failed"),
    }
}

fn connect_json(ssid: &str) -> Vec<u8> {
    ConnectWifiPayload::new(ssid.to_string()).to_json()
}

#[test]
fn connect_payload_plain_name() {
    assert_eq!(connect_json("HomeNet"), br#"{"ssid":"HomeNet"}"#.to_vec());
}

#[test]
fn connect_payload_empty_name() {
    assert_eq!(connect_json(""), br#"{"ssid":""}"#.to_vec());
}

#[test]
fn connect_payload_escapes_quote_backslash_and_controls() {
    let json = connect_json("a\"b\\c\n\t\r\u{8}\u{c}\u{1}\u{1f}");
    let expected = br#"{"ssid":"a\"b\\c\n\t\r\b\f\u0001\u001f"}"#.to_vec();
    assert_eq!(json, expected);
}

#[test]
fn connect_payload_keeps_non_ascii_and_spaces() {
    let name = "Café Wi-Fi 5G ☕ /x";
    let mut expected = br#"{"ssid":""#.to_vec();
    expected.extend_from_slice(name.as_bytes());
    expected.extend_from_slice(br#""}"#);
    assert_eq!(connect_json(name), expected);
}

#[test]
fn connect_payload_reads_back_as_json() {
    for name in ["HomeNet", "", "q\"uo\\te", "line\nbreak\u{0}", "Café ☕", "{\"ssid\":1}"] {
        let json = connect_json(name);
        let value: serde_json::Value = serde_json::from_slice(&json).unwrap();
        let object = value.as_object().unwrap();
        assert_eq!(object.len(), 1);
        assert_eq!(object.get("ssid").and_then(|v| v.as_str()), Some(name));
    }
}

#[test]
fn connect_payload_keeps_the_name() {
    let p = ConnectWifiPayload::new("  Office  ".to_string());
    assert_eq!(p.ssid, "  Office  ");
}

#[test]
fn empty_payload_is_an_empty_object() {
    assert_eq!(Empty {}.to_json(), b"{}".to_vec());
}

#[test]
fn empty_payload_is_the_same_everywhere() {
    let a = Empty {};
    let b = Empty::default();
    assert_eq!(a.to_json(), b.to_json());
    assert_eq!(a.to_json(), a.to_json());
}

#[test]
fn fixed_names() {
    assert_eq!(PLUGIN_IDENTIFIER, "com.plugin.androidwifi");
    assert_eq!(ANDROID_HANDLER_NAME, "WifiPlugin");
    assert_eq!(GET_WIFI_DETAILS_METHOD, "getWifiDetails");
    assert_eq!(CONNECT_WIFI_METHOD, "connectWifi");
}

#[test]
fn init_keeps_the_handle() {
    let w = registered();
    assert_eq!(*w.handle(), 7);
}

#[test]
fn init_failure_gives_no_handle() {
    let r = init::<u32, String>(Err("no webview".to_string()));
    assert!(matches!(r, Err(Error::Registration(ref e)) if e == "no webview"));
}

#[test]
fn read_reply_success_is_unchanged() {
    let reply = br#"{"ssid":"HomeNet","rssi":-40}"#.to_vec();
    let r = read_reply::<String>(Ok(reply.clone()));
    assert_eq!(r, Ok(PingResponse { json: reply }));
}

#[test]
fn read_reply_failure_is_invocation_error() {
    let r = read_reply::<String>(Err("denied".to_string()));
    assert_eq!(r, Err(Error::Invocation("denied".to_string())));
}

#[test]
fn get_wifi_details_sends_empty_request() {
    let w = registered();
    let mut seen: Option<(u32, String, Vec<u8>)> = None;
    let r = w.get_wifi_details(Empty {}, |h: &u32, m: &'static str, body: Vec<u8>| {
        seen = Some((*h, m.to_string(), body));
        Ok::<Vec<u8>, String>(br#"{"ssid":"HomeNet"}"#.to_vec())
    });
    assert_eq!(r, Ok(PingResponse { json: br#"{"ssid":"HomeNet"}"#.to_vec() }));
    assert_eq!(seen, Some((7, "getWifiDetails".to_string(), b"{}".to_vec())));
}

#[test]
fn get_wifi_details_failure() {
    let w = registered();
    let r = w.get_wifi_details(Empty {}, |_: &u32, _: &'static str, _: Vec<u8>| {
        Err::<Vec<u8>, String>("permission denied".to_string())
    });
    assert_eq!(r, Err(Error::Invocation("permission denied".to_string())));
}

#[test]
fn connect_wifi_round_trip() {
    let w = registered();
    let mut seen: Option<(String, Vec<u8>)> = None;
    let payload = ConnectWifiPayload::new("HomeNet".to_string());
    let r = w.connect_wifi(payload, |_: &u32, m: &'static str, body: Vec<u8>| {
        seen = Some((m.to_string(), body));
        Ok::<Vec<u8>, String>(br#"{"status":"ok"}"#.to_vec())
    });
    assert_eq!(r, Ok(PingResponse { json: br#"{"status":"ok"}"#.to_vec() }));
    assert_eq!(seen, Some(("connectWifi".to_string(), br#"{"ssid":"HomeNet"}"#.to_vec())));

    let payload = ConnectWifiPayload::new("NoSuchNetwork".to_string());
    let r = w.connect_wifi(payload, |_: &u32, _: &'static str, _: Vec<u8>| {
        Err::<Vec<u8>, String>("network unreachable".to_string())
    });
    assert_eq!(r, Err(Error::Invocation("network unreachable".to_string())));
}
