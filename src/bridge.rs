//! The handle on the registered native plugin and the two calls it serves.
//!
//! The host registers the native handler and performs each native call; this
//! module decides what is registered, which method is called with which JSON
//! text, and what the caller gets back.
use crate::payload::{ConnectWifiPayload, Empty};
use vstd::prelude::*;

verus! {

/// The identifier under which the native plugin package is registered.
pub const PLUGIN_IDENTIFIER: &'static str = "com.plugin.androidwifi";

/// The class of the native handler, on the platform that asks for one.
pub const ANDROID_HANDLER_NAME: &'static str = "WifiPlugin";

/// The native method that reports the current Wi-Fi connection.
pub const GET_WIFI_DETAILS_METHOD: &'static str = "getWifiDetails";

/// The native method that joins a Wi-Fi network.
pub const CONNECT_WIFI_METHOD: &'static str = "connectWifi";

/// What can go wrong, with the error that the native layer reported, as it
/// reported it.
#[derive(Debug, Clone, PartialEq, Eq)]
pub enum Error<E> {
    /// The native handler could not be registered.
    Registration(E),
    /// A native call failed: the handler is missing, the platform refused, the
    /// handler failed, or its reply could not be read.
    Invocation(E),
}

/// A reply of the native handler: its JSON text, as the handler wrote it.
#[derive(Debug, Clone, PartialEq, Eq)]
pub struct PingResponse {
    pub json: Vec<u8>,
}

/// What a call returns for the native layer's reply: the reply's text on
/// success, or the native error as an invocation error.
pub open spec fn reply_result<E>(reply: Result<Vec<u8>, E>) -> Result<PingResponse, Error<E>> {
    match reply {
        Ok(json) => Ok(PingResponse { json }),
        Err(e) => Err(Error::Invocation(e)),
    }
}

/// Turns the native layer's reply into what the caller gets: the reply
/// unchanged, or its error as an invocation error, never a partial value.
pub fn read_reply<E>(reply: Result<Vec<u8>, E>) -> (r: Result<PingResponse, Error<E>>)
    ensures
        r == reply_result(reply),
        reply is Ok <==> r is Ok,
        reply is Ok ==> r->Ok_0.json@ == reply->Ok_0@,
{
    match reply {
        Ok(json) => Ok(PingResponse { json }),
        Err(e) => Err(Error::Invocation(e)),
    }
}

/// A success reply reaches the caller with its content unchanged; a failure
/// reaches it as an invocation error carrying the native error, and never as
/// a success value.
pub proof fn lemma_reply_passes_through<E>(reply: Result<Vec<u8>, E>)
    ensures
        reply is Ok ==> reply_result(reply) is Ok && reply_result(reply)->Ok_0.json
            == reply->Ok_0,
        reply is Err ==> reply_result(reply) == Err::<PingResponse, Error<E>>(
            Error::Invocation(reply->Err_0),
        ),
{
}

/// Access to the native Wi-Fi plugin. A value exists only once the native
/// handler `H` has been registered.
pub struct Androidwifi<H> {
    handle: H,
}

/// Takes the outcome of registering the native handler: a handle on success;
/// on failure the registration error, unchanged, and no handle.
pub fn init<H, E>(registered: Result<H, E>) -> (r: Result<Androidwifi<H>, Error<E>>)
    ensures
        registered is Ok <==> r is Ok,
        registered is Ok ==> r->Ok_0.native() == registered->Ok_0,
        registered is Err ==> r == Err::<Androidwifi<H>, Error<E>>(
            Error::Registration(registered->Err_0),
        ),
{
    match registered {
        Ok(handle) => Ok(Androidwifi { handle }),
        Err(e) => Err(Error::Registration(e)),
    }
}

impl<H> Androidwifi<H> {
    /// The registered native handler.
    pub closed spec fn native(&self) -> H {
        self.handle
    }

    /// The registered native handler.
    pub fn handle(&self) -> (r: &H)
        ensures
            *r == self.native(),
    {
        &self.handle
    }

    /// Asks the native handler for the current Wi-Fi details: `invoke` is
    /// called once, with the handler, the method `getWifiDetails` and the JSON
    /// text of `payload`, and its reply is read by [`read_reply`].
    pub fn get_wifi_details<E, F>(&self, payload: Empty, invoke: F) -> (r: Result<
        PingResponse,
        Error<E>,
    >) where F: FnOnce(&H, &'static str, Vec<u8>) -> Result<Vec<u8>, E>
        requires
            forall|body: Vec<u8>|
                body@ == payload.json() ==> #[trigger] invoke.requires(
                    (&self.native(), GET_WIFI_DETAILS_METHOD, body),
                ),
        ensures
            exists|body: Vec<u8>, reply: Result<Vec<u8>, E>|
                body@ == payload.json() && #[trigger] invoke.ensures(
                    (&self.native(), GET_WIFI_DETAILS_METHOD, body),
                    reply,
                ) && r == reply_result(reply),
    {
        let body = payload.to_json();
        let ghost sent = body;
        assert(invoke.requires((&self.native(), GET_WIFI_DETAILS_METHOD, sent)));
        let reply = invoke(&self.handle, GET_WIFI_DETAILS_METHOD, body);
        let r = read_reply(reply);
        assert(invoke.ensures((&self.native(), GET_WIFI_DETAILS_METHOD, sent), reply));
        r
    }

    /// Asks the native handler to join the network named in `payload`:
    /// `invoke` is called once, with the handler, the method `connectWifi` and
    /// the JSON text of `payload`, and its reply is read by [`read_reply`].
    pub fn connect_wifi<E, F>(&self, payload: ConnectWifiPayload, invoke: F) -> (r: Result<
        PingResponse,
        Error<E>,
    >) where F: FnOnce(&H, &'static str, Vec<u8>) -> Result<Vec<u8>, E>
        requires
            forall|body: Vec<u8>|
                body@ == payload.json() ==> #[trigger] invoke.requires(
                    (&self.native(), CONNECT_WIFI_METHOD, body),
                ),
        ensures
            exists|body: Vec<u8>, reply: Result<Vec<u8>, E>|
                body@ == payload.json() && #[trigger] invoke.ensures(
                    (&self.native(), CONNECT_WIFI_METHOD, body),
                    reply,
                ) && r == reply_result(reply),
    {
        let body = payload.to_json();
        let ghost sent = body;
        assert(invoke.requires((&self.native(), CONNECT_WIFI_METHOD, sent)));
        let reply = invoke(&self.handle, CONNECT_WIFI_METHOD, body);
        let r = read_reply(reply);
        assert(invoke.ensures((&self.native(), CONNECT_WIFI_METHOD, sent), reply));
        r
    }
}

} // verus!
