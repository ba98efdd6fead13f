//! Where the client sends its requests.
use vstd::prelude::*;
use vstd::string::StringExecFns;
use crate::text::owned;

verus! {

/// The host a page falls back to when it has no window to ask.
pub const DEFAULT_HOST: &'static str = "localhost:8080";

/// Path of the request that creates a room.
pub const CREATE_ROOM_PATH: &'static str = "/api/room/create";

/// Path of the request that joins a room.
pub const JOIN_ROOM_PATH: &'static str = "/api/room/join";

/// Talks to the server at `host`.
#[derive(Debug, Clone, PartialEq)]
pub struct ApiClientImpl {
    pub host: String,
}

/// Content type of the request bodies.
pub const JSON_CONTENT_TYPE: &'static str = "application/json";

/// A POST request to send: where, with which content type, with which body.
#[derive(Debug)]
pub struct PostRequest {
    pub url: String,
    pub content_type: &'static str,
    pub body: String,
}

impl ApiClientImpl {
    /// The POST request to `url` with the JSON text `body`.
    pub fn build_request(&self, url: &str, body: String) -> (r: PostRequest)
        ensures
            r.url@ == url@,
            r.content_type@ == JSON_CONTENT_TYPE@,
            r.body@ == body@,
    {
        PostRequest { url: owned(url), content_type: JSON_CONTENT_TYPE, body }
    }

    /// The client for the host of the page's window: the host the window
    /// reports (`window_host` is `Some` when there is a window), the default
    /// host when there is no window, or the window's error.
    pub fn new_from_window<E>(window_host: Option<Result<String, E>>) -> (r: Result<ApiClientImpl, E>)
        ensures
            match window_host {
                None => r matches Ok(c) && c.host@ == DEFAULT_HOST@,
                Some(Ok(h)) => r matches Ok(c) && c.host@ == h@,
                Some(Err(e)) => r == Err::<ApiClientImpl, E>(e),
            },
    {
        match window_host {
            None => Ok(ApiClientImpl { host: owned(DEFAULT_HOST) }),
            Some(Ok(host)) => Ok(ApiClientImpl { host }),
            Some(Err(e)) => Err(e),
        }
    }

    /// The address of the room socket.
    pub fn connect_url(&self) -> (url: String)
        ensures
            url@ == "ws://"@ + self.host@ + "/api/room/connect"@,
    {
        let mut url = owned("ws://");
        url.append(self.host.as_str());
        url.append("/api/room/connect");
        url
    }
}

} // verus!
