//! The local JSON API: what it listens on, what it understands and what it answers.
use crate::text;
use vstd::prelude::*;

pub mod payload;
pub mod protocol;
pub mod response;
pub mod server;

verus! {

pub const API_HOST: &'static str = "127.0.0.1";

pub const API_PORT: u16 = 2606;

/// Where the API listens.
#[derive(Debug)]
pub struct ApiRuntime {
    pub bind_address: String,
}

impl ApiRuntime {
    #[must_use]
    pub fn new() -> (api: Self)
        ensures
            api.bind_address@ == API_HOST@ + seq![':'] + text::decimal(API_PORT as nat),
    {
        let mut bind_address = API_HOST.to_owned();
        bind_address.push(':');
        text::push_decimal(&mut bind_address, API_PORT as u64);
        assert(bind_address@ =~= API_HOST@ + seq![':'] + text::decimal(API_PORT as nat));
        ApiRuntime { bind_address }
    }

    pub fn new_for_bind_address(bind_address: String) -> (api: Self)
        ensures
            api.bind_address == bind_address,
    {
        ApiRuntime { bind_address }
    }

    #[must_use]
    pub fn startup_note(&self) -> (note: String)
        ensures
            note@
                == "local API runtime serving JSON snapshots and interactive WebSocket commands on ws://"@
                + self.bind_address@ + "/ with HTTP snapshot fallback on http://"@
                + self.bind_address@ + "/"@,
    {
        let mut note =
            "local API runtime serving JSON snapshots and interactive WebSocket commands on ws://".to_owned();
        note.append(&self.bind_address);
        note.append("/ with HTTP snapshot fallback on http://");
        note.append(&self.bind_address);
        note.append("/");
        note
    }
}

} // verus!
