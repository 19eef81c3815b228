//! Which signalling server the library talks to.

use vstd::prelude::*;

verus! {

/// The signalling server used until another is set.
pub open spec fn default_server_spec() -> Seq<char> {
    "wss://129.159.21.6.nip.io"@
}

/// The default signalling server.
pub fn default_server() -> (s: &'static str)
    ensures
        s@ == default_server_spec(),
{
    "wss://129.159.21.6.nip.io"
}

/// The signalling server setting: the default until one is set, then the
/// last one set.
pub struct ServerSetting {
    url: String,
}

impl View for ServerSetting {
    type V = Seq<char>;

    closed spec fn view(&self) -> Seq<char> {
        self.url@
    }
}

impl ServerSetting {
    /// A setting that names the default server.
    pub fn new() -> (s: ServerSetting)
        ensures
            s@ == default_server_spec(),
    {
        ServerSetting { url: default_server().to_owned() }
    }
}

/// The server the library connects to.
pub fn server_url(setting: &ServerSetting) -> (url: String)
    ensures
        url@ == setting@,
{
    setting.url.clone()
}

/// Overrides the signalling server.
pub fn set_server(setting: &mut ServerSetting, url: &str)
    ensures
        final(setting)@ == url@,
{
    setting.url = url.to_owned();
}

} // verus!
