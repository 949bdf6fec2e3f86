use vstd::prelude::*;

verus! {

#[derive(Debug)]
pub struct PingParams {}

impl Default for PingParams {
    fn default() -> (r: Self)
        ensures
            r == (PingParams {  }),
    {
        PingParams {  }
    }
}

#[derive(Debug)]
pub struct ServerLiveHandoffParams {
    pub import_exe: Option<String>,
    pub expected_protocol: Option<u32>,
    pub expected_version: Option<String>,
}

impl Default for ServerLiveHandoffParams {
    fn default() -> (r: Self)
        ensures
            r.import_exe is None,
            r.expected_protocol is None,
            r.expected_version is None,
    {
        ServerLiveHandoffParams { import_exe: None, expected_protocol: None, expected_version: None }
    }
}

#[derive(Debug, Clone, Copy, PartialEq, Eq, Structural)]
pub struct ServerCapabilities {
    pub live_handoff: bool,
    pub detached_server_daemon: bool,
    pub peer_federation: bool,
    pub remote_presentation: bool,
}

} // verus!
