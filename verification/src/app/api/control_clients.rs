//! Requests of clients that control the server.

use vstd::prelude::*;
use vstd::string::*;

use crate::api::schema::common::{
    ControlClientRegisterParams, ControlClientStatus, ControlClientTarget, ErrorBody,
};
use crate::app::control_clients::{self, ControlClientRegistryError};
use crate::app::App;

verus! {

/// The reply that a result makes.
pub open spec fn replies(
    r: Result<ControlClientStatus, ErrorBody>,
    result: Result<ControlClientStatus, ControlClientRegistryError>,
) -> bool {
    match result {
        Ok(status) => r == Ok::<ControlClientStatus, ErrorBody>(status),
        Err(e) => r matches Err(body) && body@ == (e.code_text(), e.message_text()),
    }
}

fn reply(result: Result<ControlClientStatus, ControlClientRegistryError>) -> (r: Result<
    ControlClientStatus,
    ErrorBody,
>)
    ensures
        replies(r, result),
{
    match result {
        Ok(status) => Ok(status),
        Err(e) => Err(ErrorBody::new(e.code(), e.message())),
    }
}

impl App {
    pub fn handle_control_client_register(
        &mut self,
        params: ControlClientRegisterParams,
        now_ms: u64,
    ) -> (r: Result<ControlClientStatus, ErrorBody>)
        ensures
            ({
                let after = control_clients::registered(
                    old(self)@.control.leases,
                    params.client_id@,
                    params.access_mode,
                    now_ms,
                );
                final(self)@ == control_clients::controlled(old(self)@, after.0) && replies(
                    r,
                    control_clients::status_for(after.1, after.0),
                )
            }),
    {
        reply(self.register_control_client(params.client_id, params.access_mode, now_ms))
    }

    pub fn handle_control_client_heartbeat(
        &mut self,
        target: &ControlClientTarget,
        now_ms: u64,
    ) -> (r: Result<ControlClientStatus, ErrorBody>)
        ensures
            ({
                let after = control_clients::heard_from(
                    old(self)@.control.leases,
                    target.client_id@,
                    now_ms,
                );
                final(self)@ == control_clients::controlled(old(self)@, after.0) && replies(
                    r,
                    control_clients::status_for(after.1, after.0),
                )
            }),
    {
        reply(self.heartbeat_control_client(target.client_id.as_str(), now_ms))
    }

    pub fn handle_control_client_unregister(&mut self, target: &ControlClientTarget) -> (r: Result<
        ControlClientStatus,
        ErrorBody,
    >)
        ensures
            ({
                let after = control_clients::unregistered(
                    old(self)@.control.leases,
                    target.client_id@,
                );
                final(self)@ == control_clients::controlled(old(self)@, after.0) && replies(
                    r,
                    control_clients::status_for(after.1, after.0),
                )
            }),
    {
        reply(self.unregister_control_client(target.client_id.as_str()))
    }

    pub fn handle_control_client_status(&self) -> (r: ControlClientStatus)
        ensures
            r == self@.control.status,
    {
        self.control_client_status()
    }
}

} // verus!
