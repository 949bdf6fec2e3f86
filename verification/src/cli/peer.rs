//! `herdr peer`.

use vstd::prelude::*;
use vstd::string::*;

use super::{HelpTopic, Parsed};
use crate::api::schema::common::{Method, Request};
use crate::api::schema::peers::PeerTarget;
use crate::json::{self, Json};
use crate::text;

verus! {

pub open spec fn health_usage() -> Seq<char> {
    "usage: herdr peer health <peer_id>"@
}

pub open spec fn unregister_usage() -> Seq<char> {
    "usage: herdr peer unregister <peer_id>"@
}

fn peer_list() -> (r: Request)
    ensures
        r.id@ == "cli:peer:list"@ && (r.method matches Method::PeerList(p)
            && json::is_empty_object(p)),
{
    Request {
        id: "cli:peer:list".to_string(),
        method: Method::PeerList(Json::Object(Vec::new())),
    }
}

fn peer_health(peer_id: &str) -> (r: Request)
    ensures
        r.id@ == "cli:peer:health"@ && (r.method matches Method::PeerHealth(t) && t.peer_id@
            == peer_id@),
{
    Request {
        id: "cli:peer:health".to_string(),
        method: Method::PeerHealth(PeerTarget { peer_id: peer_id.to_string() }),
    }
}

fn peer_unregister(peer_id: &str) -> (r: Request)
    ensures
        r.id@ == "cli:peer:unregister"@ && (r.method matches Method::PeerUnregister(t)
            && t.peer_id@ == peer_id@),
{
    Request {
        id: "cli:peer:unregister".to_string(),
        method: Method::PeerUnregister(PeerTarget { peer_id: peer_id.to_string() }),
    }
}

/// The request that `peer` makes.
pub fn run_peer_command(args: &Vec<String>) -> (r: Parsed<Request>)
    ensures
        if args@.len() == 1 && args@[0]@ == "list"@ {
            r matches Parsed::Run(q) && q.id@ == "cli:peer:list"@ && (q.method matches
                Method::PeerList(p) && json::is_empty_object(p))
        } else if args@.len() > 0 && args@[0]@ == "health"@ {
            if args@.len() == 2 {
                r matches Parsed::Run(q) && q.id@ == "cli:peer:health"@ && (q.method matches
                    Method::PeerHealth(t) && t.peer_id@ == args@[1]@)
            } else {
                super::is_exit(r, 2, seq![health_usage()])
            }
        } else if args@.len() > 0 && args@[0]@ == "unregister"@ {
            if args@.len() == 2 {
                r matches Parsed::Run(q) && q.id@ == "cli:peer:unregister"@ && (q.method matches
                    Method::PeerUnregister(t) && t.peer_id@ == args@[1]@)
            } else {
                super::is_exit(r, 2, seq![unregister_usage()])
            }
        } else {
            super::is_help(
                r,
                HelpTopic::Peer,
                if args@.len() > 0 && super::help_flag(args@[0]@) {
                    0
                } else {
                    2
                },
            )
        },
{
    let n: usize = args.len();
    if n == 0 {
        return Parsed::Help { topic: HelpTopic::Peer, code: 2 };
    }
    let command = args[0].as_str();
    if n == 1 && text::str_eq(command, "list") {
        return Parsed::Run(peer_list());
    }
    if text::str_eq(command, "health") {
        if n != 2 {
            return super::exit1(2, "usage: herdr peer health <peer_id>");
        }
        return Parsed::Run(peer_health(args[1].as_str()));
    }
    if text::str_eq(command, "unregister") {
        if n != 2 {
            return super::exit1(2, "usage: herdr peer unregister <peer_id>");
        }
        return Parsed::Run(peer_unregister(args[1].as_str()));
    }
    if super::is_help_flag(command) {
        return Parsed::Help { topic: HelpTopic::Peer, code: 0 };
    }
    Parsed::Help { topic: HelpTopic::Peer, code: 2 }
}

} // verus!
