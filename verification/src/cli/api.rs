//! `herdr api`.

use vstd::prelude::*;
use vstd::string::*;

use super::{HelpTopic, Parsed};
use crate::api::schema::common::{Method, Request};
use crate::app::sorting;
use crate::json::{self, Json};
use crate::text;

verus! {

pub enum ApiCommand {
    Schema(Vec<String>),
    Snapshot(Vec<String>),
    Bridge(Vec<String>),
}

pub fn run_api_command(args: &Vec<String>) -> (r: Parsed<ApiCommand>)
    ensures
        if args@.len() == 0 {
            super::is_help(r, HelpTopic::Api, 2)
        } else if args@[0]@ == "schema"@ {
            r matches Parsed::Run(ApiCommand::Schema(rest)) && rest@ == args@.skip(1)
        } else if args@[0]@ == "snapshot"@ {
            r matches Parsed::Run(ApiCommand::Snapshot(rest)) && rest@ == args@.skip(1)
        } else if args@[0]@ == "bridge"@ {
            r matches Parsed::Run(ApiCommand::Bridge(rest)) && rest@ == args@.skip(1)
        } else {
            super::is_help(
                r,
                HelpTopic::Api,
                if super::help_flag(args@[0]@) {
                    0
                } else {
                    2
                },
            )
        },
{
    if args.len() == 0 {
        return Parsed::Help { topic: HelpTopic::Api, code: 2 };
    }
    let name = args[0].as_str();
    if text::str_eq(name, "schema") {
        Parsed::Run(ApiCommand::Schema(super::rest(args, 1)))
    } else if text::str_eq(name, "snapshot") {
        Parsed::Run(ApiCommand::Snapshot(super::rest(args, 1)))
    } else if text::str_eq(name, "bridge") {
        Parsed::Run(ApiCommand::Bridge(super::rest(args, 1)))
    } else if super::is_help_flag(name) {
        Parsed::Help { topic: HelpTopic::Api, code: 0 }
    } else {
        Parsed::Help { topic: HelpTopic::Api, code: 2 }
    }
}

// ---------------------------------------------------------------------------
// The bridge

/// Whether the bridge adds the shell's context to requests.
pub fn api_bridge(args: &Vec<String>) -> (r: Parsed<bool>)
    ensures
        if args@.len() == 0 {
            r == Parsed::<bool>::Run(false)
        } else if args@.len() == 1 && args@[0]@ == "--shell-context"@ {
            r == Parsed::<bool>::Run(true)
        } else {
            super::is_exit(r, 2, seq!["usage: herdr api bridge [--shell-context]"@])
        },
{
    if args.len() == 0 {
        Parsed::Run(false)
    } else if args.len() == 1 && text::str_eq(args[0].as_str(), "--shell-context") {
        Parsed::Run(true)
    } else {
        super::exit1(2, "usage: herdr api bridge [--shell-context]")
    }
}

/// What a variable of the shell holds, as far as it is passed on: the last value
/// of that name, unless the name is one of Herdr's own.
pub open spec fn inherits(env: Seq<(String, String)>, name: Seq<char>) -> Option<Seq<char>>
    decreases env.len(),
{
    if env.len() == 0 {
        None
    } else if env.last().0@ == name && !text::has_prefix(name, "HERDR_"@) {
        Some(env.last().1@)
    } else {
        inherits(env.drop_last(), name)
    }
}

pub open spec fn holds_text(v: Option<Json>, value: Seq<char>) -> bool {
    v matches Some(Json::Text(s)) && s@ == value
}

/// What a request says of a variable wins over what the shell says.
pub open spec fn variable_set(
    merged: Seq<(String, Json)>,
    explicit: Seq<(String, Json)>,
    env: Seq<(String, String)>,
    name: Seq<char>,
) -> bool {
    match json::field(explicit, name) {
        Some(v) => json::field(merged, name) == Some(v),
        None => match inherits(env, name) {
            Some(value) => holds_text(json::field(merged, name), value),
            None => json::field(merged, name) is None,
        },
    }
}

pub open spec fn members_of(v: Option<Json>) -> Seq<(String, Json)> {
    match v {
        Some(Json::Object(m)) => m@,
        _ => Seq::empty(),
    }
}

/// `merged` are the parameters with the shell's directory, where they name none,
/// and its variables.
pub open spec fn in_context(
    merged: Seq<(String, Json)>,
    params: Seq<(String, Json)>,
    cwd: Seq<char>,
    env: Seq<(String, String)>,
) -> bool {
    &&& match json::field(params, "cwd"@) {
        None | Some(Json::Null) => holds_text(json::field(merged, "cwd"@), cwd),
        Some(v) => json::field(merged, "cwd"@) == Some(v),
    }
    &&& json::field(merged, "env"@) is Some
    &&& json::field(merged, "env"@)->0 is Object
    &&& forall|name: Seq<char>|
        #![trigger json::field(members_of(json::field(merged, "env"@)), name)]
        variable_set(
            members_of(json::field(merged, "env"@)),
            members_of(json::field(params, "env"@)),
            env,
            name,
        )
    &&& forall|name: Seq<char>|
        name != "cwd"@ && name != "env"@ ==> #[trigger] json::field(merged, name) == json::field(
            params,
            name,
        )
}

/// The request starts a terminal of its own at another host.
pub open spec fn starts_terminal(request: Json) -> bool {
    json::as_text(json::member(request, "method"@)) == Some("terminal.delegate.create"@)
}

fn inherited(env: &Vec<(String, String)>) -> (r: Vec<(String, Json)>)
    ensures
        forall|name: Seq<char>| #[trigger]
            json::field(r@, name) is Some == inherits(env@, name) is Some,
        forall|name: Seq<char>|
            inherits(env@, name) matches Some(value) ==> holds_text(
                #[trigger] json::field(r@, name),
                value,
            ),
        forall|depth: nat| #[trigger] json::members_shallow(r@, depth),
{
    let mut out: Vec<(String, Json)> = Vec::new();
    let ghost all = env@;
    let mut i: usize = 0;
    assert(all.take(0) =~= Seq::<(String, String)>::empty());
    while i < env.len()
        invariant
            i <= all.len(),
            all == env@,
            forall|name: Seq<char>| #[trigger]
                json::field(out@, name) is Some == inherits(all.take(i as int), name) is Some,
            forall|name: Seq<char>|
                inherits(all.take(i as int), name) matches Some(value) ==> holds_text(
                    #[trigger] json::field(out@, name),
                    value,
                ),
            forall|depth: nat| #[trigger] json::members_shallow(out@, depth),
        decreases all.len() - i,
    {
        let key = env[i].0.as_str();
        assert(all.take(i as int + 1).drop_last() =~= all.take(i as int));
        assert(all.take(i as int + 1).last() == all[i as int]);
        if !text::prefixed(key, "HERDR_") {
            let ghost before = out@;
            json::put_member(&mut out, env[i].0.clone(), Json::Text(env[i].1.clone()));
            assert forall|depth: nat| #[trigger] json::members_shallow(out@, depth) by {
                assert(json::members_shallow(before, depth));
            }
        }
        i += 1;
    }
    assert(all.take(all.len() as int) =~= all);
    out
}

/// Puts every member of `explicit` over those of `base`.
fn overlay(base: Vec<(String, Json)>, explicit: Vec<(String, Json)>) -> (r: Vec<(String, Json)>)
    ensures
        forall|name: Seq<char>| #[trigger]
            json::field(r@, name) == match json::field(explicit@, name) {
                Some(v) => Some(v),
                None => json::field(base@, name),
            },
        forall|depth: nat| #[trigger]
            json::members_shallow(explicit@, depth) && json::members_shallow(base@, depth)
                ==> json::members_shallow(r@, depth),
{
    let mut out = base;
    let mut rest = explicit;
    let ghost all = rest@;
    let ghost under = out@;
    assert(all.skip(all.len() as int) =~= Seq::<(String, Json)>::empty());
    loop
        invariant
            rest@ == all.take(rest@.len() as int),
            rest@.len() <= all.len(),
            forall|name: Seq<char>| #[trigger]
                json::field(out@, name) == match json::field(
                    all.skip(rest@.len() as int),
                    name,
                ) {
                    Some(v) => Some(v),
                    None => json::field(under, name),
                },
            forall|depth: nat| #[trigger]
                json::members_shallow(all, depth) && json::members_shallow(under, depth)
                    ==> json::members_shallow(out@, depth),
        ensures
            rest@.len() == 0,
        decreases rest@.len(),
    {
        let ghost k = rest@.len();
        match rest.pop() {
            None => {
                break;
            },
            Some((name, value)) => {
                assert(rest@ =~= all.take(k - 1));
                assert(all.skip(k - 1)[0] == all[k - 1]);
                assert(all.skip(k - 1).skip(1) =~= all.skip(k as int));
                let ghost before = out@;
                json::put_member(&mut out, name, value);
                assert forall|depth: nat| #[trigger]
                    json::members_shallow(all, depth) && json::members_shallow(
                        under,
                        depth,
                    ) implies json::members_shallow(out@, depth) by {
                    assert(json::members_shallow(before, depth));
                    assert(json::shallow(all[k - 1].1, depth));
                }
            },
        }
    }
    assert(all.skip(0) =~= all);
    out
}

fn add_context(
    params: Vec<(String, Json)>,
    cwd: &str,
    env: &Vec<(String, String)>,
) -> (r: Vec<(String, Json)>)
    ensures
        in_context(r@, params@, cwd@, env@),
        forall|depth: nat| #[trigger]
            json::members_shallow(params@, depth) && depth > 0 ==> json::members_shallow(r@, depth),
{
    proof {
        reveal_strlit("cwd");
        reveal_strlit("env");
        assert("cwd"@ != "env"@) by {
            assert("cwd"@[0] != "env"@[0]);
        }
    }
    let mut out = params;
    let ghost given = out@;
    if json::field_is_null(&out, "cwd") {
        json::put_member(&mut out, "cwd".to_string(), Json::Text(cwd.to_string()));
    }
    let ghost dated = out@;
    let base = inherited(env);
    let explicit = match json::take_member(&mut out, "env") {
        Some(Json::Object(members)) => members,
        _ => Vec::new(),
    };
    assert(explicit@ =~= members_of(json::field(given, "env"@)));
    let ghost left = out@;
    let merged = overlay(base, explicit);
    json::put_member(&mut out, "env".to_string(), Json::Object(merged));
    assert(members_of(json::field(out@, "env"@)) == merged@);
    assert forall|name: Seq<char>|
        #![trigger json::field(members_of(json::field(out@, "env"@)), name)]
        variable_set(
            members_of(json::field(out@, "env"@)),
            members_of(json::field(given, "env"@)),
            env@,
            name,
        ) by {
        assert(json::field(merged@, name) == match json::field(explicit@, name) {
            Some(v) => Some(v),
            None => json::field(base@, name),
        });
        assert(json::field(base@, name) is Some == inherits(env@, name) is Some);
    }
    assert forall|depth: nat| #[trigger]
        json::members_shallow(given, depth) && depth > 0 implies json::members_shallow(
        out@,
        depth,
    ) by {
        let below = (depth - 1) as nat;
        assert(json::members_shallow(dated, depth));
        assert(json::members_shallow(left, depth));
        assert(json::members_shallow(base@, below));
        assert(json::members_shallow(explicit@, below));
        assert(json::members_shallow(merged@, below));
        assert(json::shallow(Json::Object(merged), depth));
    }
    out
}

/// `merged` is the request in the shell's context.
pub open spec fn request_in_context(
    merged: Json,
    request: Json,
    params: Seq<(String, Json)>,
    cwd: Seq<char>,
    env: Seq<(String, String)>,
) -> bool {
    &&& merged is Object
    &&& json::member_at(merged, "params"@) matches Some(Json::Object(p)) && in_context(
        p@,
        params,
        cwd,
        env,
    )
    &&& forall|name: Seq<char>|
        name != "params"@ ==> #[trigger] json::member_at(merged, name) == json::member_at(
            request,
            name,
        )
}

/// A request that starts a terminal elsewhere takes the shell's directory and its
/// variables along; any other request stays as it is (none).
pub fn with_shell_context(request: Json, cwd: &str, env: &Vec<(String, String)>) -> (r: Result<
    Option<Json>,
    String,
>)
    ensures
        if !starts_terminal(request) {
            r == Ok::<Option<Json>, String>(None)
        } else {
            match json::member_at(request, "params"@) {
                Some(Json::Object(params)) => r matches Ok(Some(merged)) && request_in_context(
                    merged,
                    request,
                    params@,
                    cwd@,
                    env@,
                ),
                _ => r matches Err(e) && e@ == "terminal.delegate.create requires object params"@,
            }
        },
        r matches Ok(Some(merged)) ==> forall|depth: nat| #[trigger]
            json::shallow(request, depth) && depth > 2 ==> json::shallow(merged, depth),
{
    let fresh = match request.text_member("method") {
        Some(method) => text::str_eq(method, "terminal.delegate.create"),
        None => false,
    };
    if !fresh {
        return Ok(None);
    }
    match request {
        Json::Object(members) => {
            let mut members = members;
            let ghost given = members@;
            match json::take_member(&mut members, "params") {
                Some(Json::Object(params)) => {
                    let ghost left = members@;
                    let merged = add_context(params, cwd, env);
                    json::put_member(&mut members, "params".to_string(), Json::Object(merged));
                    assert forall|depth: nat| #[trigger]
                        json::shallow(request, depth) && depth > 2 implies json::shallow(
                        Json::Object(members),
                        depth,
                    ) by {
                        let below = (depth - 1) as nat;
                        assert(json::members_shallow(given, below));
                        assert(json::members_shallow(left, below));
                        assert(json::shallow(Json::Object(params), below));
                        assert(json::members_shallow(params@, (below - 1) as nat));
                        assert(json::members_shallow(merged@, (below - 1) as nat));
                        assert(json::shallow(Json::Object(merged), below));
                        assert(json::members_shallow(members@, below));
                    }
                    Ok(Some(Json::Object(members)))
                },
                _ => Err("terminal.delegate.create requires object params".to_string()),
            }
        },
        _ => Err("terminal.delegate.create requires object params".to_string()),
    }
}

/// A request that starts a terminal elsewhere takes the shell's directory and its
/// variables along. It is written anew, as a line; any other request stays as it
/// is, to the letter.
pub fn inject_terminal_delegate_shell_context(
    request: &str,
    cwd: &str,
    env: &Vec<(String, String)>,
) -> (r: Result<String, String>)
    ensures
        match json::json_document(request@) {
            Err(e) => r matches Err(x) && x@ == e,
            Ok(d) => exists|value: Json| #[trigger]
                json::json_view(value) == d && if !starts_terminal(value) {
                    r matches Ok(s) && s@ == request@
                } else {
                    match json::member_at(value, "params"@) {
                        Some(Json::Object(params)) => exists|merged: Json|
                            r matches Ok(s) && s@ == (#[trigger] json::json_text(
                                json::json_view(merged),
                            )).push('\n') && request_in_context(
                                merged,
                                value,
                                params@,
                                cwd@,
                                env@,
                            ),
                        _ => r matches Err(e) && e@
                            == "terminal.delegate.create requires object params"@,
                    }
                },
        },
{
    let value = match json::read_json(request) {
        Ok(value) => value,
        Err(e) => return Err(e),
    };
    assert(json::json_document(request@) == Ok::<json::JsonView, Seq<char>>(
        json::json_view(value),
    ));
    match with_shell_context(value, cwd, env) {
        Err(e) => Err(e),
        Ok(None) => Ok(request.to_string()),
        Ok(Some(merged)) => {
            assert(json::shallow(value, json::MAX_READ_DEPTH as nat));
            proof {
                json::lemma_shallower(
                    merged,
                    json::MAX_READ_DEPTH as nat,
                    json::MAX_WRITE_DEPTH as nat,
                );
            }
            let mut line = json::write_json(&merged);
            line.append("\n");
            proof {
                reveal_strlit("\n");
                assert(line@ =~= json::json_text(json::json_view(merged)).push('\n'));
            }
            Ok(line)
        },
    }
}

// ---------------------------------------------------------------------------
// The schema

pub enum SchemaCommand {
    Summary,
    Full,
    WriteTo(String),
}

/// What `api schema` prints or writes.
pub fn api_schema(args: &Vec<String>) -> (r: Parsed<SchemaCommand>)
    ensures
        if args@.len() == 0 {
            r == Parsed::<SchemaCommand>::Run(SchemaCommand::Summary)
        } else if args@.len() == 1 && args@[0]@ == "--json"@ {
            r == Parsed::<SchemaCommand>::Run(SchemaCommand::Full)
        } else if args@.len() == 2 && args@[0]@ == "--output"@ {
            r matches Parsed::Run(SchemaCommand::WriteTo(path)) && path@ == args@[1]@
        } else if args@.len() == 1 && args@[0]@ == "--output"@ {
            super::is_exit(r, 2, seq!["missing value for --output"@])
        } else if args@.len() == 1 && super::help_flag(args@[0]@) {
            super::is_help(r, HelpTopic::ApiSchema, 0)
        } else if args@.len() == 1 && text::has_prefix(args@[0]@, "-"@) {
            super::is_exit(r, 2, seq!["unknown option: "@ + args@[0]@])
        } else {
            super::is_help(r, HelpTopic::ApiSchema, 2)
        },
{
    let n: usize = args.len();
    if n == 0 {
        return Parsed::Run(SchemaCommand::Summary);
    }
    let flag = args[0].as_str();
    if n == 2 && text::str_eq(flag, "--output") {
        return Parsed::Run(SchemaCommand::WriteTo(args[1].clone()));
    }
    if n == 1 {
        if text::str_eq(flag, "--json") {
            return Parsed::Run(SchemaCommand::Full);
        }
        if text::str_eq(flag, "--output") {
            return super::exit1(2, "missing value for --output");
        }
        if super::is_help_flag(flag) {
            return Parsed::Help { topic: HelpTopic::ApiSchema, code: 0 };
        }
        if text::prefixed(flag, "-") {
            return super::exit1(2, super::concat("unknown option: ", flag).as_str());
        }
    }
    Parsed::Help { topic: HelpTopic::ApiSchema, code: 2 }
}

/// The request that `api snapshot` makes.
pub fn api_snapshot(args: &Vec<String>) -> (r: Parsed<Request>)
    ensures
        if args@.len() == 0 {
            r matches Parsed::Run(q) && q.id@ == "cli:api:snapshot"@ && (q.method matches
                Method::SessionSnapshot(p) && json::is_empty_object(p))
        } else {
            super::is_exit(r, 2, seq!["usage: herdr api snapshot"@])
        },
{
    if args.len() > 0 {
        return super::exit1(2, "usage: herdr api snapshot");
    }
    Parsed::Run(
        Request {
            id: "cli:api:snapshot".to_string(),
            method: Method::SessionSnapshot(Json::Object(Vec::new())),
        },
    )
}

pub open spec fn as_u64(v: Json) -> Option<nat> {
    match v {
        Json::Number(s) => text::parsed_uint(s@, u64::MAX as nat),
        _ => None,
    }
}

pub open spec fn member_names(members: Seq<(String, Json)>) -> Seq<Seq<char>> {
    members.map_values(|row: (String, Json)| row.0@)
}

/// A few lines on the schema, or what it lacks.
pub open spec fn summary(schema: Json) -> Result<Seq<char>, Seq<char>> {
    match (
        as_u64(json::member(schema, "protocol"@)),
        as_u64(json::member(schema, "schema_version"@)),
        json::member(schema, "schemas"@),
    ) {
        (None, _, _) => Err("API schema is missing protocol"@),
        (Some(_), None, _) => Err("API schema is missing schema_version"@),
        (Some(protocol), Some(version), Json::Object(schemas)) => Ok(
            "Herdr API schema\nprotocol: "@ + text::dec(protocol) + "\nschema_version: "@
                + text::dec(version) + "\nschemas: "@ + text::listed(
                sorting::ordered(member_names(schemas@)),
            )
                + "\n\nUse `herdr api schema --json` to print the full schema.\nUse `herdr api schema --output PATH` to write it to a file.\n"@,
        ),
        (Some(_), Some(_), _) => Err("API schema is missing schemas"@),
    }
}

fn number_member(v: &Json, name: &str) -> (r: Option<u64>)
    ensures
        match r {
            Some(n) => as_u64(json::member(*v, name@)) == Some(n as nat),
            None => as_u64(json::member(*v, name@)) is None,
        },
{
    match v.get(name) {
        Some(Json::Number(s)) => text::parse_uint(s.as_str(), u64::MAX),
        _ => None,
    }
}

fn names_of(members: &Vec<(String, Json)>) -> (r: Vec<String>)
    ensures
        text::views(r@) == member_names(members@),
{
    let mut out: Vec<String> = Vec::new();
    let mut i: usize = 0;
    while i < members.len()
        invariant
            i <= members@.len(),
            out@.len() == i,
            forall|k: int| 0 <= k < i ==> (#[trigger] out@[k])@ == members@[k].0@,
        decreases members@.len() - i,
    {
        out.push(members[i].0.clone());
        i += 1;
    }
    assert(text::views(out@) =~= member_names(members@));
    out
}

/// A few lines on a schema that was read.
pub fn summarize_schema(schema: &Json) -> (r: Result<String, String>)
    ensures
        text::outcome(r) == summary(*schema),
{
    let protocol: u64 = match number_member(schema, "protocol") {
        Some(n) => n,
        None => return Err("API schema is missing protocol".to_string()),
    };
    let version: u64 = match number_member(schema, "schema_version") {
        Some(n) => n,
        None => return Err("API schema is missing schema_version".to_string()),
    };
    let names = match schema.get("schemas") {
        Some(Json::Object(schemas)) => names_of(schemas),
        _ => return Err("API schema is missing schemas".to_string()),
    };
    let names = sorting::sort_names(&names);
    let mut out = "Herdr API schema\nprotocol: ".to_string();
    out.append(text::dec_string(protocol).as_str());
    out.append("\nschema_version: ");
    out.append(text::dec_string(version).as_str());
    out.append("\nschemas: ");
    out.append(text::listing(&names).as_str());
    out.append(
        "\n\nUse `herdr api schema --json` to print the full schema.\nUse `herdr api schema --output PATH` to write it to a file.\n",
    );
    Ok(out)
}

/// A few lines on the schema.
pub fn schema_summary_text(schema: &str) -> (r: Result<String, String>)
    ensures
        match json::json_document(schema@) {
            Err(e) => r matches Err(x) && x@ == e,
            Ok(d) => exists|value: Json| #[trigger]
                json::json_view(value) == d && text::outcome(r) == summary(value),
        },
{
    match json::read_json(schema) {
        Ok(value) => {
            let r = summarize_schema(&value);
            assert(json::json_document(schema@) == Ok::<json::JsonView, Seq<char>>(
                json::json_view(value),
            ));
            r
        },
        Err(e) => Err(e),
    }
}

} // verus!
