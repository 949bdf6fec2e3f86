//! How parameters that carry secrets are shown in logs: every secret is replaced.

use vstd::prelude::*;
use vstd::string::*;

use super::peers::{
    TerminalDelegateParkParams, TerminalDelegationTarget, TerminalParkedAdminListParams,
    TerminalParkedAdminResolveParams, TerminalParkedListParams, TerminalParkedResolveAction,
    TerminalParkedResolveParams, TerminalParkedResumeParams, TerminalParkedTarget,
    TerminalPresentationOwner,
};
use crate::text;

verus! {

/// A record: its name, and its fields in braces.
pub open spec fn record(name: Seq<char>, fields: Seq<Seq<char>>) -> Seq<char> {
    name + " { "@ + text::listed(fields) + " }"@
}

pub open spec fn shown_field(name: Seq<char>, value: Seq<char>) -> Seq<char> {
    name + ": "@ + value
}

/// A secret, as it is shown.
pub open spec fn hidden(name: Seq<char>) -> Seq<char> {
    shown_field(name, "\"[redacted]\""@)
}

pub open spec fn quoted_all(items: Seq<Seq<char>>) -> Seq<Seq<char>> {
    items.map_values(|s: Seq<char>| text::debug_text(s))
}

pub open spec fn target_text(t: TerminalDelegationTarget) -> Seq<char> {
    record(
        "TerminalDelegationTarget"@,
        seq![
            shown_field("delegation_id"@, text::debug_text(t.delegation_id@)),
            shown_field("epoch"@, text::dec(t.epoch as nat)),
        ],
    )
}

pub open spec fn owner_text(o: TerminalPresentationOwner) -> Seq<char> {
    record(
        "TerminalPresentationOwner"@,
        seq![
            shown_field("peer_id"@, text::debug_text(o.peer_id@)),
            shown_field("pane_id"@, text::debug_text(o.pane_id@)),
            shown_field(
                "route"@,
                "["@ + text::listed(quoted_all(text::views(o.route@))) + "]"@,
            ),
        ],
    )
}

pub open spec fn opt_owner_text(o: Option<TerminalPresentationOwner>) -> Seq<char> {
    match o {
        Some(owner) => "Some("@ + owner_text(owner) + ")"@,
        None => "None"@,
    }
}

pub open spec fn action_text(a: TerminalParkedResolveAction) -> Seq<char> {
    match a {
        TerminalParkedResolveAction::Retain => "Retain"@,
        TerminalParkedResolveAction::Terminate => "Terminate"@,
        TerminalParkedResolveAction::Promote => "Promote"@,
    }
}

pub open spec fn parked_target_text(park_id: Seq<char>, origin_id: Seq<char>) -> Seq<char> {
    record(
        "TerminalParkedTarget"@,
        seq![
            shown_field("park_id"@, text::debug_text(park_id)),
            shown_field("origin_id"@, text::debug_text(origin_id)),
            hidden("resume_token"@),
        ],
    )
}

fn record_of(name: &str, fields: &Vec<String>) -> (r: String)
    ensures
        r@ == record(name@, text::views(fields@)),
{
    let mut out = name.to_string();
    out.append(" { ");
    out.append(text::listing(fields).as_str());
    out.append(" }");
    out
}

fn field_of(name: &str, value: &str) -> (r: String)
    ensures
        r@ == shown_field(name@, value@),
{
    let mut out = name.to_string();
    out.append(": ");
    out.append(value);
    out
}

fn text_field(name: &str, value: &str) -> (r: String)
    ensures
        r@ == shown_field(name@, text::debug_text(value@)),
{
    field_of(name, text::quoted(value).as_str())
}

fn hidden_field(name: &str) -> (r: String)
    ensures
        r@ == hidden(name@),
{
    field_of(name, "\"[redacted]\"")
}

fn show_target(t: &TerminalDelegationTarget) -> (r: String)
    ensures
        r@ == target_text(*t),
{
    let mut fields: Vec<String> = Vec::new();
    fields.push(text_field("delegation_id", t.delegation_id.as_str()));
    fields.push(field_of("epoch", text::dec_string(t.epoch).as_str()));
    assert(text::views(fields@) =~= seq![
        shown_field("delegation_id"@, text::debug_text(t.delegation_id@)),
        shown_field("epoch"@, text::dec(t.epoch as nat)),
    ]);
    record_of("TerminalDelegationTarget", &fields)
}

fn quote_all(items: &Vec<String>) -> (r: Vec<String>)
    ensures
        text::views(r@) == quoted_all(text::views(items@)),
{
    let mut out: Vec<String> = Vec::new();
    let mut i: usize = 0;
    while i < items.len()
        invariant
            i <= items@.len(),
            out@.len() == i,
            forall|k: int| 0 <= k < i ==> (#[trigger] out@[k])@ == text::debug_text(items@[k]@),
        decreases items@.len() - i,
    {
        out.push(text::quoted(items[i].as_str()));
        i += 1;
    }
    assert(text::views(out@) =~= quoted_all(text::views(items@)));
    out
}

fn show_owner(o: &TerminalPresentationOwner) -> (r: String)
    ensures
        r@ == owner_text(*o),
{
    let mut route = "[".to_string();
    route.append(text::listing(&quote_all(&o.route)).as_str());
    route.append("]");
    let mut fields: Vec<String> = Vec::new();
    fields.push(text_field("peer_id", o.peer_id.as_str()));
    fields.push(text_field("pane_id", o.pane_id.as_str()));
    fields.push(field_of("route", route.as_str()));
    assert(text::views(fields@) =~= seq![
        shown_field("peer_id"@, text::debug_text(o.peer_id@)),
        shown_field("pane_id"@, text::debug_text(o.pane_id@)),
        shown_field("route"@, "["@ + text::listed(quoted_all(text::views(o.route@))) + "]"@),
    ]);
    record_of("TerminalPresentationOwner", &fields)
}

fn show_opt_owner(o: &Option<TerminalPresentationOwner>) -> (r: String)
    ensures
        r@ == opt_owner_text(*o),
{
    match o {
        Some(owner) => {
            let mut out = "Some(".to_string();
            out.append(show_owner(owner).as_str());
            out.append(")");
            out
        },
        None => "None".to_string(),
    }
}

fn show_action(a: TerminalParkedResolveAction) -> (r: &'static str)
    ensures
        r@ == action_text(a),
{
    match a {
        TerminalParkedResolveAction::Retain => "Retain",
        TerminalParkedResolveAction::Terminate => "Terminate",
        TerminalParkedResolveAction::Promote => "Promote",
    }
}

pub open spec fn park_text(p: TerminalDelegateParkParams) -> Seq<char> {
    record(
        "TerminalDelegateParkParams"@,
        seq![
            shown_field("target"@, target_text(p.target)),
            shown_field("park_id"@, text::debug_text(p.park_id@)),
            shown_field("origin_id"@, text::debug_text(p.origin_id@)),
            hidden("resume_token"@),
            hidden("discovery_token"@),
        ],
    )
}

impl TerminalDelegateParkParams {
    /// The text shown in logs.
    pub fn redacted(&self) -> (r: String)
        ensures
            r@ == park_text(*self),
    {
        let mut fields: Vec<String> = Vec::new();
        fields.push(field_of("target", show_target(&self.target).as_str()));
        fields.push(text_field("park_id", self.park_id.as_str()));
        fields.push(text_field("origin_id", self.origin_id.as_str()));
        fields.push(hidden_field("resume_token"));
        fields.push(hidden_field("discovery_token"));
        assert(text::views(fields@) =~= seq![
            shown_field("target"@, target_text(self.target)),
            shown_field("park_id"@, text::debug_text(self.park_id@)),
            shown_field("origin_id"@, text::debug_text(self.origin_id@)),
            hidden("resume_token"@),
            hidden("discovery_token"@),
        ]);
        record_of("TerminalDelegateParkParams", &fields)
    }
}

impl TerminalParkedTarget {
    /// The text shown in logs.
    pub fn redacted(&self) -> (r: String)
        ensures
            r@ == parked_target_text(self.park_id@, self.origin_id@),
    {
        let mut fields: Vec<String> = Vec::new();
        fields.push(text_field("park_id", self.park_id.as_str()));
        fields.push(text_field("origin_id", self.origin_id.as_str()));
        fields.push(hidden_field("resume_token"));
        assert(text::views(fields@) =~= seq![
            shown_field("park_id"@, text::debug_text(self.park_id@)),
            shown_field("origin_id"@, text::debug_text(self.origin_id@)),
            hidden("resume_token"@),
        ]);
        record_of("TerminalParkedTarget", &fields)
    }
}

pub open spec fn resume_text(p: TerminalParkedResumeParams) -> Seq<char> {
    record(
        "TerminalParkedResumeParams"@,
        seq![
            shown_field(
                "target"@,
                parked_target_text(p.target.park_id@, p.target.origin_id@),
            ),
            shown_field("owner"@, owner_text(p.owner)),
        ],
    )
}

impl TerminalParkedResumeParams {
    /// The text shown in logs.
    pub fn redacted(&self) -> (r: String)
        ensures
            r@ == resume_text(*self),
    {
        let mut fields: Vec<String> = Vec::new();
        fields.push(field_of("target", self.target.redacted().as_str()));
        fields.push(field_of("owner", show_owner(&self.owner).as_str()));
        assert(text::views(fields@) =~= seq![
            shown_field(
                "target"@,
                parked_target_text(self.target.park_id@, self.target.origin_id@),
            ),
            shown_field("owner"@, owner_text(self.owner)),
        ]);
        record_of("TerminalParkedResumeParams", &fields)
    }
}

pub open spec fn list_text(p: TerminalParkedListParams) -> Seq<char> {
    record(
        "TerminalParkedListParams"@,
        seq![
            shown_field("origin_id"@, text::debug_text(p.origin_id@)),
            hidden("discovery_token"@),
        ],
    )
}

impl TerminalParkedListParams {
    /// The text shown in logs.
    pub fn redacted(&self) -> (r: String)
        ensures
            r@ == list_text(*self),
    {
        let mut fields: Vec<String> = Vec::new();
        fields.push(text_field("origin_id", self.origin_id.as_str()));
        fields.push(hidden_field("discovery_token"));
        assert(text::views(fields@) =~= seq![
            shown_field("origin_id"@, text::debug_text(self.origin_id@)),
            hidden("discovery_token"@),
        ]);
        record_of("TerminalParkedListParams", &fields)
    }
}

pub open spec fn resolve_text(p: TerminalParkedResolveParams) -> Seq<char> {
    record(
        "TerminalParkedResolveParams"@,
        seq![
            shown_field("park_id"@, text::debug_text(p.park_id@)),
            shown_field("origin_id"@, text::debug_text(p.origin_id@)),
            hidden("discovery_token"@),
            shown_field("action"@, action_text(p.action)),
            shown_field("owner"@, opt_owner_text(p.owner)),
        ],
    )
}

impl TerminalParkedResolveParams {
    /// The text shown in logs.
    pub fn redacted(&self) -> (r: String)
        ensures
            r@ == resolve_text(*self),
    {
        let mut fields: Vec<String> = Vec::new();
        fields.push(text_field("park_id", self.park_id.as_str()));
        fields.push(text_field("origin_id", self.origin_id.as_str()));
        fields.push(hidden_field("discovery_token"));
        fields.push(field_of("action", show_action(self.action)));
        fields.push(field_of("owner", show_opt_owner(&self.owner).as_str()));
        assert(text::views(fields@) =~= seq![
            shown_field("park_id"@, text::debug_text(self.park_id@)),
            shown_field("origin_id"@, text::debug_text(self.origin_id@)),
            hidden("discovery_token"@),
            shown_field("action"@, action_text(self.action)),
            shown_field("owner"@, opt_owner_text(self.owner)),
        ]);
        record_of("TerminalParkedResolveParams", &fields)
    }
}

pub open spec fn admin_list_text(p: TerminalParkedAdminListParams) -> Seq<char> {
    record("TerminalParkedAdminListParams"@, seq![hidden("admin_token"@)])
}

impl TerminalParkedAdminListParams {
    /// The text shown in logs: nothing of the one secret these parameters hold.
    pub fn redacted(&self) -> (r: String)
        ensures
            r@ == admin_list_text(*self),
    {
        let mut fields: Vec<String> = Vec::new();
        fields.push(hidden_field("admin_token"));
        assert(text::views(fields@) =~= seq![hidden("admin_token"@)]);
        record_of("TerminalParkedAdminListParams", &fields)
    }
}

pub open spec fn admin_resolve_text(p: TerminalParkedAdminResolveParams) -> Seq<char> {
    record(
        "TerminalParkedAdminResolveParams"@,
        seq![
            shown_field("park_id"@, text::debug_text(p.park_id@)),
            hidden("admin_token"@),
            shown_field("action"@, action_text(p.action)),
        ],
    )
}

impl TerminalParkedAdminResolveParams {
    /// The text shown in logs.
    pub fn redacted(&self) -> (r: String)
        ensures
            r@ == admin_resolve_text(*self),
    {
        let mut fields: Vec<String> = Vec::new();
        fields.push(text_field("park_id", self.park_id.as_str()));
        fields.push(hidden_field("admin_token"));
        fields.push(field_of("action", show_action(self.action)));
        assert(text::views(fields@) =~= seq![
            shown_field("park_id"@, text::debug_text(self.park_id@)),
            hidden("admin_token"@),
            shown_field("action"@, action_text(self.action)),
        ]);
        record_of("TerminalParkedAdminResolveParams", &fields)
    }
}

// ---------------------------------------------------------------------------
// Laws

/// What is shown of parameters tells nothing of the secrets in them: parameters that differ
/// in nothing else are shown alike, whatever their tokens are.
pub proof fn lemma_tokens_are_never_shown(
    park: TerminalDelegateParkParams,
    list: TerminalParkedListParams,
    resolve: TerminalParkedResolveParams,
    admin_list: TerminalParkedAdminListParams,
    admin_resolve: TerminalParkedAdminResolveParams,
    resume: TerminalParkedResumeParams,
    token: String,
    other: String,
)
    ensures
        park_text(park) == park_text(
            (TerminalDelegateParkParams { resume_token: token, discovery_token: other, ..park }),
        ),
        list_text(list) == list_text((TerminalParkedListParams { discovery_token: token, ..list })),
        resolve_text(resolve) == resolve_text(
            (TerminalParkedResolveParams { discovery_token: token, ..resolve }),
        ),
        admin_list_text(admin_list) == admin_list_text(
            (TerminalParkedAdminListParams { admin_token: token, ..admin_list }),
        ),
        admin_resolve_text(admin_resolve) == admin_resolve_text(
            (TerminalParkedAdminResolveParams { admin_token: token, ..admin_resolve }),
        ),
        resume_text(resume) == resume_text(
            (TerminalParkedResumeParams {
                target: TerminalParkedTarget { resume_token: token, ..resume.target },
                ..resume
            }),
        ),
{
}

} // verus!
