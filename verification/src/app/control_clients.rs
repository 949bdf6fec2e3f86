//! The clients that control the server, each under a lease of its own.

use vstd::prelude::*;
use vstd::string::*;

use super::list::{self, List, Table};
use super::owners;
use super::{App, AppView, Effect, EffectView};
use crate::api::schema::common::{ControlClientAccessMode, ControlClientStatus};
use crate::text;

verus! {

pub const CONTROL_CLIENT_LEASE_MS: u64 = 15000;

pub const MAX_CONTROL_CLIENTS: usize = 64;

pub const MAX_CONTROL_CLIENT_ID_BYTES: usize = 128;

#[derive(Debug, Clone, Copy, PartialEq, Eq, Structural)]
pub enum ControlClientRegistryError {
    InvalidClientId,
    AtCapacity,
    NotFound,
}

impl ControlClientRegistryError {
    pub open spec fn code_text(self) -> Seq<char> {
        match self {
            ControlClientRegistryError::InvalidClientId => "invalid_client_id"@,
            ControlClientRegistryError::AtCapacity => "too_many_control_clients"@,
            ControlClientRegistryError::NotFound => "control_client_not_found"@,
        }
    }

    pub open spec fn message_text(self) -> Seq<char> {
        match self {
            ControlClientRegistryError::InvalidClientId =>
                "client_id must contain between 1 and 128 bytes"@,
            ControlClientRegistryError::AtCapacity =>
                "no more than 64 control clients may be registered"@,
            ControlClientRegistryError::NotFound =>
                "control client lease was not found or has expired"@,
        }
    }

    pub fn code(self) -> (r: &'static str)
        ensures
            r@ == self.code_text(),
    {
        match self {
            ControlClientRegistryError::InvalidClientId => "invalid_client_id",
            ControlClientRegistryError::AtCapacity => "too_many_control_clients",
            ControlClientRegistryError::NotFound => "control_client_not_found",
        }
    }

    pub fn message(self) -> (r: &'static str)
        ensures
            r@ == self.message_text(),
    {
        match self {
            ControlClientRegistryError::InvalidClientId =>
                "client_id must contain between 1 and 128 bytes",
            ControlClientRegistryError::AtCapacity =>
                "no more than 64 control clients may be registered",
            ControlClientRegistryError::NotFound =>
                "control client lease was not found or has expired",
        }
    }
}

#[derive(Debug, Clone, Copy, PartialEq, Eq, Structural)]
pub struct ControlClientLease {
    pub access_mode: ControlClientAccessMode,
    pub expires_at_ms: u64,
}

impl View for ControlClientLease {
    type V = ControlClientLease;

    open spec fn view(&self) -> ControlClientLease {
        *self
    }
}

/// The leases by client.
pub type Leases = Seq<(Seq<char>, ControlClientLease)>;

pub struct ControlClientRegistry {
    leases: Table<ControlClientLease>,
}

impl View for ControlClientRegistry {
    type V = Leases;

    closed spec fn view(&self) -> Leases {
        self.leases@
    }
}

pub open spec fn client_id_valid(client_id: Seq<char>) -> bool {
    client_id.len() > 0 && text::utf8_len(client_id) <= MAX_CONTROL_CLIENT_ID_BYTES
}

pub open spec fn unexpired(now_ms: u64) -> spec_fn((Seq<char>, ControlClientLease)) -> bool {
    |row: (Seq<char>, ControlClientLease)| row.1.expires_at_ms > now_ms
}

pub open spec fn expired_gone(leases: Leases, now_ms: u64) -> Leases {
    leases.filter(unexpired(now_ms))
}

/// What a registration leaves, and its result.
pub open spec fn registered(
    leases: Leases,
    client_id: Seq<char>,
    access_mode: ControlClientAccessMode,
    now_ms: u64,
) -> (Leases, Result<(), ControlClientRegistryError>) {
    let left = expired_gone(leases, now_ms);
    if !client_id_valid(client_id) {
        (leases, Err(ControlClientRegistryError::InvalidClientId))
    } else if !list::present(left, client_id) && left.len() >= MAX_CONTROL_CLIENTS {
        (left, Err(ControlClientRegistryError::AtCapacity))
    } else {
        (
            list::with(
                left,
                client_id,
                ControlClientLease {
                    access_mode,
                    expires_at_ms: owners::lease_end(now_ms, CONTROL_CLIENT_LEASE_MS),
                },
            ),
            Ok(()),
        )
    }
}

/// What a heartbeat leaves, and its result: only a lease that still runs is
/// renewed.
pub open spec fn heard_from(leases: Leases, client_id: Seq<char>, now_ms: u64) -> (Leases, Result<
    (),
    ControlClientRegistryError,
>) {
    if !client_id_valid(client_id) {
        (leases, Err(ControlClientRegistryError::InvalidClientId))
    } else {
        match list::lookup(leases, client_id) {
            None => (leases, Err(ControlClientRegistryError::NotFound)),
            Some(lease) => if lease.expires_at_ms <= now_ms {
                (list::without(leases, client_id), Err(ControlClientRegistryError::NotFound))
            } else {
                (
                    list::with(
                        leases,
                        client_id,
                        ControlClientLease {
                            expires_at_ms: owners::lease_end(now_ms, CONTROL_CLIENT_LEASE_MS),
                            ..lease
                        },
                    ),
                    Ok(()),
                )
            },
        }
    }
}

pub open spec fn unregistered(leases: Leases, client_id: Seq<char>) -> (Leases, Result<
    (),
    ControlClientRegistryError,
>) {
    if client_id_valid(client_id) {
        (list::without(leases, client_id), Ok(()))
    } else {
        (leases, Err(ControlClientRegistryError::InvalidClientId))
    }
}

pub open spec fn capped(n: nat) -> u32 {
    if n > u32::MAX {
        u32::MAX
    } else {
        n as u32
    }
}

pub open spec fn having(mode: ControlClientAccessMode) -> spec_fn(
    (Seq<char>, ControlClientLease),
) -> bool {
    |row: (Seq<char>, ControlClientLease)| row.1.access_mode == mode
}

/// How many clients there are, and how many of each kind.
pub open spec fn counted(leases: Leases) -> ControlClientStatus {
    ControlClientStatus {
        total_count: capped(leases.len()),
        restricted_count: capped(
            leases.filter(having(ControlClientAccessMode::Restricted)).len(),
        ),
        full_control_count: capped(
            leases.filter(having(ControlClientAccessMode::FullControl)).len(),
        ),
    }
}

impl Default for ControlClientRegistry {
    fn default() -> (r: Self)
        ensures
            r@ == Seq::<(Seq<char>, ControlClientLease)>::empty(),
    {
        ControlClientRegistry { leases: List::new() }
    }
}

impl ControlClientRegistry {
    fn valid(client_id: &str) -> (r: bool)
        ensures
            r == client_id_valid(client_id@),
    {
        !client_id.is_empty() && text::byte_len(client_id) <= MAX_CONTROL_CLIENT_ID_BYTES
    }

    /// Gives a client a lease, or renews the one that it has.
    pub fn register(
        &mut self,
        client_id: String,
        access_mode: ControlClientAccessMode,
        now_ms: u64,
    ) -> (r: Result<(), ControlClientRegistryError>)
        ensures
            (final(self)@, r) == registered(old(self)@, client_id@, access_mode, now_ms),
    {
        if !Self::valid(client_id.as_str()) {
            return Err(ControlClientRegistryError::InvalidClientId);
        }
        self.expire(now_ms);
        if !self.leases.contains(client_id.as_str()) && self.leases.len() >= MAX_CONTROL_CLIENTS {
            return Err(ControlClientRegistryError::AtCapacity);
        }
        self.leases.insert(
            client_id,
            ControlClientLease {
                access_mode,
                expires_at_ms: now_ms.saturating_add(CONTROL_CLIENT_LEASE_MS),
            },
        );
        Ok(())
    }

    /// Renews a lease that still runs.
    pub fn heartbeat(&mut self, client_id: &str, now_ms: u64) -> (r: Result<
        (),
        ControlClientRegistryError,
    >)
        ensures
            (final(self)@, r) == heard_from(old(self)@, client_id@, now_ms),
    {
        if !Self::valid(client_id) {
            return Err(ControlClientRegistryError::InvalidClientId);
        }
        let lease = match self.leases.get(client_id) {
            Some(lease) => *lease,
            None => return Err(ControlClientRegistryError::NotFound),
        };
        if lease.expires_at_ms <= now_ms {
            self.leases.discard(client_id);
            return Err(ControlClientRegistryError::NotFound);
        }
        self.leases.insert(
            client_id.to_string(),
            ControlClientLease {
                access_mode: lease.access_mode,
                expires_at_ms: now_ms.saturating_add(CONTROL_CLIENT_LEASE_MS),
            },
        );
        Ok(())
    }

    /// Ends a lease, where there is one.
    pub fn unregister(&mut self, client_id: &str) -> (r: Result<(), ControlClientRegistryError>)
        ensures
            (final(self)@, r) == unregistered(old(self)@, client_id@),
    {
        if !Self::valid(client_id) {
            return Err(ControlClientRegistryError::InvalidClientId);
        }
        self.leases.discard(client_id);
        Ok(())
    }

    /// Drops the leases that have run out.
    pub fn expire(&mut self, now_ms: u64)
        ensures
            final(self)@ == expired_gone(old(self)@, now_ms),
    {
        let runs = |row: &(String, ControlClientLease)| -> (b: bool)
            ensures
                b == unexpired(now_ms)(row@),
        {
            row.1.expires_at_ms > now_ms
        };
        self.leases.retain_by(runs, Ghost(unexpired(now_ms)));
    }

    /// How many clients there are, and how many of each kind.
    pub fn status(&self) -> (r: ControlClientStatus)
        ensures
            r == counted(self@),
    {
        let mut status = ControlClientStatus {
            total_count: 0,
            restricted_count: 0,
            full_control_count: 0,
        };
        let ghost all = self@;
        let ghost restricted = having(ControlClientAccessMode::Restricted);
        let ghost full = having(ControlClientAccessMode::FullControl);
        let mut i: usize = 0;
        proof {
            list::lemma_filter_empty(restricted);
            list::lemma_filter_empty(full);
            assert(all.take(0) =~= Seq::<(Seq<char>, ControlClientLease)>::empty());
        }
        while i < self.leases.len()
            invariant
                i <= all.len(),
                all == self.leases@,
                restricted == having(ControlClientAccessMode::Restricted),
                full == having(ControlClientAccessMode::FullControl),
                status == counted(all.take(i as int)),
            decreases all.len() - i,
        {
            proof {
                list::lemma_filter_step(all, i as int, restricted);
                list::lemma_filter_step(all, i as int, full);
            }
            status.total_count = status.total_count.saturating_add(1);
            match self.leases.at(i).1.access_mode {
                ControlClientAccessMode::Restricted => {
                    status.restricted_count = status.restricted_count.saturating_add(1);
                },
                ControlClientAccessMode::FullControl => {
                    status.full_control_count = status.full_control_count.saturating_add(1);
                },
            }
            i += 1;
        }
        assert(all.take(all.len() as int) =~= all);
        status
    }
}

// ---------------------------------------------------------------------------
// Laws of the registry

/// No more clients than the limit are ever registered.
pub open spec fn within_capacity(leases: Leases) -> bool {
    leases.len() <= MAX_CONTROL_CLIENTS
}

/// Every operation keeps the number of clients within the limit.
pub proof fn lemma_capacity_is_kept(
    leases: Leases,
    client_id: Seq<char>,
    access_mode: ControlClientAccessMode,
    now_ms: u64,
)
    requires
        within_capacity(leases),
    ensures
        within_capacity(registered(leases, client_id, access_mode, now_ms).0),
        within_capacity(heard_from(leases, client_id, now_ms).0),
        within_capacity(unregistered(leases, client_id).0),
        within_capacity(expired_gone(leases, now_ms)),
{
    list::lemma_filter_len(leases, unexpired(now_ms));
    let left = expired_gone(leases, now_ms);
    lemma_without_len(left, client_id);
    lemma_without_len(leases, client_id);
}

proof fn lemma_without_len(leases: Leases, client_id: Seq<char>)
    ensures
        list::without(leases, client_id).len() <= leases.len(),
        list::present(leases, client_id) ==> list::without(leases, client_id).len() < leases.len(),
{
    let p = list::unkeyed::<ControlClientLease>(client_id);
    list::lemma_filter_len(leases, p);
    list::lemma_first(leases, list::keyed::<ControlClientLease>(client_id));
    if list::present(leases, client_id) {
        let i = list::place(leases, list::keyed::<ControlClientLease>(client_id));
        assert(!p(leases[i]));
    }
}

/// A lease that was given or renewed runs for its whole length and no longer,
/// whatever other leases do.
pub proof fn lemma_lease_runs_its_length(
    leases: Leases,
    client_id: Seq<char>,
    access_mode: ControlClientAccessMode,
    now_ms: u64,
    later_ms: u64,
)
    requires
        now_ms + CONTROL_CLIENT_LEASE_MS <= u64::MAX,
        registered(leases, client_id, access_mode, now_ms).1 is Ok,
    ensures
        list::present(
            expired_gone(registered(leases, client_id, access_mode, now_ms).0, later_ms),
            client_id,
        ) <==> later_ms < now_ms + CONTROL_CLIENT_LEASE_MS,
{
    let left = list::without(expired_gone(leases, now_ms), client_id);
    let lease = ControlClientLease {
        access_mode,
        expires_at_ms: (now_ms + CONTROL_CLIENT_LEASE_MS) as u64,
    };
    let after = left.push((client_id, lease));
    let p = unexpired(later_ms);
    assert(after =~= registered(leases, client_id, access_mode, now_ms).0);
    assert(after.take(after.len() - 1) =~= left);
    assert(after.take(after.len() as int) =~= after);
    list::lemma_filter_step(after, after.len() - 1, p);
    lemma_absent_stays_absent(expired_gone(leases, now_ms), client_id, later_ms);
    let k = list::keyed::<ControlClientLease>(client_id);
    list::lemma_first(left.filter(p), k);
    list::lemma_first(after.filter(p), k);
    if later_ms < now_ms + CONTROL_CLIENT_LEASE_MS {
        assert(after.filter(p).last() == (client_id, lease));
        assert(k(after.filter(p)[after.filter(p).len() - 1]));
    } else {
        assert(after.filter(p) == left.filter(p));
    }
}

proof fn lemma_absent_stays_absent(leases: Leases, client_id: Seq<char>, later_ms: u64)
    ensures
        !list::present(list::without(leases, client_id).filter(unexpired(later_ms)), client_id),
{
    let left = list::without(leases, client_id);
    let p = unexpired(later_ms);
    let k = list::keyed::<ControlClientLease>(client_id);
    let kept = left.filter(p);
    list::lemma_first(kept, k);
    let other = list::unkeyed::<ControlClientLease>(client_id);
    list::lemma_filtered_holds(leases, other);
    list::lemma_filter_keeps(left, p, other);
    assert forall|i: int| 0 <= i < kept.len() implies !k(#[trigger] kept[i]) by {
        assert(other(kept[i]));
    }
}

// ---------------------------------------------------------------------------
// The clients of the application

/// The clients, and what was last announced of them.
pub struct ControlClients {
    pub registry: ControlClientRegistry,
    pub status: ControlClientStatus,
}

pub struct ControlView {
    pub leases: Leases,
    pub status: ControlClientStatus,
}

impl View for ControlClients {
    type V = ControlView;

    open spec fn view(&self) -> ControlView {
        ControlView { leases: self.registry@, status: self.status }
    }
}

pub open spec fn is_none(status: ControlClientStatus) -> bool {
    status.total_count == 0 && status.restricted_count == 0 && status.full_control_count == 0
}

impl ControlClients {
    pub fn new() -> (r: ControlClients)
        ensures
            r@.leases.len() == 0,
            is_none(r@.status),
    {
        ControlClients {
            registry: ControlClientRegistry::default(),
            status: ControlClientStatus {
                total_count: 0,
                restricted_count: 0,
                full_control_count: 0,
            },
        }
    }
}

/// The application with these leases; a new count is announced, once.
pub open spec fn controlled(s: AppView, leases: Leases) -> AppView {
    let status = counted(leases);
    AppView {
        control: ControlView { leases, status },
        effects: if status == s.control.status {
            s.effects
        } else {
            s.effects.push(EffectView::AnnounceControlClients(status))
        },
        ..s
    }
}

pub open spec fn status_for(r: Result<(), ControlClientRegistryError>, leases: Leases) -> Result<
    ControlClientStatus,
    ControlClientRegistryError,
> {
    match r {
        Ok(()) => Ok(counted(leases)),
        Err(e) => Err(e),
    }
}

impl App {
    fn sync_control_client_status(&mut self) -> (changed: bool)
        ensures
            final(self)@ == controlled(old(self)@, old(self)@.control.leases),
            changed == (counted(old(self)@.control.leases) != old(self)@.control.status),
    {
        let status = self.control.registry.status();
        if status == self.control.status {
            return false;
        }
        self.control.status = status;
        self.effects.push(Effect::AnnounceControlClients(status));
        true
    }

    fn current(&self, result: Result<(), ControlClientRegistryError>) -> (r: Result<
        ControlClientStatus,
        ControlClientRegistryError,
    >)
        requires
            self@.control.status == counted(self@.control.leases),
        ensures
            r == status_for(result, self@.control.leases),
    {
        match result {
            Ok(()) => Ok(self.control.status),
            Err(e) => Err(e),
        }
    }

    pub fn register_control_client(
        &mut self,
        client_id: String,
        access_mode: ControlClientAccessMode,
        now_ms: u64,
    ) -> (r: Result<ControlClientStatus, ControlClientRegistryError>)
        ensures
            ({
                let after = registered(
                    old(self)@.control.leases,
                    client_id@,
                    access_mode,
                    now_ms,
                );
                final(self)@ == controlled(old(self)@, after.0) && r == status_for(
                    after.1,
                    after.0,
                )
            }),
    {
        let result = self.control.registry.register(client_id, access_mode, now_ms);
        self.sync_control_client_status();
        self.current(result)
    }

    pub fn heartbeat_control_client(&mut self, client_id: &str, now_ms: u64) -> (r: Result<
        ControlClientStatus,
        ControlClientRegistryError,
    >)
        ensures
            ({
                let after = heard_from(old(self)@.control.leases, client_id@, now_ms);
                final(self)@ == controlled(old(self)@, after.0) && r == status_for(
                    after.1,
                    after.0,
                )
            }),
    {
        let result = self.control.registry.heartbeat(client_id, now_ms);
        self.sync_control_client_status();
        self.current(result)
    }

    pub fn unregister_control_client(&mut self, client_id: &str) -> (r: Result<
        ControlClientStatus,
        ControlClientRegistryError,
    >)
        ensures
            ({
                let after = unregistered(old(self)@.control.leases, client_id@);
                final(self)@ == controlled(old(self)@, after.0) && r == status_for(
                    after.1,
                    after.0,
                )
            }),
    {
        let result = self.control.registry.unregister(client_id);
        self.sync_control_client_status();
        self.current(result)
    }

    /// What was last announced.
    pub fn control_client_status(&self) -> (r: ControlClientStatus)
        ensures
            r == self@.control.status,
    {
        self.control.status
    }

    /// Drops the leases that have run out; tells whether the count changed.
    pub fn expire_control_client_leases(&mut self, now_ms: u64) -> (changed: bool)
        ensures
            ({
                let left = expired_gone(old(self)@.control.leases, now_ms);
                final(self)@ == controlled(old(self)@, left) && changed == (counted(left)
                    != old(self)@.control.status)
            }),
    {
        self.control.registry.expire(now_ms);
        self.sync_control_client_status()
    }
}

} // verus!
