//! Records of remote panes that were handed off and can be taken up again.

use vstd::prelude::*;
use vstd::string::*;

use crate::app::list;
use crate::desktop_queue::order;
use crate::text;

verus! {

#[derive(Debug)]
pub struct ResumeSsh {
    pub target: String,
    pub ssh_args: Vec<String>,
    pub session: Option<String>,
}

#[derive(Debug)]
pub struct ResumeAgent {
    pub name: Option<String>,
    pub agent: Option<String>,
    pub cwd: Option<String>,
}

#[derive(Debug)]
pub struct ResumePlacement {
    pub workspace_id: String,
    pub public_tab_id: String,
    pub public_pane_id: Option<String>,
    pub pane_index: Option<u64>,
}

/// A remote pane that was handed off, and what it takes to get it back.
#[derive(Debug)]
pub struct ResumeRecord {
    pub schema: u32,
    pub remote_terminal_id: String,
    pub remote_pane_id: String,
    pub peer_id: String,
    pub ssh: ResumeSsh,
    pub agent: Option<ResumeAgent>,
    pub placement: ResumePlacement,
    pub handed_off_at_unix_ms: u64,
    pub last_error: Option<String>,
}

pub struct ResumeSshView {
    pub target: Seq<char>,
    pub ssh_args: Seq<Seq<char>>,
    pub session: Option<Seq<char>>,
}

impl View for ResumeSsh {
    type V = ResumeSshView;

    open spec fn view(&self) -> ResumeSshView {
        ResumeSshView {
            target: self.target@,
            ssh_args: text::views(self.ssh_args@),
            session: text::opt_view(self.session),
        }
    }
}

pub struct ResumeAgentView {
    pub name: Option<Seq<char>>,
    pub agent: Option<Seq<char>>,
    pub cwd: Option<Seq<char>>,
}

impl View for ResumeAgent {
    type V = ResumeAgentView;

    open spec fn view(&self) -> ResumeAgentView {
        ResumeAgentView {
            name: text::opt_view(self.name),
            agent: text::opt_view(self.agent),
            cwd: text::opt_view(self.cwd),
        }
    }
}

pub struct ResumePlacementView {
    pub workspace_id: Seq<char>,
    pub public_tab_id: Seq<char>,
    pub public_pane_id: Option<Seq<char>>,
    pub pane_index: Option<u64>,
}

impl View for ResumePlacement {
    type V = ResumePlacementView;

    open spec fn view(&self) -> ResumePlacementView {
        ResumePlacementView {
            workspace_id: self.workspace_id@,
            public_tab_id: self.public_tab_id@,
            public_pane_id: text::opt_view(self.public_pane_id),
            pane_index: self.pane_index,
        }
    }
}

pub struct RecordView {
    pub schema: u32,
    pub remote_terminal_id: Seq<char>,
    pub remote_pane_id: Seq<char>,
    pub peer_id: Seq<char>,
    pub ssh: ResumeSshView,
    pub agent: Option<ResumeAgentView>,
    pub placement: ResumePlacementView,
    pub handed_off_at_unix_ms: u64,
    pub last_error: Option<Seq<char>>,
}

impl View for ResumeRecord {
    type V = RecordView;

    open spec fn view(&self) -> RecordView {
        RecordView {
            schema: self.schema,
            remote_terminal_id: self.remote_terminal_id@,
            remote_pane_id: self.remote_pane_id@,
            peer_id: self.peer_id@,
            ssh: self.ssh@,
            agent: text::viewed(self.agent),
            placement: self.placement@,
            handed_off_at_unix_ms: self.handed_off_at_unix_ms,
            last_error: text::opt_view(self.last_error),
        }
    }
}

/// The records of one peer, in the order in which they were given.
pub struct PeerGroup {
    pub peer_id: String,
    pub records: Vec<ResumeRecord>,
}

pub open spec fn of_peer(records: Seq<ResumeRecord>, peer_id: Seq<char>) -> Seq<ResumeRecord> {
    records.filter(|r: ResumeRecord| r.peer_id@ == peer_id)
}

/// The groups hold exactly `records`: each group all those of its peer, the
/// peers in ascending order.
pub open spec fn grouped(records: Seq<ResumeRecord>, groups: Seq<PeerGroup>) -> bool {
    &&& forall|i: int, j: int|
        0 <= i < j < groups.len() ==> order::name_lt(
            (#[trigger] groups[i]).peer_id@,
            (#[trigger] groups[j]).peer_id@,
        )
    &&& forall|i: int|
        0 <= i < groups.len() ==> (#[trigger] groups[i]).records@ == of_peer(
            records,
            groups[i].peer_id@,
        ) && groups[i].records@.len() > 0
    &&& forall|k: int|
        0 <= k < records.len() ==> has_group(groups, (#[trigger] records[k]).peer_id@)
}

pub open spec fn has_group(groups: Seq<PeerGroup>, peer_id: Seq<char>) -> bool {
    exists|i: int| 0 <= i < groups.len() && (#[trigger] groups[i]).peer_id@ == peer_id
}

proof fn lemma_filter_step(records: Seq<ResumeRecord>, n: int, peer_id: Seq<char>)
    requires
        0 <= n < records.len(),
    ensures
        of_peer(records.take(n + 1), peer_id) == if records[n].peer_id@ == peer_id {
            of_peer(records.take(n), peer_id).push(records[n])
        } else {
            of_peer(records.take(n), peer_id)
        },
{
    assert(records.take(n + 1).drop_last() =~= records.take(n));
    assert(records.take(n + 1).last() == records[n]);
    reveal(Seq::filter);
}

proof fn lemma_nothing_of_unknown_peer(
    records: Seq<ResumeRecord>,
    n: int,
    groups: Seq<PeerGroup>,
    peer_id: Seq<char>,
)
    requires
        0 <= n <= records.len(),
        forall|k: int| 0 <= k < n ==> has_group(groups, (#[trigger] records[k]).peer_id@),
        !has_group(groups, peer_id),
    ensures
        of_peer(records.take(n), peer_id) == Seq::<ResumeRecord>::empty(),
    decreases n,
{
    if n > 0 {
        lemma_nothing_of_unknown_peer(records, n - 1, groups, peer_id);
        lemma_filter_step(records, n - 1, peer_id);
    } else {
        assert(records.take(0) =~= Seq::<ResumeRecord>::empty());
        reveal(Seq::filter);
    }
}

/// Groups records by peer.
pub fn group_by_peer(records: Vec<ResumeRecord>) -> (groups: Vec<PeerGroup>)
    ensures
        grouped(records@, groups@),
{
    let mut rest = records;
    let ghost all = rest@;
    let mut groups: Vec<PeerGroup> = Vec::new();
    let total: usize = rest.len();
    let mut n: usize = 0;
    assert(all.take(0) =~= Seq::<ResumeRecord>::empty());
    while n < total
        invariant
            n <= total == all.len(),
            rest@ == all.skip(n as int),
            grouped(all.take(n as int), groups@),
        decreases total - n,
    {
        let record = rest.remove(0);
        let ghost before = groups@;
        proof {
            assert(record == all[n as int]);
            assert(rest@ =~= all.skip(n as int + 1));
            assert forall|k: int| 0 <= k < n implies has_group(
                before,
                (#[trigger] all[k]).peer_id@,
            ) by {
                assert(all.take(n as int)[k] == all[k]);
            }
            assert forall|p: Seq<char>| #[trigger] of_peer(all.take(n as int + 1), p) == if record.peer_id@
                == p {
                of_peer(all.take(n as int), p).push(record)
            } else {
                of_peer(all.take(n as int), p)
            } by {
                lemma_filter_step(all, n as int, p);
            }
        }
        let mut i: usize = 0;
        while i < groups.len() && order::name_less(
            groups[i].peer_id.as_str(),
            record.peer_id.as_str(),
        )
            invariant
                i <= groups@.len(),
                groups@ == before,
                forall|j: int|
                    0 <= j < i ==> order::name_lt((#[trigger] before[j]).peer_id@, record.peer_id@),
            decreases groups@.len() - i,
        {
            i += 1;
        }
        if i < groups.len() && text::str_eq(groups[i].peer_id.as_str(), record.peer_id.as_str()) {
            let mut group = groups.remove(i);
            group.records.push(record);
            groups.insert(i, group);
            assert(groups@ =~= before.update(i as int, group));
        } else {
            proof {
                if i < before.len() {
                    assert(order::name_lt(record.peer_id@, before[i as int].peer_id@));
                }
                assert forall|j: int| i <= j < before.len() implies order::name_lt(
                    record.peer_id@,
                    (#[trigger] before[j]).peer_id@,
                ) by {
                    if j > i {
                        order::lemma_name_lt_transitive(
                            record.peer_id@,
                            before[i as int].peer_id@,
                            before[j].peer_id@,
                        );
                    }
                }
                assert(!has_group(before, record.peer_id@)) by {
                    order::lemma_name_lt_irreflexive(record.peer_id@);
                }
                lemma_nothing_of_unknown_peer(all, n as int, before, record.peer_id@);
            }
            let peer_id = record.peer_id.clone();
            let mut own: Vec<ResumeRecord> = Vec::new();
            own.push(record);
            assert(own@ =~= of_peer(all.take(n as int), record.peer_id@).push(record));
            let group = PeerGroup { peer_id, records: own };
            groups.insert(i, group);
            assert(groups@ =~= before.insert(i as int, group));
        }
        n += 1;
        proof {
            let g = groups@;
            let known = all.take(n as int);
            assert forall|a: int| 0 <= a < g.len() implies (#[trigger] g[a]).records@ == of_peer(
                known,
                g[a].peer_id@,
            ) && g[a].records@.len() > 0 by {
                order::lemma_name_lt_irreflexive(record.peer_id@);
            }
            assert forall|k: int| 0 <= k < known.len() implies has_group(
                g,
                (#[trigger] known[k]).peer_id@,
            ) by {
                if k < n - 1 {
                    assert(has_group(before, all[k].peer_id@));
                    let a = choose|a: int|
                        0 <= a < before.len() && (#[trigger] before[a]).peer_id@ == all[k].peer_id@;
                    if g.len() == before.len() {
                        assert(g[a].peer_id@ == all[k].peer_id@);
                    } else if a < i {
                        assert(g[a].peer_id@ == all[k].peer_id@);
                    } else {
                        assert(g[a + 1].peer_id@ == all[k].peer_id@);
                    }
                } else {
                    assert(g[i as int].peer_id@ == record.peer_id@);
                }
            }
        }
    }
    assert(all.take(total as int) =~= all);
    groups
}

/// Every record is in the group of its peer, and a group holds nothing but records of its
/// peer, in the order in which they were given.
pub proof fn lemma_records_are_grouped_by_their_peer(
    records: Seq<ResumeRecord>,
    groups: Seq<PeerGroup>,
    record: ResumeRecord,
)
    requires
        grouped(records, groups),
    ensures
        records.contains(record) <==> exists|i: int|
            0 <= i < groups.len() && (#[trigger] groups[i]).peer_id@ == record.peer_id@
                && groups[i].records@.contains(record),
        forall|i: int|
            0 <= i < groups.len() && (#[trigger] groups[i]).records@.contains(record)
                ==> groups[i].peer_id@ == record.peer_id@,
        forall|i: int, j: int|
            0 <= i < j < groups.len() ==> (#[trigger] groups[i]).peer_id@ != (
            #[trigger] groups[j]).peer_id@,
{
    assert forall|i: int| 0 <= i < groups.len() implies ((
    #[trigger] groups[i]).records@.contains(record) <==> records.contains(record)
        && record.peer_id@ == groups[i].peer_id@) by {
        list::lemma_filter_contains(
            records,
            |r: ResumeRecord| r.peer_id@ == groups[i].peer_id@,
            record,
        );
    }
    if records.contains(record) {
        let k = records.index_of(record);
        assert(has_group(groups, records[k].peer_id@));
    }
    assert forall|i: int, j: int| 0 <= i < j < groups.len() implies (#[trigger] groups[i]).peer_id@
        != (#[trigger] groups[j]).peer_id@ by {
        order::lemma_name_lt_irreflexive(groups[i].peer_id@);
    }
}

} // verus!
