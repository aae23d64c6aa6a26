//! Detection and remediation of consensus trouble: leader election storms, stuck
//! proposals, log divergence, missing leaders and network partitions.
use vstd::prelude::*;
use vstd::string::*;

use crate::decimal::{decimal, signed_decimal};
use crate::remediation::{
    context_get, context_lookup, context_number, context_u64, ctx_number, ctx_text, is_action, make_action, number_entry, secs_of_millis, text_entry,
    with_number, with_signed_number, ContextValue, Issue, IssueResource, IssueSeverity, IssueType,
    RemediationAction, RemediationContext, RemediationResult,
};
use crate::text::{concat, text_contains, text_has};

verus! {

/// Role of a node in consensus.
#[derive(Debug, Clone, Copy, PartialEq, Eq, Structural)]
pub enum RaftRole {
    Follower,
    Candidate,
    Leader,
    PreCandidate,
}

/// The name of a role.
pub open spec fn role_name(r: RaftRole) -> Seq<char> {
    match r {
        RaftRole::Follower => "Follower"@,
        RaftRole::Candidate => "Candidate"@,
        RaftRole::Leader => "Leader"@,
        RaftRole::PreCandidate => "PreCandidate"@,
    }
}

impl RaftRole {
    /// The name of the role.
    pub fn name(&self) -> (s: &'static str)
        ensures
            s@ == role_name(*self),
    {
        match self {
            RaftRole::Follower => "Follower",
            RaftRole::Candidate => "Candidate",
            RaftRole::Leader => "Leader",
            RaftRole::PreCandidate => "PreCandidate",
        }
    }
}

/// Consensus state of the local node.
#[derive(Debug, Clone, Copy)]
pub struct RaftStatus {
    pub term: u64,
    /// Current leader; 0 when none is known.
    pub leader_id: u64,
    pub committed: u64,
    pub applied: u64,
    pub state: RaftRole,
}

/// Consensus health figures.
#[derive(Debug, Clone, Copy)]
pub struct RaftMetrics {
    pub leader_changes_per_minute: u32,
    pub pending_proposals: u64,
    /// The peer furthest behind and by how many entries, if any.
    pub max_log_lag: Option<(u64, u64)>,
}

/// Kinds of consensus issue, in the order they are reported.
#[derive(Debug, Clone, Copy, PartialEq, Eq, Structural)]
pub enum RaftIssueKind {
    LeaderStorm,
    StuckProposals,
    LogDivergence,
    NoLeader,
}

/// Detector of consensus issues, with its thresholds.
pub struct RaftConsensusDetector {
    /// Leader changes per minute above which a storm is reported.
    pub leader_change_threshold: u32,
    /// Pending proposals above which proposals count as stuck.
    pub pending_proposal_threshold: u64,
    /// Entries of lag above which a peer counts as diverged.
    pub log_lag_threshold: u64,
}

/// The issue `i` of kind `kind`, reported at `now_ms` by node `node_id`.
pub open spec fn is_raft_issue(
    i: Issue,
    kind: RaftIssueKind,
    status: RaftStatus,
    metrics: RaftMetrics,
    node_id: u64,
    now_ms: i64,
) -> bool {
    let stamp = signed_decimal(now_ms / 1000);
    &&& i.issue_type == IssueType::RaftConsensusIssue
    &&& i.detected_at_ms == now_ms
    &&& i.correlation_id is None
    &&& i.context@.len() == (if kind is NoLeader {
        2int
    } else {
        3int
    })
    &&& match kind {
        RaftIssueKind::LeaderStorm => {
            &&& i.id@ == "raft-leader-storm-"@ + stamp
            &&& i.severity == IssueSeverity::Critical
            &&& i.resource is Cluster
            &&& i.description@ == "Leader election storm detected: "@ + decimal(
                metrics.leader_changes_per_minute as nat,
            ) + " changes per minute"@
            &&& ctx_number(i.context@[0], "leader_changes"@, metrics.leader_changes_per_minute as u64)
            &&& ctx_number(i.context@[1], "current_term"@, status.term)
            &&& ctx_number(i.context@[2], "node_id"@, node_id)
        },
        RaftIssueKind::StuckProposals => {
            &&& i.id@ == "raft-stuck-proposals-"@ + stamp
            &&& i.severity == IssueSeverity::High
            &&& i.resource is Cluster
            &&& i.description@ == "Too many pending proposals: "@ + decimal(
                metrics.pending_proposals as nat,
            )
            &&& ctx_number(i.context@[0], "pending_proposals"@, metrics.pending_proposals)
            &&& ctx_number(i.context@[1], "committed_index"@, status.committed)
            &&& ctx_number(i.context@[2], "applied_index"@, status.applied)
        },
        RaftIssueKind::LogDivergence => {
            let peer_lag = metrics.max_log_lag->0;
            let peer = peer_lag.0;
            let lag = peer_lag.1;
            &&& i.id@ == "raft-log-divergence-"@ + stamp
            &&& i.severity == IssueSeverity::High
            &&& (i.resource matches IssueResource::Node { id, address } && id == peer && address@
                == "node-"@ + decimal(peer as nat))
            &&& i.description@ == "Log divergence detected: peer "@ + decimal(peer as nat) + " is "@
                + decimal(lag as nat) + " entries behind"@
            &&& ctx_number(i.context@[0], "peer_id"@, peer)
            &&& ctx_number(i.context@[1], "log_lag"@, lag)
            &&& ctx_number(i.context@[2], "leader_commit"@, status.committed)
        },
        RaftIssueKind::NoLeader => {
            &&& i.id@ == "raft-no-leader-"@ + stamp
            &&& i.severity == IssueSeverity::Critical
            &&& i.resource is Cluster
            &&& i.description@ == "No leader elected in cluster"@
            &&& ctx_number(i.context@[0], "term"@, status.term)
            &&& ctx_text(i.context@[1], "state"@, role_name(status.state))
        },
    }
}

impl RaftConsensusDetector {
    /// A detector with the standard thresholds: more than 5 leader changes a minute,
    /// more than 100 pending proposals, more than 1000 entries of lag.
    pub fn new() -> (d: Self)
        ensures
            d.leader_change_threshold == 5,
            d.pending_proposal_threshold == 100,
            d.log_lag_threshold == 1000,
    {
        RaftConsensusDetector {
            leader_change_threshold: 5,
            pending_proposal_threshold: 100,
            log_lag_threshold: 1000,
        }
    }

    /// The issue types this detector reports.
    pub fn issue_types(&self) -> (r: Vec<IssueType>)
        ensures
            r@ == seq![IssueType::RaftConsensusIssue],
    {
        let mut r = Vec::new();
        r.push(IssueType::RaftConsensusIssue);
        proof {
            assert(r@ =~= seq![IssueType::RaftConsensusIssue]);
        }
        r
    }

    /// The kinds of issue present, in report order.
    pub open spec fn kinds(&self, status: Option<RaftStatus>, metrics: Option<RaftMetrics>) -> Seq<RaftIssueKind> {
        match status {
            None => Seq::empty(),
            Some(s) => {
                let from_metrics = match metrics {
                    None => Seq::empty(),
                    Some(m) => {
                        let a = if m.leader_changes_per_minute > self.leader_change_threshold {
                            seq![RaftIssueKind::LeaderStorm]
                        } else {
                            Seq::empty()
                        };
                        let b = if m.pending_proposals > self.pending_proposal_threshold {
                            seq![RaftIssueKind::StuckProposals]
                        } else {
                            Seq::empty()
                        };
                        let c = match m.max_log_lag {
                            Some((_, lag)) => if lag > self.log_lag_threshold {
                                seq![RaftIssueKind::LogDivergence]
                            } else {
                                Seq::empty()
                            },
                            None => Seq::empty(),
                        };
                        a + b + c
                    },
                };
                if s.leader_id == 0 && s.term > 0 {
                    from_metrics.push(RaftIssueKind::NoLeader)
                } else {
                    from_metrics
                }
            },
        }
    }
}


fn cluster_issue(
    id_prefix: &str,
    severity: IssueSeverity,
    secs: i64,
    now_ms: i64,
    description: String,
    context: Vec<(String, ContextValue)>,
) -> (i: Issue)
    ensures
        i.id@ == id_prefix@ + signed_decimal(secs as int),
        i.issue_type == IssueType::RaftConsensusIssue,
        i.severity == severity,
        i.resource is Cluster,
        i.detected_at_ms == now_ms,
        i.description == description,
        i.context == context,
        i.correlation_id is None,
{
    Issue {
        id: with_signed_number(id_prefix, secs),
        issue_type: IssueType::RaftConsensusIssue,
        severity,
        resource: IssueResource::Cluster,
        detected_at_ms: now_ms,
        description,
        context,
        correlation_id: None,
    }
}

fn storm_issue(s: &RaftStatus, m: &RaftMetrics, node_id: u64, secs: i64, now_ms: i64) -> (i: Issue)
    requires
        secs == now_ms / 1000,
    ensures
        is_raft_issue(i, RaftIssueKind::LeaderStorm, *s, *m, node_id, now_ms),
{
    let head = with_number("Leader election storm detected: ", m.leader_changes_per_minute as u64);
    let description = concat(head.as_str(), " changes per minute");
    let mut context: Vec<(String, ContextValue)> = Vec::new();
    context.push(number_entry("leader_changes", m.leader_changes_per_minute as u64));
    context.push(number_entry("current_term", s.term));
    context.push(number_entry("node_id", node_id));
    cluster_issue("raft-leader-storm-", IssueSeverity::Critical, secs, now_ms, description, context)
}

fn stuck_issue(s: &RaftStatus, m: &RaftMetrics, node_id: u64, secs: i64, now_ms: i64) -> (i: Issue)
    requires
        secs == now_ms / 1000,
    ensures
        is_raft_issue(i, RaftIssueKind::StuckProposals, *s, *m, node_id, now_ms),
{
    let description = with_number("Too many pending proposals: ", m.pending_proposals);
    let mut context: Vec<(String, ContextValue)> = Vec::new();
    context.push(number_entry("pending_proposals", m.pending_proposals));
    context.push(number_entry("committed_index", s.committed));
    context.push(number_entry("applied_index", s.applied));
    cluster_issue("raft-stuck-proposals-", IssueSeverity::High, secs, now_ms, description, context)
}

fn divergence_issue(s: &RaftStatus, m: &RaftMetrics, peer: u64, lag: u64, node_id: u64, secs: i64, now_ms: i64) -> (i: Issue)
    requires
        secs == now_ms / 1000,
        m.max_log_lag == Some((peer, lag)),
    ensures
        is_raft_issue(i, RaftIssueKind::LogDivergence, *s, *m, node_id, now_ms),
{
    let a = with_number("Log divergence detected: peer ", peer);
    let b = concat(a.as_str(), " is ");
    let c = with_number(b.as_str(), lag);
    let description = concat(c.as_str(), " entries behind");
    let mut context: Vec<(String, ContextValue)> = Vec::new();
    context.push(number_entry("peer_id", peer));
    context.push(number_entry("log_lag", lag));
    context.push(number_entry("leader_commit", s.committed));
    Issue {
        id: with_signed_number("raft-log-divergence-", secs),
        issue_type: IssueType::RaftConsensusIssue,
        severity: IssueSeverity::High,
        resource: IssueResource::Node { id: peer, address: with_number("node-", peer) },
        detected_at_ms: now_ms,
        description,
        context,
        correlation_id: None,
    }
}

fn no_leader_issue(s: &RaftStatus, m: &RaftMetrics, node_id: u64, secs: i64, now_ms: i64) -> (i: Issue)
    requires
        secs == now_ms / 1000,
    ensures
        is_raft_issue(i, RaftIssueKind::NoLeader, *s, *m, node_id, now_ms),
{
    let mut context: Vec<(String, ContextValue)> = Vec::new();
    context.push(number_entry("term", s.term));
    context.push(text_entry("state", s.state.name()));
    cluster_issue(
        "raft-no-leader-",
        IssueSeverity::Critical,
        secs,
        now_ms,
        String::from_str("No leader elected in cluster"),
        context,
    )
}

impl RaftConsensusDetector {
    /// The consensus issues shown by the node's status and metrics at `now_ms`: none
    /// without a status; otherwise a storm, stuck proposals and log divergence as the
    /// metrics exceed the thresholds, then a missing leader when a term has begun and
    /// no leader is known.
    pub fn detect(
        &self,
        status: Option<RaftStatus>,
        metrics: Option<RaftMetrics>,
        context: &RemediationContext,
        now_ms: i64,
    ) -> (r: Vec<Issue>)
        ensures
            r@.len() == self.kinds(status, metrics).len(),
            forall|k: int|
                0 <= k < r@.len() ==> is_raft_issue(
                    #[trigger] r@[k],
                    self.kinds(status, metrics)[k],
                    status->Some_0,
                    metrics->Some_0,
                    context.node_id,
                    now_ms,
                ),
    {
        let mut issues: Vec<Issue> = Vec::new();
        let s = match status {
            Some(s) => s,
            None => {
                return issues;
            },
        };
        let secs = secs_of_millis(now_ms);
        let node_id = context.node_id;
        let ghost mut kinds: Seq<RaftIssueKind> = Seq::empty();
        let m0 = match metrics {
            Some(m) => m,
            None => RaftMetrics { leader_changes_per_minute: 0, pending_proposals: 0, max_log_lag: None },
        };
        if let Some(m) = metrics {
            if m.leader_changes_per_minute > self.leader_change_threshold {
                issues.push(storm_issue(&s, &m, node_id, secs, now_ms));
                proof {
                    kinds = kinds.push(RaftIssueKind::LeaderStorm);
                }
            }
            if m.pending_proposals > self.pending_proposal_threshold {
                issues.push(stuck_issue(&s, &m, node_id, secs, now_ms));
                proof {
                    kinds = kinds.push(RaftIssueKind::StuckProposals);
                }
            }
            if let Some((peer, lag)) = m.max_log_lag {
                if lag > self.log_lag_threshold {
                    issues.push(divergence_issue(&s, &m, peer, lag, node_id, secs, now_ms));
                    proof {
                        kinds = kinds.push(RaftIssueKind::LogDivergence);
                    }
                }
            }
        }
        if s.leader_id == 0 && s.term > 0 {
            issues.push(no_leader_issue(&s, &m0, node_id, secs, now_ms));
            proof {
                kinds = kinds.push(RaftIssueKind::NoLeader);
            }
        }
        proof {
            assert(kinds =~= self.kinds(status, metrics));
        }
        issues
    }
}


/// The list of texts as `["a", "b"]`.
pub open spec fn quoted_list(s: Seq<String>) -> Seq<char> {
    "["@ + quoted_items(s) + "]"@
}

/// The texts in double quotes, separated by `, `.
pub open spec fn quoted_items(s: Seq<String>) -> Seq<char>
    decreases s.len(),
{
    if s.len() == 0 {
        Seq::empty()
    } else if s.len() == 1 {
        "\""@ + s[0]@ + "\""@
    } else {
        quoted_items(s.drop_last()) + ", "@ + "\""@ + s.last()@ + "\""@
    }
}

/// Renders texts as `["a", "b"]`.
pub fn render_quoted_list(items: &Vec<String>) -> (r: String)
    ensures
        r@ == quoted_list(items@),
{
    let mut body = String::from_str("");
    proof {
        reveal_strlit("");
    }
    let mut i: usize = 0;
    while i < items.len()
        invariant
            i <= items@.len(),
            body@ == quoted_items(items@.take(i as int)),
        decreases items@.len() - i,
    {
        proof {
            assert(items@.take(i as int + 1).drop_last() =~= items@.take(i as int));
        }
        if i > 0 {
            body.append(", ");
        }
        body.append("\"");
        body.append(items[i].as_str());
        body.append("\"");
        proof {
            if i == 0 {
                assert(body@ =~= "\""@ + items@.take(1)[0]@ + "\""@) by {
                    reveal_strlit("");
                }
            }
        }
        i = i + 1;
    }
    proof {
        assert(items@.take(items@.len() as int) =~= items@);
    }
    let open = concat("[", body.as_str());
    concat(open.as_str(), "]")
}

/// Calms leader election storms.
pub struct LeaderElectionStormRemediator;

impl LeaderElectionStormRemediator {
    /// Handles consensus issues that describe a leader election storm.
    pub fn can_handle(&self, issue: &Issue) -> (r: bool)
        ensures
            r == (issue.issue_type == IssueType::RaftConsensusIssue && text_has(
                issue.description@,
                "Leader election storm"@,
            )),
    {
        issue.issue_type == IssueType::RaftConsensusIssue && text_contains(
            issue.description.as_str(),
            "Leader election storm",
        )
    }

    pub fn priority(&self) -> (p: u32)
        ensures
            p == 20,
    {
        20
    }

    /// The election timeout is raised; connectivity problems found by the check end
    /// the attempt and call for a human; otherwise leadership moves to the preferred
    /// leader, if there is one.
    pub fn remediate(
        &self,
        connectivity_issues: &Vec<String>,
        preferred_leader: Option<u64>,
        now_ms: i64,
        duration_ms: u64,
    ) -> (r: RemediationResult)
        ensures
            is_action(
                r.actions@[0],
                "increase_election_timeout"@,
                "raft_config"@,
                "Increased timeout to reduce elections"@,
                now_ms,
            ),
            r.duration_ms == duration_ms,
            connectivity_issues@.len() > 0 ==> {
                &&& r.actions@.len() == 2
                &&& is_action(
                    r.actions@[1],
                    "diagnose_network"@,
                    "cluster"@,
                    "Found connectivity issues: "@ + quoted_list(connectivity_issues@),
                    now_ms,
                )
                &&& !r.success
                &&& (r.error matches Some(e) && e@ == "Network connectivity issues detected"@)
                &&& r.requires_manual_intervention
            },
            connectivity_issues@.len() == 0 ==> {
                &&& r.actions@.len() == (if preferred_leader is Some {
                    2int
                } else {
                    1int
                })
                &&& (preferred_leader matches Some(l) ==> is_action(
                    r.actions@[1],
                    "transfer_leadership"@,
                    "node-"@ + decimal(l as nat),
                    "Attempting to stabilize leadership"@,
                    now_ms,
                ))
                &&& r.success
                &&& r.error is None
                &&& !r.requires_manual_intervention
            },
    {
        let mut actions: Vec<RemediationAction> = Vec::new();
        actions.push(
            make_action(
                "increase_election_timeout",
                "raft_config",
                "Increased timeout to reduce elections",
                now_ms,
            ),
        );
        if connectivity_issues.len() > 0 {
            let list = render_quoted_list(connectivity_issues);
            let found = concat("Found connectivity issues: ", list.as_str());
            actions.push(make_action("diagnose_network", "cluster", found.as_str(), now_ms));
            return RemediationResult {
                success: false,
                actions,
                error: Some(String::from_str("Network connectivity issues detected")),
                duration_ms,
                requires_manual_intervention: true,
            };
        }
        if let Some(leader) = preferred_leader {
            let target = with_number("node-", leader);
            actions.push(
                make_action(
                    "transfer_leadership",
                    target.as_str(),
                    "Attempting to stabilize leadership",
                    now_ms,
                ),
            );
        }
        RemediationResult {
            success: true,
            actions,
            error: None,
            duration_ms,
            requires_manual_intervention: false,
        }
    }
}

/// Clears stuck proposals.
pub struct StuckProposalRemediator;

impl StuckProposalRemediator {
    /// Handles consensus issues about pending proposals.
    pub fn can_handle(&self, issue: &Issue) -> (r: bool)
        ensures
            r == (issue.issue_type == IssueType::RaftConsensusIssue && text_has(
                issue.description@,
                "pending proposals"@,
            )),
    {
        issue.issue_type == IssueType::RaftConsensusIssue && text_contains(
            issue.description.as_str(),
            "pending proposals",
        )
    }

    pub fn priority(&self) -> (p: u32)
        ensures
            p == 15,
    {
        15
    }

    /// A leader drains its queue and steps down; a follower checks its leader;
    /// without a status nothing is done.
    pub fn remediate(
        &self,
        status: Option<RaftStatus>,
        context: &RemediationContext,
        now_ms: i64,
        duration_ms: u64,
    ) -> (r: RemediationResult)
        ensures
            r.success,
            r.error is None,
            r.duration_ms == duration_ms,
            !r.requires_manual_intervention,
            status is None ==> r.actions@.len() == 0,
            status matches Some(s) ==> s.leader_id == context.node_id ==> {
                &&& r.actions@.len() == 2
                &&& is_action(
                    r.actions@[0],
                    "drain_proposal_queue"@,
                    "raft_proposals"@,
                    "Attempting to process pending proposals"@,
                    now_ms,
                )
                &&& is_action(
                    r.actions@[1],
                    "leader_step_down"@,
                    "node-"@ + decimal(context.node_id as nat),
                    "Stepping down to trigger new election"@,
                    now_ms,
                )
            },
            status matches Some(s) ==> s.leader_id != context.node_id ==> {
                &&& r.actions@.len() == 1
                &&& is_action(
                    r.actions@[0],
                    "check_leader_connectivity"@,
                    "node-"@ + decimal(s.leader_id as nat),
                    "Verifying connection to leader"@,
                    now_ms,
                )
            },
    {
        let mut actions: Vec<RemediationAction> = Vec::new();
        if let Some(s) = status {
            if s.leader_id == context.node_id {
                actions.push(
                    make_action(
                        "drain_proposal_queue",
                        "raft_proposals",
                        "Attempting to process pending proposals",
                        now_ms,
                    ),
                );
                let me = with_number("node-", context.node_id);
                actions.push(
                    make_action(
                        "leader_step_down",
                        me.as_str(),
                        "Stepping down to trigger new election",
                        now_ms,
                    ),
                );
            } else {
                let leader = with_number("node-", s.leader_id);
                actions.push(
                    make_action(
                        "check_leader_connectivity",
                        leader.as_str(),
                        "Verifying connection to leader",
                        now_ms,
                    ),
                );
            }
        }
        RemediationResult {
            success: true,
            actions,
            error: None,
            duration_ms,
            requires_manual_intervention: false,
        }
    }
}


/// Brings lagging peers back in step.
pub struct LogDivergenceRemediator;

impl LogDivergenceRemediator {
    /// Handles consensus issues about log divergence.
    pub fn can_handle(&self, issue: &Issue) -> (r: bool)
        ensures
            r == (issue.issue_type == IssueType::RaftConsensusIssue && text_has(
                issue.description@,
                "Log divergence"@,
            )),
    {
        issue.issue_type == IssueType::RaftConsensusIssue && text_contains(
            issue.description.as_str(),
            "Log divergence",
        )
    }

    pub fn priority(&self) -> (p: u32)
        ensures
            p == 25,
    {
        25
    }

    /// For the peer and lag named in the issue (0 where absent): a snapshot when the
    /// lag exceeds 1000 entries, forced replication otherwise; beyond 5000 entries the
    /// peer is flagged for removal and a human is needed.
    pub fn remediate(&self, issue: &Issue, now_ms: i64, duration_ms: u64) -> (r: RemediationResult)
        ensures
            ({
                let peer = match context_number(issue.context@, "peer_id"@) {
                    Some(n) => n,
                    None => 0u64,
                };
                let lag = match context_number(issue.context@, "log_lag"@) {
                    Some(n) => n,
                    None => 0u64,
                };
                let target = "peer-"@ + decimal(peer as nat);
                &&& r.duration_ms == duration_ms
                &&& if lag > 1000 {
                    is_action(
                        r.actions@[0],
                        "trigger_snapshot"@,
                        target,
                        "Sending snapshot to catch up peer"@,
                        now_ms,
                    )
                } else {
                    is_action(
                        r.actions@[0],
                        "force_replication"@,
                        target,
                        "Forcing log replication to peer"@,
                        now_ms,
                    )
                }
                &&& if lag > 5000 {
                    &&& r.actions@.len() == 2
                    &&& is_action(
                        r.actions@[1],
                        "consider_peer_removal"@,
                        target,
                        "Peer severely lagging, may need removal"@,
                        now_ms,
                    )
                    &&& !r.success
                    &&& (r.error matches Some(e) && e@
                        == "Peer too far behind, manual intervention needed"@)
                    &&& r.requires_manual_intervention
                } else {
                    &&& r.actions@.len() == 1
                    &&& r.success
                    &&& r.error is None
                    &&& !r.requires_manual_intervention
                }
            }),
    {
        let peer = match context_u64(&issue.context, "peer_id") {
            Some(n) => n,
            None => 0,
        };
        let lag = match context_u64(&issue.context, "log_lag") {
            Some(n) => n,
            None => 0,
        };
        let target = with_number("peer-", peer);
        let mut actions: Vec<RemediationAction> = Vec::new();
        if lag > 1000 {
            actions.push(
                make_action(
                    "trigger_snapshot",
                    target.as_str(),
                    "Sending snapshot to catch up peer",
                    now_ms,
                ),
            );
        } else {
            actions.push(
                make_action(
                    "force_replication",
                    target.as_str(),
                    "Forcing log replication to peer",
                    now_ms,
                ),
            );
        }
        if lag > 5000 {
            actions.push(
                make_action(
                    "consider_peer_removal",
                    target.as_str(),
                    "Peer severely lagging, may need removal",
                    now_ms,
                ),
            );
            return RemediationResult {
                success: false,
                actions,
                error: Some(String::from_str("Peer too far behind, manual intervention needed")),
                duration_ms,
                requires_manual_intervention: true,
            };
        }
        RemediationResult {
            success: true,
            actions,
            error: None,
            duration_ms,
            requires_manual_intervention: false,
        }
    }
}

/// Ids of the peers counted unreachable: more than 10 consecutive failures.
pub open spec fn unreachable_ids(peers: Seq<(u64, Option<u64>)>) -> Seq<u64>
    decreases peers.len(),
{
    if peers.len() == 0 {
        Seq::empty()
    } else {
        let rest = unreachable_ids(peers.drop_last());
        match peers.last().1 {
            Some(f) => if f > 10 {
                rest.push(peers.last().0)
            } else {
                rest
            },
            None => rest,
        }
    }
}

/// Detector of network partitions.
pub struct NetworkPartitionDetector;

impl NetworkPartitionDetector {
    /// The issue types this detector reports.
    pub fn issue_types(&self) -> (r: Vec<IssueType>)
        ensures
            r@ == seq![IssueType::NetworkPartition],
    {
        let mut r = Vec::new();
        r.push(IssueType::NetworkPartition);
        proof {
            assert(r@ =~= seq![IssueType::NetworkPartition]);
        }
        r
    }

    /// From the known peers, each with its count of consecutive failures where one
    /// is known: one critical issue when more than half of them are unreachable;
    /// none when the cluster status could not be read (`None`).
    pub fn detect(
        &self,
        peers: Option<&Vec<(u64, Option<u64>)>>,
        context: &RemediationContext,
        now_ms: i64,
    ) -> (r: Vec<Issue>)
        ensures
            match peers {
                None => r@.len() == 0,
                Some(p) => {
                    let down = unreachable_ids(p@);
                    if down.len() > p@.len() / 2 {
                        &&& r@.len() == 1
                        &&& r@[0].id@ == "network-partition-"@ + signed_decimal(now_ms / 1000)
                        &&& r@[0].issue_type == IssueType::NetworkPartition
                        &&& r@[0].severity == IssueSeverity::Critical
                        &&& r@[0].resource is Cluster
                        &&& r@[0].detected_at_ms == now_ms
                        &&& r@[0].description@ == "Possible network partition: cannot reach "@
                            + decimal(down.len()) + " out of "@ + decimal(p@.len()) + " peers"@
                        &&& r@[0].context@.len() == 3
                        &&& r@[0].context@[0].0@ == "unreachable_peers"@
                        &&& (r@[0].context@[0].1 matches ContextValue::Numbers(v) && v@ == down)
                        &&& ctx_number(r@[0].context@[1], "total_peers"@, p@.len() as u64)
                        &&& ctx_number(r@[0].context@[2], "node_id"@, context.node_id)
                        &&& r@[0].correlation_id is None
                    } else {
                        r@.len() == 0
                    }
                },
            },
    {
        let mut issues: Vec<Issue> = Vec::new();
        let peers = match peers {
            Some(p) => p,
            None => {
                return issues;
            },
        };
        let mut down: Vec<u64> = Vec::new();
        let mut i: usize = 0;
        while i < peers.len()
            invariant
                i <= peers@.len(),
                down@ == unreachable_ids(peers@.take(i as int)),
                down@.len() <= i,
            decreases peers@.len() - i,
        {
            proof {
                assert(peers@.take(i as int + 1).drop_last() =~= peers@.take(i as int));
            }
            let (id, failures) = peers[i];
            if let Some(f) = failures {
                if f > 10 {
                    down.push(id);
                }
            }
            i = i + 1;
        }
        proof {
            assert(peers@.take(peers@.len() as int) =~= peers@);
        }
        let total = peers.len();
        if down.len() > total / 2 {
            let a = with_number("Possible network partition: cannot reach ", down.len() as u64);
            let b = concat(a.as_str(), " out of ");
            let c = with_number(b.as_str(), total as u64);
            let description = concat(c.as_str(), " peers");
            let secs = secs_of_millis(now_ms);
            let mut ctx: Vec<(String, ContextValue)> = Vec::new();
            ctx.push((String::from_str("unreachable_peers"), ContextValue::Numbers(down)));
            ctx.push(number_entry("total_peers", total as u64));
            ctx.push(number_entry("node_id", context.node_id));
            issues.push(
                Issue {
                    id: with_signed_number("network-partition-", secs),
                    issue_type: IssueType::NetworkPartition,
                    severity: IssueSeverity::Critical,
                    resource: IssueResource::Cluster,
                    detected_at_ms: now_ms,
                    description,
                    context: ctx,
                    correlation_id: None,
                },
            );
        }
        issues
    }
}

/// Contains the damage of a network partition.
pub struct NetworkPartitionRemediator;

impl NetworkPartitionRemediator {
    /// Handles network partitions.
    pub fn can_handle(&self, issue: &Issue) -> (r: bool)
        ensures
            r == (issue.issue_type == IssueType::NetworkPartition),
    {
        issue.issue_type == IssueType::NetworkPartition
    }

    pub fn priority(&self) -> (p: u32)
        ensures
            p == 30,
    {
        30
    }

    /// Verifies the partition, fences the node when it sees no leader, and tries to
    /// reconnect each peer the issue lists as unreachable; always asks for a human.
    pub fn remediate(
        &self,
        issue: &Issue,
        status: Option<RaftStatus>,
        context: &RemediationContext,
        now_ms: i64,
        duration_ms: u64,
    ) -> (r: RemediationResult)
        ensures
            ({
                let fence = status matches Some(s) && s.leader_id == 0;
                let first_peer = if fence {
                    2int
                } else {
                    1int
                };
                let peers = match context_lookup(issue.context@, "unreachable_peers"@) {
                    Some(ContextValue::Numbers(v)) => v@,
                    _ => Seq::<u64>::empty(),
                };
                &&& is_action(
                    r.actions@[0],
                    "verify_partition"@,
                    "network"@,
                    "Checking network connectivity"@,
                    now_ms,
                )
                &&& fence ==> is_action(
                    r.actions@[1],
                    "fence_node"@,
                    "node-"@ + decimal(context.node_id as nat),
                    "Fencing node to prevent split-brain"@,
                    now_ms,
                )
                &&& r.actions@.len() == first_peer + peers.len()
                &&& forall|k: int|
                    0 <= k < peers.len() ==> is_action(
                        #[trigger] r.actions@[first_peer + k],
                        "reconnect_peer"@,
                        "peer-"@ + decimal(peers[k] as nat),
                        "Attempting to reconnect"@,
                        now_ms,
                    )
            }),
            !r.success,
            r.error matches Some(e) && e@ == "Network partition detected, manual intervention recommended"@,
            r.duration_ms == duration_ms,
            r.requires_manual_intervention,
    {
        let mut actions: Vec<RemediationAction> = Vec::new();
        actions.push(
            make_action("verify_partition", "network", "Checking network connectivity", now_ms),
        );
        if let Some(s) = status {
            if s.leader_id == 0 {
                let me = with_number("node-", context.node_id);
                actions.push(
                    make_action(
                        "fence_node",
                        me.as_str(),
                        "Fencing node to prevent split-brain",
                        now_ms,
                    ),
                );
            }
        }
        let ghost first = actions@.len() as int;
        let ghost prefix = actions@;
        if let Some(ContextValue::Numbers(list)) = context_get(&issue.context, "unreachable_peers") {
            let mut k: usize = 0;
            while k < list.len()
                invariant
                    k <= list@.len(),
                    1 <= first <= 2,
                    actions@.len() == first + k,
                    actions@.take(first) == prefix,
                    forall|q: int|
                        0 <= q < k ==> is_action(
                            #[trigger] actions@[first + q],
                            "reconnect_peer"@,
                            "peer-"@ + decimal(list@[q] as nat),
                            "Attempting to reconnect"@,
                            now_ms,
                        ),
                decreases list@.len() - k,
            {
                let target = with_number("peer-", list[k]);
                let ghost before = actions@;
                actions.push(
                    make_action("reconnect_peer", target.as_str(), "Attempting to reconnect", now_ms),
                );
                proof {
                    assert(actions@.take(first) =~= before.take(first));
                    assert forall|q: int| 0 <= q < k + 1 implies is_action(
                        #[trigger] actions@[first + q],
                        "reconnect_peer"@,
                        "peer-"@ + decimal(list@[q] as nat),
                        "Attempting to reconnect"@,
                        now_ms,
                    ) by {
                        if q < k {
                            assert(actions@[first + q] == before[first + q]);
                        }
                    }
                }
                k = k + 1;
            }
            proof {
                assert(actions@[0] == prefix[0]);
                if first == 2 {
                    assert(actions@[1] == prefix[1]);
                }
            }
        }
        RemediationResult {
            success: false,
            actions,
            error: Some(
                String::from_str("Network partition detected, manual intervention recommended"),
            ),
            duration_ms,
            requires_manual_intervention: true,
        }
    }
}

} // verus!
