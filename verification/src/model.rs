//! Workflow roles and the states a role moves through.

use vstd::prelude::*;
use crate::text::str_eq;
use crate::json::{Json, JsonView, json_view, jget, jstr};

verus! {

/// A participant of the workflow.
#[derive(Debug, Clone, Copy, PartialEq, Eq, Hash, Structural)]
pub enum Role {
    PM,
    Dev,
    QA,
    SRE,
    Security,
    Blackboard,
}

/// The key under which a role is written in artifacts and logs.
pub open spec fn role_key(r: Role) -> Seq<char> {
    match r {
        Role::PM => seq!['P', 'M'],
        Role::Dev => seq!['D', 'e', 'v'],
        Role::QA => seq!['Q', 'A'],
        Role::SRE => seq!['S', 'R', 'E'],
        Role::Security => seq!['S', 'e', 'c', 'u', 'r', 'i', 't', 'y'],
        Role::Blackboard => seq!['B', 'l', 'a', 'c', 'k', 'b', 'o', 'a', 'r', 'd'],
    }
}

/// The role whose key is exactly `s`, if any.
pub open spec fn role_from_key(s: Seq<char>) -> Option<Role> {
    if s == role_key(Role::PM) {
        Some(Role::PM)
    } else if s == role_key(Role::Dev) {
        Some(Role::Dev)
    } else if s == role_key(Role::QA) {
        Some(Role::QA)
    } else if s == role_key(Role::SRE) {
        Some(Role::SRE)
    } else if s == role_key(Role::Security) {
        Some(Role::Security)
    } else if s == role_key(Role::Blackboard) {
        Some(Role::Blackboard)
    } else {
        None
    }
}

impl Role {
    pub fn as_key(&self) -> (k: &'static str)
        ensures
            k@ == role_key(*self),
    {
        match self {
            Role::PM => {
                proof { reveal_strlit("PM"); }
                "PM"
            },
            Role::Dev => {
                proof { reveal_strlit("Dev"); }
                "Dev"
            },
            Role::QA => {
                proof { reveal_strlit("QA"); }
                "QA"
            },
            Role::SRE => {
                proof { reveal_strlit("SRE"); }
                "SRE"
            },
            Role::Security => {
                proof { reveal_strlit("Security"); }
                "Security"
            },
            Role::Blackboard => {
                proof { reveal_strlit("Blackboard"); }
                "Blackboard"
            },
        }
    }

    pub fn from_key(value: &str) -> (r: Option<Role>)
        ensures
            r == role_from_key(value@),
    {
        proof {
            reveal_strlit("PM");
            reveal_strlit("Dev");
            reveal_strlit("QA");
            reveal_strlit("SRE");
            reveal_strlit("Security");
            reveal_strlit("Blackboard");
            assert("PM"@ =~= role_key(Role::PM));
            assert("Dev"@ =~= role_key(Role::Dev));
            assert("QA"@ =~= role_key(Role::QA));
            assert("SRE"@ =~= role_key(Role::SRE));
            assert("Security"@ =~= role_key(Role::Security));
            assert("Blackboard"@ =~= role_key(Role::Blackboard));
        }
        if str_eq(value, "PM") {
            Some(Role::PM)
        } else if str_eq(value, "Dev") {
            Some(Role::Dev)
        } else if str_eq(value, "QA") {
            Some(Role::QA)
        } else if str_eq(value, "SRE") {
            Some(Role::SRE)
        } else if str_eq(value, "Security") {
            Some(Role::Security)
        } else if str_eq(value, "Blackboard") {
            Some(Role::Blackboard)
        } else {
            None
        }
    }
}

/// Reading a role back from its key gives the role: keys are distinct.
pub proof fn lemma_role_key_roundtrip(r: Role)
    ensures
        role_from_key(role_key(r)) == Some(r),
{
    let pm = role_key(Role::PM);
    let dev = role_key(Role::Dev);
    let qa = role_key(Role::QA);
    let sre = role_key(Role::SRE);
    let sec = role_key(Role::Security);
    assert(pm[0] == 'P' && dev[0] == 'D' && qa[0] == 'Q' && sre[0] == 'S' && sec[0] == 'S');
    assert(pm.len() == 2 && qa.len() == 2 && dev.len() == 3 && sre.len() == 3);
    assert(sec.len() == 8 && role_key(Role::Blackboard).len() == 10);
    assert(sre[1] == 'R');
}

/// The state of one role in the workflow.
#[derive(Debug, Clone, Copy, PartialEq, Eq, Hash, Structural)]
pub enum RoleState {
    Idle,
    InProgress,
    Submitted,
    Approved,
    Rejected,
}

pub open spec fn role_state_key(s: RoleState) -> Seq<char> {
    match s {
        RoleState::Idle => seq!['I', 'd', 'l', 'e'],
        RoleState::InProgress => seq!['I', 'n', 'P', 'r', 'o', 'g', 'r', 'e', 's', 's'],
        RoleState::Submitted => seq!['S', 'u', 'b', 'm', 'i', 't', 't', 'e', 'd'],
        RoleState::Approved => seq!['A', 'p', 'p', 'r', 'o', 'v', 'e', 'd'],
        RoleState::Rejected => seq!['R', 'e', 'j', 'e', 'c', 't', 'e', 'd'],
    }
}

impl RoleState {
    pub fn as_key(&self) -> (k: &'static str)
        ensures
            k@ == role_state_key(*self),
    {
        match self {
            RoleState::Idle => {
                proof { reveal_strlit("Idle"); }
                "Idle"
            },
            RoleState::InProgress => {
                proof { reveal_strlit("InProgress"); }
                "InProgress"
            },
            RoleState::Submitted => {
                proof { reveal_strlit("Submitted"); }
                "Submitted"
            },
            RoleState::Approved => {
                proof { reveal_strlit("Approved"); }
                "Approved"
            },
            RoleState::Rejected => {
                proof { reveal_strlit("Rejected"); }
                "Rejected"
            },
        }
    }
}

} // verus!

verus! {

/// An optional JSON value as plain values.
pub open spec fn opt_json(o: Option<Json>) -> Option<JsonView> {
    match o {
        Some(j) => Some(json_view(j)),
        None => None,
    }
}

/// An optional string as plain characters.
pub open spec fn opt_chars(o: Option<String>) -> Option<Seq<char>> {
    match o {
        Some(s) => Some(s@),
        None => None,
    }
}

pub fn duplicate_opt(o: &Option<String>) -> (r: Option<String>)
    ensures
        opt_chars(r) == opt_chars(*o),
{
    match o {
        Some(s) => Some(s.clone()),
        None => None,
    }
}

/// The keys of the `candidates` object of a dispatch audit.
#[derive(Debug, Clone, Copy, PartialEq, Eq, Structural)]
pub struct CandidateKeys {
    pub has_artifact_next_role: bool,
    pub has_fallback_next_role: bool,
}

/// What the `evidence_refs` object of a dispatch audit holds, by type.
#[derive(Debug, Clone, Copy, PartialEq, Eq, Structural)]
pub struct EvidenceRefKinds {
    pub blackboard_event_id_is_number: bool,
    pub artifact_type_is_string: bool,
}

/// The audit record of a blackboard event, as far as gates read it: whether it is
/// an object, each string field when present as a string, and the shape of its
/// `candidates` and `evidence_refs` objects when those are objects.
#[derive(Debug)]
pub struct AuditRecord {
    pub is_object: bool,
    pub rule_id: Option<String>,
    pub trigger: Option<String>,
    pub selected_role: Option<String>,
    pub route_source: Option<String>,
    pub release_id: Option<String>,
    pub candidates: Option<CandidateKeys>,
    pub evidence_refs: Option<EvidenceRefKinds>,
}

/// An audit record as plain values.
pub struct AuditView {
    pub is_object: bool,
    pub rule_id: Option<Seq<char>>,
    pub trigger: Option<Seq<char>>,
    pub selected_role: Option<Seq<char>>,
    pub route_source: Option<Seq<char>>,
    pub release_id: Option<Seq<char>>,
    pub candidates: Option<CandidateKeys>,
    pub evidence_refs: Option<EvidenceRefKinds>,
}

impl View for AuditRecord {
    type V = AuditView;

    open spec fn view(&self) -> AuditView {
        AuditView {
            is_object: self.is_object,
            rule_id: opt_chars(self.rule_id),
            trigger: opt_chars(self.trigger),
            selected_role: opt_chars(self.selected_role),
            route_source: opt_chars(self.route_source),
            release_id: opt_chars(self.release_id),
            candidates: self.candidates,
            evidence_refs: self.evidence_refs,
        }
    }
}

/// An optional member that is a string, by its text.
pub open spec fn str_member(v: JsonView, k: Seq<char>) -> Option<Seq<char>> {
    jstr(jget(v, k))
}

/// What the gates read of an audit record.
pub open spec fn audit_view_of(v: JsonView) -> AuditView {
    AuditView {
        is_object: v is Object,
        rule_id: str_member(v, "rule_id"@),
        trigger: str_member(v, "trigger"@),
        selected_role: str_member(v, "selected_role"@),
        route_source: str_member(v, "route_source"@),
        release_id: str_member(v, "release_id"@),
        candidates: match jget(v, "candidates"@) {
            Some(c) => if c is Object {
                Some(
                    CandidateKeys {
                        has_artifact_next_role: jget(c, "artifact_next_role"@) is Some,
                        has_fallback_next_role: jget(c, "fallback_next_role"@) is Some,
                    },
                )
            } else {
                None
            },
            None => None,
        },
        evidence_refs: match jget(v, "evidence_refs"@) {
            Some(e) => if e is Object {
                Some(
                    EvidenceRefKinds {
                        blackboard_event_id_is_number: jget(e, "blackboard_event_id"@) matches Some(JsonView::Number(_)),
                        artifact_type_is_string: jget(e, "artifact_type"@) matches Some(JsonView::Str(_)),
                    },
                )
            } else {
                None
            },
            None => None,
        },
    }
}

pub fn str_member_of(j: &Json, k: &str) -> (r: Option<String>)
    ensures
        opt_chars(r) == str_member(json_view(*j), k@),
{
    match j.get(k) {
        Some(x) => match x.as_str() {
            Some(s) => Some(s.to_string()),
            None => None,
        },
        None => None,
    }
}

/// Reads the fields the gates check from an audit record.
pub fn read_audit(j: &Json) -> (r: AuditRecord)
    ensures
        r@ == audit_view_of(json_view(*j)),
{
    let candidates = match j.get("candidates") {
        Some(c) => match c {
            Json::Object(_) => Some(
                CandidateKeys {
                    has_artifact_next_role: c.get("artifact_next_role").is_some(),
                    has_fallback_next_role: c.get("fallback_next_role").is_some(),
                },
            ),
            _ => None,
        },
        None => None,
    };
    let evidence_refs = match j.get("evidence_refs") {
        Some(e) => match e {
            Json::Object(_) => Some(
                EvidenceRefKinds {
                    blackboard_event_id_is_number: match e.get("blackboard_event_id") {
                        Some(Json::Number(_)) => true,
                        _ => false,
                    },
                    artifact_type_is_string: match e.get("artifact_type") {
                        Some(Json::Str(_)) => true,
                        _ => false,
                    },
                },
            ),
            _ => None,
        },
        None => None,
    };
    AuditRecord {
        is_object: match j {
            Json::Object(_) => true,
            _ => false,
        },
        rule_id: str_member_of(j, "rule_id"),
        trigger: str_member_of(j, "trigger"),
        selected_role: str_member_of(j, "selected_role"),
        route_source: str_member_of(j, "route_source"),
        release_id: str_member_of(j, "release_id"),
        candidates,
        evidence_refs,
    }
}

/// One entry of the blackboard's event log.
#[derive(Debug)]
pub struct BlackboardEvent {
    pub id: u64,
    pub round: usize,
    pub from: String,
    pub event_type: String,
    pub decision: String,
    pub summary: String,
    pub next_role: Option<String>,
    pub audit: Json,
}

/// A blackboard event as plain values.
pub struct EventView {
    pub id: u64,
    pub round: usize,
    pub from: Seq<char>,
    pub event_type: Seq<char>,
    pub decision: Seq<char>,
    pub summary: Seq<char>,
    pub next_role: Option<Seq<char>>,
    pub audit: JsonView,
}

impl View for BlackboardEvent {
    type V = EventView;

    open spec fn view(&self) -> EventView {
        EventView {
            id: self.id,
            round: self.round,
            from: self.from@,
            event_type: self.event_type@,
            decision: self.decision@,
            summary: self.summary@,
            next_role: opt_chars(self.next_role),
            audit: json_view(self.audit),
        }
    }
}

impl BlackboardEvent {
    pub fn duplicate(&self) -> (r: Self)
        ensures
            r@ == self@,
    {
        BlackboardEvent {
            id: self.id,
            round: self.round,
            from: self.from.clone(),
            event_type: self.event_type.clone(),
            decision: self.decision.clone(),
            summary: self.summary.clone(),
            next_role: duplicate_opt(&self.next_role),
            audit: self.audit.duplicate(),
        }
    }
}

/// The events of a log as plain values.
pub open spec fn events_view(v: Seq<BlackboardEvent>) -> Seq<EventView> {
    v.map_values(|e: BlackboardEvent| e@)
}

/// The shared blackboard: a version counter, the latest normalized artifact of
/// each role (indexed by role), and the event log.
pub struct BlackboardState {
    pub version: u64,
    pub slots: Vec<Option<Json>>,
    pub events: Vec<BlackboardEvent>,
}

/// A blackboard as plain values.
pub struct BlackboardView {
    pub version: u64,
    pub slots: Seq<Option<JsonView>>,
    pub events: Seq<EventView>,
}

impl View for BlackboardState {
    type V = BlackboardView;

    open spec fn view(&self) -> BlackboardView {
        BlackboardView {
            version: self.version,
            slots: self.slots@.map_values(|o: Option<Json>| opt_json(o)),
            events: events_view(self.events@),
        }
    }
}

impl BlackboardState {
    pub fn duplicate(&self) -> (r: Self)
        ensures
            r@ == self@,
    {
        let mut slots: Vec<Option<Json>> = Vec::new();
        let mut i: usize = 0;
        while i < self.slots.len()
            invariant
                i <= self.slots@.len(),
                slots@.len() == i,
                forall|j: int| 0 <= j < i ==> opt_json(#[trigger] slots@[j]) == opt_json(self.slots@[j]),
            decreases self.slots@.len() - i,
        {
            let d = match &self.slots[i] {
                Some(j) => Some(j.duplicate()),
                None => None,
            };
            slots.push(d);
            i = i + 1;
        }
        let mut events: Vec<BlackboardEvent> = Vec::new();
        let mut k: usize = 0;
        while k < self.events.len()
            invariant
                k <= self.events@.len(),
                events@.len() == k,
                forall|j: int| 0 <= j < k ==> (#[trigger] events@[j])@ == self.events@[j]@,
            decreases self.events@.len() - k,
        {
            events.push(self.events[k].duplicate());
            k = k + 1;
        }
        let r = BlackboardState { version: self.version, slots, events };
        assert(r@.slots =~= self@.slots);
        assert(r@.events =~= self@.events);
        r
    }
}

} // verus!
