//! Session modes: named pairs of approval policy and sandbox, looked up by
//! mode id or by the pair.
use vstd::prelude::*;
use crate::edits::string_eq;

verus! {

/// When the backend asks before running a command.
#[derive(Clone, Copy, Debug, PartialEq, Eq, Structural)]
pub enum ApprovalPolicy {
    Never,
    OnRequest,
    OnFailure,
    UnlessTrusted,
}

/// What commands may touch.
#[derive(Clone, Copy, Debug, PartialEq, Eq, Structural)]
pub enum SandboxMode {
    ReadOnly,
    WorkspaceWrite,
    FullAccess,
}

/// A named mode.
pub struct ApprovalPreset {
    pub id: String,
    pub label: String,
    pub description: String,
    pub approval: ApprovalPolicy,
    pub sandbox: SandboxMode,
}

/// A mode as offered to the client.
pub struct SessionMode {
    pub id: String,
    pub name: String,
    pub description: String,
}

/// Index of the first preset satisfying `p`.
pub open spec fn first_index(presets: Seq<ApprovalPreset>, p: spec_fn(ApprovalPreset) -> bool) -> Option<int>
    decreases presets.len(),
{
    if presets.len() == 0 {
        None
    } else {
        match first_index(presets.drop_last(), p) {
            Some(i) => Some(i),
            None => if p(presets.last()) {
                Some(presets.len() - 1)
            } else {
                None
            },
        }
    }
}

proof fn lemma_first_index(presets: Seq<ApprovalPreset>, p: spec_fn(ApprovalPreset) -> bool)
    ensures
        first_index(presets, p) matches Some(i) ==> 0 <= i < presets.len() && p(presets[i])
            && forall|j: int| 0 <= j < i ==> !p(#[trigger] presets[j]),
        first_index(presets, p) is None ==> forall|j: int| 0 <= j < presets.len() ==> !p(#[trigger] presets[j]),
    decreases presets.len(),
{
    if presets.len() > 0 {
        lemma_first_index(presets.drop_last(), p);
        assert forall|j: int| 0 <= j < presets.len() - 1 implies presets.drop_last()[j] == presets[j] by {}
    }
}

pub open spec fn has_id(mode_id: Seq<char>) -> spec_fn(ApprovalPreset) -> bool {
    |p: ApprovalPreset| p.id@ == mode_id
}

pub open spec fn has_policies(approval: ApprovalPolicy, sandbox: SandboxMode) -> spec_fn(ApprovalPreset) -> bool {
    |p: ApprovalPreset| p.approval == approval && p.sandbox == sandbox
}

/// The first preset whose id is `mode_id`.
pub fn find_preset_by_mode_id<'a>(presets: &'a [ApprovalPreset], mode_id: &str) -> (r: Option<&'a ApprovalPreset>)
    ensures
        match first_index(presets@, has_id(mode_id@)) {
            Some(i) => r == Some(&presets@[i]),
            None => r is None,
        },
{
    proof {
        lemma_first_index(presets@, has_id(mode_id@));
    }
    let n = presets.len();
    let mut i: usize = 0;
    while i < n
        invariant
            n == presets@.len(),
            i <= n,
            forall|j: int| 0 <= j < i ==> !has_id(mode_id@)(#[trigger] presets@[j]),
            first_index(presets@, has_id(mode_id@)) matches Some(k) ==> 0 <= k < n && has_id(mode_id@)(presets@[k])
                && forall|j: int| 0 <= j < k ==> !has_id(mode_id@)(#[trigger] presets@[j]),
            first_index(presets@, has_id(mode_id@)) is None ==> forall|j: int| 0 <= j < n ==> !has_id(mode_id@)(#[trigger] presets@[j]),
        decreases n - i,
    {
        if string_eq(&presets[i].id, mode_id) {
            proof {
                if let Some(k) = first_index(presets@, has_id(mode_id@)) {
                    if k > i {
                        assert(!has_id(mode_id@)(presets@[i as int]));
                    }
                }
            }
            return Some(&presets[i]);
        }
        i = i + 1;
    }
    None
}

pub open spec fn opt_view(o: Option<String>) -> Option<Seq<char>> {
    match o {
        Some(s) => Some(s@),
        None => None,
    }
}

/// The id of the first preset with this approval policy and sandbox.
pub fn current_mode_id_for_config(presets: &[ApprovalPreset], approval: ApprovalPolicy, sandbox: SandboxMode) -> (r: Option<String>)
    ensures
        match first_index(presets@, has_policies(approval, sandbox)) {
            Some(i) => opt_view(r) == Some(presets@[i].id@),
            None => r is None,
        },
{
    proof {
        lemma_first_index(presets@, has_policies(approval, sandbox));
    }
    let n = presets.len();
    let mut i: usize = 0;
    while i < n
        invariant
            n == presets@.len(),
            i <= n,
            forall|j: int| 0 <= j < i ==> !has_policies(approval, sandbox)(#[trigger] presets@[j]),
            first_index(presets@, has_policies(approval, sandbox)) matches Some(k) ==> 0 <= k < n
                && has_policies(approval, sandbox)(presets@[k]) && forall|j: int|
                0 <= j < k ==> !has_policies(approval, sandbox)(#[trigger] presets@[j]),
            first_index(presets@, has_policies(approval, sandbox)) is None ==> forall|j: int|
                0 <= j < n ==> !has_policies(approval, sandbox)(#[trigger] presets@[j]),
        decreases n - i,
    {
        if presets[i].approval == approval && presets[i].sandbox == sandbox {
            proof {
                if let Some(k) = first_index(presets@, has_policies(approval, sandbox)) {
                    if k > i {
                        assert(!has_policies(approval, sandbox)(presets@[i as int]));
                    }
                }
            }
            return Some(presets[i].id.clone());
        }
        i = i + 1;
    }
    None
}

/// The modes offered to the client: one per preset, in order.
pub fn available_modes(presets: &[ApprovalPreset]) -> (r: Vec<SessionMode>)
    ensures
        r@.len() == presets@.len(),
        forall|i: int|
            0 <= i < r@.len() ==> (#[trigger] r@[i]).id@ == presets@[i].id@ && r@[i].name@
                == presets@[i].label@ && r@[i].description@ == presets@[i].description@,
{
    let mut out: Vec<SessionMode> = Vec::new();
    let n = presets.len();
    let mut i: usize = 0;
    while i < n
        invariant
            n == presets@.len(),
            i <= n,
            out@.len() == i,
            forall|k: int|
                0 <= k < i ==> (#[trigger] out@[k]).id@ == presets@[k].id@ && out@[k].name@
                    == presets@[k].label@ && out@[k].description@ == presets@[k].description@,
        decreases n - i,
    {
        let p = &presets[i];
        out.push(SessionMode { id: p.id.clone(), name: p.label.clone(), description: p.description.clone() });
        i = i + 1;
    }
    out
}

} // verus!
