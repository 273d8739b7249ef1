//! Lifecycle of the job's scoped identity: a role, its inline policies, and
//! the instance profile that binds the role to compute.
//!
//! The identity control plane rejects deletion of referenced objects, so
//! teardown must detach and delete in a fixed order; and it is eventually
//! consistent, so the binary re-reads the observed state and performs one
//! step at a time. This module holds the model of the observed state, the
//! step functions that decide the next create or delete, and the policy
//! templating that scopes every grant to one table's storage. The calls that
//! carry the steps out are made by the binary.
use crate::get_glue_data::{spec_bucket_of_arn, spec_s3_arn, GlueTable};
use crate::text::{ends_with_str, replace_all, spec_contains, spec_ends_with, spec_replace};
use crate::PROJECT_NAME;
use vstd::prelude::*;
use vstd::string::StrSliceExecFns;
use vstd::string::StringExecFns;

verus! {

/// The observed state of the identity subsystem, as the latest reads of the
/// control plane reported it.
#[derive(Clone, Debug)]
pub struct IamState {
    pub role_exists: bool,
    pub managed_policy_attached: bool,
    pub inline_policy_names: Vec<String>,
    pub instance_profile_exists: bool,
    pub role_attached_to_profile: bool,
}

/// Mathematical model of an observed identity state.
#[verifier::ext_equal]
pub struct IamStateModel {
    pub role_exists: bool,
    pub managed_policy_attached: bool,
    pub inline_policy_names: Seq<Seq<char>>,
    pub instance_profile_exists: bool,
    pub role_attached_to_profile: bool,
}

impl View for IamState {
    type V = IamStateModel;

    open spec fn view(&self) -> IamStateModel {
        IamStateModel {
            role_exists: self.role_exists,
            managed_policy_attached: self.managed_policy_attached,
            inline_policy_names: self.inline_policy_names.deep_view(),
            instance_profile_exists: self.instance_profile_exists,
            role_attached_to_profile: self.role_attached_to_profile,
        }
    }
}

impl IamStateModel {
    /// Nothing of the job's identity exists: the state every teardown
    /// converges to.
    pub open spec fn is_clean(&self) -> bool {
        &&& !self.role_exists
        &&& !self.managed_policy_attached
        &&& self.inline_policy_names.len() == 0
        &&& !self.instance_profile_exists
        &&& !self.role_attached_to_profile
    }
}

impl IamState {
    /// The state in which a fresh observation of an empty account arrives.
    pub fn new_clean() -> (r: IamState)
        ensures
            r@.is_clean(),
    {
        IamState {
            role_exists: false,
            managed_policy_attached: false,
            inline_policy_names: Vec::new(),
            instance_profile_exists: false,
            role_attached_to_profile: false,
        }
    }
}

/// One create or delete against the identity control plane.
#[derive(Clone, Debug)]
pub enum IamAction {
    /// Detach the fixed managed policy from the role.
    DetachManagedPolicy,
    /// Delete the named inline policy from the role.
    DeleteInlinePolicy(String),
    /// Detach the role from the instance profile.
    RemoveRoleFromProfile,
    /// Delete the instance profile.
    DeleteInstanceProfile,
    /// Delete the role.
    DeleteRole,
    /// Create the role with the fixed trust policy.
    CreateRole,
    /// Create the instance profile.
    CreateInstanceProfile,
    /// Attach the role to the instance profile.
    AttachRoleToProfile,
    /// Put one named inline policy document on the role.
    PutInlinePolicy(String, String),
}

/// Mathematical model of an action.
pub enum IamActionModel {
    DetachManagedPolicy,
    DeleteInlinePolicy(Seq<char>),
    RemoveRoleFromProfile,
    DeleteInstanceProfile,
    DeleteRole,
    CreateRole,
    CreateInstanceProfile,
    AttachRoleToProfile,
    PutInlinePolicy(Seq<char>, Seq<char>),
}

impl View for IamAction {
    type V = IamActionModel;

    open spec fn view(&self) -> IamActionModel {
        match self {
            IamAction::DetachManagedPolicy => IamActionModel::DetachManagedPolicy,
            IamAction::DeleteInlinePolicy(n) => IamActionModel::DeleteInlinePolicy(n@),
            IamAction::RemoveRoleFromProfile => IamActionModel::RemoveRoleFromProfile,
            IamAction::DeleteInstanceProfile => IamActionModel::DeleteInstanceProfile,
            IamAction::DeleteRole => IamActionModel::DeleteRole,
            IamAction::CreateRole => IamActionModel::CreateRole,
            IamAction::CreateInstanceProfile => IamActionModel::CreateInstanceProfile,
            IamAction::AttachRoleToProfile => IamActionModel::AttachRoleToProfile,
            IamAction::PutInlinePolicy(n, d) => IamActionModel::PutInlinePolicy(n@, d@),
        }
    }
}

/// What an action, once confirmed by the control plane, does to the observed
/// state.
pub open spec fn spec_apply_action(s: IamStateModel, a: IamActionModel) -> IamStateModel {
    match a {
        IamActionModel::DetachManagedPolicy => IamStateModel {
            managed_policy_attached: false,
            ..s
        },
        IamActionModel::DeleteInlinePolicy(_) => IamStateModel {
            inline_policy_names: if s.inline_policy_names.len() > 0 {
                s.inline_policy_names.drop_first()
            } else {
                s.inline_policy_names
            },
            ..s
        },
        IamActionModel::RemoveRoleFromProfile => IamStateModel {
            role_attached_to_profile: false,
            ..s
        },
        IamActionModel::DeleteInstanceProfile => IamStateModel {
            instance_profile_exists: false,
            ..s
        },
        IamActionModel::DeleteRole => IamStateModel { role_exists: false, ..s },
        IamActionModel::CreateRole => IamStateModel { role_exists: true, ..s },
        IamActionModel::CreateInstanceProfile => IamStateModel {
            instance_profile_exists: true,
            ..s
        },
        IamActionModel::AttachRoleToProfile => IamStateModel {
            role_attached_to_profile: true,
            ..s
        },
        IamActionModel::PutInlinePolicy(n, _) => IamStateModel {
            inline_policy_names: s.inline_policy_names.push(n),
            ..s
        },
    }
}

/// The next teardown step for an observed state, or `None` on a clean one.
///
/// The order enforces what the control plane demands: the managed policy and
/// every inline policy leave the role first, the role leaves the instance
/// profile before the profile is deleted, and the role itself goes last.
pub open spec fn spec_next_teardown_action(s: IamStateModel) -> Option<IamActionModel> {
    if s.managed_policy_attached {
        Some(IamActionModel::DetachManagedPolicy)
    } else if s.inline_policy_names.len() > 0 {
        Some(IamActionModel::DeleteInlinePolicy(s.inline_policy_names[0]))
    } else if s.role_attached_to_profile {
        Some(IamActionModel::RemoveRoleFromProfile)
    } else if s.instance_profile_exists {
        Some(IamActionModel::DeleteInstanceProfile)
    } else if s.role_exists {
        Some(IamActionModel::DeleteRole)
    } else {
        None
    }
}

/// How much of the identity still exists; every teardown step reduces it.
pub open spec fn teardown_measure(s: IamStateModel) -> int {
    (if s.managed_policy_attached {
        1int
    } else {
        0int
    }) + s.inline_policy_names.len() + (if s.role_attached_to_profile {
        1int
    } else {
        0int
    }) + (if s.instance_profile_exists {
        1int
    } else {
        0int
    }) + (if s.role_exists {
        1int
    } else {
        0int
    })
}

/// The state teardown leaves behind when every step is carried out and
/// confirmed.
pub open spec fn spec_teardown_run(s: IamStateModel) -> IamStateModel
    decreases teardown_measure(s),
{
    match spec_next_teardown_action(s) {
        None => s,
        Some(a) => spec_teardown_run(spec_apply_action(s, a)),
    }
}

/// The actions teardown performs, in order.
pub open spec fn spec_teardown_trace(s: IamStateModel) -> Seq<IamActionModel>
    decreases teardown_measure(s),
{
    match spec_next_teardown_action(s) {
        None => Seq::empty(),
        Some(a) => seq![a] + spec_teardown_trace(spec_apply_action(s, a)),
    }
}

/// The models of a list of actions, in order.
pub open spec fn trace_model(t: Seq<IamAction>) -> Seq<IamActionModel> {
    Seq::new(t.len(), |i: int| t[i]@)
}

/// Decide the next teardown step from the observed state.
///
/// A role is deleted only once it has no managed policy, no inline policy
/// and no profile binding left, and an instance profile only once the role
/// is detached from it; on a clean state there is nothing to do.
pub fn next_teardown_action(s: &IamState) -> (r: Option<IamAction>)
    ensures
        match r {
            Some(a) => spec_next_teardown_action(s@) == Some(a@),
            None => spec_next_teardown_action(s@) is None && s@.is_clean(),
        },
        r matches Some(a) && a@ is DeleteRole ==> s@.inline_policy_names.len() == 0
            && !s@.managed_policy_attached && !s@.role_attached_to_profile
            && !s@.instance_profile_exists,
        r matches Some(a) && a@ is DeleteInstanceProfile ==> !s@.role_attached_to_profile,
{
    if s.managed_policy_attached {
        Some(IamAction::DetachManagedPolicy)
    } else if s.inline_policy_names.len() > 0 {
        Some(IamAction::DeleteInlinePolicy(s.inline_policy_names[0].clone()))
    } else if s.role_attached_to_profile {
        Some(IamAction::RemoveRoleFromProfile)
    } else if s.instance_profile_exists {
        Some(IamAction::DeleteInstanceProfile)
    } else if s.role_exists {
        Some(IamAction::DeleteRole)
    } else {
        None
    }
}

/// Apply a confirmed action to the observed state.
pub fn apply_iam_action(s: IamState, a: &IamAction) -> (r: IamState)
    ensures
        r@ == spec_apply_action(s@, a@),
{
    let ghost s0 = s@;
    let mut s = s;
    match a {
        IamAction::DetachManagedPolicy => {
            s.managed_policy_attached = false;
        },
        IamAction::DeleteInlinePolicy(_) => {
            if s.inline_policy_names.len() > 0 {
                s.inline_policy_names.remove(0);
            }
        },
        IamAction::RemoveRoleFromProfile => {
            s.role_attached_to_profile = false;
        },
        IamAction::DeleteInstanceProfile => {
            s.instance_profile_exists = false;
        },
        IamAction::DeleteRole => {
            s.role_exists = false;
        },
        IamAction::CreateRole => {
            s.role_exists = true;
        },
        IamAction::CreateInstanceProfile => {
            s.instance_profile_exists = true;
        },
        IamAction::AttachRoleToProfile => {
            s.role_attached_to_profile = true;
        },
        IamAction::PutInlinePolicy(n, _) => {
            s.inline_policy_names.push(n.clone());
        },
    }
    proof {
        assert(s@ =~= spec_apply_action(s0, a@));
    }
    s
}

/// Tear the identity down in the model: run teardown steps until the state
/// is clean, and report the actions taken in order.
pub fn cleanup_aim(state: IamState) -> (r: (IamState, Vec<IamAction>))
    ensures
        r.0@ == spec_teardown_run(state@),
        trace_model(r.1@) == spec_teardown_trace(state@),
        r.0@.is_clean(),
{
    let mut cur = state;
    let mut trace: Vec<IamAction> = Vec::new();
    proof {
        assert(trace_model(trace@) + spec_teardown_trace(cur@) =~= spec_teardown_trace(state@));
    }
    let mut next = next_teardown_action(&cur);
    while next.is_some()
        invariant
            spec_teardown_run(cur@) == spec_teardown_run(state@),
            trace_model(trace@) + spec_teardown_trace(cur@) == spec_teardown_trace(state@),
            match next {
                Some(a) => spec_next_teardown_action(cur@) == Some(a@),
                None => spec_next_teardown_action(cur@) is None,
            },
        decreases teardown_measure(cur@),
    {
        let ghost pre_trace = trace@;
        let ghost pre_cur = cur@;
        match next {
            Some(a) => {
                cur = apply_iam_action(cur, &a);
                trace.push(a);
                proof {
                    assert(trace_model(trace@) =~= trace_model(pre_trace) + seq![trace@[
                        trace@.len() - 1
                    ]@]);
                    assert(trace_model(trace@) + spec_teardown_trace(cur@) =~= spec_teardown_trace(
                        state@,
                    ));
                }
            },
            None => {
                proof {
                    assert(false);
                }
            },
        }
        next = next_teardown_action(&cur);
    }
    proof {
        lemma_teardown_clean_fixpoint(cur@);
        assert(trace_model(trace@) + spec_teardown_trace(cur@) =~= trace_model(trace@));
    }
    (cur, trace)
}

/// Teardown of a clean state does nothing: it performs no action and leaves
/// the state exactly as it was. Run twice in succession, the second run
/// therefore observes the first one's result unchanged.
pub proof fn lemma_teardown_clean_fixpoint(s: IamStateModel)
    requires
        s.is_clean(),
    ensures
        spec_teardown_run(s) == s,
        spec_teardown_trace(s) == Seq::<IamActionModel>::empty(),
{
}

/// Teardown converges: from any observed state, carrying out every step
/// leaves nothing of the identity behind.
pub proof fn lemma_teardown_converges(s: IamStateModel)
    ensures
        spec_teardown_run(s).is_clean(),
    decreases teardown_measure(s),
{
    match spec_next_teardown_action(s) {
        None => {},
        Some(a) => {
            lemma_teardown_converges(spec_apply_action(s, a));
        },
    }
}

/// The state after the first `i` steps of a teardown.
pub open spec fn spec_teardown_state_at(s: IamStateModel, i: int) -> IamStateModel
    decreases i,
    when i >= 0
{
    if i <= 0 {
        s
    } else {
        match spec_next_teardown_action(s) {
            None => s,
            Some(a) => spec_teardown_state_at(spec_apply_action(s, a), i - 1),
        }
    }
}

/// Deletion ordering along a teardown: at the moment the role is deleted it
/// has no managed policy, no inline policy and no profile binding left, and
/// at the moment the instance profile is deleted the role is already
/// detached from it.
pub proof fn lemma_teardown_deletion_ordering(s: IamStateModel, i: int)
    requires
        0 <= i < spec_teardown_trace(s).len(),
    ensures
        spec_teardown_trace(s)[i] is DeleteRole ==> {
            let st = spec_teardown_state_at(s, i);
            &&& st.inline_policy_names.len() == 0
            &&& !st.managed_policy_attached
            &&& !st.role_attached_to_profile
            &&& !st.instance_profile_exists
        },
        spec_teardown_trace(s)[i] is DeleteInstanceProfile ==> !spec_teardown_state_at(
            s,
            i,
        ).role_attached_to_profile,
    decreases i,
{
    match spec_next_teardown_action(s) {
        None => {},
        Some(a) => {
            let next = spec_apply_action(s, a);
            assert(spec_teardown_trace(s) == seq![a] + spec_teardown_trace(next));
            if i > 0 {
                assert(spec_teardown_trace(s)[i] == spec_teardown_trace(next)[i - 1]);
                lemma_teardown_deletion_ordering(next, i - 1);
            }
        },
    }
}

/// The next provision step toward a fully equipped identity, or `None` once
/// the role, the profile, their binding and every policy document exist.
pub open spec fn spec_next_provision_action(
    s: IamStateModel,
    docs: Seq<(Seq<char>, Seq<char>)>,
) -> Option<IamActionModel> {
    if !s.role_exists {
        Some(IamActionModel::CreateRole)
    } else if !s.instance_profile_exists {
        Some(IamActionModel::CreateInstanceProfile)
    } else if !s.role_attached_to_profile {
        Some(IamActionModel::AttachRoleToProfile)
    } else if s.inline_policy_names.len() < docs.len() {
        Some(
            IamActionModel::PutInlinePolicy(
                docs[s.inline_policy_names.len() as int].0,
                docs[s.inline_policy_names.len() as int].1,
            ),
        )
    } else {
        None
    }
}

/// How much of the identity provision still has to create.
pub open spec fn provision_measure(s: IamStateModel, docs: Seq<(Seq<char>, Seq<char>)>) -> int {
    (if s.role_exists {
        0int
    } else {
        1int
    }) + (if s.instance_profile_exists {
        0int
    } else {
        1int
    }) + (if s.role_attached_to_profile {
        0int
    } else {
        1int
    }) + (if docs.len() >= s.inline_policy_names.len() {
        docs.len() - s.inline_policy_names.len()
    } else {
        0int
    })
}

/// The state provision reaches when every step is carried out and confirmed.
pub open spec fn spec_provision_run(
    s: IamStateModel,
    docs: Seq<(Seq<char>, Seq<char>)>,
) -> IamStateModel
    decreases provision_measure(s, docs),
{
    match spec_next_provision_action(s, docs) {
        None => s,
        Some(a) => spec_provision_run(spec_apply_action(s, a), docs),
    }
}

/// The actions provision performs, in order.
pub open spec fn spec_provision_trace(
    s: IamStateModel,
    docs: Seq<(Seq<char>, Seq<char>)>,
) -> Seq<IamActionModel>
    decreases provision_measure(s, docs),
{
    match spec_next_provision_action(s, docs) {
        None => Seq::empty(),
        Some(a) => seq![a] + spec_provision_trace(spec_apply_action(s, a), docs),
    }
}

/// The models of named policy documents, in order.
pub open spec fn docs_model(d: Seq<(String, String)>) -> Seq<(Seq<char>, Seq<char>)> {
    Seq::new(d.len(), |i: int| (d[i].0@, d[i].1@))
}

/// Decide the next provision step: the role first, then the instance
/// profile, then their binding, then one policy document after another.
pub fn next_provision_action(s: &IamState, policy_docs: &Vec<(String, String)>) -> (r: Option<
    IamAction,
>)
    ensures
        match r {
            Some(a) => spec_next_provision_action(s@, docs_model(policy_docs@)) == Some(a@),
            None => spec_next_provision_action(s@, docs_model(policy_docs@)) is None,
        },
{
    if !s.role_exists {
        Some(IamAction::CreateRole)
    } else if !s.instance_profile_exists {
        Some(IamAction::CreateInstanceProfile)
    } else if !s.role_attached_to_profile {
        Some(IamAction::AttachRoleToProfile)
    } else if s.inline_policy_names.len() < policy_docs.len() {
        let i = s.inline_policy_names.len();
        let doc = &policy_docs[i];
        Some(IamAction::PutInlinePolicy(doc.0.clone(), doc.1.clone()))
    } else {
        None
    }
}

/// Equip the identity in the model: run provision steps until the role, the
/// profile, their binding and every policy document exist, and report the
/// actions taken in order.
pub fn create_instance_profile(state: IamState, policy_docs: &Vec<(String, String)>) -> (r: (
    IamState,
    Vec<IamAction>,
))
    ensures
        r.0@ == spec_provision_run(state@, docs_model(policy_docs@)),
        trace_model(r.1@) == spec_provision_trace(state@, docs_model(policy_docs@)),
{
    let ghost docs = docs_model(policy_docs@);
    let mut cur = state;
    let mut trace: Vec<IamAction> = Vec::new();
    proof {
        assert(trace_model(trace@) + spec_provision_trace(cur@, docs) =~= spec_provision_trace(
            state@,
            docs,
        ));
    }
    let mut next = next_provision_action(&cur, policy_docs);
    while next.is_some()
        invariant
            docs == docs_model(policy_docs@),
            spec_provision_run(cur@, docs) == spec_provision_run(state@, docs),
            trace_model(trace@) + spec_provision_trace(cur@, docs) == spec_provision_trace(
                state@,
                docs,
            ),
            match next {
                Some(a) => spec_next_provision_action(cur@, docs) == Some(a@),
                None => spec_next_provision_action(cur@, docs) is None,
            },
        decreases provision_measure(cur@, docs),
    {
        let ghost pre_trace = trace@;
        match next {
            Some(a) => {
                cur = apply_iam_action(cur, &a);
                trace.push(a);
                proof {
                    assert(trace_model(trace@) =~= trace_model(pre_trace) + seq![trace@[
                        trace@.len() - 1
                    ]@]);
                    assert(trace_model(trace@) + spec_provision_trace(cur@, docs)
                        =~= spec_provision_trace(state@, docs));
                }
            },
            None => {
                proof {
                    assert(false);
                }
            },
        }
        next = next_provision_action(&cur, policy_docs);
    }
    proof {
        assert(trace_model(trace@) + spec_provision_trace(cur@, docs) =~= trace_model(trace@));
    }
    (cur, trace)
}

/// Filling in the policies preserves the flags and appends the remaining
/// document names in order.
proof fn lemma_provision_fill(s: IamStateModel, docs: Seq<(Seq<char>, Seq<char>)>)
    requires
        s.role_exists,
        s.instance_profile_exists,
        s.role_attached_to_profile,
        s.inline_policy_names.len() <= docs.len(),
    ensures
        ({
            let r = spec_provision_run(s, docs);
            &&& r.role_exists
            &&& r.instance_profile_exists
            &&& r.role_attached_to_profile
            &&& r.managed_policy_attached == s.managed_policy_attached
            &&& r.inline_policy_names.len() == docs.len()
            &&& forall|i: int|
                0 <= i < s.inline_policy_names.len() ==> r.inline_policy_names[i]
                    == s.inline_policy_names[i]
            &&& forall|i: int|
                s.inline_policy_names.len() <= i < docs.len() ==> r.inline_policy_names[i]
                    == docs[i].0
        }),
    decreases docs.len() - s.inline_policy_names.len(),
{
    if s.inline_policy_names.len() < docs.len() {
        let a = spec_next_provision_action(s, docs)->Some_0;
        lemma_provision_fill(spec_apply_action(s, a), docs);
    }
}

/// After provisioning from a clean state the role, the instance profile and
/// their binding all exist, no managed policy is attached, and the inline
/// policies are exactly the given documents' names, in their order.
pub proof fn lemma_provision_from_clean(s: IamStateModel, docs: Seq<(Seq<char>, Seq<char>)>)
    requires
        s.is_clean(),
    ensures
        ({
            let r = spec_provision_run(s, docs);
            &&& r.role_exists
            &&& r.instance_profile_exists
            &&& r.role_attached_to_profile
            &&& !r.managed_policy_attached
            &&& r.inline_policy_names =~= Seq::new(docs.len(), |i: int| docs[i].0)
        }),
{
    let s1 = spec_apply_action(s, IamActionModel::CreateRole);
    let s2 = spec_apply_action(s1, IamActionModel::CreateInstanceProfile);
    let s3 = spec_apply_action(s2, IamActionModel::AttachRoleToProfile);
    assert(spec_provision_run(s, docs) == spec_provision_run(s1, docs));
    assert(spec_provision_run(s1, docs) == spec_provision_run(s2, docs));
    assert(spec_provision_run(s2, docs) == spec_provision_run(s3, docs));
    lemma_provision_fill(s3, docs);
}

/// The policy templates among a set of named files: the files whose name
/// carries the `.json` extension, in order, the extension stripped from the
/// name.
pub open spec fn spec_policy_files(files: Seq<(Seq<char>, Seq<char>)>) -> Seq<
    (Seq<char>, Seq<char>),
>
    decreases files.len(),
{
    if files.len() == 0 {
        Seq::empty()
    } else {
        let head = if spec_ends_with(files[0].0, ".json"@) {
            seq![(files[0].0.subrange(0, files[0].0.len() - ".json"@.len()), files[0].1)]
        } else {
            Seq::empty()
        };
        head + spec_policy_files(files.drop_first())
    }
}

/// Keep the policy templates among a set of named files: `.json` files, the
/// extension stripped from the name, the contents untouched.
pub fn get_all_policies(files: &Vec<(String, String)>) -> (r: Vec<(String, String)>)
    ensures
        docs_model(r@) == spec_policy_files(docs_model(files@)),
{
    proof {
        reveal_strlit(".json");
    }
    let ghost all = docs_model(files@);
    let mut r: Vec<(String, String)> = Vec::new();
    let mut i: usize = 0;
    proof {
        assert(all.skip(0) =~= all);
        assert(docs_model(r@) + spec_policy_files(all) =~= spec_policy_files(all));
    }
    while i < files.len()
        invariant
            all == docs_model(files@),
            i <= files@.len(),
            docs_model(r@) + spec_policy_files(all.skip(i as int)) == spec_policy_files(all),
        decreases files@.len() - i,
    {
        let ghost pre = r@;
        proof {
            reveal_strlit(".json");
            assert(all.skip(i as int)[0] == all[i as int]);
            assert(all.skip(i as int).drop_first() =~= all.skip(i + 1));
        }
        let name = &files[i].0;
        if ends_with_str(name.as_str(), ".json") {
            let nlen = name.as_str().unicode_len();
            let stem = String::from_str(name.as_str().substring_char(0, nlen - 5));
            r.push((stem, files[i].1.clone()));
            proof {
                assert(docs_model(r@) =~= docs_model(pre) + seq![(r@[r@.len() - 1].0@, r@[
                    r@.len() - 1
                ].1@)]);
                assert(docs_model(r@) + spec_policy_files(all.skip(i + 1)) =~= spec_policy_files(
                    all,
                ));
            }
        } else {
            proof {
                assert(docs_model(r@) + spec_policy_files(all.skip(i + 1)) =~= spec_policy_files(
                    all,
                ));
            }
        }
        i = i + 1;
    }
    proof {
        assert(all.skip(i as int) =~= Seq::<(Seq<char>, Seq<char>)>::empty());
        assert(docs_model(r@) + spec_policy_files(all.skip(i as int)) =~= docs_model(r@));
    }
    r
}

/// A policy document scoped to one table: the template with the region,
/// account, database, table, project name, storage ARN and bucket filled in
/// for the placeholder tokens.
pub open spec fn spec_policy_doc(
    template: Seq<char>,
    region: Seq<char>,
    account: Seq<char>,
    database: Seq<char>,
    table: Seq<char>,
    arn: Seq<char>,
    bucket: Seq<char>,
) -> Seq<char> {
    spec_replace(
        spec_replace(
            spec_replace(
                spec_replace(
                    spec_replace(
                        spec_replace(
                            spec_replace(template, "<your region>"@, region),
                            "<your account>"@,
                            account,
                        ),
                        "<your database>"@,
                        database,
                    ),
                    "<your table>"@,
                    table,
                ),
                "<your project>"@,
                PROJECT_NAME@,
            ),
            "<your s3arn>"@,
            arn,
        ),
        "<your bucket>"@,
        bucket,
    )
}

/// Scope every policy template to the selected table: each document has the
/// table's region, account, database, table and project name substituted,
/// its grants pinned to the table's storage ARN and bucket, and its name
/// prefixed with the project name.
pub fn generate_policy_docs(glue_table: &GlueTable, policy_files: &Vec<(String, String)>) -> (r:
    Vec<(String, String)>)
    requires
        spec_contains(spec_s3_arn(glue_table.s3_location@), ":::"@),
    ensures
        r@.len() == policy_files@.len(),
        forall|i: int|
            0 <= i < r@.len() ==> (#[trigger] r@[i]).0@ == PROJECT_NAME@ + policy_files@[i].0@
                && r@[i].1@ == spec_policy_doc(
                policy_files@[i].1@,
                glue_table.database.region@,
                glue_table.database.account_id@,
                glue_table.database.name@,
                glue_table.name@,
                spec_s3_arn(glue_table.s3_location@),
                spec_bucket_of_arn(spec_s3_arn(glue_table.s3_location@)),
            ),
{
    proof {
        reveal_strlit("<your region>");
        reveal_strlit("<your account>");
        reveal_strlit("<your database>");
        reveal_strlit("<your table>");
        reveal_strlit("<your project>");
        reveal_strlit("<your s3arn>");
        reveal_strlit("<your bucket>");
    }
    let arn = glue_table.s3_arn();
    let bucket = glue_table.s3_bucket();
    let mut r: Vec<(String, String)> = Vec::new();
    let mut i: usize = 0;
    while i < policy_files.len()
        invariant
            i <= policy_files@.len(),
            r@.len() == i,
            arn@ == spec_s3_arn(glue_table.s3_location@),
            bucket@ == spec_bucket_of_arn(spec_s3_arn(glue_table.s3_location@)),
            forall|j: int|
                0 <= j < i ==> (#[trigger] r@[j]).0@ == PROJECT_NAME@ + policy_files@[j].0@
                    && r@[j].1@ == spec_policy_doc(
                    policy_files@[j].1@,
                    glue_table.database.region@,
                    glue_table.database.account_id@,
                    glue_table.database.name@,
                    glue_table.name@,
                    spec_s3_arn(glue_table.s3_location@),
                    spec_bucket_of_arn(spec_s3_arn(glue_table.s3_location@)),
                ),
        decreases policy_files@.len() - i,
    {
        proof {
            reveal_strlit("<your region>");
            reveal_strlit("<your account>");
            reveal_strlit("<your database>");
            reveal_strlit("<your table>");
            reveal_strlit("<your project>");
            reveal_strlit("<your s3arn>");
            reveal_strlit("<your bucket>");
        }
        let file = &policy_files[i];
        let d1 = replace_all(file.1.as_str(), "<your region>", glue_table.database().region().as_str());
        let d2 = replace_all(d1.as_str(), "<your account>", glue_table.database().account_id().as_str());
        let d3 = replace_all(d2.as_str(), "<your database>", glue_table.database().name().as_str());
        let d4 = replace_all(d3.as_str(), "<your table>", glue_table.name().as_str());
        let d5 = replace_all(d4.as_str(), "<your project>", PROJECT_NAME);
        let d6 = replace_all(d5.as_str(), "<your s3arn>", arn.as_str());
        let d7 = replace_all(d6.as_str(), "<your bucket>", bucket.as_str());
        let mut policy_name = String::from_str(PROJECT_NAME);
        policy_name.append(file.0.as_str());
        r.push((policy_name, d7));
        i = i + 1;
    }
    r
}

/// The fixed trust policy that lets the compute service assume the job's
/// role.
pub open spec fn spec_trust_policy() -> Seq<char> {
    "{\n    \"Version\": \"2012-10-17\",\n    \"Statement\": [\n        {\n            \"Effect\": \"Allow\",\n            \"Principal\": {\n                \"Service\": \"ec2.amazonaws.com\"\n            },\n            \"Action\": \"sts:AssumeRole\"\n        }\n    ]\n}"@
}

pub fn ec2_trust_policy_document() -> (r: &'static str)
    ensures
        r@ == spec_trust_policy(),
{
    "{\n    \"Version\": \"2012-10-17\",\n    \"Statement\": [\n        {\n            \"Effect\": \"Allow\",\n            \"Principal\": {\n                \"Service\": \"ec2.amazonaws.com\"\n            },\n            \"Action\": \"sts:AssumeRole\"\n        }\n    ]\n}"
}

/// Teardown, provision, teardown leaves exactly the state that the first
/// teardown alone reaches: a later run removes everything a provision
/// created, so no grant outlives its job.
pub proof fn lemma_provision_teardown_round_trip(
    s: IamStateModel,
    docs: Seq<(Seq<char>, Seq<char>)>,
)
    ensures
        spec_teardown_run(spec_provision_run(spec_teardown_run(s), docs)) == spec_teardown_run(s),
{
    lemma_teardown_converges(s);
    lemma_teardown_converges(spec_provision_run(spec_teardown_run(s), docs));
    let a = spec_teardown_run(spec_provision_run(spec_teardown_run(s), docs));
    let b = spec_teardown_run(s);
    assert(a.inline_policy_names =~= b.inline_policy_names);
    assert(a =~= b);
}

} // verus!
