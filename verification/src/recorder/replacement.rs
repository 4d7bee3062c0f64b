//! The decisions of replacing one registered set of shortcuts by another, as a step
//! function: from the two sets and the answers of the registrar so far to the next call to
//! make, or to the result. Removing the old set stops at the first refusal; a refused
//! removal puts back what was removed, and when that fails too, the old set is removed as
//! far as possible. Registering the new set stops at the first refusal, removes what it
//! registered, and registers the old set again.
use vstd::prelude::*;
use crate::recorder::hotkeys::{
    registration_message, unregister_message, unrestored_issue, unrestored_message,
    RegistrationFailure, ReplaceFailure,
};
use crate::recorder::shortcuts::{action_label, ShortcutIssue};
use crate::text::{chars_of, extend_chars, string_of};
use global_hotkey::hotkey::HotKey;

verus! {

/// One call to the registrar: registering or removing the shortcut in `slot` of the old
/// set or of the new one.
#[derive(Clone, Copy, Debug, PartialEq, Eq, Structural)]
pub enum RegistrarCall {
    Register { new_set: bool, slot: usize },
    Unregister { new_set: bool, slot: usize },
}

/// What the registrar answered to a call.
#[derive(Clone, Debug, PartialEq, Eq)]
pub enum CallOutcome {
    Accepted,
    /// A registration was refused.
    Refused(RegistrationFailure),
    /// A removal failed, with the error's message.
    Failed(String),
}

/// What to do next: make a call, or end with a result.
pub enum ReplaceStep {
    Call(RegistrarCall),
    Finish(Result<(), ReplaceFailure>),
}

/// The state of a run of calls over a list of slots, given the answers so far.
#[derive(Clone, Copy, Debug, PartialEq, Eq, Structural)]
pub enum RunStatus {
    /// The next call of the run.
    Next(RegistrarCall),
    /// The call at `index` was refused; the answers up to position `at` are used.
    Stopped { index: usize, at: usize },
    /// Every call was made; the answers up to position `at` are used.
    Completed { at: usize },
}

/// What a replacement step stands for, with texts as sequences.
pub enum PlanView {
    Call(RegistrarCall),
    Succeeded,
    Failed { action: Option<usize>, message: Seq<char>, restored_old: bool },
}

/// The slots of a set that hold a shortcut, in order.
pub open spec fn filled_slots(set: Seq<Option<HotKey>>) -> Seq<usize> {
    (if set[0] is Some { seq![0usize] } else { Seq::empty() }) + (if set[1] is Some {
        seq![1usize]
    } else {
        Seq::empty()
    }) + (if set[2] is Some { seq![2usize] } else { Seq::empty() })
}

/// The call on `slot` of the old or the new set.
pub open spec fn call_on(new_set: bool, register: bool, slot: usize) -> RegistrarCall {
    if register {
        RegistrarCall::Register { new_set, slot }
    } else {
        RegistrarCall::Unregister { new_set, slot }
    }
}

/// The position among the first `n` answers from `p` on of the first that is not an
/// acceptance, if any.
pub open spec fn first_refusal(outs: Seq<CallOutcome>, p: int, n: int) -> Option<int>
    decreases n,
{
    if n <= 0 {
        None
    } else {
        match first_refusal(outs, p, n - 1) {
            Some(k) => Some(k),
            None => if outs[p + n - 1] is Accepted {
                None
            } else {
                Some(n - 1)
            },
        }
    }
}

/// A run that makes the calls on `slots` in order from answer `p` on, and stops at the
/// first refusal.
pub open spec fn run_status(
    slots: Seq<usize>,
    new_set: bool,
    register: bool,
    outs: Seq<CallOutcome>,
    p: int,
) -> RunStatus {
    let available = outs.len() - p;
    let seen = if available < slots.len() { available } else { slots.len() as int };
    match first_refusal(outs, p, seen) {
        Some(k) => RunStatus::Stopped { index: k as usize, at: (p + k + 1) as usize },
        None => if available >= slots.len() {
            RunStatus::Completed { at: (p + slots.len()) as usize }
        } else {
            RunStatus::Next(call_on(new_set, register, slots[available]))
        },
    }
}

/// The next call of a run that makes the calls on `slots` in order from answer `p` on,
/// whatever they answer; none once all are made, at answer `p + slots.len()`.
pub open spec fn sweep_next(
    slots: Seq<usize>,
    new_set: bool,
    register: bool,
    outs: Seq<CallOutcome>,
    p: int,
) -> Option<RegistrarCall> {
    let available = outs.len() - p;
    if available >= slots.len() {
        None
    } else {
        Some(call_on(new_set, register, slots[available]))
    }
}

/// The message of a failed removal.
pub open spec fn removal_error(o: CallOutcome) -> Seq<char> {
    match o {
        CallOutcome::Failed(e) => e@,
        _ => Seq::empty(),
    }
}

/// The refusal of a registration.
pub open spec fn registration_refusal(o: CallOutcome) -> RegistrationFailure {
    match o {
        CallOutcome::Refused(f) => f,
        CallOutcome::Failed(e) => RegistrationFailure::Other(e),
        CallOutcome::Accepted => RegistrationFailure::Conflict,
    }
}

/// After the new set was refused at its `j`-th filled slot (answer `q` on): remove what
/// was registered of it, then register the old set again.
pub open spec fn plan_after_refused_new(
    old: Seq<Option<HotKey>>,
    new: Seq<Option<HotKey>>,
    outs: Seq<CallOutcome>,
    j: int,
    q: int,
) -> PlanView {
    let new_slots = filled_slots(new);
    let slot = new_slots[j];
    let message = registration_message(slot as int, registration_refusal(outs[q - 1]));
    let undone = new_slots.take(j);
    match sweep_next(undone, true, false, outs, q) {
        Some(c) => PlanView::Call(c),
        None => match run_status(filled_slots(old), false, true, outs, q + undone.len()) {
            RunStatus::Next(c) => PlanView::Call(c),
            RunStatus::Completed { .. } => PlanView::Failed {
                action: Some(slot),
                message,
                restored_old: true,
            },
            RunStatus::Stopped { index, at } => {
                let restore = registration_message(
                    filled_slots(old)[index as int] as int,
                    registration_refusal(outs[at - 1]),
                );
                match sweep_next(filled_slots(old).take(index as int), false, false, outs, at as int) {
                    Some(c) => PlanView::Call(c),
                    None => PlanView::Failed {
                        action: None,
                        message: unrestored_message(message, restore),
                        restored_old: false,
                    },
                }
            },
        },
    }
}

/// After removing the old set failed at its `j`-th filled slot (answer `q` on): register
/// again what was removed; when that fails, remove what it registered and then the whole
/// old set.
pub open spec fn plan_after_failed_removal(
    old: Seq<Option<HotKey>>,
    outs: Seq<CallOutcome>,
    j: int,
    q: int,
) -> PlanView {
    let old_slots = filled_slots(old);
    let slot = old_slots[j];
    let message = unregister_message(slot as int, removal_error(outs[q - 1]));
    let removed = old_slots.take(j);
    match run_status(removed, false, true, outs, q) {
        RunStatus::Next(c) => PlanView::Call(c),
        RunStatus::Completed { .. } => PlanView::Failed {
            action: Some(slot),
            message,
            restored_old: true,
        },
        RunStatus::Stopped { index, at } => {
            let restore = registration_message(
                removed[index as int] as int,
                registration_refusal(outs[at - 1]),
            );
            let rolled_back = removed.take(index as int);
            match sweep_next(rolled_back, false, false, outs, at as int) {
                Some(c) => PlanView::Call(c),
                None => match sweep_next(old_slots, false, false, outs, at + rolled_back.len()) {
                    Some(c) => PlanView::Call(c),
                    None => PlanView::Failed {
                        action: None,
                        message: unrestored_message(message, restore),
                        restored_old: false,
                    },
                },
            }
        },
    }
}

/// The next call, or the result, of replacing `old` by `new` after the answers `outs`.
#[verifier::opaque]
pub open spec fn replace_plan(
    old: Seq<Option<HotKey>>,
    new: Seq<Option<HotKey>>,
    outs: Seq<CallOutcome>,
) -> PlanView {
    match run_status(filled_slots(old), false, false, outs, 0) {
        RunStatus::Next(c) => PlanView::Call(c),
        RunStatus::Stopped { index, at } => plan_after_failed_removal(old, outs, index as int, at as int),
        RunStatus::Completed { at } => match run_status(filled_slots(new), true, true, outs, at as int) {
            RunStatus::Next(c) => PlanView::Call(c),
            RunStatus::Completed { .. } => PlanView::Succeeded,
            RunStatus::Stopped { index, at: at2 } => plan_after_refused_new(
                old,
                new,
                outs,
                index as int,
                at2 as int,
            ),
        },
    }
}

/// What a step stands for.
pub open spec fn step_view(step: ReplaceStep) -> PlanView {
    match step {
        ReplaceStep::Call(c) => PlanView::Call(c),
        ReplaceStep::Finish(Ok(())) => PlanView::Succeeded,
        ReplaceStep::Finish(Err(f)) => PlanView::Failed {
            action: f.issue.action,
            message: f.issue.message@,
            restored_old: f.restored_old,
        },
    }
}

/// The shortcut a call is about: that of its slot in the old set or the new one.
pub open spec fn call_target(old: Seq<Option<HotKey>>, new: Seq<Option<HotKey>>, c: RegistrarCall) -> Option<HotKey> {
    match c {
        RegistrarCall::Register { new_set, slot } | RegistrarCall::Unregister { new_set, slot } => if slot >= 3 {
            None
        } else if new_set {
            new[slot as int]
        } else {
            old[slot as int]
        },
    }
}

/// Whether an answer is one that the call can get: a registration is accepted or
/// refused, a removal done or failed.
pub open spec fn answers(c: RegistrarCall, o: CallOutcome) -> bool {
    match c {
        RegistrarCall::Register { .. } => !(o is Failed),
        RegistrarCall::Unregister { .. } => !(o is Refused),
    }
}

/// The filled slots of a set are slots of it that hold a shortcut, at most three, in
/// increasing order, and every slot that holds one is among them.
proof fn lemma_filled_slots(set: Seq<Option<HotKey>>)
    ensures
        filled_slots(set).len() <= 3,
        forall|i: int|
            0 <= i < filled_slots(set).len() ==> #[trigger] filled_slots(set)[i] < 3 && set[filled_slots(set)[i] as int] is Some,
        forall|i: int, j: int|
            0 <= i < j < filled_slots(set).len() ==> #[trigger] filled_slots(set)[i] < #[trigger] filled_slots(set)[j],
        forall|s: int|
            0 <= s < 3 && #[trigger] set[s] is Some ==> exists|i: int|
                0 <= i < filled_slots(set).len() && filled_slots(set)[i] == s,
{
    let f = filled_slots(set);
    assert forall|s: int| 0 <= s < 3 && #[trigger] set[s] is Some implies exists|i: int|
        0 <= i < f.len() && f[i] == s by {
        if s == 0 {
            assert(f[0] == 0);
        } else if s == 1 {
            if set[0] is Some {
                assert(f[1] == 1);
            } else {
                assert(f[0] == 1);
            }
        } else {
            let i = f.len() - 1;
            assert(f[i] == 2);
        }
    }
}

/// A refusal found among the first `n` answers stays the first among more of them.
proof fn lemma_first_refusal_stays(outs: Seq<CallOutcome>, p: int, n: int, m: int)
    requires
        first_refusal(outs, p, n) is Some,
        n <= m,
    ensures
        first_refusal(outs, p, m) == first_refusal(outs, p, n),
    decreases m - n,
{
    if n < m {
        lemma_first_refusal_stays(outs, p, n, m - 1);
    }
}

fn filled_slots_of(set: &[Option<HotKey>; 3]) -> (r: Vec<usize>)
    ensures
        r@ == filled_slots(set@),
{
    let mut r: Vec<usize> = Vec::new();
    if set[0].is_some() {
        r.push(0);
    }
    if set[1].is_some() {
        r.push(1);
    }
    if set[2].is_some() {
        r.push(2);
    }
    assert(r@ =~= filled_slots(set@));
    r
}

fn prefix_of(v: &Vec<usize>, n: usize) -> (r: Vec<usize>)
    requires
        n <= v@.len(),
    ensures
        r@ == v@.take(n as int),
{
    let mut r: Vec<usize> = Vec::new();
    let mut i: usize = 0;
    while i < n
        invariant
            i <= n <= v@.len(),
            r@ == v@.take(i as int),
        decreases n - i,
    {
        r.push(v[i]);
        assert(v@.take((i + 1) as int) =~= v@.take(i as int).push(v@[i as int]));
        i = i + 1;
    }
    r
}

fn call_on_exec(new_set: bool, register: bool, slot: usize) -> (r: RegistrarCall)
    ensures
        r == call_on(new_set, register, slot),
{
    if register {
        RegistrarCall::Register { new_set, slot }
    } else {
        RegistrarCall::Unregister { new_set, slot }
    }
}

fn run_status_exec(
    slots: &Vec<usize>,
    new_set: bool,
    register: bool,
    outs: &Vec<CallOutcome>,
    p: usize,
) -> (r: RunStatus)
    requires
        p <= outs@.len(),
    ensures
        r == run_status(slots@, new_set, register, outs@, p as int),
        match r {
            RunStatus::Next(c) => outs@.len() < p + slots@.len() && c == call_on(
                new_set,
                register,
                slots@[outs@.len() - p],
            ),
            RunStatus::Stopped { index, at } => index < slots@.len() && at == p + index + 1 && at
                <= outs@.len(),
            RunStatus::Completed { at } => at == p + slots@.len() && at <= outs@.len(),
        },
{
    let available = outs.len() - p;
    let seen = if available < slots.len() { available } else { slots.len() };
    let mut k: usize = 0;
    while k < seen
        invariant
            k <= seen,
            seen <= slots@.len(),
            p + seen <= outs@.len(),
            outs@.len() <= usize::MAX,
            available == outs@.len() - p,
            seen as int == (if available < slots@.len() { available as int } else { slots@.len() as int }),
            first_refusal(outs@, p as int, k as int) is None,
        decreases seen - k,
    {
        let accepted = match &outs[p + k] {
            CallOutcome::Accepted => true,
            _ => false,
        };
        if !accepted {
            proof {
                assert(first_refusal(outs@, p as int, (k + 1) as int) == Some(k as int));
                lemma_first_refusal_stays(outs@, p as int, (k + 1) as int, seen as int);
            }
            return RunStatus::Stopped { index: k, at: p + k + 1 };
        }
        k = k + 1;
    }
    if available >= slots.len() {
        RunStatus::Completed { at: p + slots.len() }
    } else {
        RunStatus::Next(call_on_exec(new_set, register, slots[available]))
    }
}

fn sweep_next_exec(
    slots: &Vec<usize>,
    new_set: bool,
    register: bool,
    outs: &Vec<CallOutcome>,
    p: usize,
) -> (r: Option<RegistrarCall>)
    requires
        p <= outs@.len(),
    ensures
        r == sweep_next(slots@, new_set, register, outs@, p as int),
        match r {
            Some(c) => outs@.len() < p + slots@.len() && c == call_on(new_set, register, slots@[outs@.len() - p]),
            None => p + slots@.len() <= outs@.len(),
        },
{
    let available = outs.len() - p;
    if available >= slots.len() {
        None
    } else {
        Some(call_on_exec(new_set, register, slots[available]))
    }
}

fn removal_error_exec(o: &CallOutcome) -> (r: String)
    ensures
        r@ == removal_error(*o),
{
    match o {
        CallOutcome::Failed(e) => e.clone(),
        _ => String::new(),
    }
}

fn registration_refusal_exec(o: &CallOutcome) -> (r: RegistrationFailure)
    ensures
        r == registration_refusal(*o),
{
    match o {
        CallOutcome::Refused(RegistrationFailure::Conflict) => RegistrationFailure::Conflict,
        CallOutcome::Refused(RegistrationFailure::Other(m)) => RegistrationFailure::Other(m.clone()),
        CallOutcome::Failed(e) => RegistrationFailure::Other(e.clone()),
        CallOutcome::Accepted => RegistrationFailure::Conflict,
    }
}

/// The issue of a registration of the shortcut in `slot` that was refused.
pub(crate) fn registration_issue(slot: usize, failure: RegistrationFailure) -> (r: ShortcutIssue)
    ensures
        r.action == Some(slot),
        r.message@ == registration_message(slot as int, failure),
{
    let mut v = chars_of(action_label(slot));
    match &failure {
        RegistrationFailure::Conflict => {
            extend_chars(&mut v, &chars_of("快捷键已被其他程序占用"));
        },
        RegistrationFailure::Other(error) => {
            extend_chars(&mut v, &chars_of("快捷键注册失败："));
            extend_chars(&mut v, &chars_of(error.as_str()));
        },
    }
    let message = string_of(&v);
    assert(message@ == registration_message(slot as int, failure));
    ShortcutIssue { action: Some(slot), message }
}

/// The issue of a removal of the shortcut in `slot` that failed with `error`.
pub(crate) fn removal_issue(slot: usize, error: &str) -> (r: ShortcutIssue)
    ensures
        r.action == Some(slot),
        r.message@ == unregister_message(slot as int, error@),
{
    let mut v = chars_of("无法更新");
    extend_chars(&mut v, &chars_of(action_label(slot)));
    extend_chars(&mut v, &chars_of("快捷键："));
    extend_chars(&mut v, &chars_of(error));
    let message = string_of(&v);
    assert(message@ == unregister_message(slot as int, error@));
    ShortcutIssue { action: Some(slot), message }
}

fn after_failed_removal(
    old: &[Option<HotKey>; 3],
    new: &[Option<HotKey>; 3],
    old_slots: &Vec<usize>,
    outs: &Vec<CallOutcome>,
    j: usize,
    q: usize,
) -> (r: ReplaceStep)
    requires
        old_slots@ == filled_slots(old@),
        j < old_slots@.len(),
        1 <= q <= outs@.len(),
        q <= 3,
    ensures
        step_view(r) == plan_after_failed_removal(old@, outs@, j as int, q as int),
        r matches ReplaceStep::Call(c) ==> outs@.len() < q + 7 && call_target(old@, new@, c) is Some,
{
    proof {
        lemma_filled_slots(old@);
    }
    let slot = old_slots[j];
    let error = removal_error_exec(&outs[q - 1]);
    let issue = removal_issue(slot, error.as_str());
    let removed = prefix_of(old_slots, j);
    match run_status_exec(&removed, false, true, outs, q) {
        RunStatus::Next(c) => ReplaceStep::Call(c),
        RunStatus::Completed { .. } => ReplaceStep::Finish(Err(ReplaceFailure { issue, restored_old: true })),
        RunStatus::Stopped { index, at } => {
            let restore = registration_issue(removed[index], registration_refusal_exec(&outs[at - 1]));
            let rolled_back = prefix_of(&removed, index);
            match sweep_next_exec(&rolled_back, false, false, outs, at) {
                Some(c) => ReplaceStep::Call(c),
                None => match sweep_next_exec(old_slots, false, false, outs, at + rolled_back.len()) {
                    Some(c) => ReplaceStep::Call(c),
                    None => ReplaceStep::Finish(
                        Err(ReplaceFailure { issue: unrestored_issue(&issue, &restore), restored_old: false }),
                    ),
                },
            }
        },
    }
}

fn after_refused_new(
    old: &[Option<HotKey>; 3],
    new: &[Option<HotKey>; 3],
    old_slots: &Vec<usize>,
    new_slots: &Vec<usize>,
    outs: &Vec<CallOutcome>,
    j: usize,
    q: usize,
) -> (r: ReplaceStep)
    requires
        old_slots@ == filled_slots(old@),
        new_slots@ == filled_slots(new@),
        j < new_slots@.len(),
        1 <= q <= outs@.len(),
        q <= 6,
    ensures
        step_view(r) == plan_after_refused_new(old@, new@, outs@, j as int, q as int),
        r matches ReplaceStep::Call(c) ==> outs@.len() < q + 7 && call_target(old@, new@, c) is Some,
{
    proof {
        lemma_filled_slots(old@);
        lemma_filled_slots(new@);
    }
    let slot = new_slots[j];
    let issue = registration_issue(slot, registration_refusal_exec(&outs[q - 1]));
    let undone = prefix_of(new_slots, j);
    match sweep_next_exec(&undone, true, false, outs, q) {
        Some(c) => ReplaceStep::Call(c),
        None => match run_status_exec(old_slots, false, true, outs, q + undone.len()) {
            RunStatus::Next(c) => ReplaceStep::Call(c),
            RunStatus::Completed { .. } => ReplaceStep::Finish(Err(ReplaceFailure { issue, restored_old: true })),
            RunStatus::Stopped { index, at } => {
                let restore = registration_issue(
                    old_slots[index],
                    registration_refusal_exec(&outs[at - 1]),
                );
                let rolled_back = prefix_of(old_slots, index);
                match sweep_next_exec(&rolled_back, false, false, outs, at) {
                    Some(c) => ReplaceStep::Call(c),
                    None => ReplaceStep::Finish(
                        Err(ReplaceFailure { issue: unrestored_issue(&issue, &restore), restored_old: false }),
                    ),
                }
            },
        },
    }
}

/// The next call to make, or the result, when replacing the registered set `old` by `new`
/// after the registrar answered `outs` to the calls made so far. Every call is about a
/// shortcut of one of the sets, and fewer than sixteen calls are ever made.
pub fn replace_step(old: &[Option<HotKey>; 3], new: &[Option<HotKey>; 3], outs: &Vec<CallOutcome>) -> (r: ReplaceStep)
    ensures
        step_view(r) == replace_plan(old@, new@, outs@),
        r matches ReplaceStep::Call(c) ==> outs@.len() < 16 && call_target(old@, new@, c) is Some,
{
    proof {
        lemma_filled_slots(old@);
        lemma_filled_slots(new@);
        reveal(replace_plan);
    }
    let old_slots = filled_slots_of(old);
    match run_status_exec(&old_slots, false, false, outs, 0) {
        RunStatus::Next(c) => ReplaceStep::Call(c),
        RunStatus::Stopped { index, at } => after_failed_removal(old, new, &old_slots, outs, index, at),
        RunStatus::Completed { at } => {
            let new_slots = filled_slots_of(new);
            match run_status_exec(&new_slots, true, true, outs, at) {
                RunStatus::Next(c) => ReplaceStep::Call(c),
                RunStatus::Completed { .. } => ReplaceStep::Finish(Ok(())),
                RunStatus::Stopped { index, at: at2 } => after_refused_new(
                    old,
                    new,
                    &old_slots,
                    &new_slots,
                    outs,
                    index,
                    at2,
                ),
            }
        },
    }
}

/// The shortcuts of the slots `slots` of a set.
pub open spec fn slot_keys(set: Seq<Option<HotKey>>, slots: Seq<usize>) -> Set<HotKey> {
    Set::new(|k: HotKey| exists|i: int| 0 <= i < slots.len() && set[slots[i] as int] == Some(k))
}

/// The shortcuts of a set.
pub open spec fn set_keys(set: Seq<Option<HotKey>>) -> Set<HotKey> {
    slot_keys(set, filled_slots(set))
}

/// No shortcut is in two slots of a set.
pub open spec fn distinct_keys(set: Seq<Option<HotKey>>) -> bool {
    forall|i: int, j: int| 0 <= i < 3 && 0 <= j < 3 && i != j && set[i] is Some ==> set[i] != set[j]
}

/// A registrar that holds the shortcuts `held`, registers a shortcut exactly when
/// `accepts` says so, and removes exactly the shortcuts it holds: whether it accepts `c`.
pub open spec fn model_accepts(
    held: Set<HotKey>,
    accepts: spec_fn(HotKey) -> bool,
    old: Seq<Option<HotKey>>,
    new: Seq<Option<HotKey>>,
    c: RegistrarCall,
) -> bool {
    let k = call_target(old, new, c)->0;
    match c {
        RegistrarCall::Register { .. } => accepts(k),
        RegistrarCall::Unregister { .. } => held.contains(k),
    }
}

/// What such a registrar holds after accepting `c`.
pub open spec fn model_apply(held: Set<HotKey>, old: Seq<Option<HotKey>>, new: Seq<Option<HotKey>>, c: RegistrarCall) -> Set<HotKey> {
    let k = call_target(old, new, c)->0;
    match c {
        RegistrarCall::Register { .. } => held.insert(k),
        RegistrarCall::Unregister { .. } => held.remove(k),
    }
}

/// What such a registrar holds after the first `k` answers of a replacement.
pub open spec fn held_after(
    old: Seq<Option<HotKey>>,
    new: Seq<Option<HotKey>>,
    held0: Set<HotKey>,
    outs: Seq<CallOutcome>,
    k: int,
) -> Set<HotKey>
    decreases k,
{
    if k <= 0 {
        held0
    } else {
        let h = held_after(old, new, held0, outs, k - 1);
        match replace_plan(old, new, outs.take(k - 1)) {
            PlanView::Call(c) => if outs[k - 1] is Accepted {
                model_apply(h, old, new, c)
            } else {
                h
            },
            _ => h,
        }
    }
}

/// Whether the answers `outs` are those of such a registrar, starting out holding `held0`.
pub open spec fn model_answers(
    old: Seq<Option<HotKey>>,
    new: Seq<Option<HotKey>>,
    accepts: spec_fn(HotKey) -> bool,
    held0: Set<HotKey>,
    outs: Seq<CallOutcome>,
) -> bool {
    forall|k: int|
        0 <= k < outs.len() ==> match #[trigger] replace_plan(old, new, outs.take(k)) {
            PlanView::Call(c) => (outs[k] is Accepted) == model_accepts(
                held_after(old, new, held0, outs, k),
                accepts,
                old,
                new,
                c,
            ),
            _ => true,
        }
}

proof fn lemma_all_accepted(outs: Seq<CallOutcome>, p: int, n: int)
    requires
        0 <= p,
        p + n <= outs.len(),
        forall|i: int| p <= i < p + n ==> #[trigger] outs[i] is Accepted,
    ensures
        first_refusal(outs, p, n) is None,
    decreases n,
{
    if n > 0 {
        lemma_all_accepted(outs, p, n - 1);
    }
}

proof fn lemma_refused_at(outs: Seq<CallOutcome>, p: int, j: int, n: int)
    requires
        0 <= p,
        0 <= j < n,
        p + n <= outs.len(),
        forall|i: int| p <= i < p + j ==> #[trigger] outs[i] is Accepted,
        !(outs[p + j] is Accepted),
    ensures
        first_refusal(outs, p, n) == Some(j),
    decreases n,
{
    if n > j + 1 {
        lemma_refused_at(outs, p, j, n - 1);
    } else {
        lemma_all_accepted(outs, p, j);
    }
}

proof fn lemma_first_refusal_prefix(outs: Seq<CallOutcome>, p: int, n: int, m: int)
    requires
        0 <= p,
        0 <= n,
        p + n <= m <= outs.len(),
    ensures
        first_refusal(outs.take(m), p, n) == first_refusal(outs, p, n),
    decreases n,
{
    if n > 0 {
        lemma_first_refusal_prefix(outs, p, n - 1, m);
    }
}

/// Removing the old set from a registrar that holds it: every removal is done, and after
/// `k` of them the registrar holds the old set but the first `k` of its shortcuts.
#[verifier::spinoff_prover]
#[verifier::rlimit(40)]
proof fn lemma_removal_phase(
    old: Seq<Option<HotKey>>,
    new: Seq<Option<HotKey>>,
    accepts: spec_fn(HotKey) -> bool,
    outs: Seq<CallOutcome>,
    k: int,
)
    requires
        old.len() == 3,
        distinct_keys(old),
        0 <= k <= filled_slots(old).len(),
        k <= outs.len(),
        model_answers(old, new, accepts, set_keys(old), outs),
    ensures
        forall|i: int| 0 <= i < k ==> #[trigger] outs[i] is Accepted,
        held_after(old, new, set_keys(old), outs, k) == set_keys(old).difference(
            slot_keys(old, filled_slots(old).take(k)),
        ),
    decreases k,
{
    let a = filled_slots(old);
    lemma_filled_slots(old);
    if k == 0 {
        assert(slot_keys(old, a.take(0)) =~= Set::empty());
        assert(set_keys(old).difference(Set::empty()) =~= set_keys(old));
    } else {
        lemma_removal_phase(old, new, accepts, outs, k - 1);
        let t = outs.take(k - 1);
        lemma_all_accepted(t, 0, k - 1);
        let c = call_on(false, false, a[k - 1]);
        assert(run_status(a, false, false, t, 0) == RunStatus::Next(c));
        assert(replace_plan(old, new, t) == PlanView::Call(c)) by {
            reveal(replace_plan);
        }
        let h = held_after(old, new, set_keys(old), outs, k - 1);
        let key = old[a[k - 1] as int]->0;
        assert(call_target(old, new, c) == Some(key));
        assert(set_keys(old).contains(key));
        assert(!slot_keys(old, a.take(k - 1)).contains(key)) by {
            if slot_keys(old, a.take(k - 1)).contains(key) {
                let i = choose|i: int| 0 <= i < a.take(k - 1).len() && old[#[trigger] a.take(k - 1)[i] as int] == Some(key);
                assert(a[i] < a[k - 1]);
            }
        }
        assert(h.contains(key));
        assert(outs[k - 1] is Accepted);
        assert(held_after(old, new, set_keys(old), outs, k) == h.remove(key));
        lemma_slot_keys_step(old, a, k);
        assert(h.remove(key) =~= set_keys(old).difference(slot_keys(old, a.take(k))));
    }
}

/// The shortcuts of the first `k` of some slots are those of the first `k - 1` and that of
/// slot `k - 1`.
proof fn lemma_slot_keys_step(set: Seq<Option<HotKey>>, slots: Seq<usize>, k: int)
    requires
        0 < k <= slots.len(),
        set[slots[k - 1] as int] is Some,
    ensures
        slot_keys(set, slots.take(k)) == slot_keys(set, slots.take(k - 1)).insert(
            set[slots[k - 1] as int]->0,
        ),
{
    let key = set[slots[k - 1] as int]->0;
    let big = slots.take(k);
    let small = slots.take(k - 1);
    assert forall|x: HotKey| slot_keys(set, big).contains(x) implies slot_keys(set, small).insert(
        key,
    ).contains(x) by {
        let i = choose|i: int| 0 <= i < big.len() && set[#[trigger] big[i] as int] == Some(x);
        if i < k - 1 {
            assert(small[i] == big[i]);
        }
    }
    assert forall|x: HotKey| slot_keys(set, small).insert(key).contains(x) implies slot_keys(
        set,
        big,
    ).contains(x) by {
        if x == key {
            assert(big[k - 1] == slots[k - 1]);
        } else {
            let i = choose|i: int| 0 <= i < small.len() && set[#[trigger] small[i] as int] == Some(x);
            assert(big[i] == small[i]);
        }
    }
    assert(slot_keys(set, big) =~= slot_keys(set, small).insert(key));
}

/// Once the first `n` answers are acceptances, a run over `n` slots from answer 0 is
/// complete on any longer prefix.
proof fn lemma_run_completed(slots: Seq<usize>, new_set: bool, register: bool, outs: Seq<CallOutcome>, p: int, m: int)
    requires
        0 <= p,
        p + slots.len() <= m <= outs.len(),
        forall|i: int| p <= i < p + slots.len() ==> #[trigger] outs[i] is Accepted,
    ensures
        run_status(slots, new_set, register, outs.take(m), p) == (RunStatus::Completed { at: (p + slots.len()) as usize }),
{
    let t = outs.take(m);
    assert forall|i: int| p <= i < p + slots.len() implies #[trigger] t[i] is Accepted by {
        assert(t[i] == outs[i]);
    }
    lemma_all_accepted(t, p, slots.len() as int);
}

/// Within a run over `slots` from answer `p`, when the `k` answers so far are acceptances,
/// the run asks for the call on slot `k`.
proof fn lemma_run_next(slots: Seq<usize>, new_set: bool, register: bool, outs: Seq<CallOutcome>, p: int, k: int)
    requires
        0 <= p,
        0 <= k < slots.len(),
        p + k <= outs.len(),
        forall|i: int| p <= i < p + k ==> #[trigger] outs[i] is Accepted,
    ensures
        run_status(slots, new_set, register, outs.take(p + k), p) == RunStatus::Next(
            call_on(new_set, register, slots[k]),
        ),
{
    let t = outs.take(p + k);
    assert forall|i: int| p <= i < p + k implies #[trigger] t[i] is Accepted by {
        assert(t[i] == outs[i]);
    }
    lemma_all_accepted(t, p, k);
}

/// Within a run over `slots` from answer `p`, when answer `p + j` is the first refusal,
/// the run stops there on any prefix that holds it.
proof fn lemma_run_stopped(slots: Seq<usize>, new_set: bool, register: bool, outs: Seq<CallOutcome>, p: int, j: int, m: int)
    requires
        0 <= p,
        0 <= j < slots.len(),
        p + j < m <= outs.len(),
        forall|i: int| p <= i < p + j ==> #[trigger] outs[i] is Accepted,
        !(outs[p + j] is Accepted),
    ensures
        run_status(slots, new_set, register, outs.take(m), p) == (RunStatus::Stopped { index: j as usize, at: (p + j + 1) as usize }),
{
    let t = outs.take(m);
    assert forall|i: int| p <= i < p + j implies #[trigger] t[i] is Accepted by {
        assert(t[i] == outs[i]);
    }
    assert(t[p + j] == outs[p + j]);
    let available = m - p;
    let seen = if available < slots.len() { available } else { slots.len() as int };
    lemma_refused_at(t, p, j, seen);
}

/// The set a call on `new_set` is about.
pub open spec fn set_of(old: Seq<Option<HotKey>>, new: Seq<Option<HotKey>>, new_set: bool) -> Seq<Option<HotKey>> {
    if new_set {
        new
    } else {
        old
    }
}

/// Slots of a set that each hold a shortcut, in increasing order.
pub open spec fn valid_slots(set: Seq<Option<HotKey>>, slots: Seq<usize>) -> bool {
    &&& forall|i: int| 0 <= i < slots.len() ==> #[trigger] slots[i] < 3 && set[slots[i] as int] is Some
    &&& forall|i: int, j: int| 0 <= i < j < slots.len() ==> #[trigger] slots[i] < #[trigger] slots[j]
}

/// A stretch of `n` registrations from answer `s` on, each accepted by the registrar: the
/// registrar then holds what it held and those shortcuts.
#[verifier::spinoff_prover]
#[verifier::rlimit(40)]
proof fn lemma_register_segment(
    old: Seq<Option<HotKey>>,
    new: Seq<Option<HotKey>>,
    accepts: spec_fn(HotKey) -> bool,
    held0: Set<HotKey>,
    outs: Seq<CallOutcome>,
    new_set: bool,
    slots: Seq<usize>,
    s: int,
    n: int,
    base: Set<HotKey>,
)
    requires
        old.len() == 3,
        new.len() == 3,
        valid_slots(set_of(old, new, new_set), slots),
        0 <= s,
        0 <= n <= slots.len(),
        s + n <= outs.len(),
        model_answers(old, new, accepts, held0, outs),
        held_after(old, new, held0, outs, s) == base,
        forall|i: int| 0 <= i < n ==> #[trigger] accepts(set_of(old, new, new_set)[slots[i] as int]->0),
        forall|i: int|
            0 <= i < n && accepted_from(outs, s, i) ==> replace_plan(old, new, #[trigger] outs.take(s + i))
                == PlanView::Call(call_on(new_set, true, slots[i])),
    ensures
        forall|j: int| s <= j < s + n ==> #[trigger] outs[j] is Accepted,
        held_after(old, new, held0, outs, s + n) == base.union(slot_keys(set_of(old, new, new_set), slots.take(n))),
    decreases n,
{
    let set = set_of(old, new, new_set);
    if n == 0 {
        assert(slot_keys(set, slots.take(0)) =~= Set::empty());
        assert(base.union(Set::empty()) =~= base);
    } else {
        lemma_register_segment(old, new, accepts, held0, outs, new_set, slots, s, n - 1, base);
        let c = call_on(new_set, true, slots[n - 1]);
        assert(accepted_from(outs, s, n - 1));
        assert(replace_plan(old, new, outs.take(s + n - 1)) == PlanView::Call(c));
        let key = set[slots[n - 1] as int]->0;
        assert(call_target(old, new, c) == Some(key));
        assert(accepts(key));
        assert(outs[s + n - 1] is Accepted);
        lemma_slot_keys_step(set, slots, n);
        let h = held_after(old, new, held0, outs, s + n - 1);
        assert(held_after(old, new, held0, outs, s + n) == h.insert(key));
        assert(h.insert(key) =~= base.union(slot_keys(set, slots.take(n))));
    }
}

/// A stretch of `n` removals from answer `s` on, of shortcuts the registrar holds, no
/// shortcut twice: each is done, and the registrar no longer holds them.
#[verifier::spinoff_prover]
#[verifier::rlimit(40)]
proof fn lemma_unregister_segment(
    old: Seq<Option<HotKey>>,
    new: Seq<Option<HotKey>>,
    accepts: spec_fn(HotKey) -> bool,
    held0: Set<HotKey>,
    outs: Seq<CallOutcome>,
    new_set: bool,
    slots: Seq<usize>,
    s: int,
    n: int,
    base: Set<HotKey>,
)
    requires
        old.len() == 3,
        new.len() == 3,
        valid_slots(set_of(old, new, new_set), slots),
        distinct_keys(set_of(old, new, new_set)),
        0 <= s,
        0 <= n <= slots.len(),
        s + n <= outs.len(),
        model_answers(old, new, accepts, held0, outs),
        held_after(old, new, held0, outs, s) == base,
        forall|i: int| 0 <= i < n ==> base.contains(#[trigger] set_of(old, new, new_set)[slots[i] as int]->0),
        forall|i: int|
            0 <= i < n && accepted_from(outs, s, i) ==> replace_plan(old, new, #[trigger] outs.take(s + i))
                == PlanView::Call(call_on(new_set, false, slots[i])),
    ensures
        forall|j: int| s <= j < s + n ==> #[trigger] outs[j] is Accepted,
        held_after(old, new, held0, outs, s + n) == base.difference(slot_keys(set_of(old, new, new_set), slots.take(n))),
    decreases n,
{
    let set = set_of(old, new, new_set);
    if n == 0 {
        assert(slot_keys(set, slots.take(0)) =~= Set::empty());
        assert(base.difference(Set::empty()) =~= base);
    } else {
        lemma_unregister_segment(old, new, accepts, held0, outs, new_set, slots, s, n - 1, base);
        let c = call_on(new_set, false, slots[n - 1]);
        assert(accepted_from(outs, s, n - 1));
        assert(replace_plan(old, new, outs.take(s + n - 1)) == PlanView::Call(c));
        let key = set[slots[n - 1] as int]->0;
        assert(call_target(old, new, c) == Some(key));
        assert(base.contains(key));
        assert(!slot_keys(set, slots.take(n - 1)).contains(key)) by {
            if slot_keys(set, slots.take(n - 1)).contains(key) {
                let i = choose|i: int| 0 <= i < slots.take(n - 1).len() && set[#[trigger] slots.take(n - 1)[i] as int] == Some(key);
                assert(slots[i] < slots[n - 1]);
            }
        }
        let h = held_after(old, new, held0, outs, s + n - 1);
        assert(h.contains(key));
        assert(outs[s + n - 1] is Accepted);
        lemma_slot_keys_step(set, slots, n);
        assert(held_after(old, new, held0, outs, s + n) == h.remove(key));
        assert(h.remove(key) =~= base.difference(slot_keys(set, slots.take(n))));
    }
}

/// Whether `outs` are answers that the registrar can give, in order, to the calls that
/// replacing `old` by `new` makes: before each answer the plan asks for a call, and the
/// answer fits that call.
pub open spec fn replace_run(old: Seq<Option<HotKey>>, new: Seq<Option<HotKey>>, outs: Seq<CallOutcome>) -> bool {
    forall|k: int|
        0 <= k < outs.len() ==> match #[trigger] replace_plan(old, new, outs.take(k)) {
            PlanView::Call(c) => answers(c, outs[k]),
            _ => false,
        }
}

/// The position of the first of `slots` from `i` on whose shortcut `accepts` refuses, or
/// the number of slots when it accepts them all.
pub open spec fn first_refused_slot(
    set: Seq<Option<HotKey>>,
    slots: Seq<usize>,
    accepts: spec_fn(HotKey) -> bool,
    i: int,
) -> int
    decreases slots.len() - i,
{
    if i >= slots.len() {
        slots.len() as int
    } else if !accepts(set[slots[i] as int]->0) {
        i
    } else {
        first_refused_slot(set, slots, accepts, i + 1)
    }
}

proof fn lemma_first_refused_slot(set: Seq<Option<HotKey>>, slots: Seq<usize>, accepts: spec_fn(HotKey) -> bool, i: int)
    requires
        0 <= i <= slots.len(),
    ensures
        i <= first_refused_slot(set, slots, accepts, i) <= slots.len(),
        forall|k: int|
            i <= k < first_refused_slot(set, slots, accepts, i) ==> #[trigger] accepts(set[slots[k] as int]->0),
        first_refused_slot(set, slots, accepts, i) < slots.len() ==> !accepts(
            set[slots[first_refused_slot(set, slots, accepts, i)] as int]->0,
        ),
    decreases slots.len() - i,
{
    if i < slots.len() && accepts(set[slots[i] as int]->0) {
        lemma_first_refused_slot(set, slots, accepts, i + 1);
    }
}

/// Whether the answers from `p` on, `n` of them, are all acceptances.
pub open spec fn accepted_from(outs: Seq<CallOutcome>, p: int, n: int) -> bool {
    forall|j: int| p <= j < p + n ==> #[trigger] outs[j] is Accepted
}

#[verifier::spinoff_prover]
#[verifier::rlimit(40)]
proof fn lemma_plan_removing(old: Seq<Option<HotKey>>, new: Seq<Option<HotKey>>, outs: Seq<CallOutcome>, k: int)
    requires
        0 <= k < filled_slots(old).len(),
        k <= outs.len(),
        accepted_from(outs, 0, k),
    ensures
        replace_plan(old, new, outs.take(k)) == PlanView::Call(call_on(false, false, filled_slots(old)[k])),
{
    lemma_run_next(filled_slots(old), false, false, outs, 0, k);
    reveal(replace_plan);
}

#[verifier::spinoff_prover]
#[verifier::rlimit(40)]
proof fn lemma_plan_registering_new(old: Seq<Option<HotKey>>, new: Seq<Option<HotKey>>, outs: Seq<CallOutcome>, i: int)
    requires
        0 <= i < filled_slots(new).len(),
        filled_slots(old).len() + i <= outs.len(),
        accepted_from(outs, 0, filled_slots(old).len() + i),
    ensures
        replace_plan(old, new, outs.take(filled_slots(old).len() + i)) == PlanView::Call(
            call_on(true, true, filled_slots(new)[i]),
        ),
{
    let a = filled_slots(old).len() as int;
    lemma_run_completed(filled_slots(old), false, false, outs, 0, a + i);
    lemma_run_next(filled_slots(new), true, true, outs, a, i);
    reveal(replace_plan);
}

#[verifier::spinoff_prover]
#[verifier::rlimit(40)]
proof fn lemma_plan_new_done(old: Seq<Option<HotKey>>, new: Seq<Option<HotKey>>, outs: Seq<CallOutcome>)
    requires
        filled_slots(old).len() + filled_slots(new).len() <= outs.len(),
        accepted_from(outs, 0, (filled_slots(old).len() + filled_slots(new).len()) as int),
    ensures
        replace_plan(old, new, outs.take((filled_slots(old).len() + filled_slots(new).len()) as int)) is Succeeded,
{
    let a = filled_slots(old).len() as int;
    let m = a + filled_slots(new).len();
    lemma_run_completed(filled_slots(old), false, false, outs, 0, m);
    lemma_run_completed(filled_slots(new), true, true, outs, a, m);
    reveal(replace_plan);
}

/// After the new set was refused at its `jd`-th filled slot, at answer `a + jd`.
pub open spec fn refused_new_at(old: Seq<Option<HotKey>>, new: Seq<Option<HotKey>>, outs: Seq<CallOutcome>, jd: int) -> bool {
    let a = filled_slots(old).len() as int;
    &&& 0 <= jd < filled_slots(new).len()
    &&& a + jd < outs.len()
    &&& accepted_from(outs, 0, a + jd)
    &&& !(outs[a + jd] is Accepted)
}

#[verifier::spinoff_prover]
#[verifier::rlimit(40)]
proof fn lemma_plan_undoing_new(
    old: Seq<Option<HotKey>>,
    new: Seq<Option<HotKey>>,
    outs: Seq<CallOutcome>,
    jd: int,
    i: int,
)
    requires
        refused_new_at(old, new, outs, jd),
        0 <= i < jd,
        filled_slots(old).len() + jd + 1 + i <= outs.len(),
    ensures
        replace_plan(old, new, outs.take(filled_slots(old).len() + jd + 1 + i)) == PlanView::Call(
            call_on(true, false, filled_slots(new)[i]),
        ),
{
    let a = filled_slots(old).len() as int;
    let m = a + jd + 1 + i;
    lemma_run_completed(filled_slots(old), false, false, outs, 0, m);
    lemma_run_stopped(filled_slots(new), true, true, outs, a, jd, m);
    reveal(replace_plan);
    assert(filled_slots(new).take(jd)[i] == filled_slots(new)[i]);
}

#[verifier::spinoff_prover]
#[verifier::rlimit(40)]
proof fn lemma_plan_undone_new(
    old: Seq<Option<HotKey>>,
    new: Seq<Option<HotKey>>,
    outs: Seq<CallOutcome>,
    jd: int,
    m: int,
)
    requires
        refused_new_at(old, new, outs, jd),
        filled_slots(old).len() + jd + 1 + jd <= m <= outs.len(),
    ensures
        replace_plan(old, new, outs.take(m)) == match run_status(
            filled_slots(old),
            false,
            true,
            outs.take(m),
            filled_slots(old).len() + jd + 1 + jd,
        ) {
            RunStatus::Next(c) => PlanView::Call(c),
            RunStatus::Completed { .. } => PlanView::Failed {
                action: Some(filled_slots(new)[jd]),
                message: registration_message(
                    filled_slots(new)[jd] as int,
                    registration_refusal(outs[filled_slots(old).len() + jd]),
                ),
                restored_old: true,
            },
            RunStatus::Stopped { index, at } => match sweep_next(
                filled_slots(old).take(index as int),
                false,
                false,
                outs.take(m),
                at as int,
            ) {
                Some(c) => PlanView::Call(c),
                None => PlanView::Failed {
                    action: None,
                    message: unrestored_message(
                        registration_message(
                            filled_slots(new)[jd] as int,
                            registration_refusal(outs[filled_slots(old).len() + jd]),
                        ),
                        registration_message(
                            filled_slots(old)[index as int] as int,
                            registration_refusal(outs.take(m)[at - 1]),
                        ),
                    ),
                    restored_old: false,
                },
            },
        },
{
    let a = filled_slots(old).len() as int;
    lemma_run_completed(filled_slots(old), false, false, outs, 0, m);
    lemma_run_stopped(filled_slots(new), true, true, outs, a, jd, m);
    reveal(replace_plan);
    assert(outs.take(m)[a + jd] == outs[a + jd]);
}

/// At a registrar that holds exactly the old set, removing it is done in full: the first
/// answers are acceptances for each of its shortcuts, and then the registrar holds none.
#[verifier::spinoff_prover]
#[verifier::rlimit(40)]
proof fn lemma_removal_done(
    old: Seq<Option<HotKey>>,
    new: Seq<Option<HotKey>>,
    accepts: spec_fn(HotKey) -> bool,
    outs: Seq<CallOutcome>,
)
    requires
        old.len() == 3,
        distinct_keys(old),
        model_answers(old, new, accepts, set_keys(old), outs),
        !(replace_plan(old, new, outs) is Call),
    ensures
        filled_slots(old).len() <= outs.len(),
        accepted_from(outs, 0, filled_slots(old).len() as int),
        held_after(old, new, set_keys(old), outs, filled_slots(old).len() as int) == Set::<HotKey>::empty(),
{
    let a_slots = filled_slots(old);
    let a = a_slots.len() as int;
    let len = outs.len() as int;
    if len < a {
        lemma_removal_phase(old, new, accepts, outs, len);
        lemma_plan_removing(old, new, outs, len);
        assert(outs.take(len) =~= outs);
        assert(false);
    }
    lemma_removal_phase(old, new, accepts, outs, a);
    assert(a_slots.take(a) =~= a_slots);
    assert(held_after(old, new, set_keys(old), outs, a) =~= Set::<HotKey>::empty());
}

/// Registering the new set afterwards goes up to its first shortcut that the registrar
/// refuses: those before it are registered, and the registrar holds them.
#[verifier::spinoff_prover]
#[verifier::rlimit(40)]
proof fn lemma_new_registered(
    old: Seq<Option<HotKey>>,
    new: Seq<Option<HotKey>>,
    accepts: spec_fn(HotKey) -> bool,
    outs: Seq<CallOutcome>,
)
    requires
        old.len() == 3,
        new.len() == 3,
        model_answers(old, new, accepts, set_keys(old), outs),
        !(replace_plan(old, new, outs) is Call),
        filled_slots(old).len() <= outs.len(),
        accepted_from(outs, 0, filled_slots(old).len() as int),
        held_after(old, new, set_keys(old), outs, filled_slots(old).len() as int) == Set::<HotKey>::empty(),
    ensures
        ({
            let jd = first_refused_slot(new, filled_slots(new), accepts, 0);
            &&& filled_slots(old).len() + jd <= outs.len()
            &&& accepted_from(outs, 0, filled_slots(old).len() + jd)
            &&& held_after(old, new, set_keys(old), outs, filled_slots(old).len() + jd) == slot_keys(
                new,
                filled_slots(new).take(jd),
            )
        }),
{
    let a = filled_slots(old).len() as int;
    let d_slots = filled_slots(new);
    let len = outs.len() as int;
    let jd = first_refused_slot(new, d_slots, accepts, 0);
    lemma_filled_slots(new);
    lemma_first_refused_slot(new, d_slots, accepts, 0);
    assert(valid_slots(set_of(old, new, true), d_slots));
    assert forall|i: int|
        0 <= i < jd && a + i <= len && accepted_from(outs, a, i) implies replace_plan(
            old,
            new,
            #[trigger] outs.take(a + i),
        ) == PlanView::Call(call_on(true, true, d_slots[i])) by {
        assert(accepted_from(outs, 0, a + i));
        lemma_plan_registering_new(old, new, outs, i);
    }
    let n = if len < a + jd { len - a } else { jd };
    lemma_register_segment(old, new, accepts, set_keys(old), outs, true, d_slots, a, n, Set::empty());
    if len < a + jd {
        lemma_plan_registering_new(old, new, outs, len - a);
        assert(outs.take(len) =~= outs);
        assert(false);
    }
    assert(Set::<HotKey>::empty().union(slot_keys(new, d_slots.take(jd))) =~= slot_keys(new, d_slots.take(jd)));
}

/// Replacing the shortcuts `old` by `new` (no shortcut twice within either) at a registrar
/// that holds exactly `old`, removes exactly what it holds and registers a shortcut
/// exactly when `accepts` says so: when the replacement succeeds, the registrar then holds
/// exactly `new`; when it fails and reports the old set restored, it holds exactly `old`
/// again.
#[verifier::spinoff_prover]
#[verifier::rlimit(40)]
pub proof fn lemma_replacement_restores(
    old: Seq<Option<HotKey>>,
    new: Seq<Option<HotKey>>,
    accepts: spec_fn(HotKey) -> bool,
    outs: Seq<CallOutcome>,
)
    requires
        old.len() == 3,
        new.len() == 3,
        distinct_keys(old),
        distinct_keys(new),
        replace_run(old, new, outs),
        model_answers(old, new, accepts, set_keys(old), outs),
        !(replace_plan(old, new, outs) is Call),
    ensures
        replace_plan(old, new, outs) is Succeeded ==> held_after(old, new, set_keys(old), outs, outs.len() as int)
            == set_keys(new),
        replace_plan(old, new, outs) matches PlanView::Failed { restored_old: true, .. } ==> held_after(
            old,
            new,
            set_keys(old),
            outs,
            outs.len() as int,
        ) == set_keys(old),
{
    let a = filled_slots(old).len() as int;
    let d_slots = filled_slots(new);
    let b = d_slots.len() as int;
    let len = outs.len() as int;
    lemma_removal_done(old, new, accepts, outs);
    lemma_new_registered(old, new, accepts, outs);
    let jd = first_refused_slot(new, d_slots, accepts, 0);
    lemma_first_refused_slot(new, d_slots, accepts, 0);
    if jd == b {
        assert(d_slots.take(b) =~= d_slots);
        lemma_plan_new_done(old, new, outs);
        if len > a + b {
            assert(false);
        }
        assert(outs.take(len) =~= outs);
    } else {
        lemma_plan_registering_new(old, new, outs, jd);
        if len <= a + jd {
            assert(outs.take(len) =~= outs);
            assert(false);
        }
        assert(!(outs[a + jd] is Accepted));
        lemma_refused_new_branch(old, new, accepts, outs, jd);
    }
}

/// Once the new set was refused, what was registered of it is removed again: the
/// registrar then holds nothing.
#[verifier::spinoff_prover]
#[verifier::rlimit(40)]
proof fn lemma_new_undone(
    old: Seq<Option<HotKey>>,
    new: Seq<Option<HotKey>>,
    accepts: spec_fn(HotKey) -> bool,
    outs: Seq<CallOutcome>,
    jd: int,
)
    requires
        old.len() == 3,
        new.len() == 3,
        distinct_keys(new),
        model_answers(old, new, accepts, set_keys(old), outs),
        !(replace_plan(old, new, outs) is Call),
        refused_new_at(old, new, outs, jd),
        held_after(old, new, set_keys(old), outs, filled_slots(old).len() + jd) == slot_keys(
            new,
            filled_slots(new).take(jd),
        ),
    ensures
        filled_slots(old).len() + jd + 1 + jd <= outs.len(),
        held_after(old, new, set_keys(old), outs, filled_slots(old).len() + jd + 1 + jd) == Set::<HotKey>::empty(),
{
    let a = filled_slots(old).len() as int;
    let d_slots = filled_slots(new);
    let len = outs.len() as int;
    let q = a + jd + 1;
    lemma_filled_slots(new);
    if len < q + jd {
        lemma_plan_undoing_new(old, new, outs, jd, len - q);
        assert(outs.take(len) =~= outs);
        assert(false);
    }
    lemma_plan_registering_new(old, new, outs, jd);
    let h = held_after(old, new, set_keys(old), outs, a + jd);
    assert(held_after(old, new, set_keys(old), outs, q) == h);
    let base = slot_keys(new, d_slots.take(jd));
    assert(valid_slots(set_of(old, new, true), d_slots));
    assert forall|i: int| 0 <= i < jd implies base.contains(#[trigger] set_of(old, new, true)[d_slots[i] as int]->0) by {
        assert(d_slots.take(jd)[i] == d_slots[i]);
    }
    assert forall|i: int|
        0 <= i < jd && accepted_from(outs, q, i) implies replace_plan(old, new, #[trigger] outs.take(q + i))
        == PlanView::Call(call_on(true, false, d_slots[i])) by {
        lemma_plan_undoing_new(old, new, outs, jd, i);
    }
    lemma_unregister_segment(old, new, accepts, set_keys(old), outs, true, d_slots, q, jd, base);
    assert(base.difference(slot_keys(new, d_slots.take(jd))) =~= Set::<HotKey>::empty());
}

#[verifier::spinoff_prover]
#[verifier::rlimit(40)]
proof fn lemma_refused_new_branch(
    old: Seq<Option<HotKey>>,
    new: Seq<Option<HotKey>>,
    accepts: spec_fn(HotKey) -> bool,
    outs: Seq<CallOutcome>,
    jd: int,
)
    requires
        old.len() == 3,
        new.len() == 3,
        distinct_keys(old),
        distinct_keys(new),
        replace_run(old, new, outs),
        model_answers(old, new, accepts, set_keys(old), outs),
        !(replace_plan(old, new, outs) is Call),
        refused_new_at(old, new, outs, jd),
        held_after(old, new, set_keys(old), outs, filled_slots(old).len() + jd) == slot_keys(
            new,
            filled_slots(new).take(jd),
        ),
    ensures
        !(replace_plan(old, new, outs) is Succeeded),
        replace_plan(old, new, outs) matches PlanView::Failed { restored_old: true, .. } ==> held_after(
            old,
            new,
            set_keys(old),
            outs,
            outs.len() as int,
        ) == set_keys(old),
{
    let a_slots = filled_slots(old);
    let a = a_slots.len() as int;
    let len = outs.len() as int;
    let p2 = a + jd + 1 + jd;
    lemma_filled_slots(old);
    lemma_new_undone(old, new, accepts, outs, jd);
    assert(outs.take(len) =~= outs);
    lemma_plan_undone_new(old, new, outs, jd, len);
    // The old set is registered again up to its first refused shortcut.
    let je = first_refused_slot(old, a_slots, accepts, 0);
    lemma_first_refused_slot(old, a_slots, accepts, 0);
    assert(valid_slots(set_of(old, new, false), a_slots));
    assert forall|i: int|
        0 <= i < je && p2 + i <= len && accepted_from(outs, p2, i) implies replace_plan(
            old,
            new,
            #[trigger] outs.take(p2 + i),
        ) == PlanView::Call(call_on(false, true, a_slots[i])) by {
        lemma_plan_undone_new(old, new, outs, jd, p2 + i);
        lemma_run_next(a_slots, false, true, outs, p2, i);
    }
    let n = if len < p2 + je { len - p2 } else { je };
    lemma_register_segment(old, new, accepts, set_keys(old), outs, false, a_slots, p2, n, Set::empty());
    if len < p2 + je {
        lemma_run_next(a_slots, false, true, outs, p2, len - p2);
        assert(false);
    }
    assert(Set::<HotKey>::empty().union(slot_keys(old, a_slots.take(je))) =~= slot_keys(old, a_slots.take(je)));
    if je == a {
        assert(a_slots.take(a) =~= a_slots);
        if len > p2 + a {
            lemma_plan_undone_new(old, new, outs, jd, p2 + a);
            lemma_run_completed(a_slots, false, true, outs, p2, p2 + a);
            assert(false);
        }
        lemma_run_completed(a_slots, false, true, outs, p2, len);
    } else {
        if len <= p2 + je {
            lemma_run_next(a_slots, false, true, outs, p2, je);
            assert(false);
        }
        lemma_plan_undone_new(old, new, outs, jd, p2 + je);
        lemma_run_next(a_slots, false, true, outs, p2, je);
        assert(!(outs[p2 + je] is Accepted));
        lemma_run_stopped(a_slots, false, true, outs, p2, je, len);
    }
}

} // verus!
