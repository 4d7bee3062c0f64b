//! Registering the recorder's three global shortcuts with the system, replacing a set
//! as a whole and putting the previous set back when the new one cannot be registered.
use vstd::prelude::*;
use crate::recorder::shortcuts::{
    action_name, canonical_fields, canonical_text, field_issue, input_matches, parse_fits,
    parse_shortcuts, parsed_input, ParsedShortcut, ShortcutInput, ShortcutIssue,
};
use crate::screenshot::hotkey::hotkey_number;
use crate::recorder::replacement::{
    answers, call_target, registration_issue, removal_issue, replace_plan, replace_run,
    replace_step, step_view, CallOutcome, PlanView, RegistrarCall, ReplaceStep,
};
use crate::text::{chars_of, equals_text, extend_chars, string_of, trim};
use global_hotkey::hotkey::HotKey;
use global_hotkey::GlobalHotKeyManager;

verus! {

/// Why the system refused to register a hot key.
#[derive(Clone, Debug, PartialEq, Eq)]
pub enum RegistrationFailure {
    /// Another program holds the combination.
    Conflict,
    /// Any other refusal, with its message.
    Other(String),
}

/// What hot keys are registered with and removed from. The outcome of each call is up to
/// the implementation (the operating system, or a stand-in).
pub trait HotkeyRegistrar {
    /// Registers a hot key.
    fn register(&self, hotkey: HotKey) -> Result<(), RegistrationFailure>;

    /// Removes a registered hot key, or says why it could not.
    fn unregister(&self, hotkey: HotKey) -> Result<(), String>;
}

impl HotkeyRegistrar for GlobalHotKeyManager {
    fn register(&self, hotkey: HotKey) -> Result<(), RegistrationFailure> {
        crate::screenshot::hotkey::register_hotkey(self, hotkey)
    }

    fn unregister(&self, hotkey: HotKey) -> Result<(), String> {
        crate::screenshot::hotkey::unregister_hotkey(self, hotkey)
    }
}

/// The message for a shortcut that could not be registered.
pub open spec fn registration_message(index: int, failure: RegistrationFailure) -> Seq<char> {
    match failure {
        RegistrationFailure::Conflict => action_name(index) + "快捷键已被其他程序占用"@,
        RegistrationFailure::Other(error) => action_name(index) + "快捷键注册失败："@ + error@,
    }
}

/// The message for a failure whose cleanup failed too.
pub open spec fn unrestored_message(first: Seq<char>, restore: Seq<char>) -> Seq<char> {
    first + "；旧快捷键也未能恢复："@ + restore
}

pub(crate) fn unrestored_issue(first: &ShortcutIssue, restore: &ShortcutIssue) -> (r: ShortcutIssue)
    ensures
        r.action is None,
        r.message@ == unrestored_message(first.message@, restore.message@),
{
    let mut v = chars_of(first.message.as_str());
    extend_chars(&mut v, &chars_of("；旧快捷键也未能恢复："));
    extend_chars(&mut v, &chars_of(restore.message.as_str()));
    ShortcutIssue { action: None, message: string_of(&v) }
}

/// A set with no shortcut in it.
pub open spec fn empty_set(hotkeys: Seq<Option<HotKey>>) -> bool {
    forall|i: int| 0 <= i < 3 ==> #[trigger] hotkeys[i] is None
}

/// Registers the shortcuts of a set in order. When one is refused, those registered so far
/// are removed again and the refusal is the issue of that action. An empty set asks the
/// registrar nothing and succeeds.
pub fn register_set<R: HotkeyRegistrar>(registrar: &R, hotkeys: &[Option<HotKey>; 3]) -> (r: Result<(), ShortcutIssue>)
    ensures
        empty_set(hotkeys@) ==> r is Ok,
        r matches Err(issue) ==> exists|i: int, failure: RegistrationFailure|
            0 <= i < 3 && hotkeys@[i] is Some && issue.action == Some(i as usize)
                && issue.message@ == #[trigger] registration_message(i, failure),
{
    let mut registered: Vec<HotKey> = Vec::new();
    let mut index: usize = 0;
    while index < 3
        invariant
            index <= 3,
        decreases 3 - index,
    {
        match hotkeys[index] {
            None => {},
            Some(hotkey) => match registrar.register(hotkey) {
                Ok(()) => {
                    registered.push(hotkey);
                },
                Err(failure) => {
                    let mut k: usize = 0;
                    while k < registered.len()
                        decreases registered.len() - k,
                    {
                        let _ = registrar.unregister(registered[k]);
                        k = k + 1;
                    }
                    return Err(registration_issue(index, failure));
                },
            },
        }
        index = index + 1;
    }
    Ok(())
}

/// Why a set of shortcuts could not be replaced, and whether the previous set is back in
/// place.
#[derive(Clone, Debug, PartialEq, Eq)]
pub struct ReplaceFailure {
    pub issue: ShortcutIssue,
    pub restored_old: bool,
}

/// The message for a shortcut that could not be removed.
pub open spec fn unregister_message(index: int, error: Seq<char>) -> Seq<char> {
    "无法更新"@ + action_name(index) + "快捷键："@ + error
}

/// Removes the shortcuts of a set in order. When one cannot be removed, those removed so
/// far are registered again; if that fails too, the whole set is removed as far as possible
/// and the failure says that the previous shortcuts are not back. An empty set asks the
/// registrar nothing and succeeds.
pub fn unregister_set<R: HotkeyRegistrar>(registrar: &R, hotkeys: &[Option<HotKey>; 3]) -> (r: Result<(), ReplaceFailure>)
    ensures
        empty_set(hotkeys@) ==> r is Ok,
        r matches Err(f) ==> (f.restored_old ==> exists|i: int, e: Seq<char>|
            0 <= i < 3 && hotkeys@[i] is Some && f.issue.action == Some(i as usize)
                && f.issue.message@ == #[trigger] unregister_message(i, e)) && (!f.restored_old
            ==> f.issue.action is None && exists|i: int, e: Seq<char>, rest: Seq<char>|
            0 <= i < 3 && hotkeys@[i] is Some && f.issue.message@ == #[trigger] unrestored_message(
                unregister_message(i, e),
                rest,
            )),
{
    let mut unregistered: [Option<HotKey>; 3] = [None, None, None];
    let mut index: usize = 0;
    while index < 3
        invariant
            index <= 3,
        decreases 3 - index,
    {
        match hotkeys[index] {
            None => {},
            Some(hotkey) => match registrar.unregister(hotkey) {
                Ok(()) => {
                    unregistered.set(index, Some(hotkey));
                },
                Err(error) => {
                    let issue = removal_issue(index, error.as_str());
                    match register_set(registrar, &unregistered) {
                        Ok(()) => {
                            return Err(ReplaceFailure { issue, restored_old: true });
                        },
                        Err(restore_issue) => {
                            let mut k: usize = 0;
                            while k < 3
                                decreases 3 - k,
                            {
                                match hotkeys[k] {
                                    Some(old) => {
                                        let _ = registrar.unregister(old);
                                    },
                                    None => {},
                                }
                                k = k + 1;
                            }
                            let combined = unrestored_issue(&issue, &restore_issue);
                            return Err(ReplaceFailure { issue: combined, restored_old: false });
                        },
                    }
                },
            },
        }
        index = index + 1;
    }
    Ok(())
}

/// What a replacement's result stands for.
pub open spec fn replace_result_view(r: Result<(), ReplaceFailure>) -> PlanView {
    step_view(ReplaceStep::Finish(r))
}

/// Makes one call to the registrar, on the shortcut it is about, and hands back the answer.
fn perform_call<R: HotkeyRegistrar>(
    registrar: &R,
    old: &[Option<HotKey>; 3],
    new: &[Option<HotKey>; 3],
    call: RegistrarCall,
) -> (o: CallOutcome)
    requires
        call_target(old@, new@, call) is Some,
    ensures
        answers(call, o),
{
    match call {
        RegistrarCall::Register { new_set, slot } => {
            let target = if new_set { new[slot] } else { old[slot] };
            match target {
                Some(hotkey) => match registrar.register(hotkey) {
                    Ok(()) => CallOutcome::Accepted,
                    Err(failure) => CallOutcome::Refused(failure),
                },
                None => {
                    proof {
                        assert(false);
                    }
                    CallOutcome::Accepted
                },
            }
        },
        RegistrarCall::Unregister { new_set, slot } => {
            let target = if new_set { new[slot] } else { old[slot] };
            match target {
                Some(hotkey) => match registrar.unregister(hotkey) {
                    Ok(()) => CallOutcome::Accepted,
                    Err(error) => CallOutcome::Failed(error),
                },
                None => {
                    proof {
                        assert(false);
                    }
                    CallOutcome::Accepted
                },
            }
        },
    }
}

/// Replaces the registered set `old` by `new`: the old shortcuts are removed, then the new
/// ones registered. When the new set is refused, the old one is registered again; the
/// failure says whether that worked. The registrar is driven by `replace_step`: the result
/// is what the plan gives for the answers the registrar gave.
pub fn replace_registered<R: HotkeyRegistrar>(
    registrar: &R,
    old: &[Option<HotKey>; 3],
    new: &[Option<HotKey>; 3],
) -> (r: Result<(), ReplaceFailure>)
    ensures
        exists|outs: Seq<CallOutcome>|
            replace_run(old@, new@, outs) && #[trigger] replace_plan(old@, new@, outs)
                == replace_result_view(r),
{
    let mut outs: Vec<CallOutcome> = Vec::new();
    loop
        invariant
            outs@.len() <= 16,
            replace_run(old@, new@, outs@),
        decreases 16 - outs@.len(),
    {
        match replace_step(old, new, &outs) {
            ReplaceStep::Finish(r) => {
                assert(replace_plan(old@, new@, outs@) == replace_result_view(r));
                return r;
            },
            ReplaceStep::Call(c) => {
                let outcome = perform_call(registrar, old, new, c);
                let ghost before = outs@;
                outs.push(outcome);
                proof {
                    assert forall|k: int| 0 <= k < outs@.len() implies match #[trigger] replace_plan(
                        old@,
                        new@,
                        outs@.take(k),
                    ) {
                        PlanView::Call(c) => answers(c, outs@[k]),
                        _ => false,
                    } by {
                        if k < before.len() {
                            assert(outs@.take(k) =~= before.take(k));
                        } else {
                            assert(outs@.take(k) =~= before);
                        }
                    }
                }
            },
        }
    }
}

/// A field that is there but holds nothing once trimmed.
pub open spec fn blank_field(value: Option<String>) -> bool {
    value matches Some(v) && trim(v@).len() == 0
}

/// The texts of three optional strings.
pub open spec fn texts3(values: Seq<Option<String>>) -> Seq<Option<Seq<char>>> {
    values.map_values(
        |v: Option<String>|
            match v {
                Some(s) => Some(s@),
                None => None,
            },
    )
}

/// The action (0 start, 1 pause, 2 stop) whose shortcut has the event number `id`: the
/// first position of `Some(id)` among the action numbers, if any.
pub fn action_index(ids: &[Option<u32>; 3], id: u32) -> (r: Option<usize>)
    ensures
        match r {
            Some(i) => i < 3 && ids@[i as int] == Some(id) && forall|k: int|
                0 <= k < i ==> ids@[k] != Some(id),
            None => forall|k: int| 0 <= k < 3 ==> ids@[k] != Some(id),
        },
{
    let mut i: usize = 0;
    while i < 3
        invariant
            i <= 3,
            ids@.len() == 3,
            forall|k: int| 0 <= k < i ==> ids@[k] != Some(id),
        decreases 3 - i,
    {
        match ids[i] {
            Some(value) => {
                if value == id {
                    return Some(i);
                }
            },
            None => {},
        }
        i = i + 1;
    }
    None
}

/// The recorder's start, pause and stop shortcuts as registered with the system.
pub struct RecordingHotkeys {
    manager: GlobalHotKeyManager,
    registered: [Option<HotKey>; 3],
    registered_text: [Option<String>; 3],
    registered_chords: [Option<(u32, String)>; 3],
    action_ids: [Option<u32>; 3],
}

/// The modifier bits and key name of an optional shortcut, with texts as sequences.
pub open spec fn chord_view(c: Option<(u32, String)>) -> Option<(u32, Seq<char>)> {
    match c {
        Some((m, k)) => Some((m, k@)),
        None => None,
    }
}

/// The canonical text of an optional shortcut given by its modifier bits and key name.
pub open spec fn chord_text(c: Option<(u32, Seq<char>)>) -> Option<Seq<char>> {
    match c {
        Some((m, k)) => Some(canonical_text(m, k)),
        None => None,
    }
}

/// The event number of an optional shortcut given by its modifier bits and key name.
pub open spec fn chord_event(c: Option<(u32, Seq<char>)>) -> Option<u32> {
    match c {
        Some((m, k)) => Some(hotkey_number(m, k)),
        None => None,
    }
}

fn same_texts(a: &[Option<String>; 3], b: &Vec<Option<String>>) -> (r: bool)
    requires
        b@.len() == 3,
    ensures
        r == (texts3(a@) == texts3(b@)),
{
    let mut i: usize = 0;
    while i < 3
        invariant
            i <= 3,
            b@.len() == 3,
            forall|k: int| 0 <= k < i ==> texts3(a@)[k] == texts3(b@)[k],
        decreases 3 - i,
    {
        let same = match (&a[i], &b[i]) {
            (None, None) => true,
            (Some(x), Some(y)) => equals_text(&chars_of(x.as_str()), y.as_str()),
            _ => false,
        };
        if !same {
            assert(texts3(a@)[i as int] != texts3(b@)[i as int]);
            return false;
        }
        i = i + 1;
    }
    assert(texts3(a@) =~= texts3(b@));
    true
}

/// The hot keys of the fields that parsed, by slot.
pub open spec fn input_hotkeys(inputs: Seq<ShortcutInput>) -> Seq<Option<HotKey>> {
    inputs.map_values(
        |i: ShortcutInput|
            match i {
                ShortcutInput::Parsed(p) => Some(p.hotkey),
                _ => None,
            },
    )
}

/// The modifier bits and key names of the fields that parsed, by slot.
pub open spec fn input_chords(inputs: Seq<ShortcutInput>) -> Seq<Option<(u32, Seq<char>)>> {
    inputs.map_values(
        |i: ShortcutInput|
            match i {
                ShortcutInput::Parsed(p) => Some((p.modifiers, p.key@)),
                _ => None,
            },
    )
}

/// Whether the review of a set of fields finds an issue: the first field with one.
pub open spec fn review_fails(inputs: Seq<ShortcutInput>) -> bool {
    exists|k: int| 0 <= k < inputs.len() && #[trigger] field_issue(inputs, k) is Some
}

/// Whether `issue` is the review's issue for the set: that of the first field with one.
pub open spec fn review_issue(inputs: Seq<ShortcutInput>, issue: ShortcutIssue) -> bool {
    exists|k: int|
        0 <= k < inputs.len() && (forall|j: int| 0 <= j < k ==> field_issue(inputs, j) is None)
            && #[trigger] field_issue(inputs, k) == Some(issue.message@) && issue.action == Some(
            k as usize,
        )
}

/// Three empty slots.
pub open spec fn no_chords() -> Seq<Option<(u32, Seq<char>)>> {
    seq![None::<(u32, Seq<char>)>, None::<(u32, Seq<char>)>, None::<(u32, Seq<char>)>]
}

/// Three empty slots.
pub open spec fn no_hotkeys() -> Seq<Option<HotKey>> {
    seq![None::<HotKey>, None::<HotKey>, None::<HotKey>]
}

/// Three empty slots.
pub open spec fn no_texts() -> Seq<Option<Seq<char>>> {
    seq![None::<Seq<char>>, None::<Seq<char>>, None::<Seq<char>>]
}

/// Whether two states hold the same shortcuts in the same slots.
pub open spec fn same_registration(a: RecordingHotkeys, b: RecordingHotkeys) -> bool {
    &&& a.registered_view() == b.registered_view()
    &&& a.registered_chords() == b.registered_chords()
    &&& a.registered_hotkeys() == b.registered_hotkeys()
}

/// What reconfiguring with the reviewed fields `inputs` did, from `before` to `after`
/// with result `r`: a set with an issue is refused with the review's issue and nothing
/// changes; a set whose canonical texts are in place is accepted as it is; otherwise the
/// old hot keys are replaced by the fields' hot keys, and the plan of that replacement,
/// over what the system answered, decides: success puts the fields in place, a failure
/// gives its issue and leaves the old set in place or none.
pub open spec fn reconfigured(
    before: RecordingHotkeys,
    after: RecordingHotkeys,
    inputs: Seq<ShortcutInput>,
    r: Result<[Option<String>; 3], ShortcutIssue>,
) -> bool {
    if review_fails(inputs) {
        (r matches Err(issue) && review_issue(inputs, issue)) && same_registration(before, after)
    } else if canonical_fields(inputs) == before.registered_view() {
        (r matches Ok(c) && texts3(c@) == canonical_fields(inputs)) && same_registration(before, after)
    } else {
        exists|outs: Seq<CallOutcome>|
            replace_run(before.registered_hotkeys(), input_hotkeys(inputs), outs) && match #[trigger] replace_plan(
                before.registered_hotkeys(),
                input_hotkeys(inputs),
                outs,
            ) {
                PlanView::Succeeded => {
                    &&& r matches Ok(c) && texts3(c@) == canonical_fields(inputs)
                    &&& after.registered_view() == canonical_fields(inputs)
                    &&& after.registered_chords() == input_chords(inputs)
                    &&& after.registered_hotkeys() == input_hotkeys(inputs)
                },
                PlanView::Failed { action, message, restored_old } => {
                    &&& r matches Err(issue) && issue.action == action && issue.message@ == message
                    &&& restored_old ==> same_registration(before, after)
                    &&& !restored_old ==> after.registered_view() == no_texts() && after.registered_chords()
                        == no_chords() && after.registered_hotkeys() == no_hotkeys()
                },
                PlanView::Call(_) => false,
            }
    }
}

impl RecordingHotkeys {
    /// The hot keys registered with the system, by slot.
    pub closed spec fn registered_hotkeys(&self) -> Seq<Option<HotKey>> {
        self.registered@
    }

    /// The canonical texts of the registered shortcuts.
    pub closed spec fn registered_view(&self) -> Seq<Option<Seq<char>>> {
        texts3(self.registered_text@)
    }

    /// The modifier bits and key names of the registered shortcuts.
    pub closed spec fn registered_chords(&self) -> Seq<Option<(u32, Seq<char>)>> {
        self.registered_chords@.map_values(|c: Option<(u32, String)>| chord_view(c))
    }

    /// Each registered shortcut's text is the canonical text of its modifiers and key, and
    /// its event number is that of its modifiers and key; the slots without one have
    /// neither.
    pub closed spec fn wf(&self) -> bool {
        forall|i: int|
            0 <= i < 3 ==> {
                &&& #[trigger] texts3(self.registered_text@)[i] == chord_text(self.registered_chords()[i])
                &&& self.action_ids@[i] == chord_event(self.registered_chords()[i])
            }
    }

    /// An empty set of shortcuts on a new hot-key manager. Whether the system gives one
    /// depends on the desktop session; when it does not, the error says so.
    pub fn new() -> (r: Result<Self, String>)
        ensures
            r matches Ok(h) ==> h.wf() && h.registered_view() == seq![
                None::<Seq<char>>,
                None::<Seq<char>>,
                None::<Seq<char>>,
            ],
            r matches Err(message) ==> message@ == "无法创建全局快捷键管理器"@,
    {
        match crate::screenshot::hotkey::manager_new() {
            Some(manager) => {
                let r = RecordingHotkeys {
                    manager,
                    registered: [None, None, None],
                    registered_text: [None, None, None],
                    registered_chords: [None, None, None],
                    action_ids: [None, None, None],
                };
                assert(texts3(r.registered_text@) =~= seq![
                    None::<Seq<char>>,
                    None::<Seq<char>>,
                    None::<Seq<char>>,
                ]);
                Ok(r)
            },
            None => Err("无法创建全局快捷键管理器".to_owned()),
        }
    }

    /// The event numbers of the start, pause and stop shortcuts: that of each shortcut in
    /// place, whose text is the canonical text of the same modifiers and key, and none for
    /// the others.
    pub fn action_ids(&self) -> (r: [Option<u32>; 3])
        requires
            self.wf(),
        ensures
            forall|i: int|
                0 <= i < 3 ==> #[trigger] r@[i] == chord_event(self.registered_chords()[i])
                    && self.registered_view()[i] == chord_text(self.registered_chords()[i]),
    {
        proof {
            assert forall|i: int| 0 <= i < 3 implies #[trigger] self.action_ids@[i] == chord_event(
                self.registered_chords()[i],
            ) && self.registered_view()[i] == chord_text(self.registered_chords()[i]) by {
                assert(texts3(self.registered_text@)[i] == chord_text(self.registered_chords()[i]));
            }
        }
        self.action_ids
    }

    fn publish(
        &mut self,
        hotkeys: [Option<HotKey>; 3],
        texts: [Option<String>; 3],
        chords: [Option<(u32, String)>; 3],
        ids: [Option<u32>; 3],
    )
        requires
            forall|i: int|
                0 <= i < 3 ==> {
                    &&& #[trigger] texts3(texts@)[i] == chord_text(chord_view(chords@[i]))
                    &&& ids@[i] == chord_event(chord_view(chords@[i]))
                },
        ensures
            final(self).registered_text@ == texts@,
            final(self).registered@ == hotkeys@,
            final(self).registered_chords@ == chords@,
            final(self).wf(),
    {
        self.registered = hotkeys;
        self.registered_text = texts;
        self.registered_chords = chords;
        self.action_ids = ids;
        proof {
            assert forall|i: int| 0 <= i < 3 implies {
                &&& #[trigger] texts3(self.registered_text@)[i] == chord_text(self.registered_chords()[i])
                &&& self.action_ids@[i] == chord_event(self.registered_chords()[i])
            } by {
                assert(self.registered_chords()[i] == chord_view(chords@[i]));
                assert(texts3(texts@)[i] == chord_text(chord_view(chords@[i])));
            }
        }
    }

    /// Checks a new set of start, pause and stop shortcuts and puts it in place. A set that
    /// does not pass the review (a field that is there but blank, among others) is refused
    /// with its issue and nothing changes. A set whose canonical texts are those in place
    /// is accepted without asking the system; in particular no fields at all, while no
    /// shortcut is in place, leave everything as it is. When registering the new set
    /// fails, the previous set stays in place if it could be put back, and no shortcut is
    /// in place otherwise.
    pub fn reconfigure(&mut self, values: [Option<String>; 3]) -> (r: Result<[Option<String>; 3], ShortcutIssue>)
        requires
            old(self).wf(),
        ensures
            final(self).wf(),
            r matches Ok(c) ==> final(self).registered_view() == texts3(c@),
            r matches Ok(c) ==> forall|i: int|
                0 <= i < 3 ==> (#[trigger] c@[i] is Some) == (values@[i] is Some),
            (exists|i: int| 0 <= i < 3 && #[trigger] blank_field(values@[i])) ==> r is Err
                && final(self).registered_view() == old(self).registered_view(),
            (forall|i: int| 0 <= i < 3 ==> #[trigger] values@[i] is None)
                && old(self).registered_view() == seq![
                None::<Seq<char>>,
                None::<Seq<char>>,
                None::<Seq<char>>,
            ] ==> (r matches Ok(c) && c@ == seq![None::<String>, None::<String>, None::<String>])
                && final(self).registered_view() == old(self).registered_view(),
            r is Err ==> final(self).registered_view() == old(self).registered_view()
                || final(self).registered_view() == seq![
                None::<Seq<char>>,
                None::<Seq<char>>,
                None::<Seq<char>>,
            ],
            exists|inputs: Seq<ShortcutInput>|
                inputs.len() == 3 && (forall|i: int| 0 <= i < 3 ==> input_matches(values@[i], #[trigger] inputs[i]))
                    && #[trigger] reconfigured(*old(self), *final(self), inputs, r),
    {
        let values_vec: Vec<Option<String>> = vec![
            crate::recorder::config::copy_text(&values[0]),
            crate::recorder::config::copy_text(&values[1]),
            crate::recorder::config::copy_text(&values[2]),
        ];
        let (inputs, review) = parse_shortcuts(&values_vec);
        let ghost ins = inputs@;
        proof {
            assert forall|i: int| 0 <= i < 3 implies input_matches(values@[i], #[trigger] ins[i]) by {
                assert(values_vec@[i] == values@[i]);
            }
        }
        let fields = match review {
            Ok(fields) => fields,
            Err(issue) => {
                let r: Result<[Option<String>; 3], ShortcutIssue> = Err(issue);
                proof {
                    let k = choose|k: int|
                        0 <= k < ins.len() && (forall|j: int| 0 <= j < k ==> field_issue(ins, j) is None)
                            && field_issue(ins, k) == Some(r->Err_0.message@) && r->Err_0.action == Some(
                            k as usize,
                        );
                    assert(field_issue(ins, k) is Some);
                    assert(review_fails(ins));
                    assert(review_issue(ins, r->Err_0));
                    assert(reconfigured(*old(self), *self, ins, r));
                }
                return r;
            },
        };
        proof {
            assert(!review_fails(ins));
        }
        proof {
            assert forall|k: int|
                #![trigger blank_field(values@[k])]
                #![trigger texts3(fields@)[k]]
                0 <= k < 3 implies !blank_field(values@[k]) && ((texts3(fields@)[k] is Some) == (
                values@[k] is Some)) by {
                assert(values_vec@[k] == values@[k]);
                assert(input_matches(values_vec@[k], inputs@[k]));
                assert(field_issue(inputs@, k) is None);
                assert(texts3(fields@)[k] == canonical_fields(inputs@)[k]);
            }
            if forall|k: int| 0 <= k < 3 ==> #[trigger] values@[k] is None {
                assert(texts3(fields@) =~= seq![
                    None::<Seq<char>>,
                    None::<Seq<char>>,
                    None::<Seq<char>>,
                ]);
            }
        }
        assert(fields@.len() == 3) by {
            assert(fields@.map_values(
                |f: Option<String>|
                    match f {
                        Some(s) => Some(s@),
                        None => None,
                    },
            ).len() == fields@.len());
            assert(canonical_fields(inputs@).len() == inputs@.len());
        }
        let mut hotkeys: [Option<HotKey>; 3] = [None, None, None];
        let mut chords: [Option<(u32, String)>; 3] = [None, None, None];
        let mut ids: [Option<u32>; 3] = [None, None, None];
        let mut i: usize = 0;
        while i < 3
            invariant
                i <= 3,
                inputs@.len() == 3,
                forall|k: int|
                    0 <= k < i ==> (#[trigger] hotkeys@[k] is Some) == (inputs@[k] is Parsed),
                forall|k: int|
                    0 <= k < i ==> match inputs@[k] {
                        ShortcutInput::Parsed(p) => #[trigger] chords@[k] == Some((p.modifiers, p.key))
                            && ids@[k] == Some(p.id) && hotkeys@[k] == Some(p.hotkey),
                        _ => chords@[k] is None && ids@[k] is None && hotkeys@[k] is None,
                    },
                forall|k: int| i <= k < 3 ==> #[trigger] hotkeys@[k] is None,
                forall|k: int| i <= k < 3 ==> #[trigger] chords@[k] is None && ids@[k] is None,
            decreases 3 - i,
        {
            match &inputs[i] {
                ShortcutInput::Parsed(p) => {
                    hotkeys.set(i, Some(p.hotkey));
                    chords.set(i, Some((p.modifiers, p.key.clone())));
                    ids.set(i, Some(p.id));
                },
                _ => {},
            }
            i = i + 1;
        }
        proof {
            assert forall|k: int| 0 <= k < 3 implies {
                &&& #[trigger] texts3(fields@)[k] == chord_text(chord_view(chords@[k]))
                &&& ids@[k] == chord_event(chord_view(chords@[k]))
            } by {
                assert(texts3(fields@)[k] == canonical_fields(inputs@)[k]);
                assert(values_vec@[k] == values@[k]);
                assert(input_matches(values_vec@[k], inputs@[k]));
                if let ShortcutInput::Parsed(p) = inputs@[k] {
                    let v = values_vec@[k]->0;
                    let parsed = choose|parsed: Result<ParsedShortcut, String>|
                        #[trigger] parse_fits(trim(v@), parsed) && inputs@[k] == parsed_input(parsed);
                    assert(parsed == Ok::<ParsedShortcut, String>(p));
                }
            }
        }
        let canonical: [Option<String>; 3] = [
            crate::recorder::config::copy_text(&fields[0]),
            crate::recorder::config::copy_text(&fields[1]),
            crate::recorder::config::copy_text(&fields[2]),
        ];
        assert(texts3(canonical@) =~= texts3(fields@));
        assert forall|k: int| 0 <= k < 3 implies (#[trigger] canonical@[k] is Some) == (
        values@[k] is Some) by {
            assert(texts3(canonical@)[k] == texts3(fields@)[k]);
        }
        proof {
            if forall|k: int| 0 <= k < 3 ==> #[trigger] values@[k] is None {
                assert(canonical@ =~= seq![None::<String>, None::<String>, None::<String>]);
            }
        }
        if same_texts(&self.registered_text, &fields) {
            let r: Result<[Option<String>; 3], ShortcutIssue> = Ok(canonical);
            proof {
                assert(texts3(fields@) == canonical_fields(ins));
                assert(reconfigured(*old(self), *self, ins, r));
            }
            return r;
        }
        proof {
            assert(texts3(fields@) == canonical_fields(ins));
            assert(canonical_fields(ins) != old(self).registered_view());
            assert forall|k: int| 0 <= k < 3 implies hotkeys@[k] == input_hotkeys(ins)[k] by {
                assert(chords@[k] == chords@[k]);
            }
            assert(hotkeys@ =~= input_hotkeys(ins));
        }
        let previous = self.registered;
        let ghost before = *self;
        let result = replace_registered(&self.manager, &previous, &hotkeys);
        let ghost answers = choose|outs: Seq<CallOutcome>|
            replace_run(previous@, hotkeys@, outs) && #[trigger] replace_plan(previous@, hotkeys@, outs)
                == replace_result_view(result);
        match result {
            Ok(()) => {
                let texts: [Option<String>; 3] = [
                    crate::recorder::config::copy_text(&canonical[0]),
                    crate::recorder::config::copy_text(&canonical[1]),
                    crate::recorder::config::copy_text(&canonical[2]),
                ];
                assert(texts@ =~= canonical@);
                self.publish(hotkeys, texts, chords, ids);
                let r: Result<[Option<String>; 3], ShortcutIssue> = Ok(canonical);
                proof {
                    assert(self.registered_chords() =~= input_chords(ins)) by {
                        assert forall|k: int| 0 <= k < 3 implies self.registered_chords()[k] == input_chords(ins)[k] by {
                            assert(self.registered_chords()[k] == chord_view(chords@[k]));
                        }
                    }
                    assert(self.registered_view() == canonical_fields(ins));
                    assert(replace_plan(before.registered_hotkeys(), input_hotkeys(ins), answers) == PlanView::Succeeded);
                    assert(reconfigured(*old(self), *self, ins, r));
                }
                r
            },
            Err(failure) => {
                if !failure.restored_old {
                    self.publish([None, None, None], [None, None, None], [None, None, None], [None, None, None]);
                    assert(texts3(self.registered_text@) =~= seq![
                        None::<Seq<char>>,
                        None::<Seq<char>>,
                        None::<Seq<char>>,
                    ]);
                    assert(self.registered_chords() =~= no_chords());
                    assert(self.registered@ =~= no_hotkeys());
                }
                let r: Result<[Option<String>; 3], ShortcutIssue> = Err(failure.issue);
                proof {
                    assert(replace_plan(before.registered_hotkeys(), input_hotkeys(ins), answers) == replace_result_view(Err(failure)));
                    assert(reconfigured(*old(self), *self, ins, r));
                }
                r
            },
        }
    }
}

} // verus!
