//! The binding manager: a registry of key combinations and the roles
//! they are bound to, and the translation of each reported transition
//! into the event to publish.

use vstd::prelude::*;

use crate::errors::ShortcutError;
use crate::events::AppEvent;
use crate::events::BindingRole;
use crate::events::KeyTransition;
use crate::events::event_for;
use crate::events::spec_event_for;
use crate::parse::ParsedShortcut;
use crate::parse::parse_shortcut;
use crate::parse::spec_parse_shortcut;
use vstd::string::StringExecFns;

verus! {

/// One registered shortcut: the facility's identifier for the key
/// combination and the role it is bound to.
#[derive(Clone, Copy, Debug, PartialEq, Eq, Structural)]
struct ShortcutBinding {
    id: u32,
    role: BindingRole,
}

/// The registry a sequence of bindings stands for: combination
/// identifier to bound role.
spec fn registry_of(s: Seq<ShortcutBinding>) -> Map<u32, BindingRole>
    decreases s.len(),
{
    if s.len() == 0 {
        Map::empty()
    } else {
        registry_of(s.drop_last()).insert(s.last().id, s.last().role)
    }
}

/// No two entries of the sequence claim the same combination.
spec fn distinct_ids(s: Seq<ShortcutBinding>) -> bool {
    forall|i: int, j: int| 0 <= i < j < s.len() ==> s[i].id != s[j].id
}

/// The event, if any, that a transition of the combination `id`
/// produces under the registry `m`: an unbound combination produces
/// nothing, a bound one produces what its role prescribes.
pub open spec fn spec_dispatch(m: Map<u32, BindingRole>, id: u32, transition: KeyTransition) -> Option<AppEvent> {
    if m.contains_key(id) {
        spec_event_for(m[id], transition)
    } else {
        None
    }
}

/// The contract every bind operation meets. A descriptor the parser
/// rejects fails with the parser's message and changes nothing; a
/// combination that is already bound is refused and changes nothing;
/// otherwise the combination is added under the requested role.
pub open spec fn spec_bind_outcome(
    pre: Map<u32, BindingRole>,
    descriptor: Seq<char>,
    role: BindingRole,
    post: Map<u32, BindingRole>,
    r: Result<(), ShortcutError>,
) -> bool {
    match spec_parse_shortcut(descriptor) {
        Err(msg) => post == pre && (r matches Err(ShortcutError::Parse(m)) && m@ == msg),
        Ok(id) => if pre.contains_key(id) {
            post == pre && (r matches Err(ShortcutError::Registration(m))
                && m@ == "shortcut is already registered"@)
        } else {
            post == pre.insert(id, role) && r is Ok
        },
    }
}

/// The contract `unbind` meets. A descriptor the parser rejects fails
/// with the parser's message and changes nothing; a combination that is
/// not bound is refused and changes nothing; otherwise the combination
/// is removed.
pub open spec fn spec_unbind_outcome(
    pre: Map<u32, BindingRole>,
    descriptor: Seq<char>,
    post: Map<u32, BindingRole>,
    r: Result<(), ShortcutError>,
) -> bool {
    match spec_parse_shortcut(descriptor) {
        Err(msg) => post == pre && (r matches Err(ShortcutError::Parse(m)) && m@ == msg),
        Ok(id) => if pre.contains_key(id) {
            post == pre.remove(id) && r is Ok
        } else {
            post == pre && (r matches Err(ShortcutError::Unregistration(m))
                && m@ == "shortcut is not registered"@)
        },
    }
}

proof fn lemma_registry_contains(s: Seq<ShortcutBinding>, id: u32)
    ensures
        registry_of(s).contains_key(id) <==> exists|i: int| 0 <= i < s.len() && s[i].id == id,
    decreases s.len(),
{
    if s.len() == 0 {
    } else {
        let dl = s.drop_last();
        lemma_registry_contains(dl, id);
        if s.last().id == id {
            assert(s[s.len() - 1].id == id);
        } else {
            if exists|i: int| 0 <= i < s.len() && s[i].id == id {
                let i = choose|i: int| 0 <= i < s.len() && s[i].id == id;
                assert(i < s.len() - 1);
                assert(dl[i].id == id);
            }
            if exists|i: int| 0 <= i < dl.len() && dl[i].id == id {
                let i = choose|i: int| 0 <= i < dl.len() && dl[i].id == id;
                assert(s[i].id == id);
            }
        }
    }
}

proof fn lemma_registry_index(s: Seq<ShortcutBinding>, i: int)
    requires
        distinct_ids(s),
        0 <= i < s.len(),
    ensures
        registry_of(s).contains_key(s[i].id),
        registry_of(s)[s[i].id] == s[i].role,
    decreases s.len(),
{
    let dl = s.drop_last();
    if i == s.len() - 1 {
    } else {
        assert(distinct_ids(dl)) by {
            assert(forall|a: int, b: int| 0 <= a < b < dl.len() ==> dl[a] == s[a] && dl[b] == s[b]);
        }
        assert(dl[i] == s[i]);
        lemma_registry_index(dl, i);
        assert(s.last().id != s[i].id);
    }
}

proof fn lemma_registry_remove(s: Seq<ShortcutBinding>, i: int)
    requires
        distinct_ids(s),
        0 <= i < s.len(),
    ensures
        registry_of(s.remove(i)) == registry_of(s).remove(s[i].id),
    decreases s.len(),
{
    let id = s[i].id;
    let dl = s.drop_last();
    s.remove_ensures(i);
    if i == s.len() - 1 {
        assert(s.remove(i) =~= dl);
        assert(forall|k: int| 0 <= k < dl.len() ==> dl[k] == s[k] && s[k].id != id);
        lemma_registry_contains(dl, id);
        assert(!registry_of(dl).contains_key(id));
        assert(registry_of(dl).insert(id, s[i].role).remove(id) =~= registry_of(dl));
        assert(registry_of(s).remove(id) == registry_of(dl));
    } else {
        let t = s.remove(i);
        assert(t.len() == s.len() - 1);
        assert(t.last() == s.last());
        assert(t.drop_last() =~= dl.remove(i)) by {
            dl.remove_ensures(i);
        }
        assert(distinct_ids(dl)) by {
            assert(forall|a: int, b: int| 0 <= a < b < dl.len() ==> dl[a] == s[a] && dl[b] == s[b]);
        }
        lemma_registry_remove(dl, i);
        assert(dl[i] == s[i]);
        assert(registry_of(t) == registry_of(dl).remove(id).insert(s.last().id, s.last().role));
        assert(s.last().id != id);
        assert(registry_of(dl).remove(id).insert(s.last().id, s.last().role)
            =~= registry_of(dl).insert(s.last().id, s.last().role).remove(id));
        assert(registry_of(s).remove(id) == registry_of(dl).insert(s.last().id, s.last().role).remove(id));
    }
}

/// Law: a bind request succeeds exactly when the facility's parser
/// accepts the descriptor and the combination is not already bound.
pub proof fn lemma_bind_success_iff(
    pre: Map<u32, BindingRole>,
    descriptor: Seq<char>,
    role: BindingRole,
    post: Map<u32, BindingRole>,
    r: Result<(), ShortcutError>,
)
    requires
        spec_bind_outcome(pre, descriptor, role, post, r),
    ensures
        r is Ok <==> match spec_parse_shortcut(descriptor) {
            Ok(id) => !pre.contains_key(id),
            Err(_) => false,
        },
{
}

/// Law: a descriptor the facility's parser rejects makes every bind
/// request fail with the parser's message and leaves the registry
/// unchanged.
pub proof fn lemma_malformed_bind_rejected(
    pre: Map<u32, BindingRole>,
    descriptor: Seq<char>,
    role: BindingRole,
    post: Map<u32, BindingRole>,
    r: Result<(), ShortcutError>,
)
    requires
        spec_parse_shortcut(descriptor) is Err,
        spec_bind_outcome(pre, descriptor, role, post, r),
    ensures
        post == pre,
        r matches Err(ShortcutError::Parse(m)) && m@ == spec_parse_shortcut(descriptor)->Err_0,
{
}

/// Law: a descriptor the facility's parser rejects makes an unbind
/// request fail with the parser's message and leaves the registry
/// unchanged.
pub proof fn lemma_malformed_unbind_rejected(
    pre: Map<u32, BindingRole>,
    descriptor: Seq<char>,
    post: Map<u32, BindingRole>,
    r: Result<(), ShortcutError>,
)
    requires
        spec_parse_shortcut(descriptor) is Err,
        spec_unbind_outcome(pre, descriptor, post, r),
    ensures
        post == pre,
        r matches Err(ShortcutError::Parse(m)) && m@ == spec_parse_shortcut(descriptor)->Err_0,
{
}

/// Law: a bound push-to-talk combination produces exactly the
/// `ptt-pressed` event on a press and exactly `ptt-released` on a
/// release.
pub proof fn lemma_push_to_talk_transitions(m: Map<u32, BindingRole>, id: u32)
    requires
        m.contains_key(id),
        m[id] == BindingRole::PushToTalk,
    ensures
        spec_dispatch(m, id, KeyTransition::Pressed) == Some(AppEvent::PttPressed),
        spec_dispatch(m, id, KeyTransition::Released) == Some(AppEvent::PttReleased),
{
}

/// Law: a bound mute-toggle combination is silent on a release and
/// produces exactly one `toggle-mute` event on a press.
pub proof fn lemma_mute_toggle_press_only(m: Map<u32, BindingRole>, id: u32)
    requires
        m.contains_key(id),
        m[id] == BindingRole::MuteToggle,
    ensures
        spec_dispatch(m, id, KeyTransition::Released) is None,
        spec_dispatch(m, id, KeyTransition::Pressed) == Some(AppEvent::ToggleMute),
{
}

/// Law: a bound deafen-toggle combination is silent on a release and
/// produces exactly one `toggle-deafen` event on a press.
pub proof fn lemma_deafen_toggle_press_only(m: Map<u32, BindingRole>, id: u32)
    requires
        m.contains_key(id),
        m[id] == BindingRole::DeafenToggle,
    ensures
        spec_dispatch(m, id, KeyTransition::Released) is None,
        spec_dispatch(m, id, KeyTransition::Pressed) == Some(AppEvent::ToggleDeafen),
{
}

/// Law: under the empty registry -- what `unbind_all` leaves behind --
/// no transition of any combination produces an event.
pub proof fn lemma_empty_registry_silent(id: u32, transition: KeyTransition)
    ensures
        spec_dispatch(Map::<u32, BindingRole>::empty(), id, transition) is None,
{
}

/// Law: a transition of a combination an unbind request just removed
/// produces no event.
pub proof fn lemma_unbound_combination_silent(m: Map<u32, BindingRole>, id: u32, transition: KeyTransition)
    requires
        !m.contains_key(id),
    ensures
        spec_dispatch(m, id, transition) is None,
{
}

/// The binding manager: accepts bind and unbind requests for textual
/// shortcut descriptors and translates each reported transition of a
/// bound combination into the event to publish. Its registry models
/// the facility's process-wide table of registered shortcuts.
pub struct BindingManager {
    bindings: Vec<ShortcutBinding>,
}

impl View for BindingManager {
    type V = Map<u32, BindingRole>;

    /// The registry this manager holds: combination identifier to role.
    closed spec fn view(&self) -> Map<u32, BindingRole> {
        registry_of(self.bindings@)
    }
}

impl BindingManager {
    /// Each combination is registered at most once.
    pub closed spec fn wf(self) -> bool {
        distinct_ids(self.bindings@)
    }

    /// Creates a manager with an empty registry.
    pub fn new() -> (r: BindingManager)
        ensures
            r.wf(),
            r@ == Map::<u32, BindingRole>::empty(),
    {
        BindingManager { bindings: Vec::new() }
    }

    /// Returns the position of the combination `id` in the backing
    /// sequence, if it is registered.
    fn find_index(&self, id: u32) -> (r: Option<usize>)
        ensures
            match r {
                Some(i) => i < self.bindings@.len() && self.bindings@[i as int].id == id,
                None => forall|k: int| 0 <= k < self.bindings@.len() ==> self.bindings@[k].id != id,
            },
    {
        let mut i: usize = 0;
        while i < self.bindings.len()
            invariant
                i <= self.bindings@.len(),
                forall|k: int| 0 <= k < i ==> self.bindings@[k].id != id,
            decreases self.bindings@.len() - i,
        {
            if self.bindings[i].id == id {
                return Some(i);
            }
            i = i + 1;
        }
        None
    }

    /// Whether the combination `id` is currently registered.
    pub fn is_bound(&self, shortcut: ParsedShortcut) -> (r: bool)
        ensures
            r == self@.contains_key(shortcut.id),
    {
        proof {
            lemma_registry_contains(self.bindings@, shortcut.id);
        }
        self.find_index(shortcut.id).is_some()
    }

    /// Parses the descriptor and registers it under the given role.
    fn bind_role(&mut self, descriptor: &str, role: BindingRole) -> (r: Result<(), ShortcutError>)
        requires
            old(self).wf(),
        ensures
            final(self).wf(),
            spec_bind_outcome(old(self)@, descriptor@, role, final(self)@, r),
    {
        let parsed = match parse_shortcut(descriptor) {
            Ok(p) => p,
            Err(e) => {
                return Err(e);
            }
        };
        proof {
            lemma_registry_contains(self.bindings@, parsed.id);
        }
        match self.find_index(parsed.id) {
            Some(_) => Err(ShortcutError::Registration(String::from_str(
                "shortcut is already registered",
            ))),
            None => {
                let ghost s0 = self.bindings@;
                self.bindings.push(ShortcutBinding { id: parsed.id, role });
                proof {
                    assert(self.bindings@.drop_last() =~= s0);
                    assert(self.bindings@.last() == ShortcutBinding { id: parsed.id, role });
                }
                Ok(())
            }
        }
    }

    /// Binds the descriptor as the push-to-talk shortcut: a press of it
    /// publishes `ptt-pressed` and a release publishes `ptt-released`.
    pub fn bind_push_to_talk(&mut self, descriptor: &str) -> (r: Result<(), ShortcutError>)
        requires
            old(self).wf(),
        ensures
            final(self).wf(),
            spec_bind_outcome(old(self)@, descriptor@, BindingRole::PushToTalk, final(self)@, r),
    {
        self.bind_role(descriptor, BindingRole::PushToTalk)
    }

    /// Binds the descriptor as the mute toggle: a press of it publishes
    /// `toggle-mute`; a release publishes nothing.
    pub fn bind_mute_toggle(&mut self, descriptor: &str) -> (r: Result<(), ShortcutError>)
        requires
            old(self).wf(),
        ensures
            final(self).wf(),
            spec_bind_outcome(old(self)@, descriptor@, BindingRole::MuteToggle, final(self)@, r),
    {
        self.bind_role(descriptor, BindingRole::MuteToggle)
    }

    /// Binds the descriptor as the deafen toggle: a press of it
    /// publishes `toggle-deafen`; a release publishes nothing.
    pub fn bind_deafen_toggle(&mut self, descriptor: &str) -> (r: Result<(), ShortcutError>)
        requires
            old(self).wf(),
        ensures
            final(self).wf(),
            spec_bind_outcome(old(self)@, descriptor@, BindingRole::DeafenToggle, final(self)@, r),
    {
        self.bind_role(descriptor, BindingRole::DeafenToggle)
    }

    /// Parses the descriptor and removes its registration. Removing a
    /// combination that is not registered is reported as an
    /// unregistration failure and changes nothing.
    pub fn unbind(&mut self, descriptor: &str) -> (r: Result<(), ShortcutError>)
        requires
            old(self).wf(),
        ensures
            final(self).wf(),
            spec_unbind_outcome(old(self)@, descriptor@, final(self)@, r),
    {
        let parsed = match parse_shortcut(descriptor) {
            Ok(p) => p,
            Err(e) => {
                return Err(e);
            }
        };
        proof {
            lemma_registry_contains(self.bindings@, parsed.id);
        }
        match self.find_index(parsed.id) {
            None => Err(ShortcutError::Unregistration(String::from_str(
                "shortcut is not registered",
            ))),
            Some(i) => {
                let ghost s0 = self.bindings@;
                proof {
                    lemma_registry_remove(s0, i as int);
                }
                let _ = self.bindings.remove(i);
                proof {
                    s0.remove_ensures(i as int);
                    assert(distinct_ids(self.bindings@)) by {
                        assert(forall|a: int, b: int|
                            0 <= a < b < self.bindings@.len() ==> #[trigger] self.bindings@[a].id
                                != #[trigger] self.bindings@[b].id) by {
                            assert(forall|a: int| 0 <= a < i ==> self.bindings@[a] == s0[a]);
                            assert(forall|a: int|
                                i <= a < self.bindings@.len() ==> self.bindings@[a] == s0[a + 1]);
                        }
                    }
                }
                Ok(())
            }
        }
    }

    /// Empties the registry. Teardown of the model's registry always
    /// succeeds; a facility-side failure is the surrounding program's
    /// to report.
    pub fn unbind_all(&mut self) -> (r: Result<(), ShortcutError>)
        ensures
            final(self).wf(),
            final(self)@ == Map::<u32, BindingRole>::empty(),
            r is Ok,
    {
        self.bindings = Vec::new();
        Ok(())
    }

    /// Translates one reported transition of the given combination into
    /// the event to publish: the single event its bound role prescribes,
    /// or nothing when the combination is not registered.
    pub fn on_transition(&self, shortcut: ParsedShortcut, transition: KeyTransition) -> (r: Option<
        AppEvent,
    >)
        requires
            self.wf(),
        ensures
            r == spec_dispatch(self@, shortcut.id, transition),
    {
        proof {
            lemma_registry_contains(self.bindings@, shortcut.id);
        }
        match self.find_index(shortcut.id) {
            None => None,
            Some(i) => {
                proof {
                    lemma_registry_index(self.bindings@, i as int);
                }
                event_for(self.bindings[i].role, transition)
            }
        }
    }
}

} // verus!
