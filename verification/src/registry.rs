//! Hotkey registration bookkeeping.
//!
//! A registry owns the association from application-assigned ids to
//! keystrokes and, where the platform hands one out, to the native
//! registration state. The registry only records registrations that the
//! platform accepted; whenever an entry is replaced or removed, the native
//! state it held is handed back to the caller, which must release the
//! grab before the association is forgotten.

use vstd::prelude::*;

use crate::errors::HotkeyError;
use crate::idmap::IdMap;
use crate::keystroke::Keystroke;
use crate::x11_keys::{
    keysym_of, x11_keycode_for_keysym, x11_modmask_of, keystroke_to_x11_modmask, KeyboardMapping,
};

verus! {

/// Bookkeeping for platforms where arming needs no native resource
/// (the plain Linux path, and the macOS event-matching path).
pub struct LinuxGlobalHotkey {
    registered: IdMap<Keystroke>,
}

impl LinuxGlobalHotkey {
    /// Unique ids.
    pub closed spec fn wf(self) -> bool {
        self.registered.wf()
    }

    /// The currently registered bindings.
    pub closed spec fn bindings(self) -> Map<u32, Keystroke> {
        self.registered.as_map()
    }

    /// The bindings in their stored order, which dispatch scans.
    pub closed spec fn bindings_seq(self) -> Seq<(u32, Keystroke)> {
        self.registered.entries_seq()
    }

    /// An empty registry.
    pub fn new() -> (r: LinuxGlobalHotkey)
        ensures
            r.wf(),
            r.bindings() == Map::<u32, Keystroke>::empty(),
            r.bindings_seq().len() == 0,
    {
        LinuxGlobalHotkey { registered: IdMap::new() }
    }

    /// Record a binding; a prior binding under the same id is replaced.
    pub fn register(&mut self, id: u32, keystroke: Keystroke) -> (r: Result<(), HotkeyError>)
        requires
            old(self).wf(),
        ensures
            final(self).wf(),
            final(self).bindings() == old(self).bindings().insert(id, keystroke),
            r == Ok::<(), HotkeyError>(()),
    {
        let _ = self.registered.put(id, keystroke);
        Ok(())
    }

    /// Drop the binding of `id`; a no-op when `id` was never registered.
    pub fn unregister(&mut self, id: u32)
        requires
            old(self).wf(),
        ensures
            final(self).wf(),
            final(self).bindings() == old(self).bindings().remove(id),
            !old(self).bindings().contains_key(id) ==> *final(self) == *old(self),
    {
        let _ = self.registered.take(id);
    }

    /// The registered entries, for the event-matching dispatch scan.
    pub fn entries(&self) -> (r: &IdMap<Keystroke>)
        ensures
            r.as_map() == self.bindings(),
            r.entries_seq() == self.bindings_seq(),
            r.wf() == self.wf(),
    {
        &self.registered
    }
}

/// Bookkeeping for the X11 path: besides the binding, each id holds the
/// keycode and modifier mask whose grab the caller obtained on the root
/// window, and must release again.
pub struct X11GlobalHotkey {
    inner: LinuxGlobalHotkey,
    keycodes: IdMap<(u8, u16)>,
}

impl X11GlobalHotkey {
    /// Unique ids in both associations, and the same ids in both: every
    /// recorded binding holds native grab state and the other way round.
    pub closed spec fn wf(self) -> bool {
        &&& self.inner.wf()
        &&& self.keycodes.wf()
        &&& self.inner.bindings().dom() == self.keycodes.as_map().dom()
    }

    /// The currently registered bindings.
    pub closed spec fn bindings(self) -> Map<u32, Keystroke> {
        self.inner.bindings()
    }

    /// The native grab state held for each id.
    pub closed spec fn natives(self) -> Map<u32, (u8, u16)> {
        self.keycodes.as_map()
    }

    /// The native grab states in their stored order.
    pub closed spec fn natives_seq(self) -> Seq<(u32, (u8, u16))> {
        self.keycodes.entries_seq()
    }

    /// An empty registry.
    pub fn new() -> (r: X11GlobalHotkey)
        ensures
            r.wf(),
            r.bindings() == Map::<u32, Keystroke>::empty(),
            r.natives() == Map::<u32, (u8, u16)>::empty(),
    {
        let r = X11GlobalHotkey { inner: LinuxGlobalHotkey::new(), keycodes: IdMap::new() };
        proof {
            assert(r.inner.bindings().dom() =~= r.keycodes.as_map().dom());
        }
        r
    }

    /// Record a binding whose grab of `(keycode, modmask)` the caller has
    /// already obtained. The native state a prior binding of the same id
    /// held is handed back and must be released by the caller, so that no
    /// grab leaks when an id is re-registered.
    pub fn register(&mut self, id: u32, keystroke: Keystroke, keycode: u8, modmask: u16) -> (prior:
        Option<(u8, u16)>)
        requires
            old(self).wf(),
        ensures
            final(self).wf(),
            final(self).bindings() == old(self).bindings().insert(id, keystroke),
            final(self).natives() == old(self).natives().insert(id, (keycode, modmask)),
            (match prior {
                Some(p) => old(self).natives().contains_key(id) && p == old(self).natives()[id],
                None => !old(self).natives().contains_key(id),
            }),
    {
        let prior = self.keycodes.put(id, (keycode, modmask));
        let _ = self.inner.register(id, keystroke);
        proof {
            assert(self.inner.bindings().dom() =~= self.keycodes.as_map().dom());
        }
        prior
    }

    /// Drop the binding of `id`, handing back the native state whose grab
    /// the caller must release; a no-op when `id` was never registered.
    pub fn unregister(&mut self, id: u32) -> (released: Option<(u8, u16)>)
        requires
            old(self).wf(),
        ensures
            final(self).wf(),
            final(self).bindings() == old(self).bindings().remove(id),
            final(self).natives() == old(self).natives().remove(id),
            (match released {
                Some(p) => old(self).natives().contains_key(id) && p == old(self).natives()[id],
                None => !old(self).natives().contains_key(id) && *final(self) == *old(self),
            }),
    {
        let ghost before = *self;
        let released = self.keycodes.take(id);
        self.inner.unregister(id);
        proof {
            assert(self.inner.bindings().dom() =~= self.keycodes.as_map().dom());
            if !before.natives().contains_key(id) {
                assert(!before.bindings().contains_key(id));
            }
        }
        released
    }

    /// Empty the registry for teardown, handing back every native state in
    /// stored order so the caller can release each grab before the registry
    /// goes away.
    pub fn take_all(&mut self) -> (drained: Vec<(u32, (u8, u16))>)
        requires
            old(self).wf(),
        ensures
            final(self).wf(),
            final(self).bindings() == Map::<u32, Keystroke>::empty(),
            final(self).natives() == Map::<u32, (u8, u16)>::empty(),
            drained@ == old(self).natives_seq(),
    {
        let mut cleared = LinuxGlobalHotkey::new();
        core::mem::swap(&mut cleared, &mut self.inner);
        let drained = self.keycodes.take_all();
        proof {
            assert(self.inner.bindings().dom() =~= self.keycodes.as_map().dom());
        }
        drained
    }
}

/// Bookkeeping for Wayland, where no global-hotkey facility exists: every
/// registration is refused.
pub struct WaylandGlobalHotkey {
    inner: LinuxGlobalHotkey,
}

impl WaylandGlobalHotkey {
    /// The bindings, which stay empty: nothing can ever be registered.
    pub closed spec fn bindings(self) -> Map<u32, Keystroke> {
        self.inner.bindings()
    }

    /// An empty registry.
    pub fn new() -> (r: WaylandGlobalHotkey)
        ensures
            r.bindings() == Map::<u32, Keystroke>::empty(),
    {
        WaylandGlobalHotkey { inner: LinuxGlobalHotkey::new() }
    }

    /// Always refused: the platform has no global-hotkey facility.
    pub fn register(&mut self, id: u32, keystroke: &Keystroke) -> (r: Result<(), HotkeyError>)
        ensures
            *final(self) == *old(self),
            r == Err::<(), HotkeyError>(HotkeyError::Unsupported),
    {
        let _ = id;
        let _ = keystroke;
        Err(HotkeyError::Unsupported)
    }

    /// Nothing is ever registered, so there is nothing to drop.
    pub fn unregister(&mut self, id: u32)
        ensures
            *final(self) == *old(self),
    {
        let _ = id;
    }
}

/// Resolve a keystroke against the server's keyboard mapping: keysym from
/// the key-name table, keycode as the first one whose group holds that
/// keysym, modifier mask by independent bit composition. Fails with
/// `UnsupportedKey` when the name is outside the table or no keycode
/// carries the keysym.
pub fn resolve_x11_keystroke(keystroke: &Keystroke, mapping: &KeyboardMapping) -> (r: Result<
    (u8, u16),
    HotkeyError,
>)
    requires
        mapping.wf(),
    ensures
        keysym_of(keystroke.key@) is None ==> r == Err::<(u8, u16), HotkeyError>(
            HotkeyError::UnsupportedKey,
        ),
        (match keysym_of(keystroke.key@) {
            Some(sym) => match r {
                Ok(p) => p.1 == x11_modmask_of(keystroke.modifiers) && mapping.min_keycode <= p.0
                    <= mapping.max_keycode && mapping.group_has(p.0 - mapping.min_keycode, sym)
                    && forall|i: int|
                    0 <= i < p.0 - mapping.min_keycode ==> !mapping.group_has(i, sym),
                Err(e) => e == HotkeyError::UnsupportedKey && forall|i: int|
                    0 <= i <= mapping.max_keycode - mapping.min_keycode ==> !mapping.group_has(
                        i,
                        sym,
                    ),
            },
            None => true,
        }),
{
    let sym = match crate::x11_keys::key_name_to_keysym(keystroke.key.as_str()) {
        Some(s) => s,
        None => {
            return Err(HotkeyError::UnsupportedKey);
        },
    };
    let keycode = match x11_keycode_for_keysym(mapping, sym) {
        Some(kc) => kc,
        None => {
            return Err(HotkeyError::UnsupportedKey);
        },
    };
    let modmask = keystroke_to_x11_modmask(&keystroke.modifiers);
    Ok((keycode, modmask))
}

/// Registering the same id twice leaves only the second binding active.
pub proof fn lemma_second_registration_wins(
    bindings: Map<u32, Keystroke>,
    id: u32,
    first: Keystroke,
    second: Keystroke,
)
    ensures
        bindings.insert(id, first).insert(id, second) == bindings.insert(id, second),
        bindings.insert(id, first).insert(id, second)[id] == second,
{
    assert(bindings.insert(id, first).insert(id, second) =~= bindings.insert(id, second));
}

/// Unregistering an id that was never registered changes nothing.
pub proof fn lemma_unregister_absent(bindings: Map<u32, Keystroke>, id: u32)
    requires
        !bindings.contains_key(id),
    ensures
        bindings.remove(id) == bindings,
{
    assert(bindings.remove(id) =~= bindings);
}

} // verus!
