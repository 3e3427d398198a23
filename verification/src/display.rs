//! The display registry: the displays that the compositor has announced.
//!
//! A display is an identity and a name. The name serves diagnostics only; the
//! engine itself tells displays apart by identity alone.

use vstd::prelude::*;
use crate::ids::DisplayId;

verus! {

/// A display, in mathematical terms.
pub struct DisplayView {
    /// The display's identity.
    pub id: DisplayId,
    /// The name under which the compositor announced it.
    pub name: Seq<char>,
}

/// A display that the compositor announced. Nothing about it ever changes.
#[derive(Debug)]
pub struct Display {
    pub(crate) id: DisplayId,
    pub(crate) name: String,
}

impl View for Display {
    type V = DisplayView;

    closed spec fn view(&self) -> DisplayView {
        DisplayView { id: self.id, name: self.name@ }
    }
}

impl Display {
    /// The display's identity.
    pub fn id(&self) -> (id: DisplayId)
        ensures
            id == self@.id,
    {
        self.id
    }

    /// The name under which the compositor announced the display.
    pub fn name(&self) -> (name: &String)
        ensures
            name@ == self@.name,
    {
        &self.name
    }
}

/// Whether a display with identity `id` stands in `displays`.
pub open spec fn has_display(displays: Seq<DisplayView>, id: DisplayId) -> bool {
    exists|i: int| 0 <= i < displays.len() && #[trigger] displays[i].id == id
}

/// The displays after `id` was announced under `name`: a display that is
/// already registered stays as it is, a new one is appended.
pub open spec fn registered(displays: Seq<DisplayView>, id: DisplayId, name: Seq<char>) -> Seq<
    DisplayView,
> {
    if has_display(displays, id) {
        displays
    } else {
        displays.push(DisplayView { id, name })
    }
}

/// No two displays share an identity.
pub open spec fn distinct_displays(displays: Seq<DisplayView>) -> bool {
    forall|i: int, j: int|
        0 <= i < displays.len() && 0 <= j < displays.len() && i != j ==> #[trigger] displays[i].id
            != #[trigger] displays[j].id
}

/// The displays that the compositor has announced, in the order of their
/// announcement.
#[derive(Debug)]
pub struct DisplayRegistry {
    pub(crate) displays: Vec<Display>,
}

impl View for DisplayRegistry {
    type V = Seq<DisplayView>;

    closed spec fn view(&self) -> Seq<DisplayView> {
        self.displays@.map_values(|d: Display| d@)
    }
}

impl DisplayRegistry {
    /// No two registered displays share an identity.
    pub open spec fn wf(&self) -> bool {
        distinct_displays(self@)
    }

    /// A registry without displays.
    pub fn new() -> (registry: Self)
        ensures
            registry@ == Seq::<DisplayView>::empty(),
            registry.wf(),
    {
        let registry = Self { displays: Vec::new() };
        assert(registry@ =~= Seq::empty());
        registry
    }

    /// The registered display with identity `id`, if there is one.
    pub fn find(&self, id: DisplayId) -> (found: Option<&Display>)
        ensures
            found is Some <==> has_display(self@, id),
            found matches Some(display) ==> display@.id == id && self@.contains(display@),
    {
        let mut i: usize = 0;
        while i < self.displays.len()
            invariant
                i <= self.displays.len(),
                forall|k: int| 0 <= k < i ==> #[trigger] self@[k].id != id,
            decreases self.displays.len() - i,
        {
            assert(self@[i as int] == self.displays@[i as int]@);
            if self.displays[i].id() == id {
                return Some(&self.displays[i]);
            }
            i += 1;
        }
        None
    }

    /// Registers the display `id` under `name`. Registering is idempotent per
    /// identity: a display that is already registered stays as it was first
    /// announced. Says whether the display was new.
    pub fn register(&mut self, id: DisplayId, name: String) -> (added: bool)
        ensures
            final(self)@ == registered(old(self)@, id, name@),
            added == !has_display(old(self)@, id),
            has_display(final(self)@, id),
            old(self).wf() ==> final(self).wf(),
    {
        if self.find(id).is_some() {
            return false;
        }
        self.displays.push(Display { id, name });
        proof {
            assert(self@ =~= old(self)@.push(DisplayView { id, name: name@ }));
            assert(self@[old(self)@.len() as int].id == id);
            if old(self).wf() {
                assert forall|i: int, j: int|
                    0 <= i < self@.len() && 0 <= j < self@.len() && i != j implies (
                    #[trigger] self@[i]).id != (#[trigger] self@[j]).id by {
                    if i < old(self)@.len() && j < old(self)@.len() {
                        assert(old(self)@[i].id != old(self)@[j].id);
                    } else if i < old(self)@.len() {
                        assert(old(self)@[i].id != id);
                    } else {
                        assert(old(self)@[j].id != id);
                    }
                }
            }
        }
        true
    }
}

/// Registering a display a second time, under whatever name, changes nothing.
pub proof fn lemma_register_idempotent(
    displays: Seq<DisplayView>,
    id: DisplayId,
    name: Seq<char>,
    again: Seq<char>,
)
    ensures
        registered(registered(displays, id, name), id, again) == registered(displays, id, name),
{
    let once = registered(displays, id, name);
    if !has_display(displays, id) {
        assert(once[displays.len() as int].id == id);
    }
}

} // verus!
