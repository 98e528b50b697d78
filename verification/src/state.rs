//! The application state owned by the dispatcher: the task entries, the staged
//! input fields, the chosen display handle and the received message feed.

use vstd::prelude::*;

verus! {

/// One task-list item.
pub struct Entry {
    pub description: String,
    pub completed: bool,
    pub editing: bool,
}

/// Mathematical model of an [`Entry`].
#[verifier::ext_equal]
pub struct EntryView {
    pub description: Seq<char>,
    pub completed: bool,
    pub editing: bool,
}

impl View for Entry {
    type V = EntryView;

    open spec fn view(&self) -> EntryView {
        EntryView {
            description: self.description@,
            completed: self.completed,
            editing: self.editing,
        }
    }
}

impl DeepView for Entry {
    type V = EntryView;

    open spec fn deep_view(&self) -> EntryView {
        self.view()
    }
}

/// One received chat line; the feed is append-only.
pub struct ScantMessage {
    pub content: String,
    pub handle: String,
}

/// Mathematical model of a [`ScantMessage`].
#[verifier::ext_equal]
pub struct ScantMessageView {
    pub content: Seq<char>,
    pub handle: Seq<char>,
}

impl View for ScantMessage {
    type V = ScantMessageView;

    open spec fn view(&self) -> ScantMessageView {
        ScantMessageView { content: self.content@, handle: self.handle@ }
    }
}

impl DeepView for ScantMessage {
    type V = ScantMessageView;

    open spec fn deep_view(&self) -> ScantMessageView {
        self.view()
    }
}

/// The view predicate over entries; it is never stored per entry.
#[derive(Clone, Copy, Debug, PartialEq, Eq, Structural)]
pub enum Filter {
    All,
    Active,
    Completed,
}

impl Filter {
    /// Whether an entry is shown under this filter.
    pub open spec fn spec_fits(self, e: EntryView) -> bool {
        match self {
            Filter::All => true,
            Filter::Active => !e.completed,
            Filter::Completed => e.completed,
        }
    }

    /// Whether an entry is shown under this filter.
    pub fn fits(self, e: &Entry) -> (r: bool)
        ensures
            r == self.spec_fits(e@),
    {
        match self {
            Filter::All => true,
            Filter::Active => !e.completed,
            Filter::Completed => e.completed,
        }
    }
}

/// The single mutable state root, exclusively owned by the dispatcher.
pub struct State {
    pub entries: Vec<Entry>,
    pub filter: Filter,
    pub value: String,
    pub edit_value: String,
    pub handle: String,
    pub handle_candide: String,
    pub scant_messages: Vec<ScantMessage>,
}

/// Mathematical model of the whole [`State`].
#[verifier::ext_equal]
pub struct StateView {
    pub entries: Seq<EntryView>,
    pub filter: Filter,
    pub value: Seq<char>,
    pub edit_value: Seq<char>,
    pub handle: Seq<char>,
    pub handle_candide: Seq<char>,
    pub scant_messages: Seq<ScantMessageView>,
}

impl View for State {
    type V = StateView;

    open spec fn view(&self) -> StateView {
        StateView {
            entries: self.entries.deep_view(),
            filter: self.filter,
            value: self.value@,
            edit_value: self.edit_value@,
            handle: self.handle@,
            handle_candide: self.handle_candide@,
            scant_messages: self.scant_messages.deep_view(),
        }
    }
}

// ---------------------------------------------------------------------------
// Spec-level transforms on the entry sequence.
// ---------------------------------------------------------------------------

/// The entry with its completed flag replaced.
pub open spec fn with_completed(e: EntryView, completed: bool) -> EntryView {
    EntryView { description: e.description, completed, editing: e.editing }
}

/// The entry with its editing flag replaced.
pub open spec fn with_editing(e: EntryView, editing: bool) -> EntryView {
    EntryView { description: e.description, completed: e.completed, editing }
}

/// Every entry's completed flag set to `value`.
pub open spec fn all_set_completed(es: Seq<EntryView>, value: bool) -> Seq<EntryView> {
    es.map_values(|e: EntryView| with_completed(e, value))
}

/// Every entry's editing flag cleared.
pub open spec fn all_edit_cleared(es: Seq<EntryView>) -> Seq<EntryView> {
    es.map_values(|e: EntryView| with_editing(e, false))
}

/// The entries that survive a bulk clear of the completed ones, in order.
pub open spec fn without_completed(es: Seq<EntryView>) -> Seq<EntryView>
    decreases es.len(),
{
    if es.len() == 0 {
        es
    } else {
        let rest = without_completed(es.drop_last());
        if es.last().completed {
            rest
        } else {
            rest.push(es.last())
        }
    }
}

/// Whether every entry is completed.
pub open spec fn all_completed(es: Seq<EntryView>) -> bool {
    forall|i: int| 0 <= i < es.len() ==> es[i].completed
}

// ---------------------------------------------------------------------------
// Trimming of staged text, as the commit actions apply it.
// ---------------------------------------------------------------------------

/// The Unicode `White_Space` code points.
pub open spec fn is_space_code(u: u32) -> bool {
    u == 0x09 || u == 0x0A || u == 0x0B || u == 0x0C || u == 0x0D || u == 0x20 || u == 0x85
        || u == 0xA0 || u == 0x1680 || (0x2000 <= u && u <= 0x200A) || u == 0x2028 || u == 0x2029
        || u == 0x202F || u == 0x205F || u == 0x3000
}

/// Whether the character is whitespace.
pub open spec fn is_space(c: char) -> bool {
    is_space_code(c as u32)
}

/// The sequence with its leading whitespace removed.
pub open spec fn trim_front(s: Seq<char>) -> Seq<char>
    decreases s.len(),
{
    if s.len() == 0 {
        s
    } else if is_space(s[0]) {
        trim_front(s.subrange(1, s.len() as int))
    } else {
        s
    }
}

/// The sequence with its trailing whitespace removed.
pub open spec fn trim_back(s: Seq<char>) -> Seq<char>
    decreases s.len(),
{
    if s.len() == 0 {
        s
    } else if is_space(s[s.len() - 1]) {
        trim_back(s.subrange(0, s.len() - 1))
    } else {
        s
    }
}

/// The sequence with whitespace removed from both ends.
pub open spec fn trim_view(s: Seq<char>) -> Seq<char> {
    trim_back(trim_front(s))
}

/// Whether the character is whitespace.
pub fn is_space_char(c: char) -> (r: bool)
    ensures
        r == is_space(c),
{
    let u = c as u32;
    u == 0x09 || u == 0x0A || u == 0x0B || u == 0x0C || u == 0x0D || u == 0x20 || u == 0x85
        || u == 0xA0 || u == 0x1680 || (0x2000 <= u && u <= 0x200A) || u == 0x2028 || u == 0x2029
        || u == 0x202F || u == 0x205F || u == 0x3000
}

proof fn lemma_trim_front_at(s: Seq<char>, lo: int)
    requires
        0 <= lo <= s.len(),
        forall|i: int| 0 <= i < lo ==> is_space(s[i]),
        lo == s.len() || !is_space(s[lo]),
    ensures
        trim_front(s) == s.subrange(lo, s.len() as int),
    decreases lo,
{
    if lo == 0 {
        assert(s.subrange(0, s.len() as int) =~= s);
    } else {
        let s1 = s.subrange(1, s.len() as int);
        lemma_trim_front_at(s1, lo - 1);
        assert(s1.subrange(lo - 1, s1.len() as int) =~= s.subrange(lo, s.len() as int));
    }
}

proof fn lemma_trim_back_at(s: Seq<char>, hi: int)
    requires
        0 <= hi <= s.len(),
        forall|i: int| hi <= i < s.len() ==> is_space(s[i]),
        hi == 0 || !is_space(s[hi - 1]),
    ensures
        trim_back(s) == s.subrange(0, hi),
    decreases s.len(),
{
    if hi == s.len() {
        assert(s.subrange(0, s.len() as int) =~= s);
    } else {
        let s1 = s.subrange(0, s.len() - 1);
        lemma_trim_back_at(s1, hi);
        assert(s1.subrange(0, hi) =~= s.subrange(0, hi));
    }
}

/// The text with whitespace removed from both ends, as a fresh string.
pub fn trimmed(s: &str) -> (r: String)
    ensures
        r@ == trim_view(s@),
{
    let n = s.unicode_len();
    let mut lo: usize = 0;
    while lo < n && is_space_char(s.get_char(lo))
        invariant
            0 <= lo <= n,
            n == s@.len(),
            forall|i: int| 0 <= i < lo ==> is_space(s@[i]),
        decreases n - lo,
    {
        lo = lo + 1;
    }
    let mut hi: usize = n;
    while hi > lo && is_space_char(s.get_char(hi - 1))
        invariant
            lo <= hi <= n,
            n == s@.len(),
            forall|i: int| hi <= i < n ==> is_space(s@[i]),
        decreases hi,
    {
        hi = hi - 1;
    }
    proof {
        lemma_trim_front_at(s@, lo as int);
        lemma_trim_back_at(s@.subrange(lo as int, n as int), hi - lo);
        assert(s@.subrange(lo as int, n as int).subrange(0, hi - lo) =~= s@.subrange(
            lo as int,
            hi as int,
        ));
    }
    let t = s.substring_char(lo, hi);
    t.to_owned()
}

// ---------------------------------------------------------------------------
// The state's own operations.
// ---------------------------------------------------------------------------

impl State {
    /// A fresh state around a (possibly restored) entry list: every staged
    /// field empty, the filter showing everything, the feed empty.
    pub fn new(entries: Vec<Entry>) -> (s: State)
        ensures
            s@.entries == entries.deep_view(),
            s@.filter == Filter::All,
            s@.value == Seq::<char>::empty(),
            s@.edit_value == Seq::<char>::empty(),
            s@.handle == Seq::<char>::empty(),
            s@.handle_candide == Seq::<char>::empty(),
            s@.scant_messages == Seq::<ScantMessageView>::empty(),
    {
        State {
            entries,
            filter: Filter::All,
            value: String::new(),
            edit_value: String::new(),
            handle: String::new(),
            handle_candide: String::new(),
            scant_messages: Vec::new(),
        }
    }

    /// Whether every entry is completed (true of an empty list).
    pub fn is_all_completed(&self) -> (r: bool)
        ensures
            r == all_completed(self@.entries),
    {
        let mut i: usize = 0;
        while i < self.entries.len()
            invariant
                0 <= i <= self.entries.len(),
                forall|j: int| 0 <= j < i ==> self.entries.deep_view()[j].completed,
            decreases self.entries.len() - i,
        {
            if !self.entries[i].completed {
                proof {
                    assert(!self.entries.deep_view()[i as int].completed);
                }
                return false;
            }
            i = i + 1;
        }
        true
    }

    /// Sets every entry's completed flag to `value`.
    pub fn toggle_all(&mut self, value: bool)
        ensures
            final(self)@.entries == all_set_completed(old(self)@.entries, value),
            final(self)@.filter == old(self)@.filter,
            final(self)@.value == old(self)@.value,
            final(self)@.edit_value == old(self)@.edit_value,
            final(self)@.handle == old(self)@.handle,
            final(self)@.handle_candide == old(self)@.handle_candide,
            final(self)@.scant_messages == old(self)@.scant_messages,
    {
        let n = self.entries.len();
        let mut i: usize = 0;
        while i < n
            invariant
                0 <= i <= n,
                n == self.entries.len(),
                forall|j: int|
                    0 <= j < i ==> #[trigger] self.entries@[j].completed == value
                        && self.entries@[j].description == old(self).entries@[j].description
                        && self.entries@[j].editing == old(self).entries@[j].editing,
                forall|j: int| i <= j < n ==> self.entries@[j] == old(self).entries@[j],
                self.filter == old(self).filter,
                self.value == old(self).value,
                self.edit_value == old(self).edit_value,
                self.handle == old(self).handle,
                self.handle_candide == old(self).handle_candide,
                self.scant_messages == old(self).scant_messages,
            decreases n - i,
        {
            let e = &mut self.entries[i];
            e.completed = value;
            i = i + 1;
        }
        proof {
            assert forall|j: int| 0 <= j < n implies self.entries.deep_view()[j]
                == with_completed(old(self).entries.deep_view()[j], value) by {}
            assert(self.entries.deep_view() =~= all_set_completed(
                old(self).entries.deep_view(),
                value,
            ));
        }
    }

    /// Flips the completed flag of the entry at `idx`.
    pub fn toggle(&mut self, idx: usize)
        requires
            idx < old(self)@.entries.len(),
        ensures
            final(self)@.entries == old(self)@.entries.update(
                idx as int,
                with_completed(
                    old(self)@.entries[idx as int],
                    !old(self)@.entries[idx as int].completed,
                ),
            ),
            final(self)@.filter == old(self)@.filter,
            final(self)@.value == old(self)@.value,
            final(self)@.edit_value == old(self)@.edit_value,
            final(self)@.handle == old(self)@.handle,
            final(self)@.handle_candide == old(self)@.handle_candide,
            final(self)@.scant_messages == old(self)@.scant_messages,
    {
        let e = &mut self.entries[idx];
        e.completed = !e.completed;
        proof {
            assert(self.entries.deep_view() =~= old(self).entries.deep_view().update(
                idx as int,
                with_completed(
                    old(self).entries.deep_view()[idx as int],
                    !old(self).entries.deep_view()[idx as int].completed,
                ),
            ));
        }
    }

    /// Flips the editing flag of the entry at `idx`.
    pub fn toggle_edit(&mut self, idx: usize)
        requires
            idx < old(self)@.entries.len(),
        ensures
            final(self)@.entries == old(self)@.entries.update(
                idx as int,
                with_editing(
                    old(self)@.entries[idx as int],
                    !old(self)@.entries[idx as int].editing,
                ),
            ),
            final(self)@.filter == old(self)@.filter,
            final(self)@.value == old(self)@.value,
            final(self)@.edit_value == old(self)@.edit_value,
            final(self)@.handle == old(self)@.handle,
            final(self)@.handle_candide == old(self)@.handle_candide,
            final(self)@.scant_messages == old(self)@.scant_messages,
    {
        let e = &mut self.entries[idx];
        e.editing = !e.editing;
        proof {
            assert(self.entries.deep_view() =~= old(self).entries.deep_view().update(
                idx as int,
                with_editing(
                    old(self).entries.deep_view()[idx as int],
                    !old(self).entries.deep_view()[idx as int].editing,
                ),
            ));
        }
    }

    /// Clears every entry's editing flag.
    pub fn clear_all_edit(&mut self)
        ensures
            final(self)@.entries == all_edit_cleared(old(self)@.entries),
            final(self)@.filter == old(self)@.filter,
            final(self)@.value == old(self)@.value,
            final(self)@.edit_value == old(self)@.edit_value,
            final(self)@.handle == old(self)@.handle,
            final(self)@.handle_candide == old(self)@.handle_candide,
            final(self)@.scant_messages == old(self)@.scant_messages,
    {
        let n = self.entries.len();
        let mut i: usize = 0;
        while i < n
            invariant
                0 <= i <= n,
                n == self.entries.len(),
                forall|j: int|
                    0 <= j < i ==> #[trigger] self.entries@[j].editing == false
                        && self.entries@[j].description == old(self).entries@[j].description
                        && self.entries@[j].completed == old(self).entries@[j].completed,
                forall|j: int| i <= j < n ==> self.entries@[j] == old(self).entries@[j],
                self.filter == old(self).filter,
                self.value == old(self).value,
                self.edit_value == old(self).edit_value,
                self.handle == old(self).handle,
                self.handle_candide == old(self).handle_candide,
                self.scant_messages == old(self).scant_messages,
            decreases n - i,
        {
            let e = &mut self.entries[i];
            e.editing = false;
            i = i + 1;
        }
        proof {
            assert forall|j: int| 0 <= j < n implies self.entries.deep_view()[j]
                == with_editing(old(self).entries.deep_view()[j], false) by {}
            assert(self.entries.deep_view() =~= all_edit_cleared(old(self).entries.deep_view()));
        }
    }

    /// Writes `value` into the entry at `idx` as its description and takes the
    /// entry out of edit mode.
    pub fn complete_edit(&mut self, idx: usize, value: String)
        requires
            idx < old(self)@.entries.len(),
        ensures
            final(self)@.entries == old(self)@.entries.update(
                idx as int,
                EntryView {
                    description: value@,
                    completed: old(self)@.entries[idx as int].completed,
                    editing: false,
                },
            ),
            final(self)@.filter == old(self)@.filter,
            final(self)@.value == old(self)@.value,
            final(self)@.edit_value == old(self)@.edit_value,
            final(self)@.handle == old(self)@.handle,
            final(self)@.handle_candide == old(self)@.handle_candide,
            final(self)@.scant_messages == old(self)@.scant_messages,
    {
        let ghost v = value@;
        let e = &mut self.entries[idx];
        e.description = value;
        e.editing = false;
        proof {
            assert(self.entries.deep_view() =~= old(self).entries.deep_view().update(
                idx as int,
                EntryView {
                    description: v,
                    completed: old(self).entries.deep_view()[idx as int].completed,
                    editing: false,
                },
            ));
        }
    }

    /// Deletes the entry at `idx`, preserving the relative order of the rest.
    pub fn remove(&mut self, idx: usize)
        requires
            idx < old(self)@.entries.len(),
        ensures
            final(self)@.entries == old(self)@.entries.remove(idx as int),
            final(self)@.filter == old(self)@.filter,
            final(self)@.value == old(self)@.value,
            final(self)@.edit_value == old(self)@.edit_value,
            final(self)@.handle == old(self)@.handle,
            final(self)@.handle_candide == old(self)@.handle_candide,
            final(self)@.scant_messages == old(self)@.scant_messages,
    {
        self.entries.remove(idx);
        proof {
            assert(self.entries.deep_view() =~= old(self).entries.deep_view().remove(idx as int));
        }
    }

    /// Removes every completed entry, preserving the order of the survivors.
    pub fn clear_completed(&mut self)
        ensures
            final(self)@.entries == without_completed(old(self)@.entries),
            final(self)@.filter == old(self)@.filter,
            final(self)@.value == old(self)@.value,
            final(self)@.edit_value == old(self)@.edit_value,
            final(self)@.handle == old(self)@.handle,
            final(self)@.handle_candide == old(self)@.handle_candide,
            final(self)@.scant_messages == old(self)@.scant_messages,
    {
        let mut kept: Vec<Entry> = Vec::new();
        while self.entries.len() > 0
            invariant
                without_completed(old(self).entries.deep_view()) == without_completed(
                    self.entries.deep_view(),
                ) + kept.deep_view(),
                self.filter == old(self).filter,
                self.value == old(self).value,
                self.edit_value == old(self).edit_value,
                self.handle == old(self).handle,
                self.handle_candide == old(self).handle_candide,
                self.scant_messages == old(self).scant_messages,
            decreases self.entries.len(),
        {
            let ghost before = self.entries.deep_view();
            let e = self.entries.pop().unwrap();
            proof {
                assert(self.entries.deep_view() =~= before.drop_last());
                assert(e.deep_view() == before.last());
            }
            if !e.completed {
                let ghost kept_before = kept.deep_view();
                kept.insert(0, e);
                proof {
                    assert(without_completed(before) == without_completed(
                        before.drop_last(),
                    ).push(before.last()));
                    assert(kept.deep_view() =~= seq![e.deep_view()] + kept_before);
                    assert(without_completed(before.drop_last()).push(e.deep_view())
                        + kept_before =~= without_completed(before.drop_last())
                        + kept.deep_view());
                }
            } else {
                proof {
                    assert(without_completed(before) == without_completed(before.drop_last()));
                }
            }
        }
        proof {
            assert(self.entries.deep_view() =~= Seq::<EntryView>::empty());
            assert(without_completed(Seq::<EntryView>::empty()) + kept.deep_view()
                =~= kept.deep_view());
        }
        self.entries = kept;
    }
}

} // verus!
