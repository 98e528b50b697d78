//! Laws that hold of the dispatch core across whole message sequences, not
//! just single steps: the entry-count accounting of the list operations, the
//! uniqueness of the edit mark, and the idempotence of the bulk clear.

use vstd::prelude::*;

use crate::dispatch::{msg_valid, spec_update, ModelView};
use crate::msg::MsgView;
use crate::state::{trim_view, without_completed, EntryView};

verus! {

/// At most one entry carries the editing mark.
pub open spec fn at_most_one_editing(es: Seq<EntryView>) -> bool {
    forall|i: int, j: int|
        0 <= i < es.len() && 0 <= j < es.len() && es[i].editing && es[j].editing ==> i == j
}

/// No entry carries the editing mark.
pub open spec fn no_editing(es: Seq<EntryView>) -> bool {
    forall|i: int| 0 <= i < es.len() ==> !es[i].editing
}

/// No entry carries the completed mark.
pub open spec fn none_completed(es: Seq<EntryView>) -> bool {
    forall|i: int| 0 <= i < es.len() ==> !es[i].completed
}

proof fn lemma_wc_keeps_no_editing(es: Seq<EntryView>)
    requires
        no_editing(es),
    ensures
        no_editing(without_completed(es)),
    decreases es.len(),
{
    if es.len() > 0 {
        assert(no_editing(es.drop_last()));
        lemma_wc_keeps_no_editing(es.drop_last());
    }
}

proof fn lemma_wc_keeps_at_most_one_editing(es: Seq<EntryView>)
    requires
        at_most_one_editing(es),
    ensures
        at_most_one_editing(without_completed(es)),
    decreases es.len(),
{
    if es.len() > 0 {
        assert(at_most_one_editing(es.drop_last()));
        lemma_wc_keeps_at_most_one_editing(es.drop_last());
        if !es.last().completed && es.last().editing {
            assert forall|i: int| 0 <= i < es.len() - 1 implies !es[i].editing by {
                if es[i].editing {
                    assert(es[es.len() - 1].editing);
                }
            }
            assert(no_editing(es.drop_last()));
            lemma_wc_keeps_no_editing(es.drop_last());
        }
    }
}

/// After any admissible message, at most one entry is in edit mode, provided
/// at most one was before: starting an edit clears every other edit mark
/// first, committing one clears its own, and nothing else sets one.
pub proof fn lemma_editing_invariant(m: ModelView, msg: MsgView)
    requires
        msg_valid(m, msg),
        at_most_one_editing(m.state.entries),
    ensures
        at_most_one_editing(spec_update(m, msg).state.entries),
{
    let es = m.state.entries;
    let es2 = spec_update(m, msg).state.entries;
    match msg {
        MsgView::ClearCompleted => {
            lemma_wc_keeps_at_most_one_editing(es);
        },
        _ => {},
    }
}

/// The edit mark stays unique along any admissible message sequence.
pub proof fn lemma_editing_invariant_run(m: ModelView, msgs: Seq<MsgView>)
    requires
        msgs_valid(m, msgs),
        at_most_one_editing(m.state.entries),
    ensures
        at_most_one_editing(run_msgs(m, msgs).state.entries),
    decreases msgs.len(),
{
    if msgs.len() > 0 {
        lemma_editing_invariant(m, msgs[0]);
        lemma_editing_invariant_run(spec_update(m, msgs[0]), msgs.drop_first());
    }
}

proof fn lemma_wc_none_completed(es: Seq<EntryView>)
    ensures
        none_completed(without_completed(es)),
    decreases es.len(),
{
    if es.len() > 0 {
        lemma_wc_none_completed(es.drop_last());
    }
}

proof fn lemma_wc_identity(es: Seq<EntryView>)
    requires
        none_completed(es),
    ensures
        without_completed(es) == es,
    decreases es.len(),
{
    if es.len() > 0 {
        assert(none_completed(es.drop_last()));
        lemma_wc_identity(es.drop_last());
        assert(es.drop_last().push(es.last()) =~= es);
    }
}

/// Clearing the completed entries is idempotent: applying the bulk clear
/// twice in a row yields the same model as applying it once.
pub proof fn lemma_clear_completed_idempotent(m: ModelView)
    ensures
        spec_update(spec_update(m, MsgView::ClearCompleted), MsgView::ClearCompleted)
            == spec_update(m, MsgView::ClearCompleted),
{
    let m1 = spec_update(m, MsgView::ClearCompleted);
    lemma_wc_none_completed(m.state.entries);
    lemma_wc_identity(m1.state.entries);
    assert(spec_update(m1, MsgView::ClearCompleted) =~= m1);
}

/// The messages that work on the entry list: staging a draft, committing it,
/// removing one entry, toggling one entry.
pub open spec fn is_list_msg(msg: MsgView) -> bool {
    msg matches MsgView::Update(_) || msg matches MsgView::Add || msg matches MsgView::Remove(_)
        || msg matches MsgView::Toggle(_)
}

/// Whether every message of the sequence is a list message.
pub open spec fn all_list_msgs(msgs: Seq<MsgView>) -> bool {
    forall|i: int| 0 <= i < msgs.len() ==> is_list_msg(#[trigger] msgs[i])
}

/// The model after the whole message sequence, dispatched in order.
pub open spec fn run_msgs(m: ModelView, msgs: Seq<MsgView>) -> ModelView
    decreases msgs.len(),
{
    if msgs.len() == 0 {
        m
    } else {
        run_msgs(spec_update(m, msgs[0]), msgs.drop_first())
    }
}

/// Whether every message of the sequence is admissible at its point.
pub open spec fn msgs_valid(m: ModelView, msgs: Seq<MsgView>) -> bool
    decreases msgs.len(),
{
    if msgs.len() == 0 {
        true
    } else {
        msg_valid(m, msgs[0]) && msgs_valid(spec_update(m, msgs[0]), msgs.drop_first())
    }
}

/// How many `Add` messages of the sequence carry a draft that trims
/// non-empty at their point — exactly the ones that append an entry.
pub open spec fn effective_adds(m: ModelView, msgs: Seq<MsgView>) -> int
    decreases msgs.len(),
{
    if msgs.len() == 0 {
        0
    } else {
        (if msgs[0] == MsgView::Add && trim_view(m.state.value).len() > 0 {
            1int
        } else {
            0int
        }) + effective_adds(spec_update(m, msgs[0]), msgs.drop_first())
    }
}

/// How many `Remove` messages the sequence holds.
pub open spec fn remove_count(msgs: Seq<MsgView>) -> int
    decreases msgs.len(),
{
    if msgs.len() == 0 {
        0
    } else {
        (if msgs[0] matches MsgView::Remove(_) {
            1int
        } else {
            0int
        }) + remove_count(msgs.drop_first())
    }
}

/// Whether `a` appears inside `b` in order, possibly with gaps.
pub open spec fn is_subseq_of<A>(a: Seq<A>, b: Seq<A>) -> bool
    decreases b.len(), a.len(),
{
    if a.len() == 0 {
        true
    } else if b.len() == 0 {
        false
    } else if a[0] == b[0] {
        is_subseq_of(a.drop_first(), b.drop_first())
    } else {
        is_subseq_of(a, b.drop_first())
    }
}

proof fn lemma_subseq_refl<A>(a: Seq<A>)
    ensures
        is_subseq_of(a, a),
    decreases a.len(),
{
    if a.len() > 0 {
        lemma_subseq_refl(a.drop_first());
    }
}

proof fn lemma_subseq_shorten<A>(a: Seq<A>, b: Seq<A>)
    requires
        is_subseq_of(a, b),
        a.len() > 0,
    ensures
        is_subseq_of(a.drop_first(), b),
    decreases b.len(),
{
    if a[0] == b[0] {
        if a.drop_first().len() > 0 {
            lemma_subseq_shorten(a.drop_first(), b.drop_first());
            lemma_subseq_weaken(a.drop_first().drop_first(), b);
        }
    } else {
        lemma_subseq_shorten(a, b.drop_first());
        lemma_subseq_weaken(a.drop_first(), b);
    }
}

proof fn lemma_subseq_weaken<A>(a: Seq<A>, b: Seq<A>)
    requires
        b.len() > 0,
        is_subseq_of(a, b.drop_first()),
    ensures
        is_subseq_of(a, b),
    decreases b.len(), a.len(),
{
    if a.len() > 0 && a[0] == b[0] {
        lemma_subseq_shorten(a, b.drop_first());
    }
}

proof fn lemma_subseq_trans<A>(a: Seq<A>, b: Seq<A>, c: Seq<A>)
    requires
        is_subseq_of(a, b),
        is_subseq_of(b, c),
    ensures
        is_subseq_of(a, c),
    decreases c.len(),
{
    if a.len() == 0 || b.len() == 0 {
    } else if b[0] == c[0] {
        if a[0] == b[0] {
            lemma_subseq_trans(a.drop_first(), b.drop_first(), c.drop_first());
        } else {
            lemma_subseq_trans(a, b.drop_first(), c.drop_first());
            lemma_subseq_weaken(a, c);
        }
    } else {
        lemma_subseq_trans(a, b, c.drop_first());
        lemma_subseq_weaken(a, c);
    }
}

proof fn lemma_subseq_remove<A>(b: Seq<A>, i: int)
    requires
        0 <= i < b.len(),
    ensures
        is_subseq_of(b.remove(i), b),
    decreases b.len(),
{
    if i == 0 {
        assert(b.remove(0) =~= b.drop_first());
        lemma_subseq_refl(b.drop_first());
        lemma_subseq_weaken(b.drop_first(), b);
    } else {
        lemma_subseq_remove(b.drop_first(), i - 1);
        assert(b.remove(i).drop_first() =~= b.drop_first().remove(i - 1));
        assert(b.remove(i)[0] == b[0]);
    }
}

/// The descriptions of the entries, in display order.
pub open spec fn descriptions(es: Seq<EntryView>) -> Seq<Seq<char>> {
    es.map_values(|e: EntryView| e.description)
}

/// The messages that never create an entry: staging a draft, removing one
/// entry, toggling one entry.
pub open spec fn is_survivor_msg(msg: MsgView) -> bool {
    msg matches MsgView::Update(_) || msg matches MsgView::Remove(_) || msg matches MsgView::Toggle(
        _,
    )
}

/// Order preservation: after any admissible sequence of draft updates,
/// removes and single toggles, the surviving entries' descriptions appear in
/// the order they had at the start — removal never reorders the rest.
pub proof fn lemma_survivor_order(m: ModelView, msgs: Seq<MsgView>)
    requires
        forall|i: int| 0 <= i < msgs.len() ==> is_survivor_msg(#[trigger] msgs[i]),
        msgs_valid(m, msgs),
    ensures
        is_subseq_of(descriptions(run_msgs(m, msgs).state.entries), descriptions(m.state.entries)),
    decreases msgs.len(),
{
    let es = m.state.entries;
    if msgs.len() == 0 {
        lemma_subseq_refl(descriptions(es));
    } else {
        let m1 = spec_update(m, msgs[0]);
        assert(is_survivor_msg(msgs[0]));
        match msgs[0] {
            MsgView::Update(_) => {
                assert(descriptions(m1.state.entries) =~= descriptions(es));
                lemma_subseq_refl(descriptions(es));
            },
            MsgView::Toggle(_) => {
                assert(descriptions(m1.state.entries) =~= descriptions(es));
                lemma_subseq_refl(descriptions(es));
            },
            MsgView::Remove(idx) => {
                assert(descriptions(m1.state.entries) =~= descriptions(es).remove(idx));
                lemma_subseq_remove(descriptions(es), idx);
            },
            _ => {},
        }
        lemma_survivor_order(m1, msgs.drop_first());
        lemma_subseq_trans(
            descriptions(run_msgs(m, msgs).state.entries),
            descriptions(m1.state.entries),
            descriptions(es),
        );
    }
}

/// Entry-count accounting: after any admissible sequence of draft updates,
/// `Add`, `Remove` and single toggles, the entry count equals the starting
/// count plus the adds whose draft was non-empty, minus the removes.
pub proof fn lemma_entry_count(m: ModelView, msgs: Seq<MsgView>)
    requires
        all_list_msgs(msgs),
        msgs_valid(m, msgs),
    ensures
        run_msgs(m, msgs).state.entries.len() == m.state.entries.len() + effective_adds(m, msgs)
            - remove_count(msgs),
    decreases msgs.len(),
{
    if msgs.len() > 0 {
        let m1 = spec_update(m, msgs[0]);
        assert(is_list_msg(msgs[0]));
        assert(all_list_msgs(msgs.drop_first()));
        lemma_entry_count(m1, msgs.drop_first());
    }
}

} // verus!
