//! Turning the text deltas that the CRDT reports for a commit into the insertions and
//! deletions they describe, each with its position in the text.
use vstd::prelude::*;

verus! {

/// One step of a text delta: keep, add or remove a stretch of text.
#[derive(Debug, Clone)]
pub enum TextDelta {
    /// The next `retain` positions stay as they are.
    Retain { retain: usize },
    /// `insert` is added at the current position.
    Insert { insert: String },
    /// The next `delete` positions are removed.
    Delete { delete: usize },
}

/// A change event that the CRDT reports for a container.
#[derive(Debug, Clone)]
pub struct TextEvent {
    /// Whether the event is of an unknown kind (such events are skipped).
    pub is_unknown: bool,
    /// The event's text delta, or `None` when its diff is not a text diff.
    pub text_deltas: Option<Vec<TextDelta>>,
}

/// An insertion or deletion in the text, at a position.
#[derive(Debug, Clone)]
pub enum TextChange {
    /// `text` was inserted at `pos`.
    Inserted { pos: i32, text: String },
    /// The range from `start` to `end` was removed.
    Deleted { start: i32, end: i32 },
}

/// A `TextChange`, as a mathematical value.
pub enum ChangeView {
    Inserted(i32, Seq<char>),
    Deleted(i32, i32),
}

impl View for TextChange {
    type V = ChangeView;

    open spec fn view(&self) -> ChangeView {
        match self {
            TextChange::Inserted { pos, text } => ChangeView::Inserted(*pos, text@),
            TextChange::Deleted { start, end } => ChangeView::Deleted(*start, *end),
        }
    }
}

/// The length in bytes of the UTF-8 form of a text, as `str::len` gives it.
pub open spec fn utf8_len(s: Seq<char>) -> usize {
    vstd::utf8::encode_utf8(s).len() as usize
}

/// The changes that one commit's deltas describe, walking from position `index`: a retain
/// moves the position on; an insertion is reported at the position, which then moves past
/// the inserted text's UTF-8 length; a deletion is reported as the range from the position
/// over the deleted length, and the position stays. `None` when the position would pass
/// `usize::MAX`.
pub open spec fn delta_changes(deltas: Seq<TextDelta>, index: int) -> Option<Seq<ChangeView>>
    decreases deltas.len(),
{
    if deltas.len() == 0 {
        Some(Seq::empty())
    } else {
        let rest = deltas.drop_first();
        match deltas[0] {
            TextDelta::Retain { retain } => {
                if index + retain > usize::MAX {
                    None
                } else {
                    delta_changes(rest, index + retain)
                }
            },
            TextDelta::Insert { insert } => {
                let next = index + utf8_len(insert@);
                if next > usize::MAX {
                    None
                } else {
                    match delta_changes(rest, next) {
                        Some(t) => Some(seq![ChangeView::Inserted(index as i32, insert@)] + t),
                        None => None,
                    }
                }
            },
            TextDelta::Delete { delete } => {
                if index + delete > usize::MAX {
                    None
                } else {
                    match delta_changes(rest, index) {
                        Some(t) => Some(
                            seq![ChangeView::Deleted(index as i32, (index + delete) as i32)] + t,
                        ),
                        None => None,
                    }
                }
            },
        }
    }
}

/// How far a walk over deltas moves the position: each retain by its length, each
/// insertion by the UTF-8 length of the inserted text, each deletion not at all.
pub open spec fn advance(deltas: Seq<TextDelta>) -> int
    decreases deltas.len(),
{
    if deltas.len() == 0 {
        0
    } else {
        let step = match deltas[0] {
            TextDelta::Retain { retain } => retain as int,
            TextDelta::Insert { insert } => utf8_len(insert@) as int,
            TextDelta::Delete { .. } => 0,
        };
        step + advance(deltas.drop_first())
    }
}

/// Law: walking deltas `a` then `b` from position `i` reports the changes of `a` from `i`
/// followed by the changes of `b` from where `a` leaves the position, `i + advance(a)`.
/// So each change is reported at the sum of the retained lengths and inserted UTF-8
/// lengths before it: after `Retain { retain: r }`, a deletion of `d` is reported as the
/// range from `i + r` to `i + r + d`.
pub proof fn lemma_delta_changes_concat(a: Seq<TextDelta>, b: Seq<TextDelta>, i: int)
    requires
        delta_changes(a, i) is Some,
        delta_changes(b, i + advance(a)) is Some,
    ensures
        delta_changes(a + b, i) == Some(
            delta_changes(a, i).unwrap() + delta_changes(b, i + advance(a)).unwrap(),
        ),
    decreases a.len(),
{
    if a.len() == 0 {
        assert(a + b =~= b);
        assert(Seq::<ChangeView>::empty() + delta_changes(b, i).unwrap() =~= delta_changes(
            b,
            i,
        ).unwrap());
    } else {
        let rest = a.drop_first();
        assert((a + b).drop_first() =~= rest + b);
        assert((a + b)[0] == a[0]);
        match a[0] {
            TextDelta::Retain { retain } => {
                lemma_delta_changes_concat(rest, b, i + retain);
            },
            TextDelta::Insert { insert } => {
                let next = i + utf8_len(insert@);
                lemma_delta_changes_concat(rest, b, next);
                let head = seq![ChangeView::Inserted(i as i32, insert@)];
                assert(head + (delta_changes(rest, next).unwrap() + delta_changes(
                    b,
                    i + advance(a),
                ).unwrap()) =~= (head + delta_changes(rest, next).unwrap()) + delta_changes(
                    b,
                    i + advance(a),
                ).unwrap());
            },
            TextDelta::Delete { delete } => {
                lemma_delta_changes_concat(rest, b, i);
                let head = seq![ChangeView::Deleted(i as i32, (i + delete) as i32)];
                assert(head + (delta_changes(rest, i).unwrap() + delta_changes(
                    b,
                    i + advance(a),
                ).unwrap()) =~= (head + delta_changes(rest, i).unwrap()) + delta_changes(
                    b,
                    i + advance(a),
                ).unwrap());
            },
        }
    }
}

/// The deltas of an event that is taken: a known event whose diff is a text diff.
pub open spec fn event_deltas(event: TextEvent) -> Option<Seq<TextDelta>> {
    if !event.is_unknown && event.text_deltas is Some {
        Some(event.text_deltas.unwrap()@)
    } else {
        None
    }
}

/// The changes of all events, in order; each taken event's deltas are walked from
/// position 0. `None` when some walk overflows.
pub open spec fn event_changes(events: Seq<TextEvent>) -> Option<Seq<ChangeView>>
    decreases events.len(),
{
    if events.len() == 0 {
        Some(Seq::empty())
    } else {
        let first = match event_deltas(events[0]) {
            Some(d) => delta_changes(d, 0),
            None => Some(Seq::empty()),
        };
        match (first, event_changes(events.drop_first())) {
            (Some(a), Some(b)) => Some(a + b),
            _ => None,
        }
    }
}

/// `acc` followed by the changes in `rest`, if `rest` has any.
pub open spec fn then_changes(acc: Seq<ChangeView>, rest: Option<Seq<ChangeView>>) -> Option<
    Seq<ChangeView>,
> {
    match rest {
        Some(t) => Some(acc + t),
        None => None,
    }
}

/// The views of a list of changes.
pub open spec fn changes_view(changes: Seq<TextChange>) -> Seq<ChangeView> {
    Seq::new(changes.len(), |i: int| changes[i]@)
}

/// Appends the changes of one commit's deltas to `out`; false when a position overflows.
fn push_delta_changes(deltas: &Vec<TextDelta>, out: &mut Vec<TextChange>) -> (ok: bool)
    ensures
        ok == (delta_changes(deltas@, 0) is Some),
        ok ==> changes_view(final(out)@) == changes_view(old(out)@) + delta_changes(
            deltas@,
            0,
        ).unwrap(),
{
    let ghost start = changes_view(out@);
    let mut index: usize = 0;
    let mut i: usize = 0;
    proof {
        assert(deltas@.skip(0) =~= deltas@);
        assert(start + Seq::<ChangeView>::empty() =~= start);
    }
    while i < deltas.len()
        invariant
            0 <= i <= deltas.len(),
            changes_view(out@).len() >= start.len(),
            changes_view(out@).take(start.len() as int) == start,
            delta_changes(deltas@, 0) == then_changes(
                changes_view(out@).skip(start.len() as int),
                delta_changes(deltas@.skip(i as int), index as int),
            ),
        decreases deltas.len() - i,
    {
        let ghost acc = changes_view(out@).skip(start.len() as int);
        let ghost rest = deltas@.skip(i as int);
        proof {
            assert(rest.drop_first() =~= deltas@.skip(i + 1));
            assert(rest[0] == deltas@[i as int]);
        }
        match &deltas[i] {
            TextDelta::Retain { retain } => {
                if *retain > usize::MAX - index {
                    return false;
                }
                index = index + *retain;
            },
            TextDelta::Insert { insert } => {
                let len = insert.as_str().len();
                if len > usize::MAX - index {
                    return false;
                }
                let change = TextChange::Inserted { pos: index as i32, text: insert.clone() };
                let ghost before = out@;
                out.push(change);
                proof {
                    let v = changes_view(out@);
                    assert(v =~= changes_view(before).push(change@));
                    assert(v.skip(start.len() as int) =~= acc.push(change@));
                    assert(v.take(start.len() as int) =~= changes_view(before).take(
                        start.len() as int,
                    ));
                    assert(acc.push(change@) + delta_changes(
                        deltas@.skip(i + 1),
                        index + len,
                    ).unwrap_or(Seq::empty()) =~= acc + (seq![change@] + delta_changes(
                        deltas@.skip(i + 1),
                        index + len,
                    ).unwrap_or(Seq::empty())));
                }
                index = index + len;
            },
            TextDelta::Delete { delete } => {
                if *delete > usize::MAX - index {
                    return false;
                }
                let change = TextChange::Deleted {
                    start: index as i32,
                    end: (index + *delete) as i32,
                };
                let ghost before = out@;
                out.push(change);
                proof {
                    let v = changes_view(out@);
                    assert(v =~= changes_view(before).push(change@));
                    assert(v.skip(start.len() as int) =~= acc.push(change@));
                    assert(v.take(start.len() as int) =~= changes_view(before).take(
                        start.len() as int,
                    ));
                    assert(acc.push(change@) + delta_changes(
                        deltas@.skip(i + 1),
                        index as int,
                    ).unwrap_or(Seq::empty()) =~= acc + (seq![change@] + delta_changes(
                        deltas@.skip(i + 1),
                        index as int,
                    ).unwrap_or(Seq::empty())));
                }
            },
        }
        i = i + 1;
    }
    proof {
        assert(deltas@.skip(deltas@.len() as int) =~= Seq::<TextDelta>::empty());
        let v = changes_view(out@);
        assert(v =~= v.take(start.len() as int) + v.skip(start.len() as int));
        assert(v.skip(start.len() as int) + Seq::<ChangeView>::empty() =~= v.skip(
            start.len() as int,
        ));
    }
    true
}

/// The insertions and deletions that a batch of CRDT events describes, in order: unknown
/// events and events whose diff is not a text diff are skipped, and the deltas of each
/// other event are walked from position 0. `None` when a position would overflow `usize`.
pub fn text_changes(events: &Vec<TextEvent>) -> (changes: Option<Vec<TextChange>>)
    ensures
        changes is Some <==> event_changes(events@) is Some,
        changes matches Some(c) ==> changes_view(c@) == event_changes(events@).unwrap(),
{
    let mut out: Vec<TextChange> = Vec::new();
    let mut i: usize = 0;
    proof {
        assert(events@.skip(0) =~= events@);
        assert(changes_view(out@) + Seq::<ChangeView>::empty() =~= changes_view(out@));
    }
    while i < events.len()
        invariant
            0 <= i <= events.len(),
            event_changes(events@) == then_changes(
                changes_view(out@),
                event_changes(events@.skip(i as int)),
            ),
        decreases events.len() - i,
    {
        let ghost rest = events@.skip(i as int);
        let ghost before = changes_view(out@);
        proof {
            assert(rest.drop_first() =~= events@.skip(i + 1));
            assert(rest[0] == events@[i as int]);
        }
        let event = &events[i];
        if !event.is_unknown {
            match &event.text_deltas {
                Some(deltas) => {
                    if !push_delta_changes(deltas, &mut out) {
                        return None;
                    }
                    proof {
                        let d = delta_changes(deltas@, 0).unwrap();
                        let t = event_changes(events@.skip(i + 1));
                        if t is Some {
                            assert(before + (d + t.unwrap()) =~= (before + d) + t.unwrap());
                        }
                    }
                },
                None => {
                    proof {
                        let t = event_changes(events@.skip(i + 1));
                        if t is Some {
                            assert(Seq::<ChangeView>::empty() + t.unwrap() =~= t.unwrap());
                        }
                    }
                },
            }
        } else {
            proof {
                let t = event_changes(events@.skip(i + 1));
                if t is Some {
                    assert(Seq::<ChangeView>::empty() + t.unwrap() =~= t.unwrap());
                }
            }
        }
        i = i + 1;
    }
    proof {
        assert(events@.skip(events@.len() as int) =~= Seq::<TextEvent>::empty());
        assert(changes_view(out@) + Seq::<ChangeView>::empty() =~= changes_view(out@));
    }
    Some(out)
}

} // verus!
