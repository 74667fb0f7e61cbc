//! Collision detection: which way each entity is blocked by the others.

use vstd::prelude::*;
use crate::bowtie::entity::EntityHandle;
use crate::bowtie::registry::{entity_of, Registry, SlotsView};
use crate::general::direction::Direction;
use crate::shapes::rectangle::Rectangle;

verus! {

/// The distance between two coordinates.
pub open spec fn distance(a: int, b: int) -> int {
    if a >= b {
        a - b
    } else {
        b - a
    }
}

/// Whether `other` is near enough to `subject` to be looked at closely:
/// their left edges are no further apart than one of them is wide, and
/// their top edges no further than `subject` is tall.
pub open spec fn within_reach(subject: Rectangle, other: Rectangle) -> bool {
    let x_range = distance(subject.x as int, other.x as int);
    let y_range = distance(subject.y as int, other.y as int);
    (x_range <= subject.width || x_range <= other.width) && y_range <= subject.height
}

/// The right edge of `subject` lies between the sides of `other`.
pub open spec fn meets_right(subject: Rectangle, other: Rectangle) -> bool {
    other.left() <= subject.right() <= other.right()
}

/// The left edge of `subject` lies strictly between the sides of `other`.
pub open spec fn meets_left(subject: Rectangle, other: Rectangle) -> bool {
    other.left() < subject.left() < other.right()
}

/// The bottom edge of `subject` lies between bottom and top of `other`.
pub open spec fn meets_down(subject: Rectangle, other: Rectangle) -> bool {
    other.bottom() <= subject.bottom() <= other.top()
}

/// The top edge of `subject` lies between bottom and top of `other`.
pub open spec fn meets_up(subject: Rectangle, other: Rectangle) -> bool {
    other.bottom() <= subject.top() <= other.top()
}

/// `direction` composed with `part` where `met` holds.
pub open spec fn plus_if(direction: Direction, met: bool, part: Direction) -> Direction {
    if met {
        direction.plus(part)
    } else {
        direction
    }
}

/// The edges that are met, composed in the order right, left, down, up.
pub open spec fn composed(right: bool, left: bool, down: bool, up: bool) -> Direction {
    plus_if(
        plus_if(
            plus_if(plus_if(Direction::Stationary, right, Direction::Right), left, Direction::Left),
            down,
            Direction::Down,
        ),
        up,
        Direction::Up,
    )
}

/// The direction in which `other` blocks `subject`; rest where they do
/// not overlap.
pub open spec fn overlap_direction(subject: Rectangle, other: Rectangle) -> Direction {
    if within_reach(subject, other) {
        composed(
            meets_right(subject, other),
            meets_left(subject, other),
            meets_down(subject, other),
            meets_up(subject, other),
        )
    } else {
        Direction::Stationary
    }
}

/// The direction in which the entity that `other` names blocks a subject
/// of the shape `shape`; rest where `other` names no live entity.
pub open spec fn direction_towards(slots: SlotsView, shape: Rectangle, other: EntityHandle)
    -> Direction {
    match entity_of(slots, other) {
        Some(entity) => overlap_direction(shape, entity.shape),
        None => Direction::Stationary,
    }
}

/// What is recorded of one subject: the others that block it, each with
/// the direction found when it began to.
pub type Entries = Seq<(EntityHandle, Direction)>;

/// The direction recorded for `other`, if one is.
pub open spec fn recorded(entries: Entries, other: EntityHandle) -> Option<Direction>
    decreases entries.len(),
{
    if entries.len() == 0 {
        None
    } else {
        match recorded(entries.drop_last(), other) {
            Some(direction) => Some(direction),
            None => if entries.last().0 == other {
                Some(entries.last().1)
            } else {
                None
            },
        }
    }
}

/// `entries` without those for `other`.
pub open spec fn cleared(entries: Entries, other: EntityHandle) -> Entries
    decreases entries.len(),
{
    if entries.len() == 0 {
        entries
    } else if entries.last().0 == other {
        cleared(entries.drop_last(), other)
    } else {
        cleared(entries.drop_last(), other).push(entries.last())
    }
}

/// `entries` after the pair with `other` was found to overlap in
/// `direction`: a first overlap is recorded, a recorded one stays as it
/// is, and the end of an overlap takes the record out.
pub open spec fn pair_step(entries: Entries, other: EntityHandle, direction: Direction)
    -> Entries {
    if direction != Direction::Stationary {
        if recorded(entries, other) is Some {
            entries
        } else {
            entries.push((other, direction))
        }
    } else {
        cleared(entries, other)
    }
}

/// The directions of `entries` composed in their order, from rest.
pub open spec fn aggregate(entries: Entries) -> Direction
    decreases entries.len(),
{
    if entries.len() == 0 {
        Direction::Stationary
    } else {
        aggregate(entries.drop_last()).plus(entries.last().1)
    }
}

/// The record of one subject.
#[derive(Debug)]
pub struct LedgerRow {
    subject: EntityHandle,
    entries: Vec<(EntityHandle, Direction)>,
}

/// The record of one subject as plain values.
pub struct RowView {
    pub subject: EntityHandle,
    pub entries: Entries,
}

impl View for LedgerRow {
    type V = RowView;

    closed spec fn view(&self) -> RowView {
        RowView { subject: self.subject, entries: self.entries@ }
    }
}

/// The ledger: one record for each entity that was ever a subject, in the
/// order in which they first were.
pub type LedgerView = Seq<RowView>;

/// The place among the first `n` rows of the row of `subject`, or `n`.
pub open spec fn row_position(rows: LedgerView, subject: EntityHandle, n: int) -> int
    decreases n,
{
    if n <= 0 {
        0
    } else {
        let before = row_position(rows, subject, n - 1);
        if before < n - 1 {
            before
        } else if rows[n - 1].subject == subject {
            n - 1
        } else {
            n
        }
    }
}

/// The place of the row of `subject`, or the number of rows.
pub open spec fn row_of(rows: LedgerView, subject: EntityHandle) -> int {
    row_position(rows, subject, rows.len() as int)
}

/// What is recorded of `subject`.
pub open spec fn entries_of(rows: LedgerView, subject: EntityHandle) -> Entries {
    if row_of(rows, subject) < rows.len() {
        rows[row_of(rows, subject)].entries
    } else {
        Seq::empty()
    }
}

/// The entries of `subject` after it was held against the subjects of the
/// first `k` rows of `rows`, itself left out.
pub open spec fn examined(
    entries: Entries,
    subject: EntityHandle,
    shape: Rectangle,
    rows: LedgerView,
    slots: SlotsView,
    k: int,
) -> Entries
    decreases k,
{
    if k <= 0 {
        entries
    } else {
        let before = examined(entries, subject, shape, rows, slots, k - 1);
        let other = rows[k - 1].subject;
        if other == subject {
            before
        } else {
            pair_step(before, other, direction_towards(slots, shape, other))
        }
    }
}

/// The entries of `subject` after one evaluation: it is held against every
/// entity that was a subject before.
pub open spec fn evaluated_entries(
    rows: LedgerView,
    slots: SlotsView,
    subject: EntityHandle,
    shape: Rectangle,
) -> Entries {
    examined(entries_of(rows, subject), subject, shape, rows, slots, rows.len() as int)
}

/// The ledger after one evaluation of `subject`, whose row is added where
/// it was never a subject before.
pub open spec fn evaluated(
    rows: LedgerView,
    slots: SlotsView,
    subject: EntityHandle,
    shape: Rectangle,
) -> LedgerView {
    let row = RowView { subject, entries: evaluated_entries(rows, slots, subject, shape) };
    if row_of(rows, subject) < rows.len() {
        rows.update(row_of(rows, subject), row)
    } else {
        rows.push(row)
    }
}

/// `entries` of a row cleared of `handle`.
pub open spec fn row_without(row: RowView, handle: EntityHandle) -> RowView {
    RowView { subject: row.subject, entries: cleared(row.entries, handle) }
}

/// The first `n` rows without the row of `handle` and without the entries
/// for `handle` in the others.
pub open spec fn retracted_upto(rows: LedgerView, handle: EntityHandle, n: int) -> LedgerView
    decreases n,
{
    if n <= 0 {
        Seq::empty()
    } else if rows[n - 1].subject == handle {
        retracted_upto(rows, handle, n - 1)
    } else {
        retracted_upto(rows, handle, n - 1).push(row_without(rows[n - 1], handle))
    }
}

/// The ledger with every trace of `handle` taken out.
pub open spec fn retracted(rows: LedgerView, handle: EntityHandle) -> LedgerView {
    retracted_upto(rows, handle, rows.len() as int)
}

/// A cleared record holds nothing for the one it was cleared of, and what
/// it holds for any other is what it held.
pub proof fn lemma_cleared(entries: Entries, other: EntityHandle, third: EntityHandle)
    ensures
        recorded(cleared(entries, other), other) is None,
        third != other ==> recorded(cleared(entries, other), third) == recorded(entries, third),
        cleared(entries, other).len() <= entries.len(),
    decreases entries.len(),
{
    if entries.len() > 0 {
        lemma_cleared(entries.drop_last(), other, third);
        if entries.last().0 != other {
            let rest = cleared(entries.drop_last(), other);
            assert(rest.push(entries.last()).drop_last() =~= rest);
        }
    }
}

/// One step on a pair does not touch what is recorded for another.
pub proof fn lemma_pair_step_other(
    entries: Entries,
    other: EntityHandle,
    direction: Direction,
    third: EntityHandle,
)
    requires
        third != other,
    ensures
        recorded(pair_step(entries, other, direction), third) == recorded(entries, third),
{
    lemma_cleared(entries, other, third);
    if direction != Direction::Stationary && recorded(entries, other) is None {
        assert(entries.push((other, direction)).drop_last() =~= entries);
    }
}

/// What one step on a pair leaves recorded for it: the direction recorded
/// before as long as the pair overlaps, the direction found where the
/// overlap is new, and nothing once the pair has come apart.
pub proof fn lemma_pair_step_sticks(entries: Entries, other: EntityHandle, direction: Direction)
    ensures
        direction != Direction::Stationary && recorded(entries, other) is Some ==> recorded(
            pair_step(entries, other, direction),
            other,
        ) == recorded(entries, other),
        direction != Direction::Stationary && recorded(entries, other) is None ==> recorded(
            pair_step(entries, other, direction),
            other,
        ) == Some(direction),
        direction == Direction::Stationary ==> recorded(pair_step(entries, other, direction), other)
            is None,
{
    lemma_cleared(entries, other, other);
    if direction != Direction::Stationary && recorded(entries, other) is None {
        assert(entries.push((other, direction)).drop_last() =~= entries);
    }
}

/// A row that is found is the first row of its subject.
pub proof fn lemma_row_position(rows: LedgerView, subject: EntityHandle, n: int)
    requires
        0 <= n <= rows.len(),
    ensures
        0 <= row_position(rows, subject, n) <= n,
        row_position(rows, subject, n) < n ==> rows[row_position(rows, subject, n)].subject
            == subject,
        forall|j: int|
            0 <= j < row_position(rows, subject, n) ==> (#[trigger] rows[j]).subject != subject,
    decreases n,
{
    if n > 0 {
        lemma_row_position(rows, subject, n - 1);
    }
}

proof fn lemma_row_position_stays(rows: LedgerView, subject: EntityHandle, i: int, n: int)
    requires
        0 <= i < n <= rows.len(),
        row_position(rows, subject, i) == i,
        rows[i].subject == subject,
    ensures
        row_position(rows, subject, n) == i,
    decreases n,
{
    if n > i + 1 {
        lemma_row_position_stays(rows, subject, i, n - 1);
    }
}

/// What an evaluation leaves in the ledger: the record of the subject is
/// what the evaluation found, and every other record is as it was.
pub proof fn lemma_evaluated_rows(
    rows: LedgerView,
    slots: SlotsView,
    subject: EntityHandle,
    shape: Rectangle,
    third: EntityHandle,
)
    ensures
        entries_of(evaluated(rows, slots, subject, shape), subject) == evaluated_entries(
            rows,
            slots,
            subject,
            shape,
        ),
        third != subject ==> entries_of(evaluated(rows, slots, subject, shape), third)
            == entries_of(rows, third),
{
    let after = evaluated(rows, slots, subject, shape);
    let n = rows.len() as int;
    lemma_row_position(rows, subject, n);
    lemma_row_position(rows, third, n);
    let p = row_of(rows, subject);
    lemma_same_subjects(rows, after, subject, n);
    lemma_same_subjects(rows, after, third, n);
    if p < n {
        assert(after.len() == n);
    } else {
        assert(after.len() == n + 1);
        assert(row_position(after, subject, n + 1) == n);
        assert(row_position(after, third, n + 1) == if row_position(after, third, n) < n {
            row_position(after, third, n)
        } else if third == subject {
            n
        } else {
            n + 1
        });
    }
}

/// Rows with the same subjects are found in the same places.
proof fn lemma_same_subjects(a: LedgerView, b: LedgerView, subject: EntityHandle, n: int)
    requires
        0 <= n <= a.len(),
        n <= b.len(),
        forall|j: int| 0 <= j < n ==> (#[trigger] a[j]).subject == (#[trigger] b[j]).subject,
    ensures
        row_position(a, subject, n) == row_position(b, subject, n),
    decreases n,
{
    if n > 0 {
        lemma_same_subjects(a, b, subject, n - 1);
    }
}

proof fn lemma_examined_same_others(
    entries: Entries,
    subject: EntityHandle,
    shape: Rectangle,
    rows: LedgerView,
    one: SlotsView,
    other: SlotsView,
    k: int,
)
    requires
        0 <= k <= rows.len(),
        forall|handle: EntityHandle|
            handle != subject ==> #[trigger] entity_of(one, handle) == entity_of(other, handle),
    ensures
        examined(entries, subject, shape, rows, one, k) == examined(
            entries,
            subject,
            shape,
            rows,
            other,
            k,
        ),
    decreases k,
{
    if k > 0 {
        lemma_examined_same_others(entries, subject, shape, rows, one, other, k - 1);
        let candidate = rows[k - 1].subject;
        if candidate != subject {
            assert(entity_of(one, candidate) == entity_of(other, candidate));
        }
    }
}

/// An evaluation only looks at the others: two registries in which every
/// entity but the subject is the same leave the same record.
pub proof fn lemma_evaluated_same_others(
    rows: LedgerView,
    one: SlotsView,
    other: SlotsView,
    subject: EntityHandle,
    shape: Rectangle,
)
    requires
        forall|handle: EntityHandle|
            handle != subject ==> #[trigger] entity_of(one, handle) == entity_of(other, handle),
    ensures
        evaluated_entries(rows, one, subject, shape) == evaluated_entries(
            rows,
            other,
            subject,
            shape,
        ),
        evaluated(rows, one, subject, shape) == evaluated(rows, other, subject, shape),
{
    lemma_examined_same_others(
        entries_of(rows, subject),
        subject,
        shape,
        rows,
        one,
        other,
        rows.len() as int,
    );
}

/// Whether a row of `rows` has `other` for its subject, so that `other`
/// is among those a subject is held against.
pub open spec fn is_candidate(rows: LedgerView, other: EntityHandle, k: int) -> bool {
    exists|j: int| 0 <= j < k && (#[trigger] rows[j]).subject == other
}

proof fn lemma_examined_pair(
    entries: Entries,
    subject: EntityHandle,
    shape: Rectangle,
    rows: LedgerView,
    slots: SlotsView,
    other: EntityHandle,
    k: int,
)
    requires
        0 <= k <= rows.len(),
        other != subject,
    ensures
        !is_candidate(rows, other, k) ==> recorded(
            examined(entries, subject, shape, rows, slots, k),
            other,
        ) == recorded(entries, other),
        is_candidate(rows, other, k) ==> recorded(
            examined(entries, subject, shape, rows, slots, k),
            other,
        ) == recorded(pair_step(entries, other, direction_towards(slots, shape, other)), other),
    decreases k,
{
    let direction = direction_towards(slots, shape, other);
    lemma_pair_step_sticks(entries, other, direction);
    if k > 0 {
        lemma_examined_pair(entries, subject, shape, rows, slots, other, k - 1);
        let before = examined(entries, subject, shape, rows, slots, k - 1);
        let current = rows[k - 1].subject;
        if current == other {
            lemma_pair_step_sticks(before, other, direction);
            assert(is_candidate(rows, other, k));
        } else {
            if current != subject {
                lemma_pair_step_other(
                    before,
                    current,
                    direction_towards(slots, shape, current),
                    other,
                );
            }
            if is_candidate(rows, other, k) {
                let j = choose|j: int| 0 <= j < k && (#[trigger] rows[j]).subject == other;
                assert(0 <= j < k - 1);
                assert(is_candidate(rows, other, k - 1));
            } else {
                assert(!is_candidate(rows, other, k - 1)) by {
                    if is_candidate(rows, other, k - 1) {
                        let j = choose|j: int|
                            0 <= j < k - 1 && (#[trigger] rows[j]).subject == other;
                        assert(0 <= j < k && rows[j].subject == other);
                    }
                }
            }
        }
    }
}

/// A recorded collision sticks. Where `other` is recorded for `subject`
/// with a direction, an evaluation of `subject` leaves that record as it
/// is for as long as the two overlap, whatever direction the overlap has
/// by then; the record goes when `other` is held against `subject` and
/// the two no longer overlap. Where nothing is recorded yet, the
/// direction of a first overlap is.
pub proof fn lemma_collision_sticks(
    rows: LedgerView,
    slots: SlotsView,
    subject: EntityHandle,
    shape: Rectangle,
    other: EntityHandle,
)
    requires
        other != subject,
    ensures
        ({
            let before = recorded(entries_of(rows, subject), other);
            let after = recorded(evaluated_entries(rows, slots, subject, shape), other);
            let found = direction_towards(slots, shape, other);
            let held = is_candidate(rows, other, rows.len() as int);
            &&& before is Some && found != Direction::Stationary ==> after == before
            &&& held && found == Direction::Stationary ==> after is None
            &&& held && before is None && found != Direction::Stationary ==> after == Some(found)
            &&& !held ==> after == before
        }),
{
    let entries = entries_of(rows, subject);
    lemma_examined_pair(entries, subject, shape, rows, slots, other, rows.len() as int);
    lemma_pair_step_sticks(entries, other, direction_towards(slots, shape, other));
}

/// Whether `direction` is among the directions of `entries`.
pub open spec fn holds_direction(entries: Entries, direction: Direction) -> bool {
    exists|i: int| 0 <= i < entries.len() && (#[trigger] entries[i]).1 == direction
}

/// How often `direction` is among the directions of `entries`.
pub open spec fn times(entries: Entries, direction: Direction) -> int
    decreases entries.len(),
{
    if entries.len() == 0 {
        0
    } else {
        times(entries.drop_last(), direction) + if entries.last().1 == direction {
            1int
        } else {
            0int
        }
    }
}

/// All the moving directions of `entries` are one and the same.
pub open spec fn uniform(entries: Entries) -> bool {
    forall|i: int, j: int|
        0 <= i < entries.len() && 0 <= j < entries.len() && (#[trigger] entries[i]).1
            != Direction::Stationary && (#[trigger] entries[j]).1 != Direction::Stationary
            ==> entries[i].1 == entries[j].1
}

/// All the moving directions of `entries` are cardinal.
pub open spec fn cardinal_only(entries: Entries) -> bool {
    forall|i: int|
        0 <= i < entries.len() ==> (#[trigger] entries[i]).1 == Direction::Stationary
            || entries[i].1.is_cardinal()
}

/// Whether an axis comes out the same in every order, for a cardinal that
/// occurs `forth` times and its opposite that occurs `back` times: only
/// one of the two occurs, or each occurs once and they cancel.
pub open spec fn balanced(forth: int, back: int) -> bool {
    forth == 0 || back == 0 || (forth == 1 && back == 1)
}

/// What a balanced axis comes to: the way of the cardinal that occurs
/// alone, and nothing where both or neither occur.
pub open spec fn axis(forth: int, back: int) -> int {
    if back == 0 && forth > 0 {
        1
    } else if forth == 0 && back > 0 {
        -1
    } else {
        0
    }
}

/// Entries whose composition does not depend on their order: their moving
/// directions are all the same, or they are all cardinal and both axes
/// are balanced. Among cardinal directions these are all such entries.
/// With diagonal ones there are more: Up, Right and UpRight compose to
/// UpRight in every order and are not among them.
pub open spec fn order_free(entries: Entries) -> bool {
    ||| uniform(entries)
    ||| {
        &&& cardinal_only(entries)
        &&& balanced(times(entries, Direction::Right), times(entries, Direction::Left))
        &&& balanced(times(entries, Direction::Up), times(entries, Direction::Down))
    }
}

proof fn lemma_holds_prefix(entries: Entries, direction: Direction)
    requires
        entries.len() > 0,
    ensures
        holds_direction(entries, direction) <==> holds_direction(entries.drop_last(), direction)
            || entries.last().1 == direction,
{
    let prefix = entries.drop_last();
    if holds_direction(entries, direction) {
        let i = choose|i: int| 0 <= i < entries.len() && (#[trigger] entries[i]).1 == direction;
        if i < entries.len() - 1 {
            assert(prefix[i].1 == direction);
        }
    }
    if holds_direction(prefix, direction) {
        let i = choose|i: int| 0 <= i < prefix.len() && (#[trigger] prefix[i]).1 == direction;
        assert(entries[i].1 == direction);
    }
    if entries.last().1 == direction {
        assert(entries[entries.len() - 1].1 == direction);
    }
}

proof fn lemma_times_counts(entries: Entries, direction: Direction)
    ensures
        times(entries, direction) >= 0,
    decreases entries.len(),
{
    if entries.len() > 0 {
        lemma_times_counts(entries.drop_last(), direction);
    }
}

/// What cardinal directions with balanced axes compose to: each axis on
/// its own.
proof fn lemma_aggregate_cardinals(entries: Entries)
    requires
        cardinal_only(entries),
        balanced(times(entries, Direction::Right), times(entries, Direction::Left)),
        balanced(times(entries, Direction::Up), times(entries, Direction::Down)),
    ensures
        aggregate(entries).dx() == axis(
            times(entries, Direction::Right),
            times(entries, Direction::Left),
        ),
        aggregate(entries).dy() == axis(
            times(entries, Direction::Up),
            times(entries, Direction::Down),
        ),
    decreases entries.len(),
{
    if entries.len() > 0 {
        let prefix = entries.drop_last();
        lemma_times_counts(prefix, Direction::Right);
        lemma_times_counts(prefix, Direction::Left);
        lemma_times_counts(prefix, Direction::Up);
        lemma_times_counts(prefix, Direction::Down);
        assert(cardinal_only(prefix)) by {
            assert forall|i: int| 0 <= i < prefix.len() implies (#[trigger] prefix[i]).1
                == Direction::Stationary || prefix[i].1.is_cardinal() by {
                assert(prefix[i] == entries[i]);
            }
        }
        lemma_aggregate_cardinals(prefix);
        assert(entries[entries.len() - 1] == entries.last());
    }
}

proof fn lemma_aggregate_uniform(entries: Entries, direction: Direction)
    requires
        direction != Direction::Stationary,
        forall|i: int|
            0 <= i < entries.len() && (#[trigger] entries[i]).1 != Direction::Stationary
                ==> entries[i].1 == direction,
    ensures
        aggregate(entries) == if holds_direction(entries, direction) {
            direction
        } else {
            Direction::Stationary
        },
    decreases entries.len(),
{
    if entries.len() > 0 {
        let prefix = entries.drop_last();
        assert forall|i: int|
            0 <= i < prefix.len() && (#[trigger] prefix[i]).1
                != Direction::Stationary implies prefix[i].1 == direction by {
            assert(entries[i].1 == prefix[i].1);
        }
        lemma_aggregate_uniform(prefix, direction);
        lemma_holds_prefix(entries, direction);
        assert(entries[entries.len() - 1].1 == entries.last().1);
    } else {
        assert(!holds_direction(entries, direction));
    }
}

proof fn lemma_aggregate_still(entries: Entries)
    requires
        forall|i: int| 0 <= i < entries.len() ==> (#[trigger] entries[i]).1 == Direction::Stationary,
    ensures
        aggregate(entries) == Direction::Stationary,
    decreases entries.len(),
{
    if entries.len() > 0 {
        let prefix = entries.drop_last();
        assert forall|i: int| 0 <= i < prefix.len() implies (#[trigger] prefix[i]).1
            == Direction::Stationary by {
            assert(entries[i].1 == prefix[i].1);
        }
        lemma_aggregate_still(prefix);
        assert(entries[entries.len() - 1].1 == entries.last().1);
    }
}

proof fn lemma_same_members(a: Entries, b: Entries, i: int) -> (j: int)
    requires
        a.to_multiset() == b.to_multiset(),
        0 <= i < a.len(),
    ensures
        0 <= j < b.len(),
        b[j] == a[i],
{
    a.to_multiset_ensures();
    b.to_multiset_ensures();
    assert(a.contains(a[i]));
    assert(a.to_multiset().count(a[i]) > 0);
    assert(b.contains(a[i]));
    choose|j: int| 0 <= j < b.len() && b[j] == a[i]
}

proof fn lemma_same_directions(a: Entries, b: Entries, direction: Direction)
    requires
        a.to_multiset() == b.to_multiset(),
    ensures
        holds_direction(a, direction) == holds_direction(b, direction),
{
    if holds_direction(a, direction) {
        let i = choose|i: int| 0 <= i < a.len() && (#[trigger] a[i]).1 == direction;
        let j = lemma_same_members(a, b, i);
        assert(b[j].1 == direction);
    }
    if holds_direction(b, direction) {
        let i = choose|i: int| 0 <= i < b.len() && (#[trigger] b[i]).1 == direction;
        let j = lemma_same_members(b, a, i);
        assert(a[j].1 == direction);
    }
}

/// A direction is as often among entries as among the same entries with
/// one taken out, but for that one.
proof fn lemma_times_remove(entries: Entries, k: int, direction: Direction)
    requires
        0 <= k < entries.len(),
    ensures
        times(entries, direction) == times(entries.remove(k), direction) + if entries[k].1
            == direction {
            1int
        } else {
            0int
        },
    decreases entries.len(),
{
    if k == entries.len() - 1 {
        assert(entries.remove(k) =~= entries.drop_last());
    } else {
        lemma_times_remove(entries.drop_last(), k, direction);
        assert(entries.remove(k).drop_last() =~= entries.drop_last().remove(k));
        assert(entries.remove(k).last() == entries.last());
    }
}

/// A direction is as often among entries as among the same entries in
/// another order.
proof fn lemma_same_times(a: Entries, b: Entries, direction: Direction)
    requires
        a.to_multiset() == b.to_multiset(),
    ensures
        times(a, direction) == times(b, direction),
    decreases a.len(),
{
    broadcast use vstd::multiset::group_multiset_axioms;

    a.to_multiset_ensures();
    b.to_multiset_ensures();
    if a.len() == 0 {
        assert(b.len() == 0);
    } else {
        let k = lemma_same_members(a, b, a.len() - 1);
        let fewer = a.drop_last();
        fewer.to_multiset_ensures();
        assert(a =~= fewer.push(a.last()));
        assert(fewer.to_multiset() =~= a.to_multiset().remove(a.last()));
        assert(b.remove(k).to_multiset() =~= b.to_multiset().remove(b[k]));
        lemma_same_times(fewer, b.remove(k), direction);
        lemma_times_remove(b, k, direction);
    }
}

/// The direction in which an entity is blocked does not depend on the
/// order of what is recorded of it, where the recorded directions are
/// free of order: two records with the same entries, each as often in the
/// one as in the other, then compose to the same direction.
pub proof fn lemma_aggregate_order(a: Entries, b: Entries)
    requires
        a.to_multiset() == b.to_multiset(),
        order_free(a),
    ensures
        order_free(b),
        aggregate(a) == aggregate(b),
{
    lemma_same_times(a, b, Direction::Right);
    lemma_same_times(a, b, Direction::Left);
    lemma_same_times(a, b, Direction::Up);
    lemma_same_times(a, b, Direction::Down);
    if uniform(a) {
        assert(uniform(b)) by {
            assert forall|i: int, j: int|
                0 <= i < b.len() && 0 <= j < b.len() && (#[trigger] b[i]).1
                    != Direction::Stationary && (#[trigger] b[j]).1
                    != Direction::Stationary implies b[i].1 == b[j].1 by {
                let k = lemma_same_members(b, a, i);
                let l = lemma_same_members(b, a, j);
                assert(a[k].1 == a[l].1);
            }
        }
        if exists|i: int| 0 <= i < a.len() && (#[trigger] a[i]).1 != Direction::Stationary {
            let i = choose|i: int| 0 <= i < a.len() && (#[trigger] a[i]).1 != Direction::Stationary;
            let direction = a[i].1;
            assert forall|k: int|
                0 <= k < b.len() && (#[trigger] b[k]).1
                    != Direction::Stationary implies b[k].1 == direction by {
                let l = lemma_same_members(b, a, k);
                assert(a[l].1 == a[i].1);
            }
            lemma_aggregate_uniform(a, direction);
            lemma_aggregate_uniform(b, direction);
            lemma_same_directions(a, b, direction);
        } else {
            assert forall|k: int| 0 <= k < b.len() implies (#[trigger] b[k]).1
                == Direction::Stationary by {
                let l = lemma_same_members(b, a, k);
                assert(a[l].1 == Direction::Stationary);
            }
            lemma_aggregate_still(a);
            lemma_aggregate_still(b);
        }
    } else {
        assert(cardinal_only(b)) by {
            assert forall|i: int| 0 <= i < b.len() implies (#[trigger] b[i]).1
                == Direction::Stationary || b[i].1.is_cardinal() by {
                let k = lemma_same_members(b, a, i);
                assert(a[k].1 == b[i].1);
            }
        }
        lemma_aggregate_cardinals(a);
        lemma_aggregate_cardinals(b);
    }
}

/// A direction that is among entries at least once is the direction of
/// one of them.
proof fn lemma_times_found(entries: Entries, direction: Direction) -> (i: int)
    requires
        times(entries, direction) > 0,
    ensures
        0 <= i < entries.len(),
        entries[i].1 == direction,
    decreases entries.len(),
{
    if entries.last().1 == direction {
        entries.len() - 1
    } else {
        let i = lemma_times_found(entries.drop_last(), direction);
        assert(entries.drop_last()[i] == entries[i]);
        i
    }
}

/// Entries with one of them put behind the others are the same entries.
proof fn lemma_put_last(entries: Entries, k: int)
    requires
        0 <= k < entries.len(),
    ensures
        entries.remove(k).push(entries[k]).to_multiset() == entries.to_multiset(),
{
    broadcast use vstd::multiset::group_multiset_axioms;

    entries.to_multiset_ensures();
    entries.remove(k).to_multiset_ensures();
    assert(entries.contains(entries[k]));
    assert(entries.to_multiset().remove(entries[k]).insert(entries[k]) =~= entries.to_multiset());
}

/// The order does matter where an axis is not balanced: where a cardinal
/// direction is recorded twice or more and its opposite is recorded too,
/// the same entries compose to another direction in some other order.
/// Two of the cardinal at the end set the axis; one of them followed by
/// the opposite does not.
pub proof fn lemma_aggregate_order_matters(a: Entries, direction: Direction, against: Direction)
    -> (b: Entries)
    requires
        direction.is_cardinal(),
        against.is_cardinal(),
        direction.dx() == -against.dx(),
        direction.dy() == -against.dy(),
        times(a, direction) >= 2,
        times(a, against) >= 1,
    ensures
        a.to_multiset() == b.to_multiset(),
        aggregate(a) != aggregate(b),
{
    broadcast use vstd::multiset::group_multiset_axioms;

    let i = lemma_times_found(a, direction);
    let rest = a.remove(i);
    lemma_times_remove(a, i, direction);
    lemma_times_remove(a, i, against);
    lemma_put_last(a, i);
    let j = lemma_times_found(rest, direction);
    let k = lemma_times_found(rest, against);
    lemma_put_last(rest, j);
    lemma_put_last(rest, k);
    rest.to_multiset_ensures();
    rest.remove(j).push(rest[j]).to_multiset_ensures();
    rest.remove(k).to_multiset_ensures();
    rest.remove(k).push(a[i]).to_multiset_ensures();
    // Two of the cardinal behind all others.
    let one = rest.remove(j).push(rest[j]).push(a[i]);
    assert(one.to_multiset() =~= rest.to_multiset().insert(a[i]));
    assert(rest.push(a[i]).to_multiset() =~= rest.to_multiset().insert(a[i]));
    assert(one.to_multiset() == a.to_multiset());
    // One of the cardinal and then the opposite behind all others.
    let other = rest.remove(k).push(a[i]).push(rest[k]);
    assert(other.to_multiset() =~= rest.remove(k).to_multiset().insert(a[i]).insert(rest[k]));
    assert(rest.remove(k).push(rest[k]).to_multiset() =~= rest.remove(k).to_multiset().insert(
        rest[k],
    ));
    assert(other.to_multiset() =~= rest.to_multiset().insert(a[i]));
    assert(other.to_multiset() == a.to_multiset());
    // What the two compose to.
    let one_before = rest.remove(j).push(rest[j]);
    assert(one.drop_last() =~= one_before);
    assert(one_before.drop_last() =~= rest.remove(j));
    assert(one_before.last() == rest[j]);
    assert(aggregate(one_before) == aggregate(rest.remove(j)).plus(direction));
    assert(one.last() == a[i]);
    assert(aggregate(one) == aggregate(one_before).plus(direction));
    let other_before = rest.remove(k).push(a[i]);
    assert(other.drop_last() =~= other_before);
    assert(other_before.drop_last() =~= rest.remove(k));
    assert(other_before.last() == a[i]);
    assert(aggregate(other_before) == aggregate(rest.remove(k)).plus(direction));
    assert(other.last() == rest[k]);
    assert(aggregate(other) == aggregate(other_before).plus(against));
    assert(aggregate(one) != aggregate(other));
    if aggregate(one) != aggregate(a) {
        one
    } else {
        other
    }
}

/// An entity that is blocked has something recorded of it.
pub proof fn lemma_blocked_is_recorded(entries: Entries)
    ensures
        aggregate(entries) != Direction::Stationary ==> entries.len() > 0,
{
}

/// Whether `entries` is what an evaluation leaves of `subject`: every
/// entry holds a moving direction, none is for `subject` itself, and no
/// other entity has two.
pub open spec fn tidy(entries: Entries, subject: EntityHandle) -> bool {
    &&& forall|i: int|
        0 <= i < entries.len() ==> (#[trigger] entries[i]).1 != Direction::Stationary
            && entries[i].0 != subject
    &&& forall|i: int, j: int|
        0 <= i < j < entries.len() ==> (#[trigger] entries[i]).0 != (#[trigger] entries[j]).0
}

/// Whether every record of the ledger is tidy and no entity has two.
pub open spec fn consistent(rows: LedgerView) -> bool {
    &&& forall|r: int| 0 <= r < rows.len() ==> tidy((#[trigger] rows[r]).entries, rows[r].subject)
    &&& forall|r: int, q: int|
        0 <= r < q < rows.len() ==> (#[trigger] rows[r]).subject != (#[trigger] rows[q]).subject
}

/// Nothing is recorded for an entity exactly where no entry is for it.
proof fn lemma_recorded_none(entries: Entries, other: EntityHandle)
    ensures
        recorded(entries, other) is None <==> forall|i: int|
            0 <= i < entries.len() ==> (#[trigger] entries[i]).0 != other,
    decreases entries.len(),
{
    if entries.len() > 0 {
        let prefix = entries.drop_last();
        lemma_recorded_none(prefix, other);
        if recorded(entries, other) is None {
            assert forall|i: int| 0 <= i < entries.len() implies (#[trigger] entries[i]).0
                != other by {
                if i < prefix.len() {
                    assert(prefix[i] == entries[i]);
                }
            }
        } else {
            if recorded(prefix, other) is Some {
                let i = choose|i: int| 0 <= i < prefix.len() && (#[trigger] prefix[i]).0 == other;
                assert(entries[i].0 == other);
            } else {
                assert(entries[entries.len() - 1].0 == other);
            }
        }
    }
}

/// A tidy record without its last entry is tidy.
proof fn lemma_tidy_prefix(entries: Entries, subject: EntityHandle)
    requires
        tidy(entries, subject),
        entries.len() > 0,
    ensures
        tidy(entries.drop_last(), subject),
{
    let prefix = entries.drop_last();
    assert forall|i: int| 0 <= i < prefix.len() implies (#[trigger] prefix[i]).1
        != Direction::Stationary && prefix[i].0 != subject by {
        assert(prefix[i] == entries[i]);
    }
    assert forall|i: int, j: int| 0 <= i < j < prefix.len() implies (#[trigger] prefix[i]).0 != (
    #[trigger] prefix[j]).0 by {
        assert(prefix[i] == entries[i]);
        assert(prefix[j] == entries[j]);
    }
}

/// Every entry of a cleared record is an entry of the record it was
/// cleared from, and the entries keep their order.
proof fn lemma_cleared_keeps(entries: Entries, other: EntityHandle, subject: EntityHandle)
    requires
        tidy(entries, subject),
    ensures
        tidy(cleared(entries, other), subject),
        forall|k: int|
            0 <= k < cleared(entries, other).len() ==> exists|i: int|
                0 <= i < entries.len() && entries[i] == #[trigger] cleared(entries, other)[k],
    decreases entries.len(),
{
    if entries.len() > 0 {
        let prefix = entries.drop_last();
        let last = entries.last();
        let n = entries.len() - 1;
        lemma_tidy_prefix(entries, subject);
        lemma_cleared_keeps(prefix, other, subject);
        let rest = cleared(prefix, other);
        let after = cleared(entries, other);
        assert forall|k: int| 0 <= k < after.len() implies exists|i: int|
            0 <= i < entries.len() && entries[i] == #[trigger] after[k] by {
            if k < rest.len() {
                let i = choose|i: int| 0 <= i < prefix.len() && prefix[i] == rest[k];
                assert(entries[i] == after[k]);
            } else {
                assert(entries[n] == after[k]);
            }
        }
        if last.0 != other {
            assert forall|i: int, j: int| 0 <= i < j < after.len() implies (#[trigger] after[i]).0
                != (#[trigger] after[j]).0 by {
                if j < rest.len() {
                    assert(after[i] == rest[i] && after[j] == rest[j]);
                } else {
                    let w = choose|w: int| 0 <= w < prefix.len() && prefix[w] == rest[i];
                    assert(entries[w].0 != entries[n].0);
                }
            }
            assert forall|i: int| 0 <= i < after.len() implies (#[trigger] after[i]).1
                != Direction::Stationary && after[i].0 != subject by {
                if i < rest.len() {
                    assert(after[i] == rest[i]);
                } else {
                    assert(after[i] == entries[n]);
                }
            }
        }
    }
}

/// One step on a pair keeps a record tidy.
proof fn lemma_pair_step_tidy(
    entries: Entries,
    other: EntityHandle,
    direction: Direction,
    subject: EntityHandle,
)
    requires
        tidy(entries, subject),
        other != subject,
    ensures
        tidy(pair_step(entries, other, direction), subject),
{
    lemma_cleared_keeps(entries, other, subject);
    if direction != Direction::Stationary && recorded(entries, other) is None {
        lemma_recorded_none(entries, other);
        let after = entries.push((other, direction));
        assert forall|i: int, j: int| 0 <= i < j < after.len() implies (#[trigger] after[i]).0 != (
        #[trigger] after[j]).0 by {
            assert(after[i] == entries[i]);
            if j < entries.len() {
                assert(after[j] == entries[j]);
            }
        }
        assert forall|i: int| 0 <= i < after.len() implies (#[trigger] after[i]).1
            != Direction::Stationary && after[i].0 != subject by {
            if i < entries.len() {
                assert(after[i] == entries[i]);
            }
        }
    }
}

proof fn lemma_examined_tidy(
    entries: Entries,
    subject: EntityHandle,
    shape: Rectangle,
    rows: LedgerView,
    slots: SlotsView,
    k: int,
)
    requires
        tidy(entries, subject),
        0 <= k <= rows.len(),
    ensures
        tidy(examined(entries, subject, shape, rows, slots, k), subject),
    decreases k,
{
    if k > 0 {
        lemma_examined_tidy(entries, subject, shape, rows, slots, k - 1);
        let other = rows[k - 1].subject;
        if other != subject {
            lemma_pair_step_tidy(
                examined(entries, subject, shape, rows, slots, k - 1),
                other,
                direction_towards(slots, shape, other),
                subject,
            );
        }
    }
}

proof fn lemma_retracted_rows(rows: LedgerView, handle: EntityHandle, n: int)
    requires
        consistent(rows),
        0 <= n <= rows.len(),
    ensures
        consistent(retracted_upto(rows, handle, n)),
        forall|k: int|
            0 <= k < retracted_upto(rows, handle, n).len() ==> exists|r: int|
                0 <= r < n && rows[r].subject == (#[trigger] retracted_upto(
                    rows,
                    handle,
                    n,
                )[k]).subject,
    decreases n,
{
    if n > 0 {
        lemma_retracted_rows(rows, handle, n - 1);
        let rest = retracted_upto(rows, handle, n - 1);
        let after = retracted_upto(rows, handle, n);
        assert forall|k: int| 0 <= k < after.len() implies exists|r: int|
            0 <= r < n && rows[r].subject == (#[trigger] after[k]).subject by {
            if k < rest.len() {
                let r = choose|r: int| 0 <= r < n - 1 && rows[r].subject == rest[k].subject;
                assert(rows[r].subject == after[k].subject);
            } else {
                assert(rows[n - 1].subject == after[k].subject);
            }
        }
        if rows[n - 1].subject != handle {
            lemma_cleared_keeps(rows[n - 1].entries, handle, rows[n - 1].subject);
            assert forall|r: int| 0 <= r < after.len() implies tidy(
                (#[trigger] after[r]).entries,
                after[r].subject,
            ) by {
                if r < rest.len() {
                    assert(after[r] == rest[r]);
                }
            }
            assert forall|r: int, q: int| 0 <= r < q < after.len() implies (
            #[trigger] after[r]).subject != (#[trigger] after[q]).subject by {
                assert(after[r] == rest[r]);
                if q < rest.len() {
                    assert(after[q] == rest[q]);
                } else {
                    let w = choose|w: int| 0 <= w < n - 1 && rows[w].subject == rest[r].subject;
                    assert(rows[w].subject != rows[n - 1].subject);
                }
            }
        }
    }
}

/// The ledger stays consistent: it is so when it is empty, and an
/// evaluation or a retraction leaves it so. Hence a record never holds
/// rest, nor its own subject, nor two entries for one entity.
pub proof fn lemma_ledger_consistent(
    rows: LedgerView,
    slots: SlotsView,
    subject: EntityHandle,
    shape: Rectangle,
    handle: EntityHandle,
)
    requires
        consistent(rows),
    ensures
        consistent(Seq::<RowView>::empty()),
        consistent(evaluated(rows, slots, subject, shape)),
        consistent(retracted(rows, handle)),
{
    let n = rows.len() as int;
    lemma_retracted_rows(rows, handle, n);
    lemma_row_position(rows, subject, n);
    let p = row_of(rows, subject);
    let start = entries_of(rows, subject);
    assert(tidy(start, subject)) by {
        if p < n {
            assert(tidy(rows[p].entries, rows[p].subject));
        }
    }
    lemma_examined_tidy(start, subject, shape, rows, slots, n);
    let after = evaluated(rows, slots, subject, shape);
    assert forall|r: int| 0 <= r < after.len() implies tidy(
        (#[trigger] after[r]).entries,
        after[r].subject,
    ) by {
        if r != p {
            assert(after[r] == rows[r]);
        }
    }
    assert forall|r: int, q: int| 0 <= r < q < after.len() implies (#[trigger] after[r]).subject
        != (#[trigger] after[q]).subject by {
        if q < n {
            assert(after[r].subject == rows[r].subject);
            assert(after[q].subject == rows[q].subject);
        } else {
            assert(after[r].subject == rows[r].subject);
            assert(rows[r].subject != subject);
        }
    }
}

/// Records of collisions between entities. Each evaluation of an entity
/// holds it against the entities that were evaluated before, and keeps
/// for each pair the direction found when the two began to overlap, until
/// they come apart.
#[derive(Debug)]
pub struct CollisionComponent {
    colliding_objects: Vec<LedgerRow>,
}

impl View for CollisionComponent {
    type V = LedgerView;

    closed spec fn view(&self) -> LedgerView {
        Seq::new(self.colliding_objects@.len(), |i: int| self.colliding_objects@[i]@)
    }
}

/// The place of the first entry for `other` in `entries`, if there is one.
fn find_entry(entries: &Vec<(EntityHandle, Direction)>, other: EntityHandle) -> (res: Option<
    usize,
>)
    ensures
        match res {
            Some(i) => i < entries@.len() && entries@[i as int].0 == other && recorded(
                entries@,
                other,
            ) == Some(entries@[i as int].1),
            None => recorded(entries@, other) is None,
        },
{
    let mut i: usize = 0;
    while i < entries.len()
        invariant
            0 <= i <= entries.len(),
            recorded(entries@.take(i as int), other) is None,
        decreases entries.len() - i,
    {
        if entries[i].0 == other {
            proof {
                assert(entries@.take(i + 1).drop_last() =~= entries@.take(i as int));
                lemma_recorded_prefix(entries@, other, i + 1, entries@.len() as int);
            }
            return Some(i);
        }
        proof {
            assert(entries@.take(i + 1).drop_last() =~= entries@.take(i as int));
        }
        i = i + 1;
    }
    proof {
        assert(entries@.take(i as int) =~= entries@);
    }
    None
}

/// What is recorded in a prefix is recorded in every longer one.
proof fn lemma_recorded_prefix(entries: Entries, other: EntityHandle, i: int, n: int)
    requires
        0 <= i <= n <= entries.len(),
        recorded(entries.take(i), other) is Some,
    ensures
        recorded(entries.take(n), other) == recorded(entries.take(i), other),
        n == entries.len() ==> recorded(entries, other) == recorded(entries.take(i), other),
    decreases n - i,
{
    if i < n {
        lemma_recorded_prefix(entries, other, i, n - 1);
        assert(entries.take(n).drop_last() =~= entries.take(n - 1));
    }
    if n == entries.len() {
        assert(entries.take(n) =~= entries);
    }
}

/// Takes the entries for `other` out of `entries`.
fn clear_entries(entries: &mut Vec<(EntityHandle, Direction)>, other: EntityHandle)
    ensures
        final(entries)@ == cleared(old(entries)@, other),
{
    let mut kept: Vec<(EntityHandle, Direction)> = Vec::new();
    let mut i: usize = 0;
    while i < entries.len()
        invariant
            0 <= i <= entries.len(),
            kept@ == cleared(entries@.take(i as int), other),
        decreases entries.len() - i,
    {
        proof {
            assert(entries@.take(i + 1).drop_last() =~= entries@.take(i as int));
        }
        if entries[i].0 != other {
            kept.push(entries[i]);
        }
        i = i + 1;
    }
    proof {
        assert(entries@.take(i as int) =~= entries@);
    }
    *entries = kept;
}

/// Brings `entries` up to date on the pair with `other`.
fn step_pair(entries: &mut Vec<(EntityHandle, Direction)>, other: EntityHandle, direction: Direction)
    ensures
        final(entries)@ == pair_step(old(entries)@, other, direction),
{
    if direction != Direction::Stationary {
        match find_entry(entries, other) {
            Some(_) => {},
            None => {
                entries.push((other, direction));
            },
        }
    } else {
        clear_entries(entries, other);
    }
}

/// The directions of `entries` composed in their order.
fn fold_entries(entries: &Vec<(EntityHandle, Direction)>) -> (res: Direction)
    ensures
        res == aggregate(entries@),
{
    let mut direction = Direction::Stationary;
    let mut i: usize = 0;
    while i < entries.len()
        invariant
            0 <= i <= entries.len(),
            direction == aggregate(entries@.take(i as int)),
        decreases entries.len() - i,
    {
        proof {
            assert(entries@.take(i + 1).drop_last() =~= entries@.take(i as int));
        }
        direction = direction.add_direction(entries[i].1);
        i = i + 1;
    }
    proof {
        assert(entries@.take(i as int) =~= entries@);
    }
    direction
}

impl CollisionComponent {
    /// A detector that has seen no entity yet.
    pub fn new() -> (res: CollisionComponent)
        ensures
            res@ == Seq::<RowView>::empty(),
    {
        let res = CollisionComponent { colliding_objects: Vec::new() };
        assert(res@ =~= Seq::<RowView>::empty());
        res
    }

    /// The name under which a detector is attached.
    pub fn get_name() -> (res: String)
        ensures
            res@ == "collision"@,
    {
        "collision".to_owned()
    }

    /// The direction in which the rectangle given by `other_x`, `other_y`,
    /// `other_height` and `other_width` blocks the one given by the first
    /// four arguments.
    pub fn get_collision_direction(
        x: i32,
        y: i32,
        width: i32,
        height: i32,
        other_x: i32,
        other_y: i32,
        other_height: i32,
        other_width: i32,
    ) -> (res: Direction)
        ensures
            res == overlap_direction(
                Rectangle { x, y, width, height },
                Rectangle { x: other_x, y: other_y, width: other_width, height: other_height },
            ),
    {
        let mut direction = Direction::Stationary;
        let x_range: i64 = if x >= other_x {
            x as i64 - other_x as i64
        } else {
            other_x as i64 - x as i64
        };
        let y_range: i64 = if y >= other_y {
            y as i64 - other_y as i64
        } else {
            other_y as i64 - y as i64
        };
        let in_x_range = x_range <= width as i64 || x_range <= other_width as i64;
        let in_y_range = y_range <= height as i64;
        if !(in_x_range && in_y_range) {
            return direction;
        }
        let left_position: i64 = x as i64;
        let right_position: i64 = x as i64 + width as i64;
        let other_left_position: i64 = other_x as i64;
        let other_right_position: i64 = other_x as i64 + other_width as i64;
        let top_position: i64 = y as i64;
        let bottom_position: i64 = y as i64 - height as i64;
        let other_top_position: i64 = other_y as i64;
        let other_bottom_position: i64 = other_y as i64 - other_height as i64;
        let down_collision = bottom_position <= other_top_position && bottom_position
            >= other_bottom_position;
        let up_collision = top_position >= other_bottom_position && top_position
            <= other_top_position;
        let right_collision = right_position >= other_left_position && right_position
            <= other_right_position;
        let left_collision = left_position > other_left_position && left_position
            < other_right_position;
        if right_collision {
            direction = direction.add_direction(Direction::Right);
        }
        if left_collision {
            direction = direction.add_direction(Direction::Left);
        }
        if down_collision {
            direction = direction.add_direction(Direction::Down);
        }
        if up_collision {
            direction = direction.add_direction(Direction::Up);
        }
        direction
    }

    /// The direction in which `other` blocks `entity`.
    pub fn calculate_collision_direction(entity: Rectangle, other_entity: Rectangle) -> (res:
        Direction)
        ensures
            res == overlap_direction(entity, other_entity),
    {
        CollisionComponent::get_collision_direction(
            entity.x,
            entity.y,
            entity.width,
            entity.height,
            other_entity.x,
            other_entity.y,
            other_entity.height,
            other_entity.width,
        )
    }

    /// The place of the row of `subject`, or the number of rows.
    fn find_row(&self, subject: EntityHandle) -> (res: usize)
        ensures
            res == row_of(self@, subject),
            res <= self@.len(),
    {
        let mut i: usize = 0;
        while i < self.colliding_objects.len()
            invariant
                0 <= i <= self.colliding_objects.len(),
                row_position(self@, subject, i as int) == i,
            decreases self.colliding_objects.len() - i,
        {
            if self.colliding_objects[i].subject == subject {
                proof {
                    assert(self@[i as int].subject == subject);
                    lemma_row_position_stays(self@, subject, i as int, self@.len() as int);
                }
                return i;
            }
            assert(self@[i as int].subject != subject);
            i = i + 1;
        }
        i
    }

    /// Whether anything blocks the entity that `entity_ref` names.
    pub fn get_is_collided(&self, entity_ref: EntityHandle) -> (res: bool)
        ensures
            res == (entries_of(self@, entity_ref).len() > 0),
    {
        let i = self.find_row(entity_ref);
        if i < self.colliding_objects.len() {
            assert(self@[i as int].entries == self.colliding_objects@[i as int].entries@);
            self.colliding_objects[i].entries.len() > 0
        } else {
            false
        }
    }

    /// The direction in which the entity that `entity_ref` names is
    /// blocked: the directions recorded of it, composed in their order.
    pub fn get_entity_collision_direction(&self, entity_ref: EntityHandle) -> (res: Direction)
        ensures
            res == aggregate(entries_of(self@, entity_ref)),
    {
        let i = self.find_row(entity_ref);
        if i < self.colliding_objects.len() {
            assert(self@[i as int].entries == self.colliding_objects@[i as int].entries@);
            fold_entries(&self.colliding_objects[i].entries)
        } else {
            Direction::Stationary
        }
    }

    /// Evaluates `entity`, which has the shape `shape`, against every
    /// entity that was evaluated before, brings its record up to date and
    /// returns the direction in which it is blocked now.
    pub fn get_final_collission_direction(
        &mut self,
        registry: &Registry,
        entity: EntityHandle,
        shape: Rectangle,
    ) -> (res: Direction)
        ensures
            final(self)@ == evaluated(old(self)@, registry@, entity, shape),
            res == aggregate(evaluated_entries(old(self)@, registry@, entity, shape)),
    {
        let candidates = self.colliding_objects.len();
        let position = self.find_row(entity);
        if position == candidates {
            self.colliding_objects.push(LedgerRow { subject: entity, entries: Vec::new() });
        }
        let ghost before = old(self)@;
        let ghost start = entries_of(before, entity);
        proof {
            lemma_row_position(before, entity, before.len() as int);
            assert(self.colliding_objects@[position as int]@.entries =~= start);
        }
        let mut k: usize = 0;
        while k < candidates
            invariant
                0 <= k <= candidates,
                candidates == before.len(),
                position < self.colliding_objects@.len(),
                position <= candidates,
                self.colliding_objects@.len() == if position < candidates {
                    candidates as int
                } else {
                    candidates + 1
                },
                forall|j: int|
                    0 <= j < candidates ==> (#[trigger] self.colliding_objects@[j]).subject
                        == before[j].subject,
                forall|j: int|
                    0 <= j < candidates && j != position ==> (
                    #[trigger] self.colliding_objects@[j])@ == before[j],
                self.colliding_objects@[position as int].subject == entity,
                self.colliding_objects@[position as int].entries@ == examined(
                    start,
                    entity,
                    shape,
                    before,
                    registry@,
                    k as int,
                ),
            decreases candidates - k,
        {
            let other = self.colliding_objects[k].subject;
            if other != entity {
                let direction = match registry.get(other) {
                    Some(other_entity) => CollisionComponent::calculate_collision_direction(
                        shape,
                        other_entity.get_shape(),
                    ),
                    None => Direction::Stationary,
                };
                step_pair(&mut self.colliding_objects[position].entries, other, direction);
            }
            k = k + 1;
        }
        let res = fold_entries(&self.colliding_objects[position].entries);
        proof {
            let after = evaluated(before, registry@, entity, shape);
            assert(self@.len() == after.len());
            assert forall|j: int| 0 <= j < after.len() implies self@[j] == after[j] by {
                if j == position {
                    assert(self@[j].entries == after[j].entries);
                } else {
                    assert(self.colliding_objects@[j]@ == before[j]);
                }
            }
            assert(self@ =~= after);
        }
        res
    }

    /// Takes every trace of `handle` out of the ledger: its own record and
    /// what the other records hold for it.
    pub fn retract(&mut self, handle: EntityHandle)
        ensures
            final(self)@ == retracted(old(self)@, handle),
    {
        let mut kept: Vec<LedgerRow> = Vec::new();
        let ghost before = self@;
        let mut rows: Vec<LedgerRow> = Vec::new();
        std::mem::swap(&mut rows, &mut self.colliding_objects);
        let mut i: usize = 0;
        let ghost kept_view: LedgerView = Seq::empty();
        while i < rows.len()
            invariant
                0 <= i <= rows.len(),
                rows@.len() == before.len(),
                forall|j: int| i <= j < rows@.len() ==> (#[trigger] rows@[j])@ == before[j],
                kept_view == retracted_upto(before, handle, i as int),
                kept_view.len() == kept@.len(),
                forall|j: int| 0 <= j < kept@.len() ==> (#[trigger] kept@[j])@ == kept_view[j],
            decreases rows.len() - i,
        {
            if rows[i].subject != handle {
                let mut entries: Vec<(EntityHandle, Direction)> = Vec::new();
                std::mem::swap(&mut entries, &mut rows[i].entries);
                clear_entries(&mut entries, handle);
                let row = LedgerRow { subject: rows[i].subject, entries };
                proof {
                    kept_view = kept_view.push(row@);
                }
                kept.push(row);
            }
            i = i + 1;
        }
        self.colliding_objects = kept;
        assert(self@ =~= retracted(before, handle));
    }
}

} // verus!
