//! The stream of the emitted runtime, as verified code.
//!
//! A stream is a ring of cells with one cursor. A push writes the cell under
//! the cursor and a pop takes it; both move the cursor on by one. Characters
//! are held by their values, so that a cell is of one size whatever the
//! alphabet. The preamble emits this stream in source form.

use crate::parser::state::alphabet::{law_bijection, Alphabet, AlphabetError, AlphabetView};
use vstd::arithmetic::div_mod::{
    lemma_add_mod_noop_right, lemma_mod_add_multiples_vanish, lemma_small_mod,
};
use vstd::prelude::*;
use vstd::string::*;

verus! {

/// What a cell of a stream holds.
#[derive(Clone, Copy, Debug, PartialEq, Eq, Structural)]
pub enum StreamItem {
    /// Nothing: the cell was never written, or it was taken.
    Empty,
    /// A character, by its value.
    Character(u128),
    /// A moment.
    Moment(u128),
}

/// Why a push is refused.
#[derive(Clone, Copy, Debug, PartialEq, Eq, Structural)]
pub enum ExitError {
    /// The stream holds as many items as it has cells.
    BufferFull,
}

/// One step of a stream.
#[derive(Clone, Copy, Debug, PartialEq, Eq, Structural)]
pub enum Op {
    SetInitialMoment(u128),
    Push(u128),
    PushMoment(u128),
    Pop,
}

/// The number of cells that hold a character.
pub open spec fn count_characters(cells: Seq<StreamItem>) -> nat
    decreases cells.len(),
{
    if cells.len() == 0 {
        0
    } else {
        count_characters(cells.drop_last()) + if cells.last() is Character {
            1nat
        } else {
            0nat
        }
    }
}

/// The number of cells that hold a moment.
pub open spec fn count_moments(cells: Seq<StreamItem>) -> nat
    decreases cells.len(),
{
    if cells.len() == 0 {
        0
    } else {
        count_moments(cells.drop_last()) + if cells.last() is Moment {
            1nat
        } else {
            0nat
        }
    }
}

/// A stream as a value.
pub struct StreamView {
    pub cells: Seq<StreamItem>,
    /// The cursor.
    pub idx: nat,
    pub buffered_total: nat,
    pub buffered_moments: nat,
    pub buffered_characters: nat,
    pub last_seen_moment: Option<u128>,
}

impl StreamView {
    /// The number of cells.
    pub open spec fn capacity(self) -> nat {
        self.cells.len()
    }

    /// The invariant of a stream: it has a cell, the cursor is on a cell,
    /// the counters of characters and moments add up to the total, the
    /// total is no more than the capacity, and no counter is less than the
    /// number of cells that hold what it counts.
    pub open spec fn wf(self) -> bool {
        &&& self.cells.len() > 0
        &&& self.cells.len() <= usize::MAX
        &&& self.idx < self.cells.len()
        &&& self.buffered_characters + self.buffered_moments == self.buffered_total
        &&& self.buffered_total <= self.cells.len()
        &&& count_characters(self.cells) <= self.buffered_characters
        &&& count_moments(self.cells) <= self.buffered_moments
    }

    /// A stream of `capacity` empty cells.
    pub open spec fn empty(capacity: nat) -> StreamView {
        StreamView {
            cells: Seq::new(capacity, |i: int| StreamItem::Empty),
            idx: 0,
            buffered_total: 0,
            buffered_moments: 0,
            buffered_characters: 0,
            last_seen_moment: None,
        }
    }

    /// Whether a push is accepted.
    pub open spec fn accepting(self) -> bool {
        self.buffered_total < self.cells.len()
    }

    /// The cursor after one more step.
    pub open spec fn next(self) -> nat {
        ((self.idx + 1) as int % (self.cells.len() as int)) as nat
    }

    /// The cell under the cursor.
    pub open spec fn head(self) -> StreamItem {
        self.cells[self.idx as int]
    }

    /// The stream after `set_initial_moment`.
    pub open spec fn started(self, moment: u128) -> StreamView {
        StreamView { last_seen_moment: Some(moment), ..self }
    }

    /// The stream after a push of a character: where the push is accepted,
    /// the cell under the cursor holds the character, the counters of
    /// characters and of all items are one more, and the cursor has moved
    /// on; where it is refused, nothing has changed.
    pub open spec fn pushed(self, chr: u128) -> StreamView {
        if self.accepting() {
            StreamView {
                cells: self.cells.update(self.idx as int, StreamItem::Character(chr)),
                idx: self.next(),
                buffered_total: self.buffered_total + 1,
                buffered_characters: self.buffered_characters + 1,
                ..self
            }
        } else {
            self
        }
    }

    /// The stream after a push of a moment.
    pub open spec fn pushed_moment(self, moment: u128) -> StreamView {
        if self.accepting() {
            StreamView {
                cells: self.cells.update(self.idx as int, StreamItem::Moment(moment)),
                idx: self.next(),
                buffered_total: self.buffered_total + 1,
                buffered_moments: self.buffered_moments + 1,
                ..self
            }
        } else {
            self
        }
    }

    /// What a push returns.
    pub open spec fn push_result(self) -> Result<(), ExitError> {
        if self.accepting() {
            Ok(())
        } else {
            Err(ExitError::BufferFull)
        }
    }

    /// The stream after a pop: the cell under the cursor is empty and the
    /// cursor has moved on. Where the cell held a character or a moment, its
    /// counter and the total are one less, and a moment is the last seen.
    pub open spec fn popped(self) -> StreamView {
        let taken = StreamView {
            cells: self.cells.update(self.idx as int, StreamItem::Empty),
            idx: self.next(),
            ..self
        };
        match self.head() {
            StreamItem::Character(_) => StreamView {
                buffered_total: (self.buffered_total - 1) as nat,
                buffered_characters: (self.buffered_characters - 1) as nat,
                ..taken
            },
            StreamItem::Moment(moment) => StreamView {
                buffered_total: (self.buffered_total - 1) as nat,
                buffered_moments: (self.buffered_moments - 1) as nat,
                last_seen_moment: Some(moment),
                ..taken
            },
            StreamItem::Empty => taken,
        }
    }

    /// The stream after one step.
    pub open spec fn step(self, op: Op) -> StreamView {
        match op {
            Op::SetInitialMoment(m) => self.started(m),
            Op::Push(c) => self.pushed(c),
            Op::PushMoment(m) => self.pushed_moment(m),
            Op::Pop => self.popped(),
        }
    }

    /// The stream after some steps.
    pub open spec fn after(self, ops: Seq<Op>) -> StreamView
        decreases ops.len(),
    {
        if ops.len() == 0 {
            self
        } else {
            self.after(ops.drop_last()).step(ops.last())
        }
    }
}

/// What `forward_duration` leaves and returns: the gateway, the exit, and
/// the result. While the cell under the gateway's cursor holds a character,
/// the character is popped and pushed to the exit; a push that the exit
/// refuses ends the forwarding, with the character lost.
pub open spec fn forwarded(gateway: StreamView, exit: StreamView) -> (
    StreamView,
    StreamView,
    Result<(), ExitError>,
)
    decreases count_characters(gateway.cells),
{
    if gateway.wf() && gateway.head() is Character {
        proof {
            lemma_count_update(gateway.cells, gateway.idx as int, StreamItem::Empty);
        }
        if exit.accepting() {
            forwarded(gateway.popped(), exit.pushed(gateway.head()->Character_0))
        } else {
            (gateway.popped(), exit, Err(ExitError::BufferFull))
        }
    } else {
        (gateway, exit, Ok(()))
    }
}

/// How the two counts change when one cell is written.
pub proof fn lemma_count_update(cells: Seq<StreamItem>, i: int, item: StreamItem)
    requires
        0 <= i < cells.len(),
    ensures
        count_characters(cells.update(i, item)) + (if cells[i] is Character {
            1nat
        } else {
            0nat
        }) == count_characters(cells) + (if item is Character {
            1nat
        } else {
            0nat
        }),
        count_moments(cells.update(i, item)) + (if cells[i] is Moment {
            1nat
        } else {
            0nat
        }) == count_moments(cells) + (if item is Moment {
            1nat
        } else {
            0nat
        }),
    decreases cells.len(),
{
    let updated = cells.update(i, item);
    if i == cells.len() - 1 {
        assert(updated.drop_last() =~= cells.drop_last());
    } else {
        lemma_count_update(cells.drop_last(), i, item);
        assert(updated.drop_last() =~= cells.drop_last().update(i, item));
    }
}

/// Empty cells count for nothing.
pub proof fn lemma_count_empty(n: nat)
    ensures
        count_characters(Seq::new(n, |i: int| StreamItem::Empty)) == 0,
        count_moments(Seq::new(n, |i: int| StreamItem::Empty)) == 0,
    decreases n,
{
    if n > 0 {
        lemma_count_empty((n - 1) as nat);
        assert(Seq::new(n, |i: int| StreamItem::Empty).drop_last() =~= Seq::new(
            (n - 1) as nat,
            |i: int| StreamItem::Empty,
        ));
    }
}

/// Every step keeps the invariant of a stream.
pub proof fn lemma_step_wf(s: StreamView, op: Op)
    requires
        s.wf(),
    ensures
        s.step(op).wf(),
        s.step(op).cells.len() == s.cells.len(),
{
    match op {
        Op::SetInitialMoment(_) => {},
        Op::Push(c) => {
            lemma_count_update(s.cells, s.idx as int, StreamItem::Character(c));
        },
        Op::PushMoment(m) => {
            lemma_count_update(s.cells, s.idx as int, StreamItem::Moment(m));
        },
        Op::Pop => {
            lemma_count_update(s.cells, s.idx as int, StreamItem::Empty);
        },
    }
}

/// Whether every step is a push, of a character or of a moment.
pub open spec fn all_pushes(ops: Seq<Op>) -> bool {
    forall|i: int| 0 <= i < ops.len() ==> (#[trigger] ops[i]) is Push || ops[i] is PushMoment
}

/// `n` pops.
pub open spec fn pops(n: nat) -> Seq<Op> {
    Seq::new(n, |i: int| Op::Pop)
}

/// Steps after steps are the steps of both, one after the other.
pub proof fn lemma_after_concat(s: StreamView, a: Seq<Op>, b: Seq<Op>)
    ensures
        s.after(a + b) == s.after(a).after(b),
    decreases b.len(),
{
    if b.len() == 0 {
        assert(a + b =~= a);
    } else {
        lemma_after_concat(s, a, b.drop_last());
        assert((a + b).drop_last() =~= a + b.drop_last());
        assert((a + b).last() == b.last());
    }
}

/// Pushes that find room all succeed: the total grows by their number and
/// the cursor moves on by their number, around the ring.
pub proof fn lemma_pushes_with_room(s: StreamView, ops: Seq<Op>)
    requires
        s.wf(),
        all_pushes(ops),
        s.buffered_total + ops.len() <= s.capacity(),
    ensures
        s.after(ops).wf(),
        s.after(ops).capacity() == s.capacity(),
        s.after(ops).buffered_total == s.buffered_total + ops.len(),
        s.after(ops).idx == (s.idx + ops.len()) as int % (s.capacity() as int),
    decreases ops.len(),
{
    let m = s.capacity() as int;
    if ops.len() == 0 {
        lemma_small_mod(s.idx, s.capacity());
    } else {
        let before = ops.drop_last();
        assert(all_pushes(before)) by {
            assert forall|i: int| 0 <= i < before.len() implies (#[trigger] before[i]) is Push
                || before[i] is PushMoment by {
                assert(before[i] == ops[i]);
            }
        }
        lemma_pushes_with_room(s, before);
        let t = s.after(before);
        lemma_step_wf(t, ops.last());
        assert(ops.last() is Push || ops.last() is PushMoment);
        lemma_add_mod_noop_right(1, (s.idx + before.len()) as int, m);
    }
}

/// Pushes to a full stream change nothing.
pub proof fn lemma_pushes_when_full(s: StreamView, ops: Seq<Op>)
    requires
        all_pushes(ops),
        s.buffered_total == s.capacity(),
    ensures
        s.after(ops) == s,
    decreases ops.len(),
{
    if ops.len() > 0 {
        let before = ops.drop_last();
        assert(all_pushes(before)) by {
            assert forall|i: int| 0 <= i < before.len() implies (#[trigger] before[i]) is Push
                || before[i] is PushMoment by {
                assert(before[i] == ops[i]);
            }
        }
        lemma_pushes_when_full(s, before);
        assert(ops.last() is Push || ops.last() is PushMoment);
    }
}

/// Pops move the cursor on by their number, around the ring.
pub proof fn lemma_pops(s: StreamView, n: nat)
    requires
        s.wf(),
    ensures
        s.after(pops(n)).wf(),
        s.after(pops(n)).capacity() == s.capacity(),
        s.after(pops(n)).idx == (s.idx + n) as int % (s.capacity() as int),
    decreases n,
{
    let m = s.capacity() as int;
    if n == 0 {
        lemma_small_mod(s.idx, s.capacity());
    } else {
        assert(pops(n).drop_last() =~= pops((n - 1) as nat));
        lemma_pops(s, (n - 1) as nat);
        let t = s.after(pops((n - 1) as nat));
        lemma_step_wf(t, Op::Pop);
        lemma_add_mod_noop_right(1, (s.idx + n - 1) as int, m);
    }
}

/// Counter law: whatever steps a stream takes, its counters of characters
/// and of moments add up to its total, and the total is no more than its
/// capacity.
pub proof fn law_counters(s: StreamView, ops: Seq<Op>)
    requires
        s.wf(),
    ensures
        s.after(ops).wf(),
        s.after(ops).capacity() == s.capacity(),
        s.after(ops).buffered_characters + s.after(ops).buffered_moments == s.after(
            ops,
        ).buffered_total,
        s.after(ops).buffered_total <= s.capacity(),
    decreases ops.len(),
{
    if ops.len() > 0 {
        law_counters(s, ops.drop_last());
        lemma_step_wf(s.after(ops.drop_last()), ops.last());
    }
}

/// Capacity: a stream that holds as many items as it has cells refuses
/// every push and stays as it is.
pub proof fn law_full_stream_refuses(s: StreamView, value: u128)
    requires
        s.wf(),
        s.buffered_total == s.capacity(),
    ensures
        s.push_result() == Err::<(), ExitError>(ExitError::BufferFull),
        s.pushed(value) == s,
        s.pushed_moment(value) == s,
{
}

/// Round trip: a pop that follows an accepted push takes the cell that
/// comes after the one that the push wrote. So it yields the pushed
/// character exactly where the ring has one cell, or where the cell after
/// the cursor held that character already.
pub proof fn law_push_then_pop(s: StreamView, chr: u128)
    requires
        s.wf(),
        s.accepting(),
    ensures
        s.pushed(chr).head() == StreamItem::Character(chr) <==> (s.capacity() == 1
            || s.cells[s.next() as int] == StreamItem::Character(chr)),
        s.capacity() == 1 ==> s.pushed(chr).popped().cells == s.cells.update(
            s.idx as int,
            StreamItem::Empty,
        ),
{
    let m = s.capacity() as int;
    if m == 1 {
        assert(s.next() == s.idx);
        assert(s.pushed(chr).popped().cells =~= s.cells.update(s.idx as int, StreamItem::Empty));
    } else {
        if s.idx + 1 < m {
            lemma_small_mod((s.idx + 1) as nat, m as nat);
        } else {
            lemma_mod_add_multiples_vanish(0, m);
            lemma_small_mod(0, m as nat);
        }
        assert(s.next() != s.idx);
    }
}

/// Round trip by name: on a ring of one cell, a character of a well-formed
/// alphabet that is pushed by its value and popped again is found to be the
/// same variant.
pub proof fn law_named_round_trip(a: AlphabetView, chr: int, s: StreamView)
    requires
        a.wf(),
        0 <= chr < a.chars.len(),
        s.wf(),
        s.accepting(),
        s.capacity() == 1,
    ensures
        s.pushed(a.to_val(chr) as u128).head() matches StreamItem::Character(raw) && a.to_char(raw)
            == Ok::<int, AlphabetError>(chr),
{
    law_bijection(a, chr);
    law_push_then_pop(s, a.to_val(chr) as u128);
}

/// Cursor modularity: as many pushes as the stream has cells and then as
/// many pops bring the cursor back to where it was, for a stream that
/// holds nothing and for one that is full.
pub proof fn law_cursor_returns(s: StreamView, pushes: Seq<Op>)
    requires
        s.wf(),
        all_pushes(pushes),
        pushes.len() == s.capacity(),
        s.buffered_total == 0 || s.buffered_total == s.capacity(),
    ensures
        s.after(pushes + pops(s.capacity())).idx == s.idx,
{
    let m = s.capacity() as int;
    lemma_after_concat(s, pushes, pops(s.capacity()));
    let t = s.after(pushes);
    if s.buffered_total == 0 {
        lemma_pushes_with_room(s, pushes);
    } else {
        lemma_pushes_when_full(s, pushes);
    }
    lemma_mod_add_multiples_vanish(s.idx as int, m);
    lemma_small_mod(s.idx, s.capacity());
    assert(t.idx == s.idx);
    lemma_pops(t, s.capacity());
}

/// A stream of fixed capacity: an exit on its pushing side, a gateway on
/// its popping side.
#[derive(Debug)]
pub struct Stream {
    buffer: Vec<StreamItem>,
    idx: usize,
    buffered_total: usize,
    buffered_moments: usize,
    buffered_characters: usize,
    last_seen_moment: Option<u128>,
}

impl View for Stream {
    type V = StreamView;

    closed spec fn view(&self) -> StreamView {
        StreamView {
            cells: self.buffer@,
            idx: self.idx as nat,
            buffered_total: self.buffered_total as nat,
            buffered_moments: self.buffered_moments as nat,
            buffered_characters: self.buffered_characters as nat,
            last_seen_moment: self.last_seen_moment,
        }
    }
}

impl Stream {
    /// A stream of `capacity` cells, all empty.
    pub fn new(capacity: usize) -> (stream: Stream)
        requires
            capacity > 0,
        ensures
            stream@ == StreamView::empty(capacity as nat),
            stream@.wf(),
    {
        let mut buffer: Vec<StreamItem> = Vec::new();
        let mut i: usize = 0;
        while i < capacity
            invariant
                i <= capacity,
                buffer@.len() == i,
                forall|j: int| 0 <= j < i ==> buffer@[j] == StreamItem::Empty,
            decreases capacity - i,
        {
            buffer.push(StreamItem::Empty);
            i += 1;
        }
        proof {
            assert(buffer@ =~= Seq::new(capacity as nat, |i: int| StreamItem::Empty));
            lemma_count_empty(capacity as nat);
        }
        Stream {
            buffer,
            idx: 0,
            buffered_total: 0,
            buffered_moments: 0,
            buffered_characters: 0,
            last_seen_moment: None,
        }
    }

    /// The number of cells.
    pub fn capacity(&self) -> (n: usize)
        ensures
            n == self@.capacity(),
    {
        self.buffer.len()
    }

    /// The cursor.
    pub fn cursor(&self) -> (idx: usize)
        ensures
            idx == self@.idx,
    {
        self.idx
    }

    /// The counter of all items.
    pub fn buffered_total(&self) -> (n: usize)
        ensures
            n == self@.buffered_total,
    {
        self.buffered_total
    }

    /// The counter of characters.
    pub fn buffered_characters(&self) -> (n: usize)
        ensures
            n == self@.buffered_characters,
    {
        self.buffered_characters
    }

    /// The counter of moments.
    pub fn buffered_moments(&self) -> (n: usize)
        ensures
            n == self@.buffered_moments,
    {
        self.buffered_moments
    }

    /// The cell at a place of the ring.
    pub fn cell(&self, i: usize) -> (item: StreamItem)
        requires
            i < self@.capacity(),
        ensures
            item == self@.cells[i as int],
    {
        self.buffer[i]
    }

    /// Sets the moment that the stream's clock starts at.
    pub fn set_initial_moment(&mut self, moment: u128)
        ensures
            final(self)@ == old(self)@.started(moment),
    {
        self.last_seen_moment = Some(moment);
    }

    /// Whether the stream holds fewer items than it has cells.
    pub fn accepting_pushes(&self) -> (b: bool)
        ensures
            b == self@.accepting(),
    {
        self.buffered_total < self.buffer.len()
    }

    /// Moves the cursor on by one, around the ring.
    fn inc_index(&mut self)
        requires
            old(self).idx < old(self).buffer@.len(),
        ensures
            final(self).idx == old(self)@.next(),
            final(self).buffer == old(self).buffer,
            final(self).buffered_total == old(self).buffered_total,
            final(self).buffered_moments == old(self).buffered_moments,
            final(self).buffered_characters == old(self).buffered_characters,
            final(self).last_seen_moment == old(self).last_seen_moment,
    {
        let n = self.buffer.len();
        self.idx = (self.idx + 1) % n;
    }

    /// Pushes a character, by its value. A stream that holds as many items
    /// as it has cells refuses the push and stays as it is.
    pub fn push(&mut self, chr: u128) -> (r: Result<(), ExitError>)
        requires
            old(self)@.wf(),
        ensures
            final(self)@ == old(self)@.pushed(chr),
            r == old(self)@.push_result(),
            final(self)@.wf(),
    {
        proof {
            lemma_step_wf(self@, Op::Push(chr));
        }
        if self.accepting_pushes() {
            self.buffer.set(self.idx, StreamItem::Character(chr));
            self.buffered_characters += 1;
            self.buffered_total += 1;
            self.inc_index();
            Ok(())
        } else {
            Err(ExitError::BufferFull)
        }
    }

    /// Pushes the character of `alphabet` that has this name. The name must
    /// be one of the alphabet.
    pub fn push_with_name(&mut self, alphabet: &Alphabet, name: &str) -> (r: Result<(), ExitError>)
        requires
            old(self)@.wf(),
            alphabet@.char_with_name(name@) is Ok,
        ensures
            final(self)@ == old(self)@.pushed(
                alphabet@.to_val(alphabet@.char_with_name(name@)->Ok_0) as u128,
            ),
            r == old(self)@.push_result(),
            final(self)@.wf(),
    {
        let chr = alphabet.char_with_name(name).unwrap();
        self.push(alphabet.to_val(chr))
    }

    /// Pushes a moment. A stream that holds as many items as it has cells
    /// refuses the push and stays as it is.
    pub fn push_moment(&mut self, moment: u128) -> (r: Result<(), ExitError>)
        requires
            old(self)@.wf(),
        ensures
            final(self)@ == old(self)@.pushed_moment(moment),
            r == old(self)@.push_result(),
            final(self)@.wf(),
    {
        proof {
            lemma_step_wf(self@, Op::PushMoment(moment));
        }
        if self.accepting_pushes() {
            self.buffer.set(self.idx, StreamItem::Moment(moment));
            self.buffered_moments += 1;
            self.buffered_total += 1;
            self.inc_index();
            Ok(())
        } else {
            Err(ExitError::BufferFull)
        }
    }

    /// Takes the cell under the cursor and moves the cursor on.
    pub fn pop(&mut self) -> (item: StreamItem)
        requires
            old(self)@.wf(),
        ensures
            item == old(self)@.head(),
            final(self)@ == old(self)@.popped(),
            final(self)@.wf(),
    {
        proof {
            lemma_step_wf(self@, Op::Pop);
            lemma_count_update(self@.cells, self.idx as int, StreamItem::Empty);
        }
        let last = self.buffer[self.idx];
        self.buffer.set(self.idx, StreamItem::Empty);
        match last {
            StreamItem::Character(_) => {
                self.buffered_characters -= 1;
                self.buffered_total -= 1;
            },
            StreamItem::Moment(moment) => {
                self.buffered_moments -= 1;
                self.buffered_total -= 1;
                self.last_seen_moment = Some(moment);
            },
            StreamItem::Empty => {},
        }
        self.inc_index();
        last
    }

    /// Pops the characters in front of the next moment and pushes them to
    /// `exit`. The moment stays in the stream. A push that `exit` refuses
    /// ends the forwarding.
    pub fn forward_duration(&mut self, exit: &mut Stream) -> (r: Result<(), ExitError>)
        requires
            old(self)@.wf(),
            old(exit)@.wf(),
        ensures
            (final(self)@, final(exit)@, r) == forwarded(old(self)@, old(exit)@),
            final(self)@.wf(),
            final(exit)@.wf(),
    {
        while self.next_is_character()
            invariant
                self@.wf(),
                exit@.wf(),
                forwarded(self@, exit@) == forwarded(old(self)@, old(exit)@),
            decreases count_characters(self@.cells),
        {
            proof {
                lemma_count_update(self@.cells, self@.idx as int, StreamItem::Empty);
            }
            match self.pop() {
                StreamItem::Character(chr) => {
                    match exit.push(chr) {
                        Ok(_) => {},
                        Err(err) => {
                            return Err(err);
                        },
                    }
                },
                _ => {},
            }
        }
        Ok(())
    }

    /// The moment that was seen last.
    pub fn current_moment(&self) -> (moment: Option<u128>)
        ensures
            moment == self@.last_seen_moment,
    {
        self.last_seen_moment
    }

    /// Whether the counter of all items is zero.
    pub fn is_empty(&self) -> (b: bool)
        ensures
            b == (self@.buffered_total == 0),
    {
        self.buffered_total == 0
    }

    /// Whether the cell under the cursor holds a character.
    pub fn next_is_character(&self) -> (b: bool)
        requires
            self@.wf(),
        ensures
            b == (self@.head() is Character),
    {
        match self.buffer[self.idx] {
            StreamItem::Character(_) => true,
            _ => false,
        }
    }

    /// Whether the cell under the cursor holds a moment.
    pub fn next_is_moment(&self) -> (b: bool)
        requires
            self@.wf(),
        ensures
            b == (self@.head() is Moment),
    {
        match self.buffer[self.idx] {
            StreamItem::Moment(_) => true,
            _ => false,
        }
    }
}

} // verus!
