//! The debounced state of a device's inputs: one flag per logical input,
//! buttons first, then one per column of the LCD strip, then the encoders.

use vstd::prelude::*;
use crate::hid::{StreamDeckInput, StreamDeckInputView};
use crate::leaf_comm::{ButtonChange, Command, CommandView, EncoderTwist};
use crate::receiver::DeviceShape;

verus! {

/// What was last reported of each logical input: pressed or not.
///
/// A report changes the flags it names. What is passed on afterwards is the
/// inputs whose flag is no longer what it was, so a state that is reported
/// again passes nothing on.
#[derive(Debug)]
pub struct KeyState {
    states: Vec<bool>,
}

/// The flags after the reports `changes`, each an index relative to `offset`
/// and a new state, were applied in order. A report for an input that does
/// not exist changes nothing.
pub open spec fn apply_changes(states: Seq<bool>, offset: int, changes: Seq<(usize, bool)>) -> Seq<
    bool,
>
    decreases changes.len(),
{
    if changes.len() == 0 {
        states
    } else {
        let before = apply_changes(states, offset, changes.drop_last());
        let at = changes.last().0 + offset;
        if 0 <= at < before.len() {
            before.update(at, changes.last().1)
        } else {
            before
        }
    }
}

/// The inputs among the first `n` whose flag differs between `before` and
/// `after`, in ascending order, each with its new flag.
pub open spec fn transitions_upto(before: Seq<bool>, after: Seq<bool>, n: int) -> Seq<(u8, bool)>
    decreases n,
{
    if n <= 0 {
        Seq::empty()
    } else if before[n - 1] != after[n - 1] {
        transitions_upto(before, after, n - 1).push(((n - 1) as u8, after[n - 1]))
    } else {
        transitions_upto(before, after, n - 1)
    }
}

/// The inputs whose flag differs between `before` and `after`, in ascending
/// order, each with its new flag.
pub open spec fn transitions(before: Seq<bool>, after: Seq<bool>) -> Seq<(u8, bool)> {
    transitions_upto(before, after, before.len() as int)
}

/// The state that the last report for input `at` set, where there is one.
pub open spec fn last_report(offset: int, changes: Seq<(usize, bool)>, at: int) -> Option<bool>
    decreases changes.len(),
{
    if changes.len() == 0 {
        None
    } else if changes.last().0 + offset == at {
        Some(changes.last().1)
    } else {
        last_report(offset, changes.drop_last(), at)
    }
}

/// After a batch of reports every input holds what was last reported of it,
/// and an input that was not reported holds what it held.
pub proof fn lemma_apply_changes(states: Seq<bool>, offset: int, changes: Seq<(usize, bool)>)
    ensures
        apply_changes(states, offset, changes).len() == states.len(),
        forall|at: int|
            0 <= at < states.len() ==> #[trigger] apply_changes(states, offset, changes)[at] == (
            match last_report(offset, changes, at) {
                Some(v) => v,
                None => states[at],
            }),
    decreases changes.len(),
{
    if changes.len() > 0 {
        lemma_apply_changes(states, offset, changes.drop_last());
    }
}

/// Between equal states nothing has changed.
pub proof fn lemma_no_transitions(states: Seq<bool>, n: int)
    ensures
        transitions_upto(states, states, n) == Seq::<(u8, bool)>::empty(),
    decreases n,
{
    if n > 0 {
        lemma_no_transitions(states, n - 1);
    }
}

/// Debounce: a batch of reports that is applied a second time changes no
/// flag, and so passes nothing on.
pub proof fn lemma_repeat_is_silent(states: Seq<bool>, offset: int, changes: Seq<(usize, bool)>)
    ensures
        apply_changes(apply_changes(states, offset, changes), offset, changes) == apply_changes(
            states,
            offset,
            changes,
        ),
        transitions(
            apply_changes(states, offset, changes),
            apply_changes(apply_changes(states, offset, changes), offset, changes),
        ) == Seq::<(u8, bool)>::empty(),
{
    let once = apply_changes(states, offset, changes);
    let twice = apply_changes(once, offset, changes);
    lemma_apply_changes(states, offset, changes);
    lemma_apply_changes(once, offset, changes);
    assert(twice =~= once);
    lemma_no_transitions(once, once.len() as int);
}

impl KeyState {
    /// The flags, by logical input.
    pub closed spec fn view(&self) -> Seq<bool> {
        self.states@
    }

    #[verifier::type_invariant]
    spec fn bounded(&self) -> bool {
        self.states@.len() <= 255
    }

    /// `count` inputs, none of them pressed.
    pub fn new(count: u8) -> (r: Self)
        ensures
            r.view() == Seq::new(count as nat, |i: int| false),
    {
        let mut states: Vec<bool> = Vec::new();
        let mut i: u8 = 0;
        while i < count
            invariant
                i <= count,
                states@ == Seq::new(i as nat, |i: int| false),
            decreases count - i,
        {
            states.push(false);
            assert(states@ =~= Seq::new((i + 1) as nat, |i: int| false));
            i += 1;
        }
        KeyState { states }
    }

    /// The inputs of a device of the given shape: its buttons, one input per
    /// column where it has an LCD strip, and its encoders; as many of them as
    /// an input index can number.
    pub fn for_shape(shape: &DeviceShape) -> (r: Self)
        ensures
            r.view() == Seq::new(input_count(*shape) as nat, |i: int| false),
    {
        let strip: u16 = if shape.lcd_strip.is_some() {
            shape.columns as u16
        } else {
            0
        };
        let total: u16 = shape.key_count as u16 + strip + shape.encoder_count as u16;
        Self::new(if total > 255 { 255 } else { total as u8 })
    }

    /// How many inputs there are.
    pub fn len(&self) -> (r: usize)
        ensures
            r == self.view().len(),
    {
        self.states.len()
    }

    /// Applies a batch of reports, each an index relative to `offset` and a
    /// new state, and returns what is to be passed on: the inputs whose flag
    /// changed, in ascending order, each with its new flag.
    pub fn update_state(&mut self, offset: usize, changes: &Vec<(usize, bool)>) -> (r: Vec<
        (u8, bool),
    >)
        ensures
            final(self).view() == apply_changes(old(self).view(), offset as int, changes@),
            r@ == transitions(old(self).view(), final(self).view()),
    {
        proof {
            use_type_invariant(&*self);
        }
        let ghost before = self.states@;
        let mut states: Vec<bool> = Vec::new();
        std::mem::swap(&mut states, &mut self.states);
        let previous = states.clone();
        let n = states.len();
        let mut k: usize = 0;
        while k < changes.len()
            invariant
                k <= changes@.len(),
                states@.len() == n,
                n == before.len(),
                states@ == apply_changes(before, offset as int, changes@.subrange(0, k as int)),
            decreases changes@.len() - k,
        {
            let (index, state) = changes[k];
            proof {
                assert(changes@.subrange(0, k + 1).drop_last() =~= changes@.subrange(0, k as int));
            }
            if index < n && offset < n - index {
                states.set(index + offset, state);
            }
            k += 1;
        }
        assert(changes@.subrange(0, k as int) =~= changes@);
        let mut out: Vec<(u8, bool)> = Vec::new();
        let mut i: usize = 0;
        while i < n
            invariant
                i <= n,
                n == states@.len(),
                n <= 255,
                previous@ == before,
                before.len() == n,
                out@ == transitions_upto(before, states@, i as int),
            decreases n - i,
        {
            if previous[i] != states[i] {
                out.push((i as u8, states[i]));
            }
            i += 1;
        }
        self.states = states;
        out
    }
}

impl Clone for KeyState {
    fn clone(&self) -> (r: Self)
        ensures
            r.view() == self.view(),
    {
        proof {
            use_type_invariant(self);
        }
        KeyState { states: self.states.clone() }
    }
}

/// The number of logical inputs of a device: its buttons, one per column where
/// it has an LCD strip, and its encoders; at most 255.
pub open spec fn input_count(shape: DeviceShape) -> int {
    let strip = if shape.lcd_strip is Some {
        shape.columns as int
    } else {
        0
    };
    let total = shape.key_count + strip + shape.encoder_count;
    if total > 255 {
        255
    } else {
        total
    }
}

/// Every flag of a report with its index.
pub open spec fn enumerated(flags: Seq<bool>) -> Seq<(usize, bool)> {
    Seq::new(flags.len(), |i: int| (i as usize, flags[i]))
}

/// The encoders among the first `n` that were turned, in ascending order,
/// each with its steps.
pub open spec fn turned_upto(steps: Seq<i8>, n: int) -> Seq<(u8, i8)>
    decreases n,
{
    if n <= 0 {
        Seq::empty()
    } else if steps[n - 1] != 0 {
        turned_upto(steps, n - 1).push(((n - 1) as u8, steps[n - 1]))
    } else {
        turned_upto(steps, n - 1)
    }
}

/// The smaller of two numbers.
pub open spec fn at_most(a: int, b: int) -> int {
    if a < b {
        a
    } else {
        b
    }
}

/// What a report of the deck means to the other side, and the key state
/// after it.
///
/// The states of the keys go through the debounced state, and what changed
/// is passed on. Of a report of turns, the encoders that were turned are
/// passed on, as far as `limit` reaches. Nothing else is passed on.
pub open spec fn command_of_input(keys: Seq<bool>, limit: u8, input: StreamDeckInputView) -> (
    Seq<bool>,
    Option<CommandView>,
) {
    match input {
        StreamDeckInputView::ButtonStateChange(flags) => {
            let after = apply_changes(keys, 0, enumerated(flags));
            (after, Some(CommandView::ButtonChange(transitions(keys, after))))
        },
        StreamDeckInputView::EncoderTwist(steps) => (
            keys,
            Some(
                CommandView::EncoderTwist(
                    turned_upto(steps, at_most(steps.len() as int, limit as int)),
                ),
            ),
        ),
        _ => (keys, None),
    }
}

/// Turns a report of the deck into the message for the other side.
pub fn input_to_command(keys: &mut KeyState, limit: u8, input: StreamDeckInput) -> (r: Option<
    Command,
>)
    ensures
        final(keys).view() == command_of_input(old(keys).view(), limit, input@).0,
        match command_of_input(old(keys).view(), limit, input@).1 {
            Some(v) => r matches Some(c) && c@ == v,
            None => r is None,
        },
{
    match input {
        StreamDeckInput::ButtonStateChange(flags) => {
            let mut changes: Vec<(usize, bool)> = Vec::new();
            let mut i: usize = 0;
            while i < flags.len()
                invariant
                    i <= flags@.len(),
                    changes@.len() == i,
                    forall|k: int| 0 <= k < i ==> #[trigger] changes@[k] == (k as usize, flags@[k]),
                decreases flags@.len() - i,
            {
                changes.push((i, flags[i]));
                i += 1;
            }
            assert(changes@ =~= enumerated(flags@));
            let buttons = keys.update_state(0, &changes);
            Some(Command::ButtonChange(ButtonChange { buttons }))
        },
        StreamDeckInput::EncoderTwist(steps) => {
            let n: usize = if steps.len() < limit as usize {
                steps.len()
            } else {
                limit as usize
            };
            let mut encoders: Vec<(u8, i8)> = Vec::new();
            let mut i: usize = 0;
            while i < n
                invariant
                    i <= n <= 255,
                    n <= steps@.len(),
                    encoders@ == turned_upto(steps@, i as int),
                decreases n - i,
            {
                if steps[i] != 0 {
                    encoders.push((i as u8, steps[i]));
                }
                i += 1;
            }
            Some(Command::EncoderTwist(EncoderTwist { encoders }))
        },
        _ => None,
    }
}

} // verus!
