//! What holds of every playback: when it waits and for how long, and what a
//! request to stop does to it.

use crate::input::{Input, InputWithTimestamp};
use crate::input_player::{
    loop_exit, next_repetition, wait_before, InputReplayState, PlaybackCommand, PlaybackPhase,
    PlaybackView, Repeating,
};
use vstd::prelude::*;

verus! {

/// What the driver is told in a run of steps from the state `s`, one step for
/// each element of `stops`, which says whether the owner had asked the
/// playback to stop by then.
pub open spec fn commands(s: PlaybackView, stops: Seq<bool>) -> Seq<PlaybackCommand>
    decreases stops.len(),
{
    if stops.len() == 0 {
        Seq::empty()
    } else {
        seq![s.command(stops[0])] + commands(s.next(stops[0]), stops.skip(1))
    }
}

/// The state after such a run of steps.
pub open spec fn state_after(s: PlaybackView, stops: Seq<bool>) -> PlaybackView
    decreases stops.len(),
{
    if stops.len() == 0 {
        s
    } else {
        state_after(s.next(stops[0]), stops.skip(1))
    }
}

/// What the driver is told for the first `count` actions of loop
/// `repetition`: for each in turn the wait before it, then the action itself
/// with its place.
pub open spec fn actions_issued(
    actions: Seq<InputWithTimestamp>,
    repetition: u32,
    count: nat,
) -> Seq<PlaybackCommand>
    decreases count,
{
    if count == 0 {
        Seq::empty()
    } else {
        let index = (count - 1) as nat;
        actions_issued(actions, repetition, index) + seq![
            PlaybackCommand::Sleep(wait_before(actions, index)),
            PlaybackCommand::Issue(
                InputReplayState::Repeating(
                    Repeating { repetion: repetition, reptetion_element: Some(index as usize) },
                ),
                actions[index as int].input,
            ),
        ]
    }
}

/// What the driver is told once the last action of loop `repetition` is
/// issued: the time a swipe at the end needs to complete, then the end of the
/// loop, then the pause between two loops.
pub open spec fn loop_end(
    actions: Seq<InputWithTimestamp>,
    delay_ms_between_loops: u32,
    repetition: u32,
) -> Seq<PlaybackCommand> {
    let end = seq![
        PlaybackCommand::Publish(
            InputReplayState::Repeating(Repeating { repetion: repetition, reptetion_element: None }),
        ),
        PlaybackCommand::Sleep(delay_ms_between_loops),
    ];
    if actions.len() > 0 {
        match actions.last().input {
            Input::Swipe(s) => seq![PlaybackCommand::Sleep(s.milliseconds)] + end,
            _ => end,
        }
    } else {
        end
    }
}

/// The state of loop `repetition` once its first `count` actions are issued.
pub open spec fn after_actions(
    actions: Seq<InputWithTimestamp>,
    delay_ms_between_loops: u32,
    repetition: u32,
    count: nat,
) -> PlaybackView {
    PlaybackView {
        phase: if count < actions.len() || actions.len() == 0 {
            PlaybackPhase::Check
        } else {
            loop_exit(actions)
        },
        repetition,
        index: count,
        actions,
        delay_ms_between_loops,
    }
}

/// Whether no element of `stops` is set.
pub open spec fn never(stops: Seq<bool>) -> bool {
    forall|k: int| 0 <= k < stops.len() ==> !#[trigger] stops[k]
}

/// A run of steps in two parts is the first part, and from where that ended
/// the second.
pub proof fn lemma_run_in_two_parts(s: PlaybackView, a: Seq<bool>, b: Seq<bool>)
    ensures
        commands(s, a + b) == commands(s, a) + commands(state_after(s, a), b),
        state_after(s, a + b) == state_after(state_after(s, a), b),
    decreases a.len(),
{
    if a.len() == 0 {
        assert(a + b =~= b);
        assert(commands(s, a) + commands(s, b) =~= commands(s, b));
    } else {
        assert((a + b)[0] == a[0]);
        assert((a + b).skip(1) =~= a.skip(1) + b);
        let t = s.next(a[0]);
        lemma_run_in_two_parts(t, a.skip(1), b);
        assert(seq![s.command(a[0])] + (commands(t, a.skip(1)) + commands(
            state_after(t, a.skip(1)),
            b,
        )) =~= seq![s.command(a[0])] + commands(t, a.skip(1)) + commands(
            state_after(t, a.skip(1)),
            b,
        ));
    }
}

/// A playback that has stopped stays stopped: whatever the steps, it issues
/// nothing and says only that it has finished.
pub proof fn lemma_finished_is_final(s: PlaybackView, stops: Seq<bool>)
    requires
        s.phase is Finished,
    ensures
        state_after(s, stops) == s,
        commands(s, stops).len() == stops.len(),
        forall|k: int|
            0 <= k < stops.len() ==> #[trigger] commands(s, stops)[k] == PlaybackCommand::Finish,
    decreases stops.len(),
{
    if stops.len() > 0 {
        lemma_finished_is_final(s, stops.skip(1));
        let rest = commands(s, stops.skip(1));
        assert forall|k: int| 0 <= k < stops.len() implies #[trigger] commands(s, stops)[k]
            == PlaybackCommand::Finish by {
            if k > 0 {
                assert(commands(s, stops)[k] == rest[k - 1]);
            }
        }
    }
}

/// A request to stop that is seen at the check before an action ends the
/// playback there: that action is not issued, nor any after it, in this loop
/// or a later one.
pub proof fn lemma_stop_seen_at_check(s: PlaybackView, stops: Seq<bool>)
    requires
        s.phase is Check,
        stops.len() > 0,
        stops[0],
    ensures
        state_after(s, stops).phase is Finished,
        commands(s, stops).len() == stops.len(),
        forall|k: int|
            0 <= k < stops.len() ==> #[trigger] commands(s, stops)[k] == PlaybackCommand::Finish,
{
    let t = s.next(true);
    lemma_finished_is_final(t, stops.skip(1));
    let rest = commands(t, stops.skip(1));
    assert forall|k: int| 0 <= k < stops.len() implies #[trigger] commands(s, stops)[k]
        == PlaybackCommand::Finish by {
        if k > 0 {
            assert(commands(s, stops)[k] == rest[k - 1]);
        }
    }
}

/// Whether every element of `stops` is set.
pub open spec fn always(stops: Seq<bool>) -> bool {
    forall|k: int| 0 <= k < stops.len() ==> #[trigger] stops[k]
}

/// Once the owner has asked the playback to stop, a playback that is not
/// about to issue an action issues none any more: the request is seen at the
/// next check, at the latest in the next loop.
pub proof fn lemma_nothing_issued_after_stop(s: PlaybackView, stops: Seq<bool>)
    requires
        !(s.phase is Issue),
        always(stops),
    ensures
        commands(s, stops).len() == stops.len(),
        forall|k: int| 0 <= k < stops.len() ==> !(#[trigger] commands(s, stops)[k] is Issue),
    decreases stops.len(),
{
    if stops.len() > 0 {
        assert(stops[0]);
        let t = s.next(true);
        let rest = stops.skip(1);
        assert forall|k: int| 0 <= k < rest.len() implies #[trigger] rest[k] by {
            assert(rest[k] == stops[k + 1]);
        }
        lemma_nothing_issued_after_stop(t, rest);
        assert forall|k: int| 0 <= k < stops.len() implies !(#[trigger] commands(s, stops)[k]
            is Issue) by {
            if k > 0 {
                assert(commands(s, stops)[k] == commands(t, rest)[k - 1]);
            }
        }
    }
}

/// A request to stop is seen within one step of the playback: where it
/// arrives while the playback waits before an action, that action is still
/// issued, and it is the last.
pub proof fn lemma_one_action_at_most_after_stop(s: PlaybackView, stops: Seq<bool>)
    requires
        always(stops),
    ensures
        commands(s, stops).len() == stops.len(),
        forall|k: int| 1 <= k < stops.len() ==> !(#[trigger] commands(s, stops)[k] is Issue),
        stops.len() > 0 ==> (commands(s, stops)[0] is Issue) == (s.phase is Issue),
{
    if stops.len() > 0 {
        assert(stops[0]);
        let t = s.next(true);
        let rest = stops.skip(1);
        assert forall|k: int| 0 <= k < rest.len() implies #[trigger] rest[k] by {
            assert(rest[k] == stops[k + 1]);
        }
        lemma_nothing_issued_after_stop(t, rest);
        assert forall|k: int| 1 <= k < stops.len() implies !(#[trigger] commands(s, stops)[k]
            is Issue) by {
            assert(commands(s, stops)[k] == commands(t, rest)[k - 1]);
        }
    }
}

/// The number of steps within which a playback in the given phase comes to
/// the next check.
pub open spec fn steps_to_check(phase: PlaybackPhase) -> nat {
    match phase {
        PlaybackPhase::Finished => 0,
        PlaybackPhase::Check => 1,
        PlaybackPhase::Rest => 2,
        PlaybackPhase::Mark => 3,
        PlaybackPhase::Settle => 4,
        PlaybackPhase::Issue => 5,
    }
}

/// A request to stop is noticed: whatever the recording holds, also where it
/// holds nothing, a playback that has been asked to stop has finished as soon
/// as it has come to the next check, which takes five steps at most.
pub proof fn lemma_stop_is_noticed(s: PlaybackView, stops: Seq<bool>)
    requires
        always(stops),
        stops.len() >= steps_to_check(s.phase),
    ensures
        state_after(s, stops).phase is Finished,
    decreases stops.len(),
{
    if s.phase is Finished {
        lemma_finished_is_final(s, stops);
    } else {
        assert(stops[0]);
        let t = s.next(true);
        let rest = stops.skip(1);
        assert forall|k: int| 0 <= k < rest.len() implies #[trigger] rest[k] by {
            assert(rest[k] == stops[k + 1]);
        }
        assert(steps_to_check(t.phase) + 1 <= steps_to_check(s.phase));
        lemma_stop_is_noticed(t, rest);
    }
}

/// While nobody asks it to stop, a loop issues its actions in order, two
/// steps for each: the wait since the action before, then the action.
pub proof fn lemma_actions_in_order(
    actions: Seq<InputWithTimestamp>,
    delay_ms_between_loops: u32,
    repetition: u32,
    count: nat,
    stops: Seq<bool>,
)
    requires
        count <= actions.len(),
        stops.len() == 2 * count,
        never(stops),
    ensures
        commands(PlaybackView::at_loop(actions, delay_ms_between_loops, repetition), stops)
            == actions_issued(actions, repetition, count),
        state_after(PlaybackView::at_loop(actions, delay_ms_between_loops, repetition), stops)
            == after_actions(actions, delay_ms_between_loops, repetition, count),
    decreases count,
{
    let start = PlaybackView::at_loop(actions, delay_ms_between_loops, repetition);
    if count == 0 {
        assert(start == after_actions(actions, delay_ms_between_loops, repetition, 0));
    } else {
        let index = (count - 1) as nat;
        let head = stops.take(2 * index as int);
        let tail = stops.skip(2 * index as int);
        assert(stops =~= head + tail);
        lemma_actions_in_order(actions, delay_ms_between_loops, repetition, index, head);
        lemma_run_in_two_parts(start, head, tail);
        let s = after_actions(actions, delay_ms_between_loops, repetition, index);
        assert(!tail[0] && !tail[1]) by {
            assert(tail[0] == stops[2 * index as int]);
            assert(tail[1] == stops[2 * index as int + 1]);
        }
        let s1 = s.next(false);
        let s2 = s1.next(false);
        assert(tail.skip(1).len() == 1);
        assert(tail.skip(1).skip(1).len() == 0);
        assert(tail.skip(1)[0] == tail[1]);
        assert(commands(s2, tail.skip(1).skip(1)) =~= Seq::<PlaybackCommand>::empty());
        assert(commands(s1, tail.skip(1)) =~= seq![s1.command(false)]);
        assert(commands(s, tail) =~= seq![s.command(false), s1.command(false)]);
        assert(state_after(s2, tail.skip(1).skip(1)) == s2);
        assert(state_after(s1, tail.skip(1)) == s2);
        assert(state_after(s, tail) == s2);
        assert(s2 == after_actions(actions, delay_ms_between_loops, repetition, count));
    }
}

/// The number of steps that a loop takes from its beginning to the
/// beginning of the next.
pub open spec fn loop_steps(actions: Seq<InputWithTimestamp>) -> nat {
    2 * actions.len() + if loop_exit(actions) is Settle {
        3nat
    } else {
        2nat
    }
}

/// A whole loop, while nobody asks it to stop: before each action the
/// playback waits for the time between that action and the one before it; a
/// swipe at the end is given its duration; then the end of the loop is
/// published, the pause between two loops is kept, and the next loop begins.
pub proof fn lemma_whole_loop(
    actions: Seq<InputWithTimestamp>,
    delay_ms_between_loops: u32,
    repetition: u32,
    stops: Seq<bool>,
)
    requires
        stops.len() == loop_steps(actions),
        never(stops),
    ensures
        commands(PlaybackView::at_loop(actions, delay_ms_between_loops, repetition), stops)
            == actions_issued(actions, repetition, actions.len()) + loop_end(
            actions,
            delay_ms_between_loops,
            repetition,
        ),
        state_after(PlaybackView::at_loop(actions, delay_ms_between_loops, repetition), stops)
            == PlaybackView::at_loop(
            actions,
            delay_ms_between_loops,
            next_repetition(repetition),
        ),
{
    let start = PlaybackView::at_loop(actions, delay_ms_between_loops, repetition);
    let n = actions.len();
    let head = stops.take(2 * n as int);
    let tail = stops.skip(2 * n as int);
    assert(stops =~= head + tail);
    lemma_actions_in_order(actions, delay_ms_between_loops, repetition, n, head);
    lemma_run_in_two_parts(start, head, tail);
    let s = after_actions(actions, delay_ms_between_loops, repetition, n);
    assert forall|k: int| 0 <= k < tail.len() implies !#[trigger] tail[k] by {
        assert(tail[k] == stops[2 * n as int + k]);
    }
    let s1 = s.next(false);
    let s2 = s1.next(false);
    let t1 = tail.skip(1);
    let t2 = t1.skip(1);
    assert(t1[0] == tail[1]);
    if loop_exit(actions) is Settle {
        let s3 = s2.next(false);
        let t3 = t2.skip(1);
        assert(t2[0] == tail[2]);
        assert(commands(s3, t3) =~= Seq::<PlaybackCommand>::empty());
        assert(commands(s2, t2) =~= seq![s2.command(false)]);
        assert(commands(s1, t1) =~= seq![s1.command(false), s2.command(false)]);
        assert(commands(s, tail) =~= seq![
            s.command(false),
            s1.command(false),
            s2.command(false),
        ]);
        assert(commands(s, tail) =~= loop_end(actions, delay_ms_between_loops, repetition));
        assert(state_after(s3, t3) == s3);
        assert(state_after(s2, t2) == s3);
        assert(state_after(s1, t1) == s3);
        assert(state_after(s, tail) == s3);
    } else {
        assert(commands(s2, t2) =~= Seq::<PlaybackCommand>::empty());
        assert(commands(s1, t1) =~= seq![s1.command(false)]);
        assert(commands(s, tail) =~= seq![s.command(false), s1.command(false)]);
        assert(commands(s, tail) =~= loop_end(actions, delay_ms_between_loops, repetition));
        assert(state_after(s2, t2) == s2);
        assert(state_after(s1, t1) == s2);
        assert(state_after(s, tail) == s2);
    }
}

/// A request to stop that is seen at the check before the action at
/// `index` leaves the loop with the actions before `index` issued and no
/// other: from that check on the playback says only that it has finished.
pub proof fn lemma_stop_before_action(
    actions: Seq<InputWithTimestamp>,
    delay_ms_between_loops: u32,
    repetition: u32,
    index: nat,
    stops: Seq<bool>,
)
    requires
        index < actions.len(),
        stops.len() > 2 * index,
        never(stops.take(2 * index as int)),
        stops[2 * index as int],
    ensures
        commands(PlaybackView::at_loop(actions, delay_ms_between_loops, repetition), stops)
            == actions_issued(actions, repetition, index) + Seq::new(
            (stops.len() - 2 * index) as nat,
            |k: int| PlaybackCommand::Finish,
        ),
        state_after(
            PlaybackView::at_loop(actions, delay_ms_between_loops, repetition),
            stops,
        ).phase is Finished,
{
    let start = PlaybackView::at_loop(actions, delay_ms_between_loops, repetition);
    let head = stops.take(2 * index as int);
    let tail = stops.skip(2 * index as int);
    assert(stops =~= head + tail);
    lemma_actions_in_order(actions, delay_ms_between_loops, repetition, index, head);
    lemma_run_in_two_parts(start, head, tail);
    let s = after_actions(actions, delay_ms_between_loops, repetition, index);
    assert(tail[0] == stops[2 * index as int]);
    lemma_stop_seen_at_check(s, tail);
    assert(commands(s, tail) =~= Seq::new(
        (stops.len() - 2 * index) as nat,
        |k: int| PlaybackCommand::Finish,
    ));
}

} // verus!
