//! Retries in the background, first often, then seldom, until the service is up.

use crate::latch;
use crate::latch::Latch;
use crate::number;
use vstd::prelude::*;

verus! {

/// A line in the log.
#[derive(Clone, Copy, Debug, PartialEq, Eq, Structural)]
pub enum Note {
    Detected,
    Round { number: u64 },
}

/// Something to be done.
#[derive(Clone, Copy, Debug, PartialEq, Eq, Structural)]
pub enum Effect {
    Log(Note),
    /// Tell on the startup screen that this round begins.
    ShowRound { number: u64 },
    /// Run a startup flow that shows no failures.
    RunFlow,
    Navigate,
    /// Let retries be scheduled again.
    OpenLatch,
}

/// What has to be done and learned next.
#[derive(Clone, Copy, Debug, PartialEq, Eq, Structural)]
pub enum Next {
    /// Pause before the round; is the service up then?
    Pause { round: u64, seconds: u64 },
    /// Is the service up now?
    Check { round: u64 },
    /// Nothing: the service is up.
    Stop,
}

/// What to do now, in order, and what then.
#[derive(Debug)]
pub struct Step {
    pub effects: Vec<Effect>,
    pub next: Next,
}

impl View for Step {
    type V = (Seq<Effect>, Next);

    open spec fn view(&self) -> (Seq<Effect>, Next) {
        (self.effects@, self.next)
    }
}

/// The pauses before the rounds, in seconds; the last one is kept.
pub open spec fn delays() -> Seq<u64> {
    seq![60, 120, 240, 300, 600, 900, 1800]
}

/// The pause before the round, in seconds.
pub open spec fn delay(round: int) -> u64 {
    if round < delays().len() {
        delays()[round]
    } else {
        delays().last()
    }
}

/// How it goes on at `next`, by whether the service is up.
pub open spec fn step_after(next: Next, up: bool) -> Option<(Seq<Effect>, Next)> {
    match next {
        Next::Pause { round, seconds: _ } => Some(
            if up {
                (seq![Effect::Log(Note::Detected), Effect::Navigate, Effect::OpenLatch], Next::Stop)
            } else {
                (
                    seq![
                        Effect::ShowRound { number: (round + 1) as u64 },
                        Effect::Log(Note::Round { number: (round + 1) as u64 }),
                        Effect::RunFlow,
                    ],
                    Next::Check { round },
                )
            },
        ),
        Next::Check { round } => Some(
            if up {
                (seq![Effect::Navigate, Effect::OpenLatch], Next::Stop)
            } else {
                (
                    seq![],
                    Next::Pause { round: (round + 1) as u64, seconds: delay(round + 1) },
                )
            },
        ),
        Next::Stop => None,
    }
}

/// The number of the round that `next` speaks of.
pub open spec fn round_of(next: Next) -> u64 {
    match next {
        Next::Pause { round, seconds: _ } => round,
        Next::Check { round } => round,
        Next::Stop => 0,
    }
}

/// The pause before the round, in seconds.
pub fn retry_delay(round: u64) -> (seconds: u64)
    ensures
        seconds == delay(round as int),
{
    match round {
        0 => 60,
        1 => 120,
        2 => 240,
        3 => 300,
        4 => 600,
        5 => 900,
        _ => 1800,
    }
}

/// How the retries begin: with the pause before the first round.
pub open spec fn first_step() -> (Seq<Effect>, Next) {
    (seq![], Next::Pause { round: 0, seconds: delay(0) })
}

/// Begins, unless retries are under way already.
pub fn schedule_background_retries(running: &mut Latch) -> (step: Option<Step>)
    ensures
        (final(running)@, step is Some) == latch::attempt(old(running)@),
        step matches Some(step) ==> step@ == first_step(),
{
    if running.enter() {
        let step = Step {
            effects: Vec::new(),
            next: Next::Pause { round: 0, seconds: retry_delay(0) },
        };
        assert(step.effects@ =~= first_step().0);
        Some(step)
    } else {
        None
    }
}

/// Goes on at `next`, by whether the service is up; `None` if it is over.
pub fn advance(next: Next, up: bool) -> (step: Option<Step>)
    requires
        round_of(next) < u64::MAX,
    ensures
        match step {
            Some(step) => step_after(next, up) == Some(step@),
            None => step_after(next, up) is None,
        },
{
    let step = match next {
        Next::Pause { round, seconds: _ } => {
            if up {
                Some(
                    Step {
                        effects: vec![
                            Effect::Log(Note::Detected),
                            Effect::Navigate,
                            Effect::OpenLatch,
                        ],
                        next: Next::Stop,
                    },
                )
            } else {
                let number: u64 = round + 1;
                Some(
                    Step {
                        effects: vec![
                            Effect::ShowRound { number },
                            Effect::Log(Note::Round { number }),
                            Effect::RunFlow,
                        ],
                        next: Next::Check { round },
                    },
                )
            }
        },
        Next::Check { round } => {
            if up {
                Some(
                    Step { effects: vec![Effect::Navigate, Effect::OpenLatch], next: Next::Stop },
                )
            } else {
                let seconds = retry_delay(round + 1);
                Some(
                    Step {
                        effects: Vec::new(),
                        next: Next::Pause { round: round + 1, seconds },
                    },
                )
            }
        },
        Next::Stop => None,
    };
    proof {
        if step is Some {
            let expected = step_after(next, up)->0;
            assert((step->0).effects@ =~= expected.0);
        }
    }
    step
}

/// The line in the log.
pub open spec fn note_words(note: Note) -> Seq<char> {
    match note {
        Note::Detected => "后台重试：检测到服务已就绪，进入界面。"@,
        Note::Round { number } => "后台自动重试（第 "@ + number::natural_text(number as nat)
            + " 轮）…"@,
    }
}

/// The line in the log.
pub fn note_text(note: Note) -> (text: String)
    ensures
        text@ == note_words(note),
{
    match note {
        Note::Detected => "后台重试：检测到服务已就绪，进入界面。".to_owned(),
        Note::Round { number } => {
            let mut text = "后台自动重试（第 ".to_owned();
            text.append(number::natural(number).as_str());
            text.append(" 轮）…");
            text
        },
    }
}

/// The line on the startup screen.
pub open spec fn round_words(number: u64) -> Seq<char> {
    "正在后台自动重试（第 "@ + number::natural_text(number as nat) + " 轮）…"@
}

/// The line on the startup screen.
pub fn round_text(number: u64) -> (text: String)
    ensures
        text@ == round_words(number),
{
    let mut text = "正在后台自动重试（第 ".to_owned();
    text.append(number::natural(number).as_str());
    text.append(" 轮）…");
    text
}

/// What was done and what comes next after the answers `ups`; `None` if it was
/// over before the last of them.
pub open spec fn run(ups: Seq<bool>) -> Option<(Seq<Effect>, Next)>
    decreases ups.len(),
{
    if ups.len() == 0 {
        Some(first_step())
    } else {
        match run(ups.drop_last()) {
            Some((effects, next)) => match step_after(next, ups.last()) {
                Some((more, following)) => Some((effects + more, following)),
                None => None,
            },
            None => None,
        }
    }
}

/// As long as the service is down the rounds go on, each after its pause: two
/// answers that it is down lead from one pause to the next.
pub proof fn law_rounds_follow_the_schedule(ups: Seq<bool>, round: nat)
    requires
        ups.len() == 2 * round,
        round <= u64::MAX,
        forall|i: int| 0 <= i < ups.len() ==> !(#[trigger] ups[i]),
    ensures
        run(ups) is Some,
        (run(ups)->0).1 == (Next::Pause { round: round as u64, seconds: delay(round as int) }),
    decreases round,
{
    if round > 0 {
        let before = ups.drop_last();
        let earlier = before.drop_last();
        assert forall|i: int| 0 <= i < earlier.len() implies !(#[trigger] earlier[i]) by {
            assert(earlier[i] == ups[i]);
        }
        law_rounds_follow_the_schedule(earlier, (round - 1) as nat);
        assert(ups.last() == ups[ups.len() - 1]);
        assert(before.last() == ups[ups.len() - 2]);
        reveal_with_fuel(run, 3);
    }
}

/// The pauses never become shorter, and none is longer than half an hour.
pub proof fn law_pauses_grow(i: int, j: int)
    requires
        0 <= i <= j,
    ensures
        60 <= delay(i) <= delay(j) <= 1800,
{
}

/// The retries end only when the service is up; then, and only then, the user
/// interface is entered and retries can be scheduled again.
pub proof fn law_retries_until_up(next: Next, up: bool)
    requires
        next != Next::Stop,
    ensures
        step_after(next, up) is Some,
        (step_after(next, up)->0).1 == Next::Stop <==> up,
        (step_after(next, up)->0).0.contains(Effect::Navigate) <==> up,
        (step_after(next, up)->0).0.contains(Effect::OpenLatch) <==> up,
{
    let effects = (step_after(next, up)->0).0;
    if up {
        assert(effects[effects.len() - 1] == Effect::OpenLatch);
        assert(effects[effects.len() - 2] == Effect::Navigate);
    }
}


/// A round is told, logged and run, in this order and with its number counted from
/// one, exactly if the service is still down after the pause; then it is asked for
/// again.
pub proof fn law_rounds_run_while_the_service_is_down(
    round: u64,
    seconds: u64,
    up: bool,
    number: u64,
)
    requires
        round < u64::MAX,
    ensures
        ({
            let (effects, following) = step_after(Next::Pause { round, seconds }, up)->0;
            &&& effects.contains(Effect::RunFlow) <==> !up
            &&& effects.contains(Effect::ShowRound { number }) <==> !up && number == round + 1
            &&& effects.contains(Effect::Log(Note::Round { number })) <==> !up && number == round
                + 1
            &&& effects.contains(Effect::Log(Note::Detected)) <==> up
            &&& !up ==> effects.last() == Effect::RunFlow && following == (Next::Check { round })
        }),
{
    let (effects, following) = step_after(Next::Pause { round, seconds }, up)->0;
    assert(effects.len() == 3);
    assert(effects.contains(effects[0]) && effects.contains(effects[1]) && effects.contains(
        effects[2],
    ));
}

/// After a round that did not bring the service up nothing is done but to wait for
/// the next one, with its own pause.
pub proof fn law_rounds_are_followed_by_the_next(round: u64)
    requires
        round < u64::MAX,
    ensures
        step_after(Next::Check { round }, false) == Some(
            (
                Seq::<Effect>::empty(),
                Next::Pause { round: (round + 1) as u64, seconds: delay(round + 1) },
            ),
        ),
{
}

/// The pauses: a minute at first, longer each time, and half an hour from the
/// seventh on.
pub proof fn law_pauses_reach_half_an_hour(round: int)
    requires
        round >= 0,
    ensures
        delay(0) == 60,
        round < 6 ==> delay(round) < delay(round + 1),
        round >= 6 ==> delay(round) == 30 * 60,
{
}


/// Each round is told and logged with its own number.
pub proof fn law_rounds_are_told_by_number(number: u64, other: u64)
    ensures
        round_words(number) == round_words(other) ==> number == other,
        note_words(Note::Round { number }) == note_words(Note::Round { number: other }) ==> number
            == other,
        round_words(number) == "正在"@ + note_words(Note::Round { number }),
{
    reveal_strlit("正在后台自动重试（第 ");
    reveal_strlit("后台自动重试（第 ");
    reveal_strlit("正在");
    let a = number::natural_text(number as nat);
    let b = number::natural_text(other as nat);
    let end = " 轮）…"@;
    assert("正在后台自动重试（第 "@ =~= "正在"@ + "后台自动重试（第 "@);
    assert(round_words(number) =~= "正在"@ + note_words(Note::Round { number }));
    number::lemma_natural_text(number as nat);
    number::lemma_natural_text(other as nat);
    let x = round_words(number);
    let y = round_words(other);
    let n = "正在后台自动重试（第 "@.len() as int;
    assert(x.subrange(n, x.len() - end.len()) =~= a);
    assert(y.subrange(n, y.len() - end.len()) =~= b);
    let v = note_words(Note::Round { number });
    let w = note_words(Note::Round { number: other });
    let m = "后台自动重试（第 "@.len() as int;
    assert(v.subrange(m, v.len() - end.len()) =~= a);
    assert(w.subrange(m, w.len() - end.len()) =~= b);
}

}
