//! The course of a one-shot prompt: wait for the screen to settle, type the
//! prompt, wait for the end of the turn, type `/exit`.

use vstd::prelude::*;
use crate::hook::Wait;
use crate::time::Duration;

verus! {

/// How long to wait before the screen is looked at again, in milliseconds.
pub const QUIESCE_POLL_INTERVAL_MS: u64 = 50;

/// One move of the typist.
#[derive(Debug, PartialEq, Eq)]
pub enum Stroke {
    Write(String),
    Flush,
    /// Pause for as long as there is to be between two characters.
    Pause,
}

/// A [`Stroke`] with its text as a sequence.
pub enum Key {
    Write(Seq<char>),
    Flush,
    Pause,
}

impl View for Stroke {
    type V = Key;

    open spec fn view(&self) -> Key {
        match self {
            Stroke::Write(text) => Key::Write(text@),
            Stroke::Flush => Key::Flush,
            Stroke::Pause => Key::Pause,
        }
    }
}

/// Strokes with their texts as sequences.
pub open spec fn keys(strokes: Seq<Stroke>) -> Seq<Key> {
    strokes.map_values(|s: Stroke| s@)
}

/// A text typed one character at a time, with a flush behind each of them and a
/// pause between any two.
pub open spec fn one_by_one(text: Seq<char>) -> Seq<Key>
    decreases text.len(),
{
    if text.len() == 0 {
        Seq::empty()
    } else {
        let last = seq![Key::Write(seq![text.last()]), Key::Flush];
        if text.len() == 1 {
            last
        } else {
            one_by_one(text.drop_last()).push(Key::Pause) + last
        }
    }
}

/// A text typed at once or, where there is to be a delay between its characters,
/// one by one; and in the end a flush.
pub open spec fn typing(text: Seq<char>, char_delay: Duration) -> Seq<Key> {
    if char_delay.nanos == 0 {
        seq![Key::Write(text), Key::Flush]
    } else {
        one_by_one(text).push(Key::Flush)
    }
}

/// How `payload` is typed.
pub fn write_payload(payload: &str, char_delay: Duration) -> (strokes: Vec<Stroke>)
    ensures
        keys(strokes@) == typing(payload@, char_delay),
{
    let mut strokes: Vec<Stroke> = Vec::new();
    if char_delay.is_zero() {
        strokes.push(Stroke::Write(payload.to_owned()));
        strokes.push(Stroke::Flush);
        assert(keys(strokes@) =~= typing(payload@, char_delay));
        return strokes;
    }
    let ghost text = payload@;
    let mut started = false;
    assert(keys(strokes@) =~= one_by_one(text.take(0)));
    for c in it: payload.chars()
        invariant
            it.seq() == text,
            started == (it.index() > 0),
            keys(strokes@) == one_by_one(text.take(it.index() as int)),
    {
        let ghost before = text.take(it.index() as int);
        let ghost after = text.take(it.index() + 1);
        let ghost so_far = keys(strokes@);
        assert(so_far.len() == strokes@.len());
        if started {
            strokes.push(Stroke::Pause);
        }
        let mut one = String::new();
        one.push(c);
        strokes.push(Stroke::Write(one));
        strokes.push(Stroke::Flush);
        proof {
            assert(after.drop_last() =~= before);
            assert(one@ =~= seq![c]);
            let last = seq![Key::Write(seq![c]), Key::Flush];
            if before.len() == 0 {
                assert(so_far =~= Seq::empty());
                assert(keys(strokes@) =~= last);
            } else {
                assert(keys(strokes@) =~= so_far.push(Key::Pause) + last);
            }
        }
        started = true;
    }
    assert(text.take(text.len() as int) =~= text);
    strokes.push(Stroke::Flush);
    assert(keys(strokes@) =~= typing(payload@, char_delay));
    strokes
}

/// What is written by a list of strokes, in all.
pub open spec fn written(strokes: Seq<Key>) -> Seq<char>
    decreases strokes.len(),
{
    if strokes.len() == 0 {
        Seq::empty()
    } else {
        let front = written(strokes.drop_last());
        match strokes.last() {
            Key::Write(text) => front + text,
            _ => front,
        }
    }
}

/// How many pauses there are in a list of strokes.
pub open spec fn pauses(strokes: Seq<Key>) -> nat
    decreases strokes.len(),
{
    if strokes.len() == 0 {
        0
    } else {
        pauses(strokes.drop_last()) + if strokes.last() is Pause {
            1nat
        } else {
            0nat
        }
    }
}

/// One more stroke.
proof fn lemma_one_more(strokes: Seq<Key>, last: Key)
    ensures
        written(strokes.push(last)) == (match last {
            Key::Write(text) => written(strokes) + text,
            _ => written(strokes),
        }),
        pauses(strokes.push(last)) == pauses(strokes) + (if last is Pause {
            1nat
        } else {
            0nat
        }),
{
    assert(strokes.push(last).drop_last() =~= strokes);
}

proof fn lemma_one_by_one(text: Seq<char>)
    ensures
        written(one_by_one(text)) == text,
        pauses(one_by_one(text)) == (if text.len() == 0 {
            0
        } else {
            text.len() - 1
        }),
    decreases text.len(),
{
    if text.len() > 0 {
        let write = Key::Write(seq![text.last()]);
        let front = if text.len() == 1 {
            Seq::empty()
        } else {
            one_by_one(text.drop_last()).push(Key::Pause)
        };
        if text.len() > 1 {
            lemma_one_by_one(text.drop_last());
            lemma_one_more(one_by_one(text.drop_last()), Key::Pause);
        }
        assert(one_by_one(text) =~= front.push(write).push(Key::Flush));
        lemma_one_more(front, write);
        lemma_one_more(front.push(write), Key::Flush);
        assert(written(front) =~= text.drop_last());
        assert(text =~= text.drop_last() + seq![text.last()]);
    }
}

/// Whatever the delay, what is typed is the text, the whole text and nothing else;
/// the typing ends with a flush; and it pauses between any two characters, or not
/// at all where there is no delay.
pub proof fn law_what_is_typed_is_the_text(text: Seq<char>, char_delay: Duration)
    ensures
        written(typing(text, char_delay)) == text,
        typing(text, char_delay).last() == Key::Flush,
        pauses(typing(text, char_delay)) == (if char_delay.nanos == 0 || text.len() == 0 {
            0
        } else {
            text.len() - 1
        }),
{
    if char_delay.nanos == 0 {
        let strokes = typing(text, char_delay);
        assert(strokes =~= Seq::<Key>::empty().push(Key::Write(text)).push(Key::Flush));
        lemma_one_more(Seq::empty(), Key::Write(text));
        lemma_one_more(Seq::empty().push(Key::Write(text)), Key::Flush);
        assert(written(strokes) =~= text);
    } else {
        lemma_one_by_one(text);
        lemma_one_more(one_by_one(text), Key::Flush);
    }
}

/// Whether the screen has not changed for `threshold`. `last_us` and `now_us` are
/// the microseconds from the launch to its last change and to the present; it has
/// not come up where the former is zero.
pub open spec fn quiet(last_us: u64, now_us: u64, threshold: Duration) -> bool {
    &&& last_us > 0
    &&& (if now_us >= last_us {
        now_us - last_us
    } else {
        0
    }) >= threshold.micros()
}

/// How the wait for a quiet screen goes on, once it was looked at. The end of the
/// child counts before anything that the screen shows.
pub fn wait_for_quiescence(stopped: bool, last_us: u64, now_us: u64, threshold: Duration) -> (wait:
    Wait)
    ensures
        wait == (if stopped {
            Wait::Cancelled
        } else if quiet(last_us, now_us, threshold) {
            Wait::Ready
        } else {
            Wait::Again
        }),
{
    if stopped {
        return Wait::Cancelled;
    }
    if last_us > 0 {
        let idle_us: u64 = now_us.saturating_sub(last_us);
        if idle_us >= threshold.saturating_micros() {
            return Wait::Ready;
        }
    }
    Wait::Again
}

/// What is done next for the prompt.
#[derive(Debug, Clone, Copy, PartialEq, Eq, Structural)]
pub enum Task {
    /// Look whether the screen is quiet.
    WatchScreen,
    /// Type the prompt.
    TypePrompt,
    /// Say that the prompt was typed.
    Announce,
    /// Look whether the turn has ended.
    WatchSentinel,
    /// Type the command that ends the child.
    TypeExit,
    /// There is nothing left to do.
    Done,
}

/// What came of a [`Task`].
#[derive(Debug, Clone, Copy, PartialEq, Eq, Structural)]
pub enum Report {
    /// When the screen last changed and what time it is, in microseconds from the
    /// launch, and whether the child is gone.
    Screen { stopped: bool, last_us: u64, now_us: u64 },
    /// Everything was typed.
    Typed,
    Announced,
    /// Whether the sentinel is there, and whether the child is gone.
    Sentinel { exists: bool, stopped: bool },
}

impl Task {
    /// What is done next, with the screen quiet after `quiesce`. A report that does
    /// not answer the task changes nothing.
    pub open spec fn after(self, report: Report, quiesce: Duration) -> Task {
        match (self, report) {
            (Task::WatchScreen, Report::Screen { stopped, last_us, now_us }) => if stopped {
                Task::Done
            } else if quiet(last_us, now_us, quiesce) {
                Task::TypePrompt
            } else {
                Task::WatchScreen
            },
            (Task::TypePrompt, Report::Typed) => Task::Announce,
            (Task::Announce, Report::Announced) => Task::WatchSentinel,
            (Task::WatchSentinel, Report::Sentinel { exists, stopped }) => if exists {
                Task::TypeExit
            } else if stopped {
                Task::Done
            } else {
                Task::WatchSentinel
            },
            (Task::TypeExit, Report::Typed) => Task::Done,
            _ => self,
        }
    }

    /// What is typed for the task: the prompt with a carriage return, or the
    /// command that ends the child.
    pub open spec fn text(self, payload: Seq<char>) -> Option<Seq<char>> {
        match self {
            Task::TypePrompt => Some(payload.push('\r')),
            Task::TypeExit => Some("/exit\r\n"@),
            _ => None,
        }
    }

    /// Where the task stands among the others.
    pub open spec fn rank(self) -> int {
        match self {
            Task::WatchScreen => 0,
            Task::TypePrompt => 1,
            Task::Announce => 2,
            Task::WatchSentinel => 3,
            Task::TypeExit => 4,
            Task::Done => 5,
        }
    }
}

/// A one-shot prompt, and how far it has come.
#[derive(Debug)]
pub struct Ctx {
    pub payload: String,
    /// How long to pause between two characters.
    pub char_delay: Duration,
    /// How long the screen has to be quiet before the prompt is typed.
    pub quiesce: Duration,
    pub task: Task,
}

impl Ctx {
    pub fn new(payload: String, char_delay: Duration, quiesce: Duration) -> (ctx: Ctx)
        ensures
            ctx.payload@ == payload@,
            ctx.char_delay == char_delay,
            ctx.quiesce == quiesce,
            ctx.task == Task::WatchScreen,
    {
        Ctx { payload, char_delay, quiesce, task: Task::WatchScreen }
    }

    /// What is typed now: nothing, unless the task is to type.
    pub fn strokes(&self) -> (strokes: Vec<Stroke>)
        ensures
            keys(strokes@) == (match self.task.text(self.payload@) {
                Some(text) => typing(text, self.char_delay),
                None => Seq::empty(),
            }),
    {
        match self.task {
            Task::TypePrompt => {
                let mut prompt = self.payload.clone();
                prompt.push('\r');
                write_payload(prompt.as_str(), self.char_delay)
            },
            Task::TypeExit => write_payload("/exit\r\n", self.char_delay),
            _ => {
                let strokes: Vec<Stroke> = Vec::new();
                assert(keys(strokes@) =~= Seq::empty());
                strokes
            },
        }
    }
}

/// Goes on with what came of the task. Returns whether the task is the one that it
/// was, so that it is only taken up again after a wait: of
/// [`QUIESCE_POLL_INTERVAL_MS`] for the screen, and of
/// [`crate::hook::POLL_INTERVAL_MS`] for the sentinel.
pub fn run(ctx: &mut Ctx, report: Report) -> (again: bool)
    ensures
        final(ctx).task == old(ctx).task.after(report, old(ctx).quiesce),
        final(ctx).payload == old(ctx).payload,
        final(ctx).char_delay == old(ctx).char_delay,
        final(ctx).quiesce == old(ctx).quiesce,
        again == (final(ctx).task == old(ctx).task),
{
    let before = ctx.task;
    ctx.task = match (before, report) {
        (Task::WatchScreen, Report::Screen { stopped, last_us, now_us }) =>
            match wait_for_quiescence(stopped, last_us, now_us, ctx.quiesce) {
            Wait::Ready => Task::TypePrompt,
            Wait::Cancelled => Task::Done,
            Wait::Again => Task::WatchScreen,
        },
        (Task::TypePrompt, Report::Typed) => Task::Announce,
        (Task::Announce, Report::Announced) => Task::WatchSentinel,
        (Task::WatchSentinel, Report::Sentinel { exists, stopped }) =>
            match crate::hook::wait_for_file(exists, stopped) {
            Wait::Ready => Task::TypeExit,
            Wait::Cancelled => Task::Done,
            Wait::Again => Task::WatchSentinel,
        },
        (Task::TypeExit, Report::Typed) => Task::Done,
        (task, _) => task,
    };
    ctx.task == before
}

/// A task that is behind is not taken up again, so that the prompt and the command
/// that ends the child are each typed once at most, in this order.
pub proof fn law_tasks_only_go_on(task: Task, report: Report, quiesce: Duration)
    ensures
        task.after(report, quiesce).rank() >= task.rank(),
        task.after(report, quiesce).rank() == task.rank() ==> task.after(report, quiesce) == task,
        task.text(Seq::empty()) is Some && report == Report::Typed ==> task.after(
            report,
            quiesce,
        ).rank() > task.rank(),
{
}

/// The prompt is only typed once the screen came up and did not change for as long as
/// was asked for, to the microsecond; and the command that ends the child is only typed
/// once the turn has ended.
pub proof fn law_typing_waits(task: Task, report: Report, quiesce: Duration)
    ensures
        task != Task::TypePrompt && task.after(report, quiesce) == Task::TypePrompt ==> {
            &&& report matches Report::Screen { stopped, last_us, now_us }
            &&& !stopped && last_us > 0
            &&& quiet(last_us, now_us, quiesce)
            &&& quiesce.nanos >= 1_000 ==> now_us >= last_us + quiesce.nanos / 1_000
        },
        task != Task::TypeExit && task.after(report, quiesce) == Task::TypeExit ==> {
            &&& task == Task::WatchSentinel
            &&& report matches Report::Sentinel { exists, .. }
            &&& exists
        },
{
}

/// The wait for the screen is over when the screen came up and has not changed for the
/// threshold in whole microseconds, and not a microsecond before; it is given up when
/// the child is gone, whatever the screen shows.
pub proof fn law_the_wait_lasts_for_the_threshold(
    stopped: bool,
    last_us: u64,
    now_us: u64,
    threshold: Duration,
    wait: Wait,
)
    requires
        call_ensures(wait_for_quiescence, (stopped, last_us, now_us, threshold), wait),
    ensures
        wait == Wait::Cancelled <==> stopped,
        threshold.nanos >= 1_000 ==> (wait == Wait::Ready <==> !stopped && last_us > 0 && now_us
            >= last_us + threshold.nanos / 1_000),
        threshold.nanos < 1_000 ==> (wait == Wait::Ready <==> !stopped && last_us > 0),
{
}

/// A longer threshold waits for no less, and a screen that is quiet stays so until it
/// changes.
pub proof fn law_waiting_is_monotone(
    last_us: u64,
    now_us: u64,
    later_us: u64,
    shorter: Duration,
    longer: Duration,
)
    requires
        now_us <= later_us,
        shorter.nanos <= longer.nanos,
    ensures
        quiet(last_us, now_us, longer) ==> quiet(last_us, later_us, shorter),
{
    crate::time::law_counting_keeps_the_order(shorter, longer);
}

/// The course of a prompt: a quiet screen is typed into, what was typed is announced,
/// the end of the turn is waited for and answered; and where the child is gone there is
/// nothing left to do.
pub proof fn law_the_course_of_a_prompt(quiesce: Duration, last_us: u64, now_us: u64, stopped: bool)
    ensures
        Task::WatchScreen.after(Report::Screen { stopped: true, last_us, now_us }, quiesce)
            == Task::Done,
        last_us > 0 && now_us >= last_us + quiesce.nanos / 1_000 ==> Task::WatchScreen.after(
            Report::Screen { stopped: false, last_us, now_us },
            quiesce,
        ) == Task::TypePrompt,
        last_us == 0 || (quiesce.nanos >= 1_000 && now_us < last_us + quiesce.nanos / 1_000)
            ==> Task::WatchScreen.after(
            Report::Screen { stopped: false, last_us, now_us },
            quiesce,
        ) == Task::WatchScreen,
        Task::TypePrompt.after(Report::Typed, quiesce) == Task::Announce,
        Task::Announce.after(Report::Announced, quiesce) == Task::WatchSentinel,
        Task::WatchSentinel.after(Report::Sentinel { exists: true, stopped }, quiesce)
            == Task::TypeExit,
        Task::WatchSentinel.after(Report::Sentinel { exists: false, stopped: true }, quiesce)
            == Task::Done,
        Task::WatchSentinel.after(Report::Sentinel { exists: false, stopped: false }, quiesce)
            == Task::WatchSentinel,
        Task::TypeExit.after(Report::Typed, quiesce) == Task::Done,
{
}

/// A report that does not answer the task changes nothing, and nothing follows the end.
pub proof fn law_other_reports_change_nothing(task: Task, report: Report, quiesce: Duration)
    requires
        report is Screen ==> task != Task::WatchScreen,
        report is Typed ==> task != Task::TypePrompt && task != Task::TypeExit,
        report is Announced ==> task != Task::Announce,
        report is Sentinel ==> task != Task::WatchSentinel,
    ensures
        task.after(report, quiesce) == task,
{
}

/// Whether the `i`-th character of a text is typed by itself, in its place, and flushed.
pub open spec fn is_typed_at(strokes: Seq<Key>, text: Seq<char>, i: int) -> bool {
    strokes[3 * i] == Key::Write(seq![text[i]]) && strokes[3 * i + 1] == Key::Flush
}

/// What is typed for a task, stroke for stroke: all at once and flushed where there is no
/// delay; and otherwise each character by itself, flushed, with a pause before the next
/// one, and a last flush.
pub proof fn law_strokes_one_by_one(text: Seq<char>, char_delay: Duration)
    ensures
        ({
            let strokes = typing(text, char_delay);
            let n = text.len() as int;
            &&& char_delay.nanos == 0 ==> strokes == seq![Key::Write(text), Key::Flush]
            &&& char_delay.nanos > 0 && n == 0 ==> strokes == seq![Key::Flush]
            &&& char_delay.nanos > 0 && n > 0 ==> {
                &&& strokes.len() == 3 * n && strokes.last() == Key::Flush
                &&& forall|i: int| 0 <= i < n ==> #[trigger] is_typed_at(strokes, text, i)
                &&& forall|i: int|
                    0 <= i < n - 1 && #[trigger] is_typed_at(strokes, text, i) ==> strokes[3 * i
                        + 2] == Key::Pause
            }
        }),
{
    let strokes = typing(text, char_delay);
    if char_delay.nanos > 0 {
        lemma_strokes_one_by_one(text);
        let front = one_by_one(text);
        if text.len() == 0 {
            assert(strokes =~= seq![Key::Flush]);
        }
        assert forall|i: int| 0 <= i < text.len() implies #[trigger] is_typed_at(
            strokes,
            text,
            i,
        ) && (i < text.len() - 1 ==> strokes[3 * i + 2] == Key::Pause) by {
            assert(is_typed_at(front, text, i));
        }
    }
}

proof fn lemma_strokes_one_by_one(text: Seq<char>)
    ensures
        text.len() > 0 ==> one_by_one(text).len() == 3 * text.len() - 1,
        text.len() == 0 ==> one_by_one(text).len() == 0,
        forall|i: int| 0 <= i < text.len() ==> #[trigger] is_typed_at(one_by_one(text), text, i),
        forall|i: int|
            0 <= i < text.len() - 1 && #[trigger] is_typed_at(one_by_one(text), text, i)
                ==> one_by_one(text)[3 * i + 2] == Key::Pause,
    decreases text.len(),
{
    if text.len() > 0 {
        let front = text.drop_last();
        lemma_strokes_one_by_one(front);
        let whole = one_by_one(text);
        let before = one_by_one(front);
        assert forall|i: int| 0 <= i < text.len() implies #[trigger] is_typed_at(whole, text, i)
            && (i < text.len() - 1 ==> whole[3 * i + 2] == Key::Pause) by {
            if i < front.len() {
                assert(is_typed_at(before, front, i));
                assert(front[i] == text[i]);
                assert(whole[3 * i] == before[3 * i]);
                assert(whole[3 * i + 1] == before[3 * i + 1]);
                if i < front.len() - 1 {
                    assert(whole[3 * i + 2] == before[3 * i + 2]);
                }
            }
        }
    }
}

/// What is typed when the task is to type: the prompt with one carriage return behind
/// it, or the command that ends the child; and nothing for any other task.
pub proof fn law_what_a_prompt_types(ctx: &Ctx, strokes: Vec<Stroke>)
    requires
        call_ensures(Ctx::strokes, (ctx,), strokes),
    ensures
        written(keys(strokes@)) == (match ctx.task {
            Task::TypePrompt => ctx.payload@ + seq!['\r'],
            Task::TypeExit => "/exit\r\n"@,
            _ => Seq::empty(),
        }),
{
    law_what_is_typed_is_the_text(ctx.payload@.push('\r'), ctx.char_delay);
    law_what_is_typed_is_the_text("/exit\r\n"@, ctx.char_delay);
    assert(ctx.payload@.push('\r') =~= ctx.payload@ + seq!['\r']);
}

impl Task {
    /// What is done next, behind a list of reports.
    pub open spec fn after_all(self, reports: Seq<Report>, quiesce: Duration) -> Task
        decreases reports.len(),
    {
        if reports.len() == 0 {
            self
        } else {
            self.after_all(reports.drop_last(), quiesce).after(reports.last(), quiesce)
        }
    }

    /// The texts that were typed by the end of a list of reports.
    pub open spec fn typed(self, reports: Seq<Report>, quiesce: Duration, payload: Seq<char>) -> Seq<
        Seq<char>,
    >
        decreases reports.len(),
    {
        if reports.len() == 0 {
            Seq::empty()
        } else {
            let front = reports.drop_last();
            let before = self.typed(front, quiesce, payload);
            match self.after_all(front, quiesce).text(payload) {
                Some(text) if reports.last() == Report::Typed => before.push(text),
                _ => before,
            }
        }
    }
}

/// Whatever is reported, what is typed is the prompt and then the command that ends
/// the child, or less: each of them once at most, and never the one before the
/// other.
pub proof fn law_the_prompt_is_typed_once(
    reports: Seq<Report>,
    quiesce: Duration,
    payload: Seq<char>,
)
    ensures
        Task::WatchScreen.typed(reports, quiesce, payload).is_prefix_of(
            seq![payload.push('\r'), "/exit\r\n"@],
        ),
{
    lemma_typed_by_task(reports, quiesce, payload);
}

proof fn lemma_typed_by_task(reports: Seq<Report>, quiesce: Duration, payload: Seq<char>)
    ensures
        ({
            let typed = Task::WatchScreen.typed(reports, quiesce, payload);
            let both = seq![payload.push('\r'), "/exit\r\n"@];
            &&& typed.len() <= 2
            &&& typed == both.take(typed.len() as int)
            &&& match Task::WatchScreen.after_all(reports, quiesce) {
                Task::WatchScreen => typed.len() == 0,
                Task::TypePrompt => typed.len() == 0,
                Task::Done => true,
                _ => typed.len() == 1,
            }
        }),
    decreases reports.len(),
{
    let typed = Task::WatchScreen.typed(reports, quiesce, payload);
    let both = seq![payload.push('\r'), "/exit\r\n"@];
    if reports.len() > 0 {
        lemma_typed_by_task(reports.drop_last(), quiesce, payload);
    }
    assert(typed =~= both.take(typed.len() as int));
}

/// A prompt starts with the screen, as it was asked for.
pub proof fn law_how_a_prompt_starts(
    payload: String,
    char_delay: Duration,
    quiesce: Duration,
    ctx: Ctx,
)
    requires
        call_ensures(Ctx::new, (payload, char_delay, quiesce), ctx),
    ensures
        ctx.payload@ == payload@ && ctx.char_delay == char_delay && ctx.quiesce == quiesce,
        ctx.task == Task::WatchScreen,
{
}

/// One call goes on by one report, with the threshold of the prompt, and says whether the
/// task is still the same; what is asked for stays as it is.
pub proof fn law_what_one_report_does(ctx: &mut Ctx, report: Report, again: bool)
    requires
        call_ensures(run, (ctx, report), again),
    ensures
        final(ctx).task == old(ctx).task.after(report, old(ctx).quiesce),
        again <==> final(ctx).task == old(ctx).task,
        final(ctx).payload == old(ctx).payload,
        final(ctx).char_delay == old(ctx).char_delay,
        final(ctx).quiesce == old(ctx).quiesce,
        old(ctx).task == Task::WatchScreen && final(ctx).task == Task::TypePrompt ==> (
        report matches Report::Screen { stopped, last_us, now_us } && !stopped && last_us > 0 && (
        old(ctx).quiesce.nanos >= 1_000 ==> now_us >= last_us + old(ctx).quiesce.nanos / 1_000)),
{
}

/// How a text is typed, call by call.
pub proof fn law_what_typing_a_text_does(text: &str, char_delay: Duration, strokes: Vec<Stroke>)
    requires
        call_ensures(write_payload, (text, char_delay), strokes),
    ensures
        written(keys(strokes@)) == text@,
        strokes@.len() > 0 && strokes@.last() is Flush,
        char_delay.nanos == 0 ==> pauses(keys(strokes@)) == 0,
        char_delay.nanos > 0 && text@.len() > 0 ==> pauses(keys(strokes@)) == text@.len() - 1,
{
    law_what_is_typed_is_the_text(text@, char_delay);
    law_strokes_one_by_one(text@, char_delay);
    let all = keys(strokes@);
    assert(all.len() == strokes@.len());
    assert(all.last() == strokes@.last()@);
}

/// Strokes are what they are seen as.
pub proof fn law_strokes_are_keys(stroke: Stroke)
    ensures
        stroke matches Stroke::Write(text) ==> stroke@ == Key::Write(text@),
        stroke is Flush <==> stroke@ == Key::Flush,
        stroke is Pause <==> stroke@ == Key::Pause,
{
}

} // verus!
