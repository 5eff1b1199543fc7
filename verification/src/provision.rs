//! Getting the portable Node.js: what is unpacked already, else the archive
//! that comes with the launcher, else a download.

use vstd::prelude::*;

verus! {

/// From how many places the archive can be downloaded.
pub const DOWNLOAD_SOURCES: usize = 2;

/// A program that downloads.
#[derive(Clone, Copy, Debug, PartialEq, Eq, Structural)]
pub enum Tool {
    Curl,
    Wget,
}

/// A line in the log.
#[derive(Clone, Copy, Debug, PartialEq, Eq, Structural)]
pub enum Note {
    BundledFound { index: usize },
    BundledUnusable,
    Downloading,
    SourceFailed { source: usize },
    NoSourceLeft,
}

/// Something to be done.
#[derive(Clone, Copy, Debug, PartialEq, Eq, Structural)]
pub enum Effect {
    Log(Note),
    /// Remove the downloaded archive, if there is one.
    RemoveDownload,
}

/// What has to be learned next.
#[derive(Clone, Copy, Debug, PartialEq, Eq, Structural)]
pub enum Next {
    /// Is the executable there already?
    CheckInstalled,
    /// Is the bundled archive at this candidate place?
    CheckBundled { index: usize },
    /// Can it be unpacked?
    ExtractBundled { index: usize },
    /// Can the archive be downloaded from this source with this program?
    Download { source: usize, tool: Tool },
    /// Can the downloaded archive be unpacked?
    ExtractDownloaded,
    /// Nothing: the portable Node.js is ready, or cannot be had.
    Finished { ready: bool },
}

/// What was learned.
#[derive(Clone, Copy, Debug, PartialEq, Eq, Structural)]
pub enum Event {
    Found(bool),
    Extracted(bool),
    Downloaded(bool),
}

/// What is fixed while Node.js is got.
#[derive(Clone, Copy, Debug, PartialEq, Eq, Structural)]
pub struct Provision {
    /// Whether this is Windows, where there is no second program to download.
    pub windows: bool,
    /// At how many places the bundled archive may lie.
    pub bundled: usize,
}

/// What to do now, in order, and what to learn then.
#[derive(Debug)]
pub struct Step {
    pub effects: Vec<Effect>,
    pub next: Next,
}

impl View for Step {
    type V = (Seq<Effect>, Next);

    open spec fn view(&self) -> (Seq<Effect>, Next) {
        (self.effects@, self.next)
    }
}

/// How a download begins: with the mirror, and without an old archive.
pub open spec fn first_download() -> (Seq<Effect>, Next) {
    (
        seq![Effect::Log(Note::Downloading), Effect::RemoveDownload],
        Next::Download { source: 0, tool: Tool::Curl },
    )
}

/// The next place for a bundled archive, or the download.
pub open spec fn look_for_bundled(provision: Provision, index: int) -> (Seq<Effect>, Next) {
    if index < provision.bundled {
        (seq![], Next::CheckBundled { index: index as usize })
    } else {
        first_download()
    }
}

/// After a download from the source has failed with the program.
pub open spec fn step_after_failed_download(
    provision: Provision,
    source: usize,
    tool: Tool,
) -> (Seq<Effect>, Next) {
    if tool == Tool::Curl && !provision.windows {
        (seq![], Next::Download { source, tool: Tool::Wget })
    } else if source + 1 < DOWNLOAD_SOURCES {
        (
            seq![Effect::Log(Note::SourceFailed { source })],
            Next::Download { source: (source + 1) as usize, tool: Tool::Curl },
        )
    } else {
        (
            seq![Effect::Log(Note::SourceFailed { source }), Effect::Log(Note::NoSourceLeft)],
            Next::Finished { ready: false },
        )
    }
}

/// How it goes on when `next` was asked and `event` is the answer; `None` if
/// that is no answer to it.
pub open spec fn step_after(provision: Provision, next: Next, event: Event) -> Option<
    (Seq<Effect>, Next),
> {
    match (next, event) {
        (Next::CheckInstalled, Event::Found(found)) => Some(
            if found {
                (seq![], Next::Finished { ready: true })
            } else {
                look_for_bundled(provision, 0)
            },
        ),
        (Next::CheckBundled { index }, Event::Found(found)) => if index < provision.bundled {
            Some(
                if found {
                    (
                        seq![Effect::Log(Note::BundledFound { index })],
                        Next::ExtractBundled { index },
                    )
                } else {
                    look_for_bundled(provision, index + 1)
                },
            )
        } else {
            None
        },
        (Next::ExtractBundled { index: _ }, Event::Extracted(ok)) => Some(
            if ok {
                (seq![], Next::Finished { ready: true })
            } else {
                (
                    seq![Effect::Log(Note::BundledUnusable)] + first_download().0,
                    first_download().1,
                )
            },
        ),
        (Next::Download { source, tool }, Event::Downloaded(ok)) => if source < DOWNLOAD_SOURCES {
            Some(
                if ok {
                    (seq![], Next::ExtractDownloaded)
                } else {
                    step_after_failed_download(provision, source, tool)
                },
            )
        } else {
            None
        },
        (Next::ExtractDownloaded, Event::Extracted(ok)) => Some(
            (seq![Effect::RemoveDownload], Next::Finished { ready: ok }),
        ),
        _ => None,
    }
}

impl Provision {
    /// Begins.
    pub fn begin(&self) -> (step: Step)
        ensures
            step@ == (Seq::<Effect>::empty(), Next::CheckInstalled),
    {
        Step { effects: Vec::new(), next: Next::CheckInstalled }
    }

    fn first_download() -> (step: Step)
        ensures
            step@ == first_download(),
    {
        Step {
            effects: vec![Effect::Log(Note::Downloading), Effect::RemoveDownload],
            next: Next::Download { source: 0, tool: Tool::Curl },
        }
    }

    fn look_for_bundled(&self, index: usize) -> (step: Step)
        ensures
            step@ == look_for_bundled(*self, index as int),
    {
        if index < self.bundled {
            let step = Step { effects: Vec::new(), next: Next::CheckBundled { index } };
            assert(step.effects@ =~= seq![]);
            step
        } else {
            Self::first_download()
        }
    }

    fn after_failed_download(&self, source: usize, tool: Tool) -> (step: Step)
        requires
            source < DOWNLOAD_SOURCES,
        ensures
            step@ == step_after_failed_download(*self, source, tool),
    {
        let step = if tool == Tool::Curl && !self.windows {
            Step { effects: Vec::new(), next: Next::Download { source, tool: Tool::Wget } }
        } else if source + 1 < DOWNLOAD_SOURCES {
            Step {
                effects: vec![Effect::Log(Note::SourceFailed { source })],
                next: Next::Download { source: source + 1, tool: Tool::Curl },
            }
        } else {
            Step {
                effects: vec![
                    Effect::Log(Note::SourceFailed { source }),
                    Effect::Log(Note::NoSourceLeft),
                ],
                next: Next::Finished { ready: false },
            }
        };
        assert(step.effects@ =~= step_after_failed_download(*self, source, tool).0);
        step
    }

    /// Goes on when `next` was asked and `event` is the answer; `None` if that
    /// is no answer to it.
    pub fn advance(&self, next: Next, event: Event) -> (step: Option<Step>)
        ensures
            match step {
                Some(step) => step_after(*self, next, event) == Some(step@),
                None => step_after(*self, next, event) is None,
            },
    {
        let step = match (next, event) {
            (Next::CheckInstalled, Event::Found(found)) => Some(
                if found {
                    Step { effects: Vec::new(), next: Next::Finished { ready: true } }
                } else {
                    self.look_for_bundled(0)
                },
            ),
            (Next::CheckBundled { index }, Event::Found(found)) => {
                if index < self.bundled {
                    Some(
                        if found {
                            Step {
                                effects: vec![Effect::Log(Note::BundledFound { index })],
                                next: Next::ExtractBundled { index },
                            }
                        } else {
                            self.look_for_bundled(index + 1)
                        },
                    )
                } else {
                    None
                }
            },
            (Next::ExtractBundled { index: _ }, Event::Extracted(ok)) => Some(
                if ok {
                    Step { effects: Vec::new(), next: Next::Finished { ready: true } }
                } else {
                    Step {
                        effects: vec![
                            Effect::Log(Note::BundledUnusable),
                            Effect::Log(Note::Downloading),
                            Effect::RemoveDownload,
                        ],
                        next: Next::Download { source: 0, tool: Tool::Curl },
                    }
                },
            ),
            (Next::Download { source, tool }, Event::Downloaded(ok)) => {
                if source < DOWNLOAD_SOURCES {
                    Some(
                        if ok {
                            Step { effects: Vec::new(), next: Next::ExtractDownloaded }
                        } else {
                            self.after_failed_download(source, tool)
                        },
                    )
                } else {
                    None
                }
            },
            (Next::ExtractDownloaded, Event::Extracted(ok)) => Some(
                Step { effects: vec![Effect::RemoveDownload], next: Next::Finished { ready: ok } },
            ),
            _ => None,
        };
        proof {
            if step is Some {
                let expected = step_after(*self, next, event)->0;
                assert((step->0).effects@ =~= expected.0);
            }
        }
        step
    }
}

/// The line in the log.
pub open spec fn note_words(note: Note, detail: Seq<char>) -> Seq<char> {
    match note {
        Note::BundledFound { index: _ } => "发现内置便携 Node 归档："@ + detail,
        Note::BundledUnusable => "内置归档解压失败，回退在线下载…"@,
        Note::Downloading => "未检测到系统 Node.js，准备下载便携 Node（国内镜像）…"@,
        Note::SourceFailed { source: _ } => "便携 Node 下载失败（"@ + detail
            + "），尝试下一个源…"@,
        Note::NoSourceLeft => "便携 Node 下载失败：所有源均不可用"@,
    }
}

/// The line in the log; `detail` is the path of the bundled archive, or the
/// source that failed.
pub fn note_text(note: Note, detail: &str) -> (text: String)
    ensures
        text@ == note_words(note, detail@),
{
    match note {
        Note::BundledFound { index: _ } => {
            let mut text = "发现内置便携 Node 归档：".to_owned();
            text.append(detail);
            text
        },
        Note::BundledUnusable => "内置归档解压失败，回退在线下载…".to_owned(),
        Note::Downloading => "未检测到系统 Node.js，准备下载便携 Node（国内镜像）…".to_owned(),
        Note::SourceFailed { source: _ } => {
            let mut text = "便携 Node 下载失败（".to_owned();
            text.append(detail);
            text.append("），尝试下一个源…");
            text
        },
        Note::NoSourceLeft => "便携 Node 下载失败：所有源均不可用".to_owned(),
    }
}

/// What was done and what is asked after the answers `events`; `None` if one of
/// them was no answer to what was asked.
pub open spec fn run(provision: Provision, events: Seq<Event>) -> Option<(Seq<Effect>, Next)>
    decreases events.len(),
{
    if events.len() == 0 {
        Some((seq![], Next::CheckInstalled))
    } else {
        match run(provision, events.drop_last()) {
            Some((effects, next)) => match step_after(provision, next, events.last()) {
                Some((more, following)) => Some((effects + more, following)),
                None => None,
            },
            None => None,
        }
    }
}

/// `event` is the kind of answer that `next` asks for.
pub open spec fn answers(next: Next, event: Event) -> bool {
    match next {
        Next::CheckInstalled => event is Found,
        Next::CheckBundled { index: _ } => event is Found,
        Next::ExtractBundled { index: _ } => event is Extracted,
        Next::Download { source: _, tool: _ } => event is Downloaded,
        Next::ExtractDownloaded => event is Extracted,
        Next::Finished { ready: _ } => false,
    }
}

/// How many times something was unpacked, or could not be.
pub open spec fn extractions(events: Seq<Event>) -> nat
    decreases events.len(),
{
    if events.len() == 0 {
        0
    } else {
        extractions(events.drop_last()) + if events.last() is Extracted {
            1nat
        } else {
            0nat
        }
    }
}

/// What holds at `next` after `n` answers, `k` of them about unpacking.
spec fn reachable(provision: Provision, next: Next, n: int, k: int) -> bool {
    match next {
        Next::CheckInstalled => n == 0 && k == 0,
        Next::CheckBundled { index } => index < provision.bundled && n == index + 1 && k == 0,
        Next::ExtractBundled { index } => index < provision.bundled && n == index + 2 && k == 0,
        Next::Download { source, tool } => {
            &&& source < DOWNLOAD_SOURCES
            &&& n <= provision.bundled + 2 + 2 * source + if tool == Tool::Wget {
                1int
            } else {
                0int
            }
            &&& k <= 1
            &&& tool == Tool::Wget ==> !provision.windows
        },
        Next::ExtractDownloaded => n <= provision.bundled + 6 && k <= 1,
        Next::Finished { ready: _ } => n <= provision.bundled + 7 && k <= 2,
    }
}

proof fn lemma_reachable(provision: Provision, events: Seq<Event>)
    requires
        run(provision, events) is Some,
    ensures
        reachable(
            provision,
            (run(provision, events)->0).1,
            events.len() as int,
            extractions(events) as int,
        ),
    decreases events.len(),
{
    if events.len() > 0 {
        lemma_reachable(provision, events.drop_last());
    }
}

/// It comes to an end: after at most seven answers besides one for each place
/// of a bundled archive. At most two archives are unpacked.
pub proof fn law_provision_is_bounded(provision: Provision, events: Seq<Event>)
    requires
        run(provision, events) is Some,
    ensures
        events.len() <= provision.bundled + 7,
        extractions(events) <= 2,
{
    lemma_reachable(provision, events);
}

/// As long as it is not at its end it can go on, whatever the answer is.
pub proof fn law_provision_never_sticks(provision: Provision, events: Seq<Event>, event: Event)
    requires
        run(provision, events) is Some,
        answers((run(provision, events)->0).1, event),
    ensures
        run(provision, events.push(event)) is Some,
{
    lemma_reachable(provision, events);
    assert(events.push(event).drop_last() =~= events);
}

/// The second program is never asked for on Windows.
pub proof fn law_windows_has_one_tool(provision: Provision, events: Seq<Event>)
    requires
        run(provision, events) is Some,
        provision.windows,
    ensures
        (run(provision, events)->0).1 matches Next::Download { source: _, tool } ==> tool
            == Tool::Curl,
{
    lemma_reachable(provision, events);
}

/// It ends well if and only if what was asked last turned out well: the
/// executable was there, or an archive was unpacked.
pub proof fn law_ready_means_usable(provision: Provision, events: Seq<Event>, ready: bool)
    requires
        run(provision, events) is Some,
        (run(provision, events)->0).1 == (Next::Finished { ready }),
    ensures
        events.len() > 0,
        ready ==> events == seq![Event::Found(true)] || events.last() == Event::Extracted(true),
        !ready ==> events.last() == Event::Downloaded(false) || events.last() == Event::Extracted(
            false,
        ),
{
    let before = events.drop_last();
    lemma_reachable(provision, before);
    let (effects, next) = run(provision, before)->0;
    if next == Next::CheckInstalled {
        assert(before.len() == 0);
        assert(events =~= seq![events.last()]);
    }
}

/// Nothing is downloaded while the executable is there or a bundled archive
/// could be unpacked: what is asked first is whether it is there, and each
/// archive that was unpacked before a download was of no use.
pub proof fn law_download_comes_last(provision: Provision, events: Seq<Event>, i: int)
    requires
        run(provision, events) is Some,
        0 <= i < events.len(),
        events[i] is Downloaded,
    ensures
        events[0] == Event::Found(false),
        forall|j: int| 0 <= j < i ==> #[trigger] events[j] != Event::Extracted(true),
    decreases events.len(),
{
    let before = events.drop_last();
    if i < events.len() - 1 {
        law_download_comes_last(provision, before, i);
        assert(before[0] == events[0]);
        assert forall|j: int| 0 <= j < i implies #[trigger] events[j] != Event::Extracted(true) by {
            assert(before[j] == events[j]);
        }
    } else {
        lemma_before_download(provision, before);
        assert(before.len() > 0 ==> before[0] == events[0]);
        assert forall|j: int| 0 <= j < i implies #[trigger] events[j] != Event::Extracted(true) by {
            assert(before[j] == events[j]);
        }
    }
}

/// What was learned before anything is unpacked with success.
proof fn lemma_before_download(provision: Provision, events: Seq<Event>)
    requires
        run(provision, events) is Some,
        (run(provision, events)->0).1 !is Finished,
        (run(provision, events)->0).1 !is CheckInstalled,
    ensures
        events.len() > 0,
        events[0] == Event::Found(false),
        forall|j: int| 0 <= j < events.len() ==> #[trigger] events[j] != Event::Extracted(true),
    decreases events.len(),
{
    let before = events.drop_last();
    let next = (run(provision, before)->0).1;
    if next is CheckInstalled {
        lemma_reachable(provision, before);
        assert(events.last() == events[0]);
    } else {
        lemma_before_download(provision, before);
        assert(before[0] == events[0]);
        assert forall|j: int| 0 <= j < events.len() implies #[trigger] events[j]
            != Event::Extracted(true) by {
            if j < before.len() {
                assert(before[j] == events[j]);
            }
        }
    }
}


/// A sequence of at most three holds what one of its places holds.
proof fn lemma_holds(effects: Seq<Effect>, e: Effect)
    requires
        effects.len() <= 3,
    ensures
        effects.contains(e) <==> {
            ||| effects.len() > 0 && effects[0] == e
            ||| effects.len() > 1 && effects[1] == e
            ||| effects.len() > 2 && effects[2] == e
        },
{
}

/// A bundled archive that is found is unpacked, on every system and at whichever
/// place it lies.
pub proof fn law_bundled_archive_is_unpacked(provision: Provision, index: usize)
    requires
        index < provision.bundled,
    ensures
        ({
            let step = step_after(provision, Next::CheckBundled { index }, Event::Found(true));
            &&& step is Some
            &&& (step->0).1 == (Next::ExtractBundled { index })
            &&& (step->0).0 == seq![Effect::Log(Note::BundledFound { index })]
        }),
{
}

/// What is asked next: what is unpacked already is used; the places of a bundled
/// archive are looked at one after the other until one is found, which is then
/// unpacked; only then is anything downloaded, and what was downloaded is
/// unpacked.
pub proof fn law_questions_follow_from_answers(
    provision: Provision,
    next: Next,
    event: Event,
    index: usize,
)
    requires
        step_after(provision, next, event) is Some,
    ensures
        ({
            let following = (step_after(provision, next, event)->0).1;
            &&& answers(next, event)
            &&& following != Next::CheckInstalled
            &&& following == (Next::CheckBundled { index }) <==> index < provision.bundled && event
                == Event::Found(false) && (if index == 0 {
                next == Next::CheckInstalled
            } else {
                next == (Next::CheckBundled { index: (index - 1) as usize })
            })
            &&& following == (Next::ExtractBundled { index }) <==> next == (Next::CheckBundled {
                index,
            }) && event == Event::Found(true)
            &&& following == Next::ExtractDownloaded <==> event == Event::Downloaded(true)
            &&& following == (Next::Finished { ready: true }) <==> {
                ||| next == Next::CheckInstalled && event == Event::Found(true)
                ||| event == Event::Extracted(true)
            }
            &&& following == (Next::Finished { ready: false }) <==> {
                ||| next == Next::ExtractDownloaded && event == Event::Extracted(false)
                ||| event == Event::Downloaded(false) && (next == (Next::Download {
                    source: 1,
                    tool: Tool::Wget,
                }) || provision.windows && next->Download_source == 1)
            }
        }),
{
}

/// A download begins with the first source and curl, when no bundled archive is
/// left: none was found at any place, or the one that was found is of no use. Each
/// source is tried with each program of the system before the next one.
pub proof fn law_downloads_follow_in_order(
    provision: Provision,
    next: Next,
    event: Event,
    source: usize,
    tool: Tool,
)
    requires
        step_after(provision, next, event) is Some,
    ensures
        (step_after(provision, next, event)->0).1 == (Next::Download { source, tool }) <==> {
            ||| source == 0 && tool == Tool::Curl && {
                ||| event == Event::Found(false) && next == Next::CheckInstalled
                    && provision.bundled == 0
                ||| event == Event::Found(false) && next is CheckBundled
                    && next->CheckBundled_index + 1 == provision.bundled
                ||| event == Event::Extracted(false) && next is ExtractBundled
            }
            ||| event == Event::Downloaded(false) && tool == Tool::Wget && !provision.windows && next
                == (Next::Download { source, tool: Tool::Curl })
            ||| event == Event::Downloaded(false) && tool == Tool::Curl && source == 1 && next
                is Download && next->Download_source == 0 && (provision.windows
                || next->Download_tool == Tool::Wget)
        },
{
}

/// Every answer of the kind that is asked for is taken.
pub proof fn law_answers_are_taken(provision: Provision, next: Next, event: Event)
    requires
        answers(next, event),
        next is CheckBundled ==> next->CheckBundled_index < provision.bundled,
        next is Download ==> next->Download_source < 2,
    ensures
        step_after(provision, next, event) is Some,
{
}

/// What is logged and removed: each for its own reason. The archive that was
/// downloaded is removed whether it could be unpacked or not, and an old one
/// before a download.
pub proof fn law_effects_have_their_reasons(
    provision: Provision,
    next: Next,
    event: Event,
    note: Note,
)
    requires
        step_after(provision, next, event) is Some,
    ensures
        ({
            let (effects, following) = step_after(provision, next, event)->0;
            let begins = following is Download && next !is Download;
            &&& effects.contains(Effect::RemoveDownload) <==> begins || next
                == Next::ExtractDownloaded
            &&& effects.contains(Effect::Log(note)) <==> match note {
                Note::BundledFound { index } => following == (Next::ExtractBundled { index }),
                Note::BundledUnusable => begins && next is ExtractBundled,
                Note::Downloading => begins,
                Note::SourceFailed { source } => next is Download && next->Download_source == source
                    && event == Event::Downloaded(false) && following != (Next::Download {
                    source,
                    tool: Tool::Wget,
                }),
                Note::NoSourceLeft => event == Event::Downloaded(false) && following is Finished,
            }
        }),
{
    let effects = (step_after(provision, next, event)->0).0;
    lemma_holds(effects, Effect::RemoveDownload);
    lemma_holds(effects, Effect::Log(note));
}

/// What was learned before a download: a bundled archive that was found could not
/// be unpacked; if none was found, every place was looked at.
proof fn lemma_bundle_before_download(provision: Provision, events: Seq<Event>)
    requires
        run(provision, events) is Some,
        (run(provision, events)->0).1 !is Finished,
    ensures
        match (run(provision, events)->0).1 {
            Next::CheckInstalled => events.len() == 0,
            Next::CheckBundled { index } => events.len() == index + 1 && forall|j: int|
                0 <= j < events.len() ==> #[trigger] events[j] == Event::Found(false),
            Next::ExtractBundled { index } => events.len() == index + 2 && events.last()
                == Event::Found(true) && forall|j: int|
                0 <= j <= index ==> #[trigger] events[j] == Event::Found(false),
            _ => {
                &&& events.len() > 0
                &&& events.last() != Event::Found(true)
                &&& forall|j: int|
                    0 <= j < events.len() && #[trigger] events[j] == Event::Found(true) ==> j + 1
                        < events.len() && events[j + 1] == Event::Extracted(false)
                &&& (forall|j: int| 0 <= j < events.len() ==> #[trigger] events[j] != Event::Found(
                    true,
                )) ==> events.len() > provision.bundled && forall|j: int|
                    0 <= j <= provision.bundled ==> #[trigger] events[j] == Event::Found(false)
            },
        },
    decreases events.len(),
{
    if events.len() > 0 {
        let before = events.drop_last();
        let next = (run(provision, before)->0).1;
        let last = events.last();
        lemma_reachable(provision, before);
        lemma_bundle_before_download(provision, before);
        assert(forall|j: int| 0 <= j < before.len() ==> #[trigger] before[j] == events[j]);
        assert forall|j: int| 0 <= j < before.len() implies #[trigger] events[j] == before[j] by {}
        assert(events[events.len() - 1] == last);
        assert(before.len() > 0 ==> events[before.len() - 1] == before.last());
    }
}

/// Nothing is downloaded past a bundled archive: one that was found was unpacked
/// right away, in vain, and if none was found every place was looked at.
pub proof fn law_download_comes_after_the_bundle(provision: Provision, events: Seq<Event>)
    requires
        run(provision, events) is Some,
        (run(provision, events)->0).1 is Download,
    ensures
        forall|j: int|
            0 <= j < events.len() && #[trigger] events[j] == Event::Found(true) ==> j + 1
                < events.len() && events[j + 1] == Event::Extracted(false),
        (forall|j: int| 0 <= j < events.len() ==> #[trigger] events[j] != Event::Found(true))
            ==> events.len() > provision.bundled && forall|j: int|
            0 <= j <= provision.bundled ==> #[trigger] events[j] == Event::Found(false),
{
    lemma_bundle_before_download(provision, events);
}

/// How many times a download was tried.
pub open spec fn downloads(events: Seq<Event>) -> nat
    decreases events.len(),
{
    if events.len() == 0 {
        0
    } else {
        downloads(events.drop_last()) + if events.last() is Downloaded {
            1nat
        } else {
            0nat
        }
    }
}

proof fn lemma_downloads(provision: Provision, events: Seq<Event>)
    requires
        run(provision, events) is Some,
    ensures
        match (run(provision, events)->0).1 {
            Next::Download { source, tool } => downloads(events) == if provision.windows {
                source as int
            } else {
                2 * source + if tool == Tool::Wget {
                    1int
                } else {
                    0int
                }
            },
            Next::ExtractDownloaded => downloads(events) > 0 && events.last() == Event::Downloaded(
                true,
            ),
            Next::Finished { ready: _ } => true,
            _ => downloads(events) == 0,
        },
    decreases events.len(),
{
    if events.len() > 0 {
        lemma_reachable(provision, events.drop_last());
        lemma_downloads(provision, events.drop_last());
    }
}

/// It is given up for want of a source only when every source was tried with every
/// program: two downloads on Windows, four elsewhere.
pub proof fn law_every_source_is_tried(provision: Provision, events: Seq<Event>)
    requires
        run(provision, events) is Some,
        (run(provision, events)->0).1 == (Next::Finished { ready: false }),
        events.last() is Downloaded,
    ensures
        downloads(events) == if provision.windows {
            2nat
        } else {
            4nat
        },
{
    let before = events.drop_last();
    lemma_reachable(provision, before);
    lemma_downloads(provision, before);
}


/// The archive that was found, and the source that failed, are logged whole.
pub proof fn law_notes_tell_their_detail(index: usize, detail: Seq<char>, other: Seq<char>)
    ensures
        note_words(Note::BundledFound { index }, detail) == note_words(
            Note::BundledFound { index },
            other,
        ) ==> detail == other,
        note_words(Note::SourceFailed { source: index }, detail) == note_words(
            Note::SourceFailed { source: index },
            other,
        ) ==> detail == other,
{
    let found = "发现内置便携 Node 归档："@;
    assert(note_words(Note::BundledFound { index }, detail).skip(found.len() as int) =~= detail);
    assert(note_words(Note::BundledFound { index }, other).skip(found.len() as int) =~= other);
    let failed = "便携 Node 下载失败（"@;
    let end = "），尝试下一个源…"@;
    let x = note_words(Note::SourceFailed { source: index }, detail);
    let y = note_words(Note::SourceFailed { source: index }, other);
    assert(x.subrange(failed.len() as int, x.len() - end.len()) =~= detail);
    assert(y.subrange(failed.len() as int, y.len() - end.len()) =~= other);
}

}
