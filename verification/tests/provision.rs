use dsh_desktop::provision::{
    note_text, Effect, Event, Next, Note, Provision, Tool, DOWNLOAD_SOURCES,
};

const UNIX: Provision = Provision {
    windows: false,
    bundled: 2,
};
const WINDOWS: Provision = Provision {
    windows: true,
    bundled: 2,
};

fn run(provision: Provision, events: &[Event]) -> (Vec<Effect>, Next) {
    let step = provision.begin();
    let mut effects = step.effects;
    let mut next = step.next;
    for event in events {
        let step = provision.advance(next, *event).unwrap();
        effects.extend(step.effects);
        next = step.next;
    }
    (effects, next)
}

#[test]
fn node_that_is_unpacked_already() {
    let (effects, next) = run(UNIX, &[Event::Found(true)]);
    assert!(effects.is_empty());
    assert_eq!(next, Next::Finished { ready: true });
}

#[test]
fn bundled_archive_is_used_without_network() {
    let (effects, next) = run(
        UNIX,
        &[
            Event::Found(false),
            Event::Found(false),
            Event::Found(true),
            Event::Extracted(true),
        ],
    );
    assert_eq!(effects, vec![Effect::Log(Note::BundledFound { index: 1 })]);
    assert_eq!(next, Next::Finished { ready: true });
}

#[test]
fn damaged_bundle_is_replaced_by_a_download() {
    let (effects, next) = run(
        UNIX,
        &[Event::Found(false), Event::Found(true), Event::Extracted(false)],
    );
    assert_eq!(
        effects,
        vec![
            Effect::Log(Note::BundledFound { index: 0 }),
            Effect::Log(Note::BundledUnusable),
            Effect::Log(Note::Downloading),
            Effect::RemoveDownload
        ]
    );
    assert_eq!(
        next,
        Next::Download {
            source: 0,
            tool: Tool::Curl
        }
    );
}

#[test]
fn download_is_unpacked_and_removed() {
    let begin = [
        Event::Found(false),
        Event::Found(false),
        Event::Found(false),
        Event::Downloaded(true),
    ];
    for ok in [true, false] {
        let mut events = begin.to_vec();
        events.push(Event::Extracted(ok));
        let (effects, next) = run(UNIX, &events);
        assert_eq!(
            effects,
            vec![
                Effect::Log(Note::Downloading),
                Effect::RemoveDownload,
                Effect::RemoveDownload
            ]
        );
        assert_eq!(next, Next::Finished { ready: ok });
    }
}

#[test]
fn every_source_is_tried_with_every_program() {
    let mut events = vec![Event::Found(false), Event::Found(false), Event::Found(false)];
    let mut asked = Vec::new();
    for _ in 0..4 {
        asked.push(run(UNIX, &events).1);
        events.push(Event::Downloaded(false));
    }
    assert_eq!(
        asked,
        vec![
            Next::Download { source: 0, tool: Tool::Curl },
            Next::Download { source: 0, tool: Tool::Wget },
            Next::Download { source: 1, tool: Tool::Curl },
            Next::Download { source: 1, tool: Tool::Wget },
        ]
    );
    let (effects, next) = run(UNIX, &events);
    assert_eq!(
        effects[2..],
        [
            Effect::Log(Note::SourceFailed { source: 0 }),
            Effect::Log(Note::SourceFailed { source: 1 }),
            Effect::Log(Note::NoSourceLeft)
        ]
    );
    assert_eq!(next, Next::Finished { ready: false });
    assert_eq!(DOWNLOAD_SOURCES, 2);
}

#[test]
fn windows_downloads_with_curl_alone() {
    let (_, next) = run(
        WINDOWS,
        &[
            Event::Found(false),
            Event::Found(false),
            Event::Found(false),
            Event::Downloaded(false),
        ],
    );
    assert_eq!(
        next,
        Next::Download {
            source: 1,
            tool: Tool::Curl
        }
    );
}

#[test]
fn launcher_without_bundle_downloads_at_once() {
    let bare = Provision {
        windows: true,
        bundled: 0,
    };
    let (_, next) = run(bare, &[Event::Found(false)]);
    assert_eq!(
        next,
        Next::Download {
            source: 0,
            tool: Tool::Curl
        }
    );
}

#[test]
fn answers_to_other_questions_are_refused() {
    assert!(UNIX.advance(Next::CheckInstalled, Event::Downloaded(true)).is_none());
    assert!(UNIX.advance(Next::CheckBundled { index: 2 }, Event::Found(true)).is_none());
    assert!(UNIX
        .advance(Next::Download { source: 2, tool: Tool::Curl }, Event::Downloaded(true))
        .is_none());
    assert!(UNIX.advance(Next::Finished { ready: true }, Event::Found(true)).is_none());
}

#[test]
fn notes_on_getting_node() {
    assert_eq!(
        note_text(Note::BundledFound { index: 0 }, "a.zip"),
        "发现内置便携 Node 归档：a.zip"
    );
    assert_eq!(note_text(Note::BundledUnusable, ""), "内置归档解压失败，回退在线下载…");
    assert_eq!(
        note_text(Note::Downloading, ""),
        "未检测到系统 Node.js，准备下载便携 Node（国内镜像）…"
    );
    assert_eq!(
        note_text(Note::SourceFailed { source: 0 }, "u"),
        "便携 Node 下载失败（u），尝试下一个源…"
    );
    assert_eq!(note_text(Note::NoSourceLeft, ""), "便携 Node 下载失败：所有源均不可用");
}
