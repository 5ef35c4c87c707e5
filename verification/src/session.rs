//! The jobs and the launcher together: what a job reports ends in the launcher.
use crate::install::{install_begun, law_install_end_reported_once};
use crate::job::{EventView, ReportView};
use crate::launcher::{first_plan, AppView};
use crate::message::MsgView;
use crate::package::Package;
use crate::release::AssetView;
use crate::update::{law_update_end_reported_once, update_begun, UpdatePhase};
use vstd::prelude::*;

verus! {

/// The messages that carry the reports, given how the amounts of each are shown.
pub open spec fn messages(
    reports: Seq<ReportView>,
    shown: spec_fn(ReportView) -> (Seq<char>, Seq<char>),
) -> Seq<MsgView> {
    Seq::new(
        reports.len(),
        |i: int| reports[i].message(shown(reports[i]).0, shown(reports[i]).1),
    )
}

/// Whether a message belongs to an installation.
pub open spec fn of_install(msg: MsgView) -> bool {
    msg is DownloadProgress || msg is DownloadComplete || msg is DownloadError
}

/// Whether a message belongs to an update of the launcher.
pub open spec fn of_update(msg: MsgView) -> bool {
    msg is AppUpdateProgress || msg is AppUpdateReady || msg is AppUpdateError
}

/// What an installation reports is carried by messages of an installation.
proof fn lemma_install_messages(
    asset: AssetView,
    game_name: Seq<char>,
    events: Seq<EventView>,
    shown: spec_fn(ReportView) -> (Seq<char>, Seq<char>),
)
    ensures
        ({
            let reports = install_begun(asset, game_name).run_reports(events);
            forall|i: int|
                0 <= i < reports.len() ==> of_install(#[trigger] messages(reports, shown)[i]) && (
                messages(reports, shown)[i] is DownloadProgress <==> !crate::install::says_over(
                    reports[i],
                ))
        }),
    decreases events.len(),
{
    if events.len() > 0 {
        lemma_install_messages(asset, game_name, events.drop_last(), shown);
        let begun = install_begun(asset, game_name);
        let said = begun.run_reports(events.drop_last());
        let new = begun.run(events.drop_last()).next(events.last()).1;
        let reports = begun.run_reports(events);
        assert forall|i: int| 0 <= i < reports.len() implies of_install(
            #[trigger] messages(reports, shown)[i],
        ) && (messages(reports, shown)[i] is DownloadProgress <==> !crate::install::says_over(
            reports[i],
        )) by {
            if i < said.len() {
                assert(reports[i] == said[i]);
                assert(messages(said, shown)[i] == messages(reports, shown)[i]);
            } else {
                assert(reports[i] == new[i - said.len()]);
            }
        }
    }
}

/// What a preparation of an update reports is carried by messages of an update.
proof fn lemma_update_messages(
    asset: AssetView,
    package: Option<Package>,
    pid: u32,
    stamp: u128,
    events: Seq<EventView>,
    shown: spec_fn(ReportView) -> (Seq<char>, Seq<char>),
)
    ensures
        ({
            let begun = update_begun(asset, package, pid, stamp);
            let reports = begun.run_reports(events);
            &&& forall|i: int|
                0 <= i < reports.len() ==> of_update(#[trigger] messages(reports, shown)[i]) && (
                messages(reports, shown)[i] is AppUpdateProgress <==> !crate::update::says_over(
                    reports[i],
                ))
            &&& begun.run(events).ended() ==> reports.len() > 0 && (messages(
                reports,
                shown,
            ).last() is AppUpdateReady <==> begun.run(events).phase == UpdatePhase::Ready)
        }),
    decreases events.len(),
{
    if events.len() > 0 {
        lemma_update_messages(asset, package, pid, stamp, events.drop_last(), shown);
        let begun = update_begun(asset, package, pid, stamp);
        let said = begun.run_reports(events.drop_last());
        let new = begun.run(events.drop_last()).next(events.last()).1;
        let reports = begun.run_reports(events);
        assert(reports == said + new);
        assert forall|i: int| 0 <= i < reports.len() implies of_update(
            #[trigger] messages(reports, shown)[i],
        ) && (messages(reports, shown)[i] is AppUpdateProgress <==> !crate::update::says_over(
            reports[i],
        )) by {
            if i < said.len() {
                assert(reports[i] == said[i]);
                assert(messages(said, shown)[i] == messages(reports, shown)[i]);
            } else {
                assert(reports[i] == new[i - said.len()]);
            }
        }
        if begun.run(events).ended() {
            if begun.run(events.drop_last()).ended() {
                assert(new.len() == 0);
                assert(reports == said);
            } else {
                assert(new.len() > 0);
                assert(reports.last() == new.last());
            }
        }
    }
}

/// An installation is under way in the launcher until a message ends it.
proof fn lemma_install_under_way(app: AppView, msgs: Seq<MsgView>)
    requires
        app.is_downloading,
        forall|i: int| 0 <= i < msgs.len() ==> of_install(#[trigger] msgs[i]),
        forall|i: int| 0 <= i < msgs.len() - 1 ==> (#[trigger] msgs[i]) is DownloadProgress,
    ensures
        app.after_messages(msgs).is_downloading <==> (msgs.len() == 0
            || msgs.last() is DownloadProgress),
    decreases msgs.len(),
{
    if msgs.len() > 0 {
        let rest = msgs.drop_first();
        assert(of_install(msgs[0]));
        if rest.len() > 0 {
            assert(msgs[0] is DownloadProgress);
            assert forall|i: int| 0 <= i < rest.len() implies of_install(#[trigger] rest[i]) by {
                assert(rest[i] == msgs[i + 1]);
            }
            assert forall|i: int| 0 <= i < rest.len() - 1 implies (
            #[trigger] rest[i]) is DownloadProgress by {
                assert(rest[i] == msgs[i + 1]);
            }
            lemma_install_under_way(app.after_message(msgs[0]), rest);
        } else {
            assert(app.after_message(msgs[0]).after_messages(rest) == app.after_message(msgs[0]));
        }
    }
}

/// A preparation is under way in the launcher until a message ends it; a plan
/// comes out if and only if the last message carries one.
proof fn lemma_update_under_way(app: AppView, msgs: Seq<MsgView>)
    requires
        app.app_update_downloading,
        forall|i: int| 0 <= i < msgs.len() ==> of_update(#[trigger] msgs[i]),
        forall|i: int| 0 <= i < msgs.len() - 1 ==> (#[trigger] msgs[i]) is AppUpdateProgress,
    ensures
        app.after_messages(msgs).app_update_downloading <==> (msgs.len() == 0
            || !(msgs.last() is AppUpdateError)),
        first_plan(msgs) is Some <==> (msgs.len() > 0 && msgs.last() is AppUpdateReady),
    decreases msgs.len(),
{
    if msgs.len() > 0 {
        let rest = msgs.drop_first();
        assert(of_update(msgs[0]));
        if rest.len() > 0 {
            assert(msgs[0] is AppUpdateProgress);
            assert forall|i: int| 0 <= i < rest.len() implies of_update(#[trigger] rest[i]) by {
                assert(rest[i] == msgs[i + 1]);
            }
            assert forall|i: int| 0 <= i < rest.len() - 1 implies (
            #[trigger] rest[i]) is AppUpdateProgress by {
                assert(rest[i] == msgs[i + 1]);
            }
            lemma_update_under_way(app.after_message(msgs[0]), rest);
        } else {
            assert(app.after_message(msgs[0]).after_messages(rest) == app.after_message(msgs[0]));
            assert(first_plan(rest) is None);
        }
    }
}

/// The launcher shows an installation as under way until the job has ended, and
/// then no more, so that another one can be begun.
pub proof fn law_install_ends_in_launcher(
    app: AppView,
    asset: AssetView,
    game_name: Seq<char>,
    events: Seq<EventView>,
    shown: spec_fn(ReportView) -> (Seq<char>, Seq<char>),
)
    ensures
        app.install_started().after_messages(
            messages(install_begun(asset, game_name).run_reports(events), shown),
        ).is_downloading <==> !install_begun(asset, game_name).run(events).ended(),
{
    let reports = install_begun(asset, game_name).run_reports(events);
    let msgs = messages(reports, shown);
    law_install_end_reported_once(asset, game_name, events);
    lemma_install_messages(asset, game_name, events, shown);
    assert forall|i: int| 0 <= i < msgs.len() - 1 implies (
    #[trigger] msgs[i]) is DownloadProgress by {
        assert(!crate::install::says_over(reports[i]));
    }
    if msgs.len() > 0 {
        assert(crate::install::says_over(reports[reports.len() - 1]) <==> install_begun(
            asset,
            game_name,
        ).run(events).ended());
        assert(msgs[reports.len() - 1] is DownloadProgress <==> !crate::install::says_over(
            reports[reports.len() - 1],
        ));
    }
    lemma_install_under_way(app.install_started(), msgs);
}

/// The launcher shows an update as under way until its preparation has failed,
/// so that it can be tried again then; it gets a plan to carry out if and only
/// if the update is ready.
pub proof fn law_update_ends_in_launcher(
    app: AppView,
    asset: AssetView,
    package: Option<Package>,
    pid: u32,
    stamp: u128,
    events: Seq<EventView>,
    shown: spec_fn(ReportView) -> (Seq<char>, Seq<char>),
)
    ensures
        ({
            let job = update_begun(asset, package, pid, stamp).run(events);
            let msgs = messages(
                update_begun(asset, package, pid, stamp).run_reports(events),
                shown,
            );
            let after = app.update_started().after_messages(msgs);
            &&& after.app_update_downloading <==> job.phase != UpdatePhase::Failed
            &&& first_plan(msgs) is Some <==> job.phase == UpdatePhase::Ready
        }),
{
    let begun = update_begun(asset, package, pid, stamp);
    let reports = begun.run_reports(events);
    let msgs = messages(reports, shown);
    law_update_end_reported_once(asset, package, pid, stamp, events);
    lemma_update_messages(asset, package, pid, stamp, events, shown);
    assert forall|i: int| 0 <= i < msgs.len() - 1 implies (
    #[trigger] msgs[i]) is AppUpdateProgress by {
        assert(!crate::update::says_over(reports[i]));
    }
    if msgs.len() > 0 {
        assert(crate::update::says_over(reports[reports.len() - 1]) <==> begun.run(events).ended());
        assert(of_update(msgs[reports.len() - 1]));
        assert(msgs[reports.len() - 1] is AppUpdateProgress <==> !crate::update::says_over(
            reports[reports.len() - 1],
        ));
    }
    lemma_update_under_way(app.update_started(), msgs);
}

} // verus!
