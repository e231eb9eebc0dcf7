//! What holds of whole calls: the steps a call takes when its commands
//! succeed or one fails, and how the shared session lives across calls.
use vstd::prelude::*;
use crate::session::{
    awaiting_of, blank_page, failure_error, launch_commands, launch_sequence, launch_plan, page_commands, plan,
    reply_of, start, transition, AwaitingView, CommandView, ManagerView, OutcomeView, ReplyView,
    RequestView, RunView, StepView,
};

verus! {

/// Goes on with `run` through the outcomes `os`, one per step, until the
/// run is over or the outcomes are used up: the manager and run states it
/// ends in, and the steps it took.
pub open spec fn drive(m: ManagerView, run: RunView, os: Seq<OutcomeView>) -> (
    ManagerView,
    RunView,
    Seq<StepView>,
)
    decreases os.len(),
{
    if os.len() == 0 || run.finished {
        (m, run, seq![])
    } else {
        let (m2, r2, s) = transition(m, run, os[0]);
        let (m3, r3, ss) = drive(m2, r2, os.drop_first());
        (m3, r3, seq![s] + ss)
    }
}

/// `a` and `b` launch Chrome the same way.
pub open spec fn same_config(a: ManagerView, b: ManagerView) -> bool {
    &&& a.headless == b.headless
    &&& a.chrome_path == b.chrome_path
    &&& a.chrome_flags == b.chrome_flags
}

/// What the `j`th outcome fed to `run` answers: the command it awaits now,
/// then the remaining ones.
pub open spec fn awaited_at(run: RunView, j: int) -> AwaitingView {
    if j == 0 {
        run.awaiting
    } else {
        awaiting_of(run.remaining[j - 1])
    }
}

proof fn lemma_drive_success(m: ManagerView, run: RunView, os: Seq<OutcomeView>)
    requires
        !run.finished,
        os.len() == run.remaining.len() + 1,
        forall|i: int| 0 <= i < os.len() ==> !(#[trigger] os[i] is Failed),
    ensures
        ({
            let (m2, r2, ss) = drive(m, run, os);
            &&& ss.len() == os.len()
            &&& forall|i: int| 0 <= i < os.len() - 1 ==> ss[i] == StepView::Perform(run.remaining[i])
            &&& ss[os.len() - 1] == StepView::Finish(Ok(reply_of(run.request, os.last())))
            &&& r2.finished
            &&& same_config(m, m2)
            &&& m2.session_open == (m.session_open || exists|j: int|
                0 <= j < os.len() && #[trigger] awaited_at(run, j) is Page)
        }),
    decreases os.len(),
{
    let (m1, r1, s) = transition(m, run, os[0]);
    assert(!(os[0] is Failed));
    if os.len() == 1 {
        assert(drive(m1, r1, os.drop_first()) == (m1, r1, Seq::<StepView>::empty()));
        let (m2, r2, ss) = drive(m, run, os);
        assert(ss =~= seq![s]);
        if m2.session_open && !m.session_open {
            assert(awaited_at(run, 0) is Page);
        }
    } else {
        let rest = os.drop_first();
        assert forall|i: int| 0 <= i < rest.len() implies !(#[trigger] rest[i] is Failed) by {
            assert(rest[i] == os[i + 1]);
        }
        lemma_drive_success(m1, r1, rest);
        let (m2, r2, ss) = drive(m, run, os);
        let (m3, r3, ss1) = drive(m1, r1, rest);
        assert(ss == seq![s] + ss1);
        assert forall|i: int| 0 <= i < os.len() - 1 implies ss[i] == StepView::Perform(
            run.remaining[i],
        ) by {
            if i > 0 {
                assert(ss[i] == ss1[i - 1]);
                assert(r1.remaining[i - 1] == run.remaining[i]);
            }
        }
        assert(rest.last() == os.last());
        assert(ss[os.len() - 1] == ss1[rest.len() - 1]);
        assert forall|j: int| 0 <= j < rest.len() implies awaited_at(r1, j) == awaited_at(
            run,
            j + 1,
        ) by {
            if j > 0 {
                assert(r1.remaining[j - 1] == run.remaining[j]);
            }
        }
        if m2.session_open {
            if !m.session_open && !m1.session_open {
                let j = choose|j: int| 0 <= j < rest.len() && #[trigger] awaited_at(r1, j) is Page;
                assert(awaited_at(run, j + 1) is Page);
            }
            if !m.session_open && m1.session_open {
                assert(awaited_at(run, 0) is Page);
            }
        } else {
            assert forall|j: int| 0 <= j < os.len() implies !(#[trigger] awaited_at(
                run,
                j,
            ) is Page) by {
                if j > 0 {
                    assert(awaited_at(r1, j - 1) == awaited_at(run, j));
                }
            }
        }
    }
}

proof fn lemma_drive_failure(m: ManagerView, run: RunView, os: Seq<OutcomeView>, k: int)
    requires
        !run.finished,
        0 <= k <= run.remaining.len(),
        k < os.len(),
        os[k] is Failed,
        !(awaited_at(run, k) is Close),
        forall|i: int| 0 <= i < k ==> !(#[trigger] os[i] is Failed),
    ensures
        ({
            let (m2, r2, ss) = drive(m, run, os);
            &&& ss.len() == k + 1
            &&& forall|i: int| 0 <= i < k ==> ss[i] == StepView::Perform(run.remaining[i])
            &&& ss[k] == StepView::Finish(Err(failure_error(awaited_at(run, k), os[k]->Failed_0)))
            &&& r2.finished
            &&& same_config(m, m2)
            &&& m2.session_open == (m.session_open || exists|j: int|
                0 <= j < k && #[trigger] awaited_at(run, j) is Page)
        }),
    decreases k,
{
    let (m1, r1, s) = transition(m, run, os[0]);
    let rest = os.drop_first();
    if k == 0 {
        assert(drive(m1, r1, rest) == (m1, r1, Seq::<StepView>::empty()));
        let (m2, r2, ss) = drive(m, run, os);
        assert(ss =~= seq![s]);
    } else {
        assert(!(os[0] is Failed));
        assert(run.remaining.len() > 0);
        assert forall|i: int| 0 <= i < k - 1 implies !(#[trigger] rest[i] is Failed) by {
            assert(rest[i] == os[i + 1]);
        }
        assert forall|j: int| 0 <= j < rest.len() && j <= r1.remaining.len() implies awaited_at(
            r1,
            j,
        ) == awaited_at(run, j + 1) by {
            if j > 0 {
                assert(r1.remaining[j - 1] == run.remaining[j]);
            }
        }
        assert(rest[k - 1] == os[k]);
        assert(awaited_at(r1, k - 1) == awaited_at(run, k));
        lemma_drive_failure(m1, r1, rest, k - 1);
        let (m2, r2, ss) = drive(m, run, os);
        let (m3, r3, ss1) = drive(m1, r1, rest);
        assert(ss == seq![s] + ss1);
        assert forall|i: int| 0 <= i < k implies ss[i] == StepView::Perform(run.remaining[i]) by {
            if i > 0 {
                assert(ss[i] == ss1[i - 1]);
                assert(r1.remaining[i - 1] == run.remaining[i]);
            }
        }
        assert(ss[k] == ss1[k - 1]);
        if m2.session_open {
            if !m.session_open && !m1.session_open {
                let j = choose|j: int| 0 <= j < k - 1 && #[trigger] awaited_at(r1, j) is Page;
                assert(awaited_at(run, j + 1) is Page);
            }
            if !m.session_open && m1.session_open {
                assert(awaited_at(run, 0) is Page);
            }
        } else {
            assert forall|j: int| 0 <= j < k implies !(#[trigger] awaited_at(run, j) is Page) by {
                if j > 0 {
                    assert(awaited_at(r1, j - 1) == awaited_at(run, j));
                }
            }
        }
    }
}

pub(crate) proof fn lemma_page_commands_shape(r: RequestView)
    requires
        !(r is Close),
    ensures
        page_commands(r).len() > 0,
        forall|i: int|
            0 <= i < page_commands(r).len() ==> !(#[trigger] awaiting_of(page_commands(r)[i]) is Page)
                && !(awaiting_of(page_commands(r)[i]) is Close),
{
    let p = page_commands(r);
    match r {
        RequestView::TypeText { selector, text, press_key_after } => {
            match press_key_after {
                Some(key) => {
                    assert(p =~= seq![
                        CommandView::FindElement { selector },
                        CommandView::ClickElement,
                        CommandView::TypeStr { text },
                        CommandView::PressKey { key },
                    ]);
                },
                None => {
                    assert(p =~= seq![
                        CommandView::FindElement { selector },
                        CommandView::ClickElement,
                        CommandView::TypeStr { text },
                    ]);
                },
            }
        },
        _ => {},
    }
}

/// A call starts a browser only when none is running: its commands are the
/// launch commands (build the configuration from the manager's settings,
/// launch, open a blank page) followed by its own commands on the page,
/// and the launch commands are there exactly when no session is open.
pub proof fn law_lazy_launch(m: ManagerView, r: RequestView)
    requires
        !(r is Close),
    ensures
        plan(m, r) == launch_commands(m) + page_commands(r),
        m.session_open ==> plan(m, r) == page_commands(r),
        !m.session_open ==> plan(m, r) == launch_sequence(m) + page_commands(r),
{
    if m.session_open {
        assert(launch_commands(m) + page_commands(r) =~= page_commands(r));
    }
}

/// The `j`th outcome of a call answers its `j`th planned command.
proof fn lemma_start_awaits_plan(m: ManagerView, r: RequestView)
    requires
        plan(m, r).len() > 0,
    ensures
        ({
            let (m1, run1, first) = start(m, r);
            &&& first == StepView::Perform(plan(m, r)[0])
            &&& !run1.finished
            &&& run1.request == r
            &&& run1.remaining == plan(m, r).drop_first()
            &&& forall|j: int|
                0 <= j < plan(m, r).len() ==> #[trigger] awaited_at(run1, j) == awaiting_of(
                    plan(m, r)[j],
                )
        }),
{
    let p = plan(m, r);
    let (m1, run1, first) = start(m, r);
    assert forall|j: int| 0 <= j < p.len() implies #[trigger] awaited_at(run1, j) == awaiting_of(
        p[j],
    ) by {
        if j > 0 {
            assert(run1.remaining[j - 1] == p[j]);
        }
    }
}

/// A call whose commands all succeed performs exactly its planned
/// commands, one per step, and ends with the result that the last
/// outcome gives; afterwards the shared session is open, and the manager
/// launches Chrome the same way as before.
pub proof fn law_successful_call(m: ManagerView, r: RequestView, os: Seq<OutcomeView>)
    requires
        !(r is Close),
        os.len() == plan(m, r).len(),
        forall|i: int| 0 <= i < os.len() ==> !(#[trigger] os[i] is Failed),
    ensures
        ({
            let p = plan(m, r);
            let (m1, run1, first) = start(m, r);
            let (m2, r2, ss) = drive(m1, run1, os);
            &&& p.len() > 0
            &&& first == StepView::Perform(p[0])
            &&& ss.len() == p.len()
            &&& forall|i: int| 0 <= i < p.len() - 1 ==> ss[i] == StepView::Perform(p[i + 1])
            &&& ss[p.len() - 1] == StepView::Finish(Ok(reply_of(r, os.last())))
            &&& r2.finished
            &&& m2.session_open
            &&& same_config(m, m2)
        }),
{
    let p = plan(m, r);
    lemma_page_commands_shape(r);
    law_lazy_launch(m, r);
    lemma_start_awaits_plan(m, r);
    let (m1, run1, first) = start(m, r);
    lemma_drive_success(m1, run1, os);
    let (m2, r2, ss) = drive(m1, run1, os);
    assert forall|i: int| 0 <= i < p.len() - 1 implies ss[i] == StepView::Perform(p[i + 1]) by {
        assert(run1.remaining[i] == p[i + 1]);
    }
    if !m.session_open {
        assert(p[2] == CommandView::OpenPage { url: blank_page() });
        assert(awaited_at(run1, 2) is Page);
    }
}

/// A call that fails at its `k`th command (the ones before succeed)
/// performs its planned commands up to that one and ends with the error
/// that the failure gives: a configuration, launch or element error for
/// those commands, the command's own message otherwise. The shared session
/// is open afterwards exactly when it was before, or the launch got as far
/// as opening the page; so a failed launch is tried again by the next
/// call.
pub proof fn law_failed_call(m: ManagerView, r: RequestView, os: Seq<OutcomeView>, k: int)
    requires
        !(r is Close),
        0 <= k < plan(m, r).len(),
        k < os.len(),
        os[k] is Failed,
        forall|i: int| 0 <= i < k ==> !(#[trigger] os[i] is Failed),
    ensures
        ({
            let p = plan(m, r);
            let (m1, run1, first) = start(m, r);
            let (m2, r2, ss) = drive(m1, run1, os);
            &&& first == StepView::Perform(p[0])
            &&& ss.len() == k + 1
            &&& forall|i: int| 0 <= i < k ==> ss[i] == StepView::Perform(p[i + 1])
            &&& ss[k] == StepView::Finish(Err(failure_error(awaiting_of(p[k]), os[k]->Failed_0)))
            &&& r2.finished
            &&& same_config(m, m2)
            &&& m2.session_open == (m.session_open || k > 2)
            &&& (!m2.session_open ==> plan(m2, r) == launch_sequence(m) + page_commands(r))
        }),
{
    let p = plan(m, r);
    lemma_page_commands_shape(r);
    law_lazy_launch(m, r);
    lemma_start_awaits_plan(m, r);
    let (m1, run1, first) = start(m, r);
    if !m.session_open {
        assert(k < 3 ==> p[k] == launch_commands(m)[k]);
        assert(k >= 3 ==> p[k] == page_commands(r)[k - 3]);
    } else {
        assert(p[k] == page_commands(r)[k]);
    }
    lemma_drive_failure(m1, run1, os, k);
    let (m2, r2, ss) = drive(m1, run1, os);
    assert forall|i: int| 0 <= i < k implies ss[i] == StepView::Perform(p[i + 1]) by {
        assert(run1.remaining[i] == p[i + 1]);
    }
    if !m.session_open {
        if k > 2 {
            assert(p[2] == CommandView::OpenPage { url: blank_page() });
            assert(awaited_at(run1, 2) is Page);
        } else {
            assert forall|j: int| 0 <= j < k implies !(#[trigger] awaited_at(run1, j) is Page) by {
                assert(p[j] == launch_commands(m)[j]);
            }
        }
    } else {
        assert forall|j: int| 0 <= j < k implies !(#[trigger] awaited_at(run1, j) is Page) by {
            assert(p[j] == page_commands(r)[j]);
        }
    }
    if !m2.session_open {
        law_lazy_launch(m2, r);
        assert(launch_plan(m2) == launch_plan(m));
    }
}

/// Once a call has succeeded, later calls use the same browser and page:
/// their commands are their own page commands only, with no launch.
pub proof fn law_session_reused(m: ManagerView, r: RequestView, os: Seq<OutcomeView>, next: RequestView)
    requires
        !(r is Close),
        !(next is Close),
        os.len() == plan(m, r).len(),
        forall|i: int| 0 <= i < os.len() ==> !(#[trigger] os[i] is Failed),
    ensures
        ({
            let (m1, run1, first) = start(m, r);
            let (m2, r2, ss) = drive(m1, run1, os);
            plan(m2, next) == page_commands(next)
        }),
{
    law_successful_call(m, r, os);
    let (m1, run1, first) = start(m, r);
    let (m2, r2, ss) = drive(m1, run1, os);
    law_lazy_launch(m2, next);
}

/// Closing always succeeds, whatever closing the browser gives, and
/// leaves no session: the browser is closed only if one was running, and
/// the next call on the page launches a new one with the same
/// configuration.
pub proof fn law_close(m: ManagerView, o: OutcomeView, next: RequestView)
    requires
        !(next is Close),
    ensures
        ({
            let (m1, run1, first) = start(m, RequestView::Close);
            &&& !m1.session_open
            &&& same_config(m, m1)
            &&& plan(m1, next) == launch_sequence(m) + page_commands(next)
            &&& (m.session_open ==> {
                let (m2, r2, s) = transition(m1, run1, o);
                &&& first == StepView::Perform(CommandView::CloseBrowser)
                &&& s == StepView::Finish(Ok(ReplyView::Unit))
                &&& m2 == m1
                &&& r2.finished
            })
            &&& (!m.session_open ==> first == StepView::Finish(Ok(ReplyView::Unit)) && run1.finished)
        }),
{
    let (m1, run1, first) = start(m, RequestView::Close);
    assert(launch_plan(m1) == launch_plan(m));
    law_lazy_launch(m1, next);
}

} // verus!
