//! Running a suite: probe after probe, until one is not met.

use vstd::prelude::*;

use crate::database::conformance::ask;
use crate::database::conformance::ask::{ask, Act, Kept};
use crate::database::conformance::judge;
use crate::database::conformance::judge::{judge, remember, Answer};
use crate::database::conformance::list;
use crate::database::conformance::script::{Instance, Probe, Script};
use crate::database::service::DatabaseError;

verus! {

/// A suite that waits for the answer to a probe.
#[derive(Debug)]
pub struct Suite {
    /// The probe that was asked.
    pub probe: Probe,
    /// The probes after it, in order.
    pub rest: Vec<Probe>,
    /// What is kept of the answers before it.
    pub kept: Kept,
}

/// What comes next.
#[derive(Debug)]
pub enum Step {
    /// Ask this of one of the services.
    Ask { on: Instance, act: Act, suite: Suite },
    /// Every probe was met.
    Passed,
    /// The probe that checks this was not met.
    Failed { what: &'static str },
}

/// The first of the probes is asked; without one the suite has passed.
pub open spec fn goes_on(probes: Seq<Probe>, kept: Kept, step: Step) -> bool {
    if probes.len() == 0 {
        step is Passed
    } else if ask::can_ask(probes[0].call, kept) {
        step matches Step::Ask { on, act, suite } && on == probes[0].on && ask::asks(
            probes[0].call,
            kept,
            act,
        ) && suite.probe == probes[0] && suite.rest@ == probes.skip(1) && suite.kept == kept
    } else {
        step matches Step::Failed { what } && what == probes[0].what
    }
}

/// The reply was judged: where it is as it must be the next probe is asked,
/// with what was kept of it.
pub open spec fn answered(
    suite: Suite,
    reply: Result<Answer, DatabaseError>,
    step: Step,
) -> bool {
    if judge::meets(suite.probe.expect, reply, suite.kept) {
        exists|kept: Kept|
            judge::remembers(suite.probe.expect, reply, suite.kept, kept) && #[trigger] goes_on(
                suite.rest@,
                kept,
                step,
            )
    } else {
        step matches Step::Failed { what } && what == suite.probe.what
    }
}

fn go_on(probes: Vec<Probe>, kept: Kept) -> (r: Step)
    ensures
        goes_on(probes@, kept, r),
{
    let mut rest = probes;
    if rest.len() == 0 {
        return Step::Passed;
    }
    let probe = rest.remove(0);
    proof {
        assert(probes@.remove(0) =~= probes@.skip(1));
    }
    match ask(&probe.call, &kept) {
        Some(act) => Step::Ask { on: probe.on, act, suite: Suite { probe, rest, kept } },
        None => Step::Failed { what: probe.what },
    }
}

/// Starts a suite.
pub fn start(script: Script) -> (r: Step)
    ensures
        exists|kept: Kept|
            kept.values@ == Map::<Seq<char>, crate::json::JsonView>::empty() && kept.data is None
                && kept.columns is None && kept.gathered@.len() == 0 && #[trigger] goes_on(
                list::items(script),
                kept,
                r,
            ),
{
    let kept = Kept::new();
    let r = go_on(script.into_items(), kept);
    proof {
        assert(goes_on(list::items(script), kept, r));
    }
    r
}

impl Suite {
    /// Goes on with the answer to the probe.
    pub fn resume(self, reply: Result<Answer, DatabaseError>) -> (r: Step)
        ensures
            answered(self, reply, r),
    {
        if judge(&self.probe.expect, &reply, &self.kept) {
            let kept = remember(&self.probe.expect, reply, self.kept);
            let r = go_on(self.rest, kept);
            proof {
                assert(goes_on(self.rest@, kept, r));
            }
            r
        } else {
            Step::Failed { what: self.probe.what }
        }
    }
}

/// The replies lead from one step to another.
pub open spec fn leads(
    from: Step,
    replies: Seq<Result<Answer, DatabaseError>>,
    to: Step,
) -> bool
    decreases replies.len(),
{
    if replies.len() == 0 {
        from == to
    } else {
        from matches Step::Ask { on, act, suite } && exists|next: Step|
            #[trigger] answered(suite, replies[0], next) && leads(next, replies.skip(1), to)
    }
}

/// What is kept before each probe and after the last: first what is given, and
/// then what each reply leaves.
pub open spec fn keeps(
    probes: Seq<Probe>,
    replies: Seq<Result<Answer, DatabaseError>>,
    kept: Kept,
    memory: Seq<Kept>,
) -> bool {
    &&& memory.len() == probes.len() + 1
    &&& memory[0] == kept
    &&& forall|i: int|
        #![trigger probes[i]]
        0 <= i < probes.len() ==> judge::remembers(
            probes[i].expect,
            replies[i],
            memory[i],
            memory[i + 1],
        )
}

/// A suite passes only where every probe was asked, in order, and every reply
/// was as it had to be, given what was kept of the replies before it.
pub proof fn a_passed_suite_met_every_probe(
    probes: Seq<Probe>,
    kept: Kept,
    from: Step,
    replies: Seq<Result<Answer, DatabaseError>>,
)
    requires
        goes_on(probes, kept, from),
        leads(from, replies, Step::Passed),
    ensures
        replies.len() == probes.len(),
        exists|memory: Seq<Kept>| #[trigger]
            keeps(probes, replies, kept, memory) && forall|i: int|
                #![trigger probes[i]]
                0 <= i < probes.len() ==> ask::can_ask(probes[i].call, memory[i]) && judge::meets(
                    probes[i].expect,
                    replies[i],
                    memory[i],
                ),
    decreases replies.len(),
{
    if replies.len() == 0 {
        assert(keeps(probes, replies, kept, seq![kept]));
    } else {
        let suite = from->suite;
        let next = choose|next: Step|
            #[trigger] answered(suite, replies[0], next) && leads(
                next,
                replies.skip(1),
                Step::Passed,
            );
        assert(leads(next, replies.skip(1), Step::Passed));
        if next is Failed {
            assert(replies.skip(1).len() > 0 ==> !leads(next, replies.skip(1), Step::Passed));
        }
        assert(judge::meets(suite.probe.expect, replies[0], suite.kept));
        let after = choose|k: Kept|
            judge::remembers(suite.probe.expect, replies[0], suite.kept, k) && #[trigger] goes_on(
                suite.rest@,
                k,
                next,
            );
        a_passed_suite_met_every_probe(suite.rest@, after, next, replies.skip(1));
        let rest = choose|memory: Seq<Kept>| #[trigger]
            keeps(suite.rest@, replies.skip(1), after, memory) && forall|i: int|
                #![trigger suite.rest@[i]]
                0 <= i < suite.rest@.len() ==> ask::can_ask(suite.rest@[i].call, memory[i])
                    && judge::meets(suite.rest@[i].expect, replies.skip(1)[i], memory[i]);
        let memory = seq![kept] + rest;
        assert forall|i: int| #![trigger probes[i]] 0 <= i < probes.len() implies judge::remembers(
            probes[i].expect,
            replies[i],
            memory[i],
            memory[i + 1],
        ) && ask::can_ask(probes[i].call, memory[i]) && judge::meets(
            probes[i].expect,
            replies[i],
            memory[i],
        ) by {
            if i == 0 {
                assert(memory[0] == kept && memory[1] == after);
            } else {
                assert(probes[i] == suite.rest@[i - 1]);
                assert(replies[i] == replies.skip(1)[i - 1]);
                assert(memory[i] == rest[i - 1] && memory[i + 1] == rest[i]);
            }
        }
        assert(keeps(probes, replies, kept, memory));
    }
}

/// A suite that failed is at its end: it asks nothing more.
pub proof fn a_failed_suite_asks_nothing(
    what: &'static str,
    replies: Seq<Result<Answer, DatabaseError>>,
    to: Step,
)
    requires
        leads((Step::Failed { what }), replies, to),
    ensures
        replies.len() == 0,
{
}

} // verus!
