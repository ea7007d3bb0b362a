//! The execution of a request, one engine call at a time.
//!
//! The library decides what the engine is told next; the caller's driver
//! makes the call and reports how the engine answered. A [`Step`] is what
//! the library has decided; a [`Transfer`] is an execution that waits for
//! the answer to the call it issued last.

use crate::body::Body;
use crate::engine::{views, ErrCode, Opt, OptView, Outcome};
use crate::handle::Handle;
use crate::model::RequestView;
use std::collections::VecDeque;
use vstd::prelude::*;

verus! {

/// The value of a [`Transfer`].
pub struct TransferView {
    /// Every call of the execution, in the order in which the engine gets
    /// them while it accepts each.
    pub script: Seq<OptView>,
    /// How many of them have been issued.
    pub issued: nat,
    /// How many calls at the head of the script are settings of the
    /// session. The engine has to accept those.
    pub settings: nat,
    /// How many calls behind the settings assign the target. A rejection of
    /// one of those is kept and returned later.
    pub targets: nat,
    /// Whether the redirect switch follows the targets.
    pub redirect: bool,
    /// The first rejection of a target so far.
    pub deferred: Option<ErrCode>,
    /// The body that goes with the transfer.
    pub body: Option<Body>,
    /// Whether a progress callback goes with the transfer.
    pub progress: bool,
}

/// The value of a [`Step`].
pub enum StepView {
    Configure(OptView, TransferView),
    Perform(Option<Body>, bool),
    Fail(ErrCode),
}

impl TransferView {
    /// The execution of `request` before its first step, on a session that
    /// is still owed `settings`.
    pub open spec fn of(request: RequestView, settings: Seq<OptView>) -> TransferView {
        TransferView {
            script: request.script(settings),
            issued: 0,
            settings: settings.len(),
            targets: request.uris.len(),
            redirect: request.follow_redirects,
            deferred: None,
            body: request.body,
            progress: request.progress,
        }
    }

    /// The number of calls that come before the configuration of the
    /// transfer: the settings, the targets and the redirect switch. Once
    /// they are through, a rejected target ends the execution.
    pub open spec fn opening(self) -> nat {
        self.settings + self.targets + if self.redirect {
            1nat
        } else {
            0nat
        }
    }

    /// The script holds the calls that are counted, and no more calls have
    /// been issued than it holds.
    pub open spec fn wf(self) -> bool {
        &&& self.opening() <= self.script.len()
        &&& self.issued <= self.script.len()
    }

    /// Whether the call issued last assigns a target.
    pub open spec fn awaits_target(self) -> bool {
        self.settings < self.issued <= self.settings + self.targets
    }

    /// Whether the call issued last is a setting of the session.
    pub open spec fn awaits_setting(self) -> bool {
        0 < self.issued <= self.settings
    }

    /// Takes in the answer to the call issued last. A rejected target is
    /// remembered, the first one for good; any other rejection ends the
    /// execution with its error.
    pub open spec fn absorb(self, outcome: Outcome) -> Result<TransferView, ErrCode> {
        match outcome {
            Ok(_) => Ok(self),
            Err(e) => if self.awaits_target() {
                Ok(
                    TransferView {
                        deferred: if self.deferred is Some {
                            self.deferred
                        } else {
                            Some(e)
                        },
                        ..self
                    },
                )
            } else {
                Err(e)
            },
        }
    }

    /// Decides what comes next. Once the opening calls are through, a
    /// remembered rejection is returned; otherwise the next call of the script is issued, and after
    /// the last one the engine is to perform the transfer.
    pub open spec fn advance(self) -> StepView {
        if self.issued >= self.opening() && self.deferred is Some {
            StepView::Fail(self.deferred->0)
        } else if self.issued < self.script.len() {
            StepView::Configure(
                self.script[self.issued as int],
                TransferView { issued: self.issued + 1, ..self },
            )
        } else {
            StepView::Perform(self.body, self.progress)
        }
    }

    /// The step that follows the answer `outcome` to the call issued last.
    pub open spec fn resume(self, outcome: Outcome) -> StepView {
        match self.absorb(outcome) {
            Ok(next) => next.advance(),
            Err(e) => StepView::Fail(e),
        }
    }
}

/// How a run of an execution ends.
pub enum End {
    /// A call has been issued whose answer the run does not hold.
    Waiting,
    /// The engine was told to perform the transfer.
    Performed(Option<Body>, bool),
    /// The execution ended with this error.
    Failed(ErrCode),
}

/// A run of an execution: the calls that the engine was given, in order,
/// and how the run ended.
pub struct Run {
    pub calls: Seq<OptView>,
    pub end: End,
}

/// The run that starts with `step`, where the engine answers the call at
/// position `i` of the script with `answers[i]`.
pub open spec fn run(step: StepView, answers: Seq<Outcome>) -> Run
    decreases
        (match step {
            StepView::Configure(_, transfer) => answers.len() - transfer.issued + 1,
            _ => 0,
        }),
{
    match step {
        StepView::Configure(opt, transfer) => {
            if transfer.issued < 1 || transfer.issued > answers.len() {
                Run { calls: seq![opt], end: End::Waiting }
            } else {
                let rest = run(transfer.resume(answers[transfer.issued - 1]), answers);
                Run { calls: seq![opt] + rest.calls, end: rest.end }
            }
        },
        StepView::Perform(body, progress) => Run {
            calls: Seq::empty(),
            end: End::Performed(body, progress),
        },
        StepView::Fail(e) => Run { calls: Seq::empty(), end: End::Failed(e) },
    }
}

/// The error of the first rejection among `answers[from]` up to, and
/// without, `answers[to]`.
pub open spec fn first_rejection(answers: Seq<Outcome>, from: int, to: int) -> Option<ErrCode>
    decreases to - from,
{
    if from >= to || from < 0 || from >= answers.len() {
        None
    } else {
        match answers[from] {
            Err(e) => Some(e),
            Ok(_) => first_rejection(answers, from + 1, to),
        }
    }
}

/// An execution that has issued a call and waits for the engine's answer.
/// It keeps the session borrowed: no other request can be made on the
/// handle while it lasts.
pub struct Transfer<'a> {
    session: &'a Handle,
    queue: VecDeque<Opt>,
    script: Ghost<Seq<OptView>>,
    issued: usize,
    settings: usize,
    targets: usize,
    redirect: bool,
    deferred: Option<ErrCode>,
    body: Option<Body>,
    progress: bool,
}

/// What the library has decided to do next.
pub enum Step<'a> {
    /// The engine is to be given this option. Its answer goes to
    /// [`Transfer::resume`], which decides the step after.
    Configure(Opt, Transfer<'a>),
    /// Every call has been made: the engine is to perform the transfer,
    /// with the body if there is one, and with the progress callback if one
    /// is attached. What the engine returns is the result of the execution.
    Perform(Option<Body>, bool),
    /// The execution has ended with this error. The engine is given
    /// nothing more.
    Fail(ErrCode),
}

impl<'a> View for Transfer<'a> {
    type V = TransferView;

    closed spec fn view(&self) -> TransferView {
        TransferView {
            script: self.script@,
            issued: self.issued as nat,
            settings: self.settings as nat,
            targets: self.targets as nat,
            redirect: self.redirect,
            deferred: self.deferred,
            body: self.body,
            progress: self.progress,
        }
    }
}

impl<'a> View for Step<'a> {
    type V = StepView;

    open spec fn view(&self) -> StepView {
        match *self {
            Step::Configure(opt, transfer) => StepView::Configure(opt@, transfer@),
            Step::Perform(body, progress) => StepView::Perform(body, progress),
            Step::Fail(e) => StepView::Fail(e),
        }
    }
}

impl<'a> Step<'a> {
    /// The invariant of the type: that of the transfer it holds.
    pub open spec fn wf(&self) -> bool {
        match *self {
            Step::Configure(_, transfer) => transfer.wf(),
            _ => true,
        }
    }
}

impl<'a> Transfer<'a> {
    /// The invariant of the type: the calls that the transfer still holds
    /// are those of its script that have not been issued.
    pub closed spec fn wf(&self) -> bool {
        &&& self@.wf()
        &&& self.script@.len() <= usize::MAX
        &&& views(self.queue@) == self.script@.subrange(
            self.issued as int,
            self.script@.len() as int,
        )
    }

    /// The session that the transfer runs on, as the transfer found it.
    pub closed spec fn session(&self) -> Handle {
        *self.session
    }

    /// The handle of the session that the transfer runs on.
    pub fn handle(&self) -> (handle: &Handle)
        ensures
            *handle == self.session(),
    {
        self.session
    }

    /// A transfer that has issued nothing yet.
    pub(crate) fn begin(
        session: &'a Handle,
        queue: VecDeque<Opt>,
        settings: usize,
        targets: usize,
        redirect: bool,
        body: Option<Body>,
        progress: bool,
    ) -> (transfer: Transfer<'a>)
        requires
            settings + targets + (if redirect {
                1nat
            } else {
                0nat
            }) <= queue@.len(),
        ensures
            transfer.wf(),
            transfer.session() == *session,
            transfer@ == (TransferView {
                script: views(queue@),
                issued: 0,
                settings: settings as nat,
                targets: targets as nat,
                redirect: redirect,
                deferred: None,
                body: body,
                progress: progress,
            }),
    {
        let ghost script = views(queue@);
        let _ = queue.len();
        let transfer = Transfer {
            session: session,
            queue: queue,
            script: Ghost(script),
            issued: 0,
            settings: settings,
            targets: targets,
            redirect: redirect,
            deferred: None,
            body: body,
            progress: progress,
        };
        assert(script.subrange(0, script.len() as int) =~= script);
        transfer
    }

    /// Whether the call issued last is a setting of the session, which the
    /// engine has to accept.
    pub fn awaits_setting(&self) -> (b: bool)
        ensures
            b == self@.awaits_setting(),
    {
        0 < self.issued && self.issued <= self.settings
    }

    /// Decides the step that follows the calls issued so far.
    pub(crate) fn advance(self) -> (step: Step<'a>)
        requires
            self.wf(),
        ensures
            step@ == self@.advance(),
            step.wf(),
            step matches Step::Configure(_, next) ==> next.session() == self.session(),
    {
        let ghost script = self.script@;
        let ghost ahead = views(self.queue@);
        let mut transfer = self;
        assert(ahead.len() == script.len() - transfer.issued);
        let opening: usize = transfer.settings + transfer.targets + if transfer.redirect {
            1usize
        } else {
            0usize
        };
        if transfer.issued >= opening {
            if let Some(e) = transfer.deferred {
                return Step::Fail(e);
            }
        }
        proof {
            if transfer.issued < script.len() {
                assert(ahead[0] == script[transfer.issued as int]);
            }
        }
        match transfer.queue.pop_front() {
            Some(opt) => {
                transfer.issued = transfer.issued + 1;
                proof {
                    assert(views(transfer.queue@) =~= ahead.subrange(1, ahead.len() as int));
                    assert(views(transfer.queue@) =~= script.subrange(
                        transfer.issued as int,
                        script.len() as int,
                    ));
                }
                Step::Configure(opt, transfer)
            },
            None => Step::Perform(transfer.body, transfer.progress),
        }
    }

    /// Takes the engine's answer to the call issued last, and decides the
    /// step that follows.
    ///
    /// A setting of the session has to be accepted: where the engine has
    /// rejected one, the session is not usable and there is no next step.
    pub fn resume(self, outcome: Outcome) -> (step: Step<'a>)
        requires
            self.wf(),
            self@.awaits_setting() ==> outcome is Ok,
        ensures
            step@ == self@.resume(outcome),
            step.wf(),
            step matches Step::Configure(_, next) ==> next.session() == self.session(),
    {
        let mut transfer = self;
        if let Err(e) = outcome {
            if transfer.settings < transfer.issued && transfer.issued <= transfer.settings
                + transfer.targets {
                if transfer.deferred.is_none() {
                    transfer.deferred = Some(e);
                }
            } else {
                return Step::Fail(e);
            }
        }
        transfer.advance()
    }
}

} // verus!
