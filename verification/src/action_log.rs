//! The actions of a session and the log that collects them.

use crate::error::CaptureFailed;
use vstd::prelude::*;

verus! {

/// One completed, annotated screen capture with the comment its user gave it.
#[derive(Debug)]
pub struct Action {
    /// The annotated frame, encoded.
    pub image: Vec<u8>,
    pub comment: String,
    /// Width and height of the frame in pixels.
    pub size: (u32, u32),
}

/// What an action is.
pub struct ActionView {
    pub image: Seq<u8>,
    pub comment: Seq<char>,
    pub size: (u32, u32),
}

impl View for Action {
    type V = ActionView;

    open spec fn view(&self) -> ActionView {
        ActionView { image: self.image@, comment: self.comment@, size: self.size }
    }
}

impl Action {
    /// The action of a frame of `width` by `height` encoded as `image`, with
    /// no comment yet.
    pub fn new(image: Vec<u8>, width: u32, height: u32) -> (action: Action)
        ensures
            action@ == (ActionView {
                image: image@,
                comment: Seq::<char>::empty(),
                size: (width, height),
            }),
    {
        Action { image, comment: String::new(), size: (width, height) }
    }

}

impl Clone for Action {
    /// A copy of the action.
    fn clone(&self) -> (copy: Action)
        ensures
            copy@ == self@,
    {
        Action { image: self.image.clone(), comment: self.comment.clone(), size: self.size }
    }
}

/// What each of `actions` is, in the same order.
pub open spec fn action_views(actions: Seq<Action>) -> Seq<ActionView> {
    actions.map_values(|a: Action| a@)
}

/// What a log is: its actions in the order in which they were appended, and
/// whether it was sealed.
pub struct LogView {
    pub actions: Seq<ActionView>,
    pub sealed: bool,
}

impl LogView {
    pub open spec fn empty() -> LogView {
        LogView { actions: Seq::empty(), sealed: false }
    }

    /// The log after `action` was offered to it: a sealed log takes none.
    pub open spec fn appended(self, action: ActionView) -> LogView {
        if self.sealed {
            self
        } else {
            LogView { actions: self.actions.push(action), sealed: false }
        }
    }

    /// The log after all of `actions` were offered to it, in order.
    pub open spec fn appended_all(self, actions: Seq<ActionView>) -> LogView
        decreases actions.len(),
    {
        if actions.len() == 0 {
            self
        } else {
            self.appended_all(actions.drop_last()).appended(actions.last())
        }
    }

    /// The log after the comment of the action at `index` was set: a sealed
    /// log keeps its comments, and there is nothing to set outside the log.
    pub open spec fn commented(self, index: int, comment: Seq<char>) -> LogView {
        if !self.sealed && 0 <= index < self.actions.len() {
            LogView {
                actions: self.actions.update(
                    index,
                    ActionView { comment: comment, ..self.actions[index] },
                ),
                sealed: false,
            }
        } else {
            self
        }
    }

    /// The log after its session ended: sealed, and without its most recent
    /// action where `discard_last` asks so. A sealed log stays as it is.
    pub open spec fn finalized(self, discard_last: bool) -> LogView {
        if self.sealed {
            self
        } else if discard_last && self.actions.len() > 0 {
            LogView { actions: self.actions.drop_last(), sealed: true }
        } else {
            LogView { actions: self.actions, sealed: true }
        }
    }

    /// The log after the outcome of one capture was recorded: the action of
    /// a capture that succeeded is appended, and a failure leaves no trace.
    pub open spec fn recorded(self, outcome: Result<ActionView, CaptureFailed>) -> LogView {
        match outcome {
            Ok(action) => self.appended(action),
            Err(_) => self,
        }
    }

    /// The log after the outcomes of several captures were recorded, in the
    /// order in which the captures completed.
    pub open spec fn recorded_all(
        self,
        outcomes: Seq<Result<ActionView, CaptureFailed>>,
    ) -> LogView
        decreases outcomes.len(),
    {
        if outcomes.len() == 0 {
            self
        } else {
            self.recorded_all(outcomes.drop_last()).recorded(outcomes.last())
        }
    }

    /// What finalizing removes from the log, if anything.
    pub open spec fn discarded(self, discard_last: bool) -> Option<ActionView> {
        if !self.sealed && discard_last && self.actions.len() > 0 {
            Some(self.actions.last())
        } else {
            None
        }
    }
}

/// The actions of the captures that succeeded, in the order of `outcomes`.
pub open spec fn completed(outcomes: Seq<Result<ActionView, CaptureFailed>>) -> Seq<ActionView>
    decreases outcomes.len(),
{
    if outcomes.len() == 0 {
        Seq::empty()
    } else {
        match outcomes.last() {
            Ok(action) => completed(outcomes.drop_last()).push(action),
            Err(_) => completed(outcomes.drop_last()),
        }
    }
}

/// The view of the outcome of a capture.
pub open spec fn outcome_view(outcome: Result<Action, CaptureFailed>) -> Result<
    ActionView,
    CaptureFailed,
> {
    match outcome {
        Ok(action) => Ok(action@),
        Err(failure) => Err(failure),
    }
}

/// What became of the outcome of one capture.
#[derive(Clone, Copy, Debug, PartialEq, Eq, Structural)]
pub enum Recorded {
    /// The action is in the log.
    Appended,
    /// The capture failed; the log is as it was.
    Failed(CaptureFailed),
    /// The log was sealed; the action is lost.
    Sealed,
}

/// The ordered log of a session's actions. Actions are appended as their
/// captures complete, which need not be the order of the clicks. Nothing
/// leaves the log but what finalizing discards, once.
pub struct ActionLog {
    actions: Vec<Action>,
    sealed: bool,
}

impl View for ActionLog {
    type V = LogView;

    closed spec fn view(&self) -> LogView {
        LogView { actions: action_views(self.actions@), sealed: self.sealed }
    }
}

impl ActionLog {
    /// An empty log, open for appending.
    pub fn new() -> (log: ActionLog)
        ensures
            log@ == LogView::empty(),
    {
        let log = ActionLog { actions: Vec::new(), sealed: false };
        assert(log@.actions =~= Seq::empty());
        log
    }

    /// The number of actions in the log.
    pub fn len(&self) -> (n: usize)
        ensures
            n == self@.actions.len(),
    {
        self.actions.len()
    }

    pub fn is_empty(&self) -> (empty: bool)
        ensures
            empty == (self@.actions.len() == 0),
    {
        self.actions.len() == 0
    }

    /// Whether the session of this log has ended.
    pub fn is_sealed(&self) -> (sealed: bool)
        ensures
            sealed == self@.sealed,
    {
        self.sealed
    }

    /// Appends `action`. A sealed log takes none and answers `false`.
    pub fn append(&mut self, action: Action) -> (accepted: bool)
        ensures
            accepted == !old(self)@.sealed,
            final(self)@ == old(self)@.appended(action@),
    {
        if self.sealed {
            false
        } else {
            self.actions.push(action);
            assert(self@.actions =~= old(self)@.actions.push(action@));
            true
        }
    }

    /// Takes the outcome of one capture: the action of a capture that
    /// succeeded is appended, and a failure is handed back for reporting, with
    /// the log as it was. The session goes on either way.
    pub fn record(&mut self, outcome: Result<Action, CaptureFailed>) -> (recorded: Recorded)
        ensures
            final(self)@ == old(self)@.recorded(outcome_view(outcome)),
            recorded == match outcome {
                Ok(_) => if old(self)@.sealed {
                    Recorded::Sealed
                } else {
                    Recorded::Appended
                },
                Err(failure) => Recorded::Failed(failure),
            },
    {
        match outcome {
            Ok(action) => {
                if self.append(action) {
                    Recorded::Appended
                } else {
                    Recorded::Sealed
                }
            },
            Err(failure) => Recorded::Failed(failure),
        }
    }

    /// The action at `index`, where there is one.
    pub fn get(&self, index: usize) -> (action: Option<&Action>)
        ensures
            match action {
                Some(a) => index < self@.actions.len() && a@ == self@.actions[index as int],
                None => index >= self@.actions.len(),
            },
    {
        if index < self.actions.len() {
            Some(&self.actions[index])
        } else {
            None
        }
    }

    /// A copy of the actions in the log, in its order, for reading without
    /// holding on to the log.
    pub fn snapshot(&self) -> (copy: Vec<Action>)
        ensures
            action_views(copy@) == self@.actions,
    {
        let mut copy: Vec<Action> = Vec::new();
        let mut i: usize = 0;
        while i < self.actions.len()
            invariant
                i <= self.actions@.len(),
                copy@.len() == i,
                forall|j: int| 0 <= j < i ==> (#[trigger] copy@[j])@ == self.actions@[j]@,
            decreases self.actions@.len() - i,
        {
            copy.push(self.actions[i].clone());
            i += 1;
        }
        copy
    }

    /// Sets the comment of the action at `index`. A sealed log keeps its
    /// comments; the answer says whether the comment was set.
    pub fn set_comment(&mut self, index: usize, comment: String) -> (done: bool)
        ensures
            done == (!old(self)@.sealed && index < old(self)@.actions.len()),
            final(self)@ == old(self)@.commented(index as int, comment@),
    {
        if self.sealed || index >= self.actions.len() {
            false
        } else {
            self.actions[index].comment = comment;
            assert(self@.actions =~= old(self)@.commented(index as int, comment@).actions);
            true
        }
    }

    /// Sets the comment of the most recent action.
    pub fn set_last_comment(&mut self, comment: String) -> (done: bool)
        ensures
            done == (!old(self)@.sealed && old(self)@.actions.len() > 0),
            final(self)@ == old(self)@.commented(old(self)@.actions.len() - 1, comment@),
    {
        let n = self.actions.len();
        if n == 0 {
            false
        } else {
            self.set_comment(n - 1, comment)
        }
    }

    /// Ends the session of this log: the log is sealed, and where
    /// `discard_last` asks so its most recent action is removed and handed
    /// back. This happens once: a sealed log stays as it is.
    pub fn finalize(&mut self, discard_last: bool) -> (discarded: Option<Action>)
        ensures
            final(self)@ == old(self)@.finalized(discard_last),
            match discarded {
                Some(a) => old(self)@.discarded(discard_last) == Some(a@),
                None => old(self)@.discarded(discard_last) is None,
            },
    {
        if self.sealed {
            None
        } else {
            self.sealed = true;
            if discard_last {
                let gone = self.actions.pop();
                assert(self@.actions =~= old(self)@.finalized(discard_last).actions);
                gone
            } else {
                None
            }
        }
    }
}

/// An open log holds the action of every capture that completed, behind
/// those it held before, in the order of completion; failed captures leave
/// nothing in it.
pub proof fn lemma_log_holds_completed(
    log: LogView,
    outcomes: Seq<Result<ActionView, CaptureFailed>>,
)
    requires
        !log.sealed,
    ensures
        !log.recorded_all(outcomes).sealed,
        log.recorded_all(outcomes).actions == log.actions + completed(outcomes),
    decreases outcomes.len(),
{
    if outcomes.len() > 0 {
        lemma_log_holds_completed(log, outcomes.drop_last());
    }
}

/// When a session stops after its captures have completed, the log holds
/// every completed action but the most recent one, which the final pop
/// discards: one action fewer than were completed, and none where none was.
pub proof fn lemma_stop_discards_last_only(
    log: LogView,
    outcomes: Seq<Result<ActionView, CaptureFailed>>,
)
    requires
        !log.sealed,
    ensures
        ({
            let all = log.actions + completed(outcomes);
            let stopped = log.recorded_all(outcomes).finalized(true);
            &&& stopped.sealed
            &&& stopped.actions == if all.len() > 0 {
                all.drop_last()
            } else {
                all
            }
            &&& stopped.actions.len() == if all.len() > 0 {
                all.len() - 1
            } else {
                0
            }
            &&& forall|i: int| 0 <= i < stopped.actions.len() ==> stopped.actions[i] == all[i]
        }),
{
    lemma_log_holds_completed(log, outcomes);
}

/// Nothing that is done to an open log before its session ends removes an
/// action from it or changes an action's image or size: appending and
/// recording add at the end, and commenting changes one comment.
pub proof fn lemma_actions_stay(
    log: LogView,
    action: ActionView,
    outcome: Result<ActionView, CaptureFailed>,
    index: int,
    comment: Seq<char>,
)
    ensures
        log.appended(action).actions.take(log.actions.len() as int) == log.actions,
        log.recorded(outcome).actions.take(log.actions.len() as int) == log.actions,
        log.commented(index, comment).actions.len() == log.actions.len(),
        forall|i: int|
            0 <= i < log.actions.len() ==> {
                let after = #[trigger] log.commented(index, comment).actions[i];
                &&& after.image == log.actions[i].image
                &&& after.size == log.actions[i].size
                &&& after.comment == if i == index && !log.sealed {
                    comment
                } else {
                    log.actions[i].comment
                }
            },
{
}

/// Finalizing removes at most the most recent action, and only once: the log
/// is sealed afterwards, and a sealed log is left as it is by everything.
pub proof fn lemma_sealed_log_is_fixed(
    log: LogView,
    discard_last: bool,
    action: ActionView,
    outcome: Result<ActionView, CaptureFailed>,
    index: int,
    comment: Seq<char>,
)
    ensures
        log.finalized(discard_last).sealed,
        log.actions.len() - 1 <= log.finalized(discard_last).actions.len() <= log.actions.len(),
        log.finalized(discard_last).actions == log.actions.take(
            log.finalized(discard_last).actions.len() as int,
        ),
        log.finalized(discard_last).finalized(discard_last) == log.finalized(discard_last),
        log.finalized(discard_last).appended(action) == log.finalized(discard_last),
        log.finalized(discard_last).recorded(outcome) == log.finalized(discard_last),
        log.finalized(discard_last).commented(index, comment) == log.finalized(discard_last),
{
    assert(log.finalized(discard_last).actions =~= log.actions.take(
        log.finalized(discard_last).actions.len() as int,
    ));
}

} // verus!
