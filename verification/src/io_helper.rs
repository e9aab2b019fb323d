//! The course of a rename run: which file is tried next, when the user is
//! asked, and how the run ends. The run itself, which touches the files and
//! talks to the user, reports each outcome here and is told what to do next.

use crate::cli::{ConfirmMode, ErrorHandlingMode};
use crate::text::{lowercase_of, quote_then, same_text, to_lowercase};
use crate::util::{invalid_response_message, OnErrorResponse};
use std::str::FromStr;
use vstd::prelude::*;

verus! {

/// What the user may answer when asked to confirm a batch of renames.
#[derive(Debug, Copy, Clone, PartialEq, Eq, Structural)]
pub enum BatchConfirmResponse {
    Proceed,
    Skip,
    Halt,
}

/// The answer that a text in lower case stands for, if any: each answer by
/// its name or by the first letter of its name.
pub open spec fn batch_response_named(lower: Seq<char>) -> Option<BatchConfirmResponse> {
    if lower == "p"@ || lower == "proceed"@ {
        Some(BatchConfirmResponse::Proceed)
    } else if lower == "s"@ || lower == "skip"@ {
        Some(BatchConfirmResponse::Skip)
    } else if lower == "h"@ || lower == "halt"@ {
        Some(BatchConfirmResponse::Halt)
    } else {
        None
    }
}

impl BatchConfirmResponse {
    /// Reads an answer that is in lower case already.
    pub fn from_lowercase(lower: &str) -> (res: Result<BatchConfirmResponse, String>)
        ensures
            match res {
                Ok(response) => batch_response_named(lower@) == Some(response),
                Err(message) => batch_response_named(lower@) is None && message@
                    == invalid_response_message(lower@),
            },
    {
        if same_text(lower, "p") || same_text(lower, "proceed") {
            Ok(BatchConfirmResponse::Proceed)
        } else if same_text(lower, "s") || same_text(lower, "skip") {
            Ok(BatchConfirmResponse::Skip)
        } else if same_text(lower, "h") || same_text(lower, "halt") {
            Ok(BatchConfirmResponse::Halt)
        } else {
            Err(quote_then(lower, " is not a valid response"))
        }
    }

    /// Reads an answer, whatever the case of its letters.
    pub fn parse(s: &str) -> (res: Result<BatchConfirmResponse, String>)
        ensures
            match res {
                Ok(response) => batch_response_named(lowercase_of(s@)) == Some(response),
                Err(message) => batch_response_named(lowercase_of(s@)) is None && message@
                    == invalid_response_message(lowercase_of(s@)),
            },
    {
        let lower = to_lowercase(s);
        BatchConfirmResponse::from_lowercase(lower.as_str())
    }

    /// The answer as it is shown to the user.
    pub open spec fn text(&self) -> Seq<char> {
        match self {
            BatchConfirmResponse::Proceed => "proceed"@,
            BatchConfirmResponse::Skip => "skip"@,
            BatchConfirmResponse::Halt => "halt"@,
        }
    }

    /// The answer as it is shown to the user.
    pub fn to_string(&self) -> (text: String)
        ensures
            text@ == self.text(),
    {
        match self {
            BatchConfirmResponse::Proceed => "proceed".to_owned(),
            BatchConfirmResponse::Skip => "skip".to_owned(),
            BatchConfirmResponse::Halt => "halt".to_owned(),
        }
    }
}

impl FromStr for BatchConfirmResponse {
    type Err = String;

    /// Reads an answer, whatever the case of its letters, as `parse` does.
    fn from_str(s: &str) -> (res: Result<Self, Self::Err>)
        ensures
            match res {
                Ok(response) => batch_response_named(lowercase_of(s@)) == Some(response),
                Err(message) => batch_response_named(lowercase_of(s@)) is None && message@
                    == invalid_response_message(lowercase_of(s@)),
            },
    {
        BatchConfirmResponse::parse(s)
    }
}

/// What a rename run is waiting for.
#[derive(Debug, Copy, Clone, PartialEq, Eq, Structural)]
pub enum RenamePhase {
    /// The user is asked to confirm the next batch.
    Confirming,
    /// The next file is being renamed.
    Renaming,
    /// A rename has failed and the user is asked what to do.
    Asking,
    /// Every file has been dealt with.
    Finished,
    /// A rename has failed and the run ends with that failure.
    Failed,
    /// The user has ended the run.
    Halted,
}

/// What the run is to do next.
#[derive(Debug, Copy, Clone, PartialEq, Eq, Structural)]
pub enum RenameAction {
    /// Show the files `first..end` as batch `number` of `of` and ask the
    /// user to confirm them.
    ConfirmBatch { number: usize, of: usize, first: usize, end: usize },
    /// Try to rename the file at `index`.
    Rename { index: usize },
    /// Tell the user that renaming the file at `index` failed, and ask what
    /// to do.
    AskAboutFailure { index: usize },
    /// End the run: `renamed` files were renamed.
    Finish { renamed: usize },
    /// End the run with the failure at `index`.
    FailWith { index: usize },
    /// End the run because the user said so.
    UserHalt,
}

/// A rename run as a mathematical value.
pub struct RunView {
    /// How many files there are.
    pub total: nat,
    /// How many files one confirmation covers.
    pub batch_size: nat,
    /// Whether batches are confirmed by the user.
    pub confirm: bool,
    pub err_mode: ErrorHandlingMode,
    /// The file that is dealt with next; the files before it are done.
    pub next: nat,
    /// The end of the batch that is under way.
    pub batch_end: nat,
    /// How many files have been renamed.
    pub renamed: nat,
    pub phase: RenamePhase,
}

/// The smaller of two numbers.
pub open spec fn at_most(a: nat, b: nat) -> nat {
    if a <= b {
        a
    } else {
        b
    }
}

/// How many batches `total` files make: the last one may be short.
pub open spec fn batch_count(total: nat, batch_size: nat) -> nat {
    if batch_size == 0 {
        0
    } else if total % batch_size == 0 {
        total / batch_size
    } else {
        total / batch_size + 1
    }
}

impl RunView {
    /// What holds of every run: the counters are in order, and the phase
    /// fits them.
    pub open spec fn wf(self) -> bool {
        &&& self.batch_size >= 1
        &&& self.renamed <= self.next <= self.batch_end <= self.total
        &&& (!self.confirm ==> self.batch_end == self.total)
        &&& match self.phase {
            RenamePhase::Confirming => self.confirm && self.next == self.batch_end
                && self.next < self.total,
            RenamePhase::Renaming => self.next < self.batch_end,
            RenamePhase::Asking => self.next < self.batch_end,
            RenamePhase::Finished => self.next == self.total,
            RenamePhase::Failed => self.next < self.batch_end,
            RenamePhase::Halted => true,
        }
    }

    /// The run once the file at `next` is to be looked at: it is renamed if
    /// the batch under way holds it, the run is over if no file is left,
    /// and the next batch is to be confirmed otherwise.
    pub open spec fn settled(self) -> RunView {
        if self.next < self.batch_end {
            RunView { phase: RenamePhase::Renaming, ..self }
        } else if self.next >= self.total {
            RunView { phase: RenamePhase::Finished, ..self }
        } else {
            RunView { phase: RenamePhase::Confirming, ..self }
        }
    }

    /// A run at its start. Without confirmation all files are one batch
    /// that is under way; one file is a batch where each is confirmed.
    pub open spec fn start(
        total: nat,
        confirm_mode: ConfirmMode,
        confirm_batch_size: nat,
        err_mode: ErrorHandlingMode,
    ) -> RunView {
        RunView {
            total,
            batch_size: match confirm_mode {
                ConfirmMode::Batch => confirm_batch_size,
                _ => 1,
            },
            confirm: confirm_mode != ConfirmMode::Never,
            err_mode,
            next: 0,
            batch_end: if confirm_mode == ConfirmMode::Never {
                total
            } else {
                0
            },
            renamed: 0,
            phase: RenamePhase::Renaming,
        }.settled()
    }

    /// The run after the user has answered for a batch: the batch is under
    /// way, or passed over as a whole, or the run is over.
    pub open spec fn after_confirmation(self, response: BatchConfirmResponse) -> RunView {
        if self.phase != RenamePhase::Confirming {
            self
        } else {
            let end = at_most(self.next + self.batch_size, self.total);
            match response {
                BatchConfirmResponse::Proceed => RunView { batch_end: end, ..self }.settled(),
                BatchConfirmResponse::Skip => RunView {
                    next: end,
                    batch_end: end,
                    ..self
                }.settled(),
                BatchConfirmResponse::Halt => RunView { phase: RenamePhase::Halted, ..self },
            }
        }
    }

    /// The run with the file at `next` behind it.
    pub open spec fn passed(self) -> RunView {
        RunView { next: self.next + 1, ..self }.settled()
    }

    /// The run after a rename was tried: a success is counted; a failure is
    /// passed over, asked about or ends the run, as the error mode says.
    pub open spec fn after_attempt(self, succeeded: bool) -> RunView {
        if self.phase != RenamePhase::Renaming {
            self
        } else if succeeded {
            RunView { renamed: self.renamed + 1, ..self }.passed()
        } else {
            match self.err_mode {
                ErrorHandlingMode::Ignore => self.passed(),
                ErrorHandlingMode::Warn => RunView { phase: RenamePhase::Asking, ..self },
                ErrorHandlingMode::Halt => RunView { phase: RenamePhase::Failed, ..self },
            }
        }
    }

    /// The run after the user has answered about a failure: the file is
    /// passed over or tried again, or the run is over.
    pub open spec fn after_answer(self, response: OnErrorResponse) -> RunView {
        if self.phase != RenamePhase::Asking {
            self
        } else {
            match response {
                OnErrorResponse::Skip => self.passed(),
                OnErrorResponse::Retry => RunView { phase: RenamePhase::Renaming, ..self },
                OnErrorResponse::Halt => RunView { phase: RenamePhase::Halted, ..self },
            }
        }
    }

    /// What the run is to do next.
    pub open spec fn action(self) -> RenameAction {
        match self.phase {
            RenamePhase::Confirming => RenameAction::ConfirmBatch {
                number: (self.next / self.batch_size + 1) as usize,
                of: batch_count(self.total, self.batch_size) as usize,
                first: self.next as usize,
                end: at_most(self.next + self.batch_size, self.total) as usize,
            },
            RenamePhase::Renaming => RenameAction::Rename { index: self.next as usize },
            RenamePhase::Asking => RenameAction::AskAboutFailure { index: self.next as usize },
            RenamePhase::Finished => RenameAction::Finish { renamed: self.renamed as usize },
            RenamePhase::Failed => RenameAction::FailWith { index: self.next as usize },
            RenamePhase::Halted => RenameAction::UserHalt,
        }
    }

    /// How much is left to do at most: it falls with every report but the
    /// answer to try a file again.
    pub open spec fn work_left(self) -> nat {
        let files = (self.total - self.next) as nat;
        match self.phase {
            RenamePhase::Confirming => 3 * files + 1,
            RenamePhase::Renaming => 3 * files,
            RenamePhase::Asking => (3 * files - 1) as nat,
            _ => 0,
        }
    }
}

/// Whatever is reported to a run, it stays in order.
pub proof fn lemma_run_stays_well_formed(
    run: RunView,
    confirmation: BatchConfirmResponse,
    succeeded: bool,
    answer: OnErrorResponse,
)
    requires
        run.wf(),
    ensures
        run.after_confirmation(confirmation).wf(),
        run.after_attempt(succeeded).wf(),
        run.after_answer(answer).wf(),
{
}

/// A run starts in order, whatever it is started with, as long as a batch
/// holds a file.
pub proof fn lemma_run_starts_well_formed(
    total: nat,
    confirm_mode: ConfirmMode,
    confirm_batch_size: nat,
    err_mode: ErrorHandlingMode,
)
    requires
        confirm_mode == ConfirmMode::Batch ==> confirm_batch_size >= 1,
    ensures
        RunView::start(total, confirm_mode, confirm_batch_size, err_mode).wf(),
{
}

/// A run that is not over gets nearer to its end with every report, unless
/// the user asks for a file to be tried again.
pub proof fn lemma_run_progresses(
    run: RunView,
    confirmation: BatchConfirmResponse,
    succeeded: bool,
    answer: OnErrorResponse,
)
    requires
        run.wf(),
    ensures
        run.phase == RenamePhase::Confirming ==> run.after_confirmation(confirmation).work_left()
            < run.work_left(),
        run.phase == RenamePhase::Renaming ==> run.after_attempt(succeeded).work_left()
            < run.work_left(),
        run.phase == RenamePhase::Asking && answer != OnErrorResponse::Retry ==> run.after_answer(
            answer,
        ).work_left() < run.work_left(),
{
}

/// No more files are renamed than were tried, and a run that finishes has
/// been through every file.
pub proof fn lemma_finished_run_covers_all(run: RunView)
    requires
        run.wf(),
        run.phase == RenamePhase::Finished,
    ensures
        run.next == run.total,
        run.renamed <= run.total,
{
}

/// A rename run: where it stands among the files, and what it waits for.
#[derive(Debug, PartialEq, Eq)]
pub struct RenameRun {
    total: usize,
    batch_size: usize,
    confirm: bool,
    err_mode: ErrorHandlingMode,
    next: usize,
    batch_end: usize,
    renamed: usize,
    phase: RenamePhase,
}

impl View for RenameRun {
    type V = RunView;

    closed spec fn view(&self) -> RunView {
        RunView {
            total: self.total as nat,
            batch_size: self.batch_size as nat,
            confirm: self.confirm,
            err_mode: self.err_mode,
            next: self.next as nat,
            batch_end: self.batch_end as nat,
            renamed: self.renamed as nat,
            phase: self.phase,
        }
    }
}

/// The phase for a file to be looked at, as `RunView::settled` has it.
fn settled_phase(next: usize, batch_end: usize, total: usize) -> (phase: RenamePhase)
    ensures
        phase == if next < batch_end {
            RenamePhase::Renaming
        } else if next >= total {
            RenamePhase::Finished
        } else {
            RenamePhase::Confirming
        },
{
    if next < batch_end {
        RenamePhase::Renaming
    } else if next >= total {
        RenamePhase::Finished
    } else {
        RenamePhase::Confirming
    }
}

/// Starts the run that renames `pair_count` files. A batch must hold a file.
pub fn rename_files(
    pair_count: usize,
    confirm_mode: ConfirmMode,
    confirm_batch_size: usize,
    err_mode: ErrorHandlingMode,
) -> (run: RenameRun)
    requires
        confirm_mode == ConfirmMode::Batch ==> confirm_batch_size >= 1,
    ensures
        run@ == RunView::start(pair_count as nat, confirm_mode, confirm_batch_size as nat, err_mode),
        run@.wf(),
{
    let batch_size = match confirm_mode {
        ConfirmMode::Batch => confirm_batch_size,
        _ => 1,
    };
    let confirm = match confirm_mode {
        ConfirmMode::Never => false,
        _ => true,
    };
    let batch_end = if confirm {
        0
    } else {
        pair_count
    };
    RenameRun {
        total: pair_count,
        batch_size,
        confirm,
        err_mode,
        next: 0,
        batch_end,
        renamed: 0,
        phase: settled_phase(0, batch_end, pair_count),
    }
}

impl RenameRun {
    #[verifier::type_invariant]
    spec fn well_formed(&self) -> bool {
        self@.wf()
    }

    /// What the run is to do next. The run is in order and its counters are
    /// as large as a `usize` at most, so the numbers of the action are those
    /// of the run.
    pub fn action(&self) -> (action: RenameAction)
        ensures
            action == self@.action(),
            self@.wf(),
            self@.total <= usize::MAX,
    {
        proof {
            use_type_invariant(self);
        }
        match self.phase {
            RenamePhase::Confirming => {
                let number = self.next / self.batch_size + 1;
                let whole = self.total / self.batch_size;
                let of = if self.total % self.batch_size == 0 {
                    whole
                } else {
                    assert(whole < self.total) by (nonlinear_arith)
                        requires
                            whole == self.total / self.batch_size,
                            self.total % self.batch_size != 0,
                            self.batch_size >= 1,
                    ;
                    whole + 1
                };
                RenameAction::ConfirmBatch {
                    number,
                    of,
                    first: self.next,
                    end: self.batch_limit(),
                }
            },
            RenamePhase::Renaming => RenameAction::Rename { index: self.next },
            RenamePhase::Asking => RenameAction::AskAboutFailure { index: self.next },
            RenamePhase::Finished => RenameAction::Finish { renamed: self.renamed },
            RenamePhase::Failed => RenameAction::FailWith { index: self.next },
            RenamePhase::Halted => RenameAction::UserHalt,
        }
    }

    /// Where the batch that starts at the next file ends.
    fn batch_limit(&self) -> (end: usize)
        ensures
            end == at_most(self@.next + self@.batch_size, self@.total),
            self@.wf(),
    {
        proof {
            use_type_invariant(self);
        }
        if self.batch_size >= self.total - self.next {
            self.total
        } else {
            self.next + self.batch_size
        }
    }

    /// The run with the file at `next` behind it, `renamed` files renamed.
    fn pass(&self, renamed: usize) -> (run: RenameRun)
        requires
            self@.phase == RenamePhase::Renaming || self@.phase == RenamePhase::Asking,
            self@.renamed <= renamed <= self@.next + 1,
        ensures
            run@ == (RunView { renamed: renamed as nat, ..self@ }).passed(),
    {
        proof {
            use_type_invariant(self);
        }
        RenameRun {
            total: self.total,
            batch_size: self.batch_size,
            confirm: self.confirm,
            err_mode: self.err_mode,
            next: self.next + 1,
            batch_end: self.batch_end,
            renamed,
            phase: settled_phase(self.next + 1, self.batch_end, self.total),
        }
    }

    /// The run in another phase.
    fn in_phase(&self, phase: RenamePhase) -> (run: RenameRun)
        requires
            (RunView { phase, ..self@ }).wf(),
        ensures
            run@ == (RunView { phase, ..self@ }),
    {
        RenameRun {
            total: self.total,
            batch_size: self.batch_size,
            confirm: self.confirm,
            err_mode: self.err_mode,
            next: self.next,
            batch_end: self.batch_end,
            renamed: self.renamed,
            phase,
        }
    }

    /// Reports the user's answer for the batch that was to be confirmed. A
    /// report that the run does not wait for changes nothing.
    pub fn batch_answered(&mut self, response: BatchConfirmResponse)
        ensures
            final(self)@ == old(self)@.after_confirmation(response),
            final(self)@.wf(),
            final(self)@.total <= usize::MAX,
    {
        proof {
            use_type_invariant(&*self);
        }
        if self.phase == RenamePhase::Confirming {
            let end = self.batch_limit();
            match response {
                BatchConfirmResponse::Proceed => {
                    *self = RenameRun {
                        total: self.total,
                        batch_size: self.batch_size,
                        confirm: self.confirm,
                        err_mode: self.err_mode,
                        next: self.next,
                        batch_end: end,
                        renamed: self.renamed,
                        phase: settled_phase(self.next, end, self.total),
                    };
                },
                BatchConfirmResponse::Skip => {
                    *self = RenameRun {
                        total: self.total,
                        batch_size: self.batch_size,
                        confirm: self.confirm,
                        err_mode: self.err_mode,
                        next: end,
                        batch_end: end,
                        renamed: self.renamed,
                        phase: settled_phase(end, end, self.total),
                    };
                },
                BatchConfirmResponse::Halt => {
                    *self = self.in_phase(RenamePhase::Halted);
                },
            }
        }
    }

    /// Reports how the rename that was to be tried has ended. A report that
    /// the run does not wait for changes nothing.
    pub fn rename_ended(&mut self, succeeded: bool)
        ensures
            final(self)@ == old(self)@.after_attempt(succeeded),
            final(self)@.wf(),
            final(self)@.total <= usize::MAX,
    {
        proof {
            use_type_invariant(&*self);
        }
        if self.phase == RenamePhase::Renaming {
            if succeeded {
                *self = self.pass(self.renamed + 1);
            } else {
                match self.err_mode {
                    ErrorHandlingMode::Ignore => {
                        *self = self.pass(self.renamed);
                    },
                    ErrorHandlingMode::Warn => {
                        *self = self.in_phase(RenamePhase::Asking);
                    },
                    ErrorHandlingMode::Halt => {
                        *self = self.in_phase(RenamePhase::Failed);
                    },
                }
            }
        }
    }

    /// Reports the user's answer about the failure that was asked about. A
    /// report that the run does not wait for changes nothing.
    pub fn failure_answered(&mut self, response: OnErrorResponse)
        ensures
            final(self)@ == old(self)@.after_answer(response),
            final(self)@.wf(),
            final(self)@.total <= usize::MAX,
    {
        proof {
            use_type_invariant(&*self);
        }
        if self.phase == RenamePhase::Asking {
            match response {
                OnErrorResponse::Skip => {
                    *self = self.pass(self.renamed);
                },
                OnErrorResponse::Retry => {
                    *self = self.in_phase(RenamePhase::Renaming);
                },
                OnErrorResponse::Halt => {
                    *self = self.in_phase(RenamePhase::Halted);
                },
            }
        }
    }
}

/// What is done for one file whose turn has come.
#[derive(Debug, Copy, Clone, PartialEq, Eq, Structural)]
pub enum RenameDeed {
    /// The new name is taken: nothing is done, since a rename would
    /// overwrite the file that has it.
    Refuse,
    /// The rename is only shown.
    Preview,
    /// The file is renamed.
    Rename,
}

/// What is done for a file, given whether its new name is taken already and
/// whether the run is a dry run. An existing file is never overwritten, in a
/// dry run no more than otherwise.
pub fn do_rename(target_exists: bool, dry_run: bool) -> (deed: RenameDeed)
    ensures
        deed == if target_exists {
            RenameDeed::Refuse
        } else if dry_run {
            RenameDeed::Preview
        } else {
            RenameDeed::Rename
        },
{
    if target_exists {
        RenameDeed::Refuse
    } else if dry_run {
        RenameDeed::Preview
    } else {
        RenameDeed::Rename
    }
}

} // verus!
