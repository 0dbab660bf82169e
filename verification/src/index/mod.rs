//! The local index: one lexical index and one vector store under a single
//! storage location, kept consistent by the order of the steps taken on
//! them.

pub mod fulltext;
pub mod hybrid;
pub mod vectordb;

use vstd::prelude::*;
use vstd::string::StringExecFns;
use std::path::PathBuf;
use crate::apis::PaperResult;

verus! {

/// The directory of the lexical index under the storage location.
pub const FULLTEXT_DIR: &'static str = "tantivy";

/// The directory of the vector store under the storage location.
pub const VECTOR_DIR: &'static str = "lance";

/// The place of a local index on disk.
pub struct LocalIndex {
    data_dir: PathBuf,
}

impl LocalIndex {
    /// The storage location.
    pub closed spec fn location(&self) -> PathBuf {
        self.data_dir
    }

    /// A local index rooted at `data_dir`.
    pub fn new(data_dir: PathBuf) -> (index: LocalIndex)
        ensures
            index.location() == data_dir,
    {
        LocalIndex { data_dir }
    }

    /// The storage location that both sub-stores live under.
    pub fn data_dir(&self) -> (dir: &PathBuf)
        ensures
            *dir == self.location(),
    {
        &self.data_dir
    }
}

/// The text from which a record's stand-in embedding is made: title and
/// abstract with a space between, the abstract empty if there is none.
pub open spec fn stand_in_text(title: Seq<char>, abstract_text: Option<Seq<char>>) -> Seq<char> {
    title + " "@ + match abstract_text {
        Some(text) => text,
        None => Seq::empty(),
    }
}

/// Builds the text from which a record's stand-in embedding is made.
pub fn mock_text(paper: &PaperResult) -> (text: String)
    ensures
        text@ == stand_in_text(paper@.title, paper@.abstract_text),
{
    let mut text = String::from_str(paper.title.as_str());
    text.append(" ");
    match &paper.abstract_text {
        Some(a) => {
            text.append(a.as_str());
        },
        None => {
            assert(text@ + Seq::<char>::empty() =~= text@);
        },
    }
    text
}

/// What is done to the two stores as one.
#[derive(Debug, Clone, Copy, PartialEq, Eq, Structural)]
pub enum Operation {
    /// Put a record into both stores.
    IndexPaper,
    /// Take a record out of both stores.
    Delete,
}

/// One step on one store.
#[derive(Debug, Clone, Copy, PartialEq, Eq, Structural)]
pub enum Step {
    /// Stage the record's entry on the lexical index.
    StageLexical,
    /// Write the record's row to the vector store.
    WriteVector,
    /// Commit what is staged on the lexical index.
    CommitLexical,
    /// Stage the retraction of the record on the lexical index.
    RetractLexical,
    /// Delete the record's rows from the vector store.
    DeleteVector,
}

/// The steps of an operation, in the order in which they are taken.
///
/// A record is committed to the lexical index only once the vector store
/// has it, so that a failed write leaves nothing to be seen. A record is
/// gone from the lexical index before the vector store lets go of it, so
/// that a record half deleted is never found by a search.
pub open spec fn steps_of(operation: Operation) -> Seq<Step> {
    match operation {
        Operation::IndexPaper => seq![Step::StageLexical, Step::WriteVector, Step::CommitLexical],
        Operation::Delete => seq![Step::RetractLexical, Step::CommitLexical, Step::DeleteVector],
    }
}

/// How far an operation has come.
pub struct ProgressView {
    pub operation: Operation,
    /// How many steps have succeeded.
    pub completed: nat,
    /// Whether a step has failed.
    pub failed: bool,
}

impl ProgressView {
    /// An operation of which no step has been taken.
    pub open spec fn start(operation: Operation) -> ProgressView {
        ProgressView { operation, completed: 0, failed: false }
    }

    /// The step to take next: none once a step has failed or all are done.
    pub open spec fn pending(self) -> Option<Step> {
        if self.failed || self.completed >= steps_of(self.operation).len() {
            None
        } else {
            Some(steps_of(self.operation)[self.completed as int])
        }
    }

    /// The progress once the pending step has come to an end. Without a
    /// pending step there is nothing to record.
    pub open spec fn recorded(self, succeeded: bool) -> ProgressView {
        if self.pending() is None {
            self
        } else if succeeded {
            ProgressView { completed: self.completed + 1, ..self }
        } else {
            ProgressView { failed: true, ..self }
        }
    }

    /// The progress after the steps have ended as `outcomes` say, one
    /// after the other.
    pub open spec fn after(self, outcomes: Seq<bool>) -> ProgressView
        decreases outcomes.len(),
    {
        if outcomes.len() == 0 {
            self
        } else {
            self.after(outcomes.drop_last()).recorded(outcomes.last())
        }
    }
}

/// The course of one operation on the two stores: which step is next, and
/// whether the operation has ended well or badly.
pub struct Progress {
    operation: Operation,
    completed: usize,
    failed: bool,
}

impl View for Progress {
    type V = ProgressView;

    closed spec fn view(&self) -> ProgressView {
        ProgressView {
            operation: self.operation,
            completed: self.completed as nat,
            failed: self.failed,
        }
    }
}

impl Progress {
    #[verifier::type_invariant]
    spec fn within_steps(self) -> bool {
        self.completed <= 3
    }

    /// Begins an operation.
    pub fn start(operation: Operation) -> (progress: Progress)
        ensures
            progress@ == ProgressView::start(operation),
    {
        Progress { operation, completed: 0, failed: false }
    }

    /// The step to take next, if the operation has not ended.
    pub fn next(&self) -> (step: Option<Step>)
        ensures
            step == self@.pending(),
    {
        if self.failed {
            None
        } else {
            match (self.operation, self.completed) {
                (Operation::IndexPaper, 0) => Some(Step::StageLexical),
                (Operation::IndexPaper, 1) => Some(Step::WriteVector),
                (Operation::IndexPaper, 2) => Some(Step::CommitLexical),
                (Operation::Delete, 0) => Some(Step::RetractLexical),
                (Operation::Delete, 1) => Some(Step::CommitLexical),
                (Operation::Delete, 2) => Some(Step::DeleteVector),
                _ => None,
            }
        }
    }

    /// Records how the pending step ended.
    pub fn record(&mut self, succeeded: bool)
        ensures
            final(self)@ == old(self)@.recorded(succeeded),
    {
        proof {
            use_type_invariant(&*self);
        }
        if !self.failed && self.completed < 3 {
            if succeeded {
                self.completed = self.completed + 1;
            } else {
                self.failed = true;
            }
        }
    }

    /// Whether every step has succeeded.
    pub fn is_done(&self) -> (done: bool)
        ensures
            done == (!self@.failed && self@.completed == steps_of(self@.operation).len()),
    {
        proof {
            use_type_invariant(self);
        }
        !self.failed && self.completed == 3
    }

    /// Whether a step has failed, which ends the operation.
    pub fn has_failed(&self) -> (failed: bool)
        ensures
            failed == self@.failed,
    {
        self.failed
    }
}

/// Progress counts the outcomes that were successes, up to the first
/// failure; while a step is pending, every outcome so far was a success.
pub proof fn lemma_progress_counts_successes(operation: Operation, outcomes: Seq<bool>)
    ensures
        ({
            let progress = ProgressView::start(operation).after(outcomes);
            &&& progress.operation == operation
            &&& progress.completed <= outcomes.len()
            &&& progress.completed <= 3
            &&& forall|i: int| 0 <= i < progress.completed ==> outcomes[i]
            &&& progress.failed ==> progress.completed < outcomes.len()
                && !outcomes[progress.completed as int]
            &&& progress.pending() is Some ==> progress.completed == outcomes.len()
        }),
    decreases outcomes.len(),
{
    assert(steps_of(operation).len() == 3);
    if outcomes.len() > 0 {
        let head = outcomes.drop_last();
        lemma_progress_counts_successes(operation, head);
        let before = ProgressView::start(operation).after(head);
        let progress = before.recorded(outcomes.last());
        assert(ProgressView::start(operation).after(outcomes) == progress);
        assert forall|i: int| 0 <= i < progress.completed implies outcomes[i] by {
            if i < before.completed {
                assert(head[i] == outcomes[i]);
            }
        }
        if before.failed {
            assert(head[before.completed as int] == outcomes[before.completed as int]);
        }
    }
}

/// A record is committed to the lexical index only after it was staged
/// there and written to the vector store, both with success.
pub proof fn lemma_commit_follows_vector_write(outcomes: Seq<bool>)
    requires
        ProgressView::start(Operation::IndexPaper).after(outcomes).pending() == Some(
            Step::CommitLexical,
        ),
    ensures
        outcomes.len() >= 2,
        outcomes[0],
        outcomes[1],
{
    lemma_progress_counts_successes(Operation::IndexPaper, outcomes);
}

/// The vector store is asked to delete a record only after the record's
/// retraction from the lexical index was staged and committed.
pub proof fn lemma_vector_delete_follows_commit(outcomes: Seq<bool>)
    requires
        ProgressView::start(Operation::Delete).after(outcomes).pending() == Some(
            Step::DeleteVector,
        ),
    ensures
        outcomes.len() >= 2,
        outcomes[0],
        outcomes[1],
{
    lemma_progress_counts_successes(Operation::Delete, outcomes);
}

/// After a failure no step is taken.
pub proof fn lemma_failure_ends_operation(operation: Operation, outcomes: Seq<bool>, i: int)
    requires
        0 <= i < outcomes.len(),
        !outcomes[i],
    ensures
        ProgressView::start(operation).after(outcomes).pending() is None,
    decreases outcomes.len(),
{
    lemma_progress_counts_successes(operation, outcomes);
    let progress = ProgressView::start(operation).after(outcomes);
    if !progress.failed {
        if i == outcomes.len() - 1 {
            let before = ProgressView::start(operation).after(outcomes.drop_last());
            lemma_progress_counts_successes(operation, outcomes.drop_last());
        } else {
            lemma_failure_ends_operation(operation, outcomes.drop_last(), i);
        }
    }
}

} // verus!
