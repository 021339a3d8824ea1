//! Bringing the schema up: keyspace, table, an attempt to empty the
//! table, then the example facts one by one. Each step is one statement;
//! whoever runs the statements hands each outcome back.

use crate::error::{Intent, IntentView, StoreError, StoreErrorView};
use crate::facts::{
    context_after, context_after_create, create_request, request, ContextView, FactsContext,
};
use crate::outcome::{write_reply, Outcome, OutcomeView};
use crate::seed::{seed_corpus, SEED_KIND, STOCK_FACTS};
use crate::statement::{
    keyspace_statement, reset_statement, table_statement, Statement, StatementView,
};
use vstd::prelude::*;

verus! {

/// Where a migration stands.
#[derive(Debug, PartialEq, Eq)]
pub enum Stage {
    /// The keyspace is to be created.
    Keyspace,
    /// The table is to be created.
    Table,
    /// The table is to be emptied.
    Reset,
    /// The example fact at this place is to be stored.
    Seed(usize),
    /// Everything was done.
    Finished,
    /// A step failed and nothing more is done.
    Aborted(StoreError),
}

/// What a `Stage` holds, as plain values.
pub enum StageView {
    Keyspace,
    Table,
    Reset,
    Seed(nat),
    Finished,
    Aborted(StoreErrorView),
}

impl View for Stage {
    type V = StageView;

    open spec fn view(&self) -> StageView {
        match self {
            Stage::Keyspace => StageView::Keyspace,
            Stage::Table => StageView::Table,
            Stage::Reset => StageView::Reset,
            Stage::Seed(i) => StageView::Seed(*i as nat),
            Stage::Finished => StageView::Finished,
            Stage::Aborted(e) => StageView::Aborted(e@),
        }
    }
}

/// What is to be done next in a migration.
#[derive(Debug, PartialEq, Eq)]
pub enum Step {
    /// Run this statement and hand its outcome to `advance`.
    Send(Statement),
    /// The migration is complete.
    Finished,
    /// The migration was given up with this error.
    Aborted(StoreError),
}

/// What a `Step` holds, as plain values.
pub enum StepView {
    Send(StatementView),
    Finished,
    Aborted(StoreErrorView),
}

impl View for Step {
    type V = StepView;

    open spec fn view(&self) -> StepView {
        match self {
            Step::Send(s) => StepView::Send(s@),
            Step::Finished => StepView::Finished,
            Step::Aborted(e) => StepView::Aborted(e@),
        }
    }
}

/// The views of a sequence of strings.
pub open spec fn texts_view(texts: Seq<String>) -> Seq<Seq<char>> {
    texts.map_values(|t: String| t@)
}

/// One run of the migrations.
#[derive(Debug)]
pub struct Migration {
    stage: Stage,
    corpus: Vec<String>,
}

/// What a `Migration` holds, as plain values.
pub struct MigrationView {
    pub stage: StageView,
    /// The texts of the example facts.
    pub corpus: Seq<Seq<char>>,
}

impl View for Migration {
    type V = MigrationView;

    closed spec fn view(&self) -> MigrationView {
        MigrationView { stage: self.stage@, corpus: texts_view(self.corpus@) }
    }
}

/// The step that follows when a statement is asked for and given or
/// refused.
pub open spec fn send_or_abort(
    m: MigrationView,
    asked: Result<StatementView, StoreErrorView>,
) -> (MigrationView, StepView) {
    match asked {
        Ok(statement) => (m, StepView::Send(statement)),
        Err(e) => (MigrationView { stage: StageView::Aborted(e), ..m }, StepView::Aborted(e)),
    }
}

/// What a migration does when the example fact at place `i` is due:
/// the end once every example is stored, else the statement that stores
/// the example under a new key for clock reading `now`, with the tag of
/// the examples.
pub open spec fn seed_step(m: MigrationView, i: nat, ctx: ContextView, now: u64) -> (
    MigrationView,
    ContextView,
    StepView,
) {
    if i >= m.corpus.len() {
        (MigrationView { stage: StageView::Finished, ..m }, ctx, StepView::Finished)
    } else {
        let asked = match create_request(ctx, m.corpus[i as int], SEED_KIND@, now) {
            Ok((_, statement)) => Ok(statement),
            Err(e) => Err(e),
        };
        let (m1, step) = send_or_abort(MigrationView { stage: StageView::Seed(i), ..m }, asked);
        (m1, context_after_create(ctx, now), step)
    }
}

/// What a migration does next, and what becomes of it and of the
/// context: the statement of its stage, the end once every example fact
/// is stored, or the error that stopped it. Without a session the
/// emptying of the table is passed over like any other failure of it.
pub open spec fn next_step(m: MigrationView, ctx: ContextView, now: u64) -> (
    MigrationView,
    ContextView,
    StepView,
) {
    match m.stage {
        StageView::Keyspace => {
            let (m1, step) = send_or_abort(
                m,
                request(ctx, keyspace_statement(ctx.policy.replica_count, ctx.policy.write)),
            );
            (m1, ctx, step)
        },
        StageView::Table => {
            let (m1, step) = send_or_abort(m, request(ctx, table_statement(ctx.policy.write)));
            (m1, ctx, step)
        },
        StageView::Reset => match request(ctx, reset_statement()) {
            Ok(statement) => (m, ctx, StepView::Send(statement)),
            Err(_) => seed_step(m, 0, ctx, now),
        },
        StageView::Seed(i) => seed_step(m, i, ctx, now),
        StageView::Finished => (m, ctx, StepView::Finished),
        StageView::Aborted(e) => (m, ctx, StepView::Aborted(e)),
    }
}

/// The stage after a statement that must succeed: `then` if it did,
/// else the end of the migration with its error.
pub open spec fn must_succeed(intent: IntentView, outcome: OutcomeView, then: StageView)
    -> StageView {
    match write_reply(intent, outcome) {
        Ok(_) => then,
        Err(e) => StageView::Aborted(e),
    }
}

/// What becomes of a migration when the statement of its stage, with
/// this intent, had this outcome. Creating the keyspace, creating the
/// table and storing an example must succeed; emptying the table may
/// fail.
pub open spec fn advance(m: MigrationView, intent: IntentView, outcome: OutcomeView)
    -> MigrationView {
    let stage = match m.stage {
        StageView::Keyspace => must_succeed(intent, outcome, StageView::Table),
        StageView::Table => must_succeed(intent, outcome, StageView::Reset),
        StageView::Reset => StageView::Seed(0),
        StageView::Seed(i) => if i < m.corpus.len() {
            must_succeed(intent, outcome, StageView::Seed(i + 1))
        } else {
            m.stage
        },
        StageView::Finished => m.stage,
        StageView::Aborted(_) => m.stage,
    };
    MigrationView { stage, ..m }
}

impl FactsContext {
    /// A run of the migrations with the stock of example facts, at its
    /// start. It is driven with `Migration::next` and
    /// `Migration::advance`; normal service does not depend on it. The
    /// run is the same whatever the state of the context: a session that
    /// is gone shows at the first step.
    pub fn migrations(&self) -> (m: Migration)
        ensures
            m@.stage == StageView::Keyspace,
            m@.corpus.len() == STOCK_FACTS,
    {
        Migration::new()
    }
}

impl Migration {
    /// A migration that stores these example facts, at its start.
    pub fn with_corpus(corpus: Vec<String>) -> (m: Migration)
        ensures
            m@ == (MigrationView { stage: StageView::Keyspace, corpus: texts_view(corpus@) }),
    {
        Migration { stage: Stage::Keyspace, corpus }
    }

    /// A migration that stores the stock of example facts, at its start:
    /// as many facts as the stock holds, the same number on every run.
    pub fn new() -> (m: Migration)
        ensures
            m@.stage == StageView::Keyspace,
            m@.corpus.len() == STOCK_FACTS,
    {
        Migration::with_corpus(seed_corpus())
    }

    /// The number of example facts.
    pub fn corpus_len(&self) -> (n: usize)
        ensures
            n == self@.corpus.len(),
    {
        self.corpus.len()
    }

    /// Whether the migration has come to its end, well or badly.
    pub fn is_over(&self) -> (over: bool)
        ensures
            over == (self@.stage is Finished || self@.stage is Aborted),
    {
        match self.stage {
            Stage::Finished => true,
            Stage::Aborted(_) => true,
            _ => false,
        }
    }

    fn send_or_abort(&mut self, asked: Result<Statement, StoreError>) -> (step: Step)
        ensures
            (final(self)@, step@) == send_or_abort(
                old(self)@,
                match asked {
                    Ok(s) => Ok(s@),
                    Err(e) => Err(e@),
                },
            ),
    {
        match asked {
            Ok(statement) => Step::Send(statement),
            Err(e) => {
                self.stage = Stage::Aborted(e.clone());
                Step::Aborted(e)
            },
        }
    }

    fn seed_step(&mut self, i: usize, ctx: &mut FactsContext, now: u64) -> (step: Step)
        ensures
            (final(self)@, final(ctx)@, step@) == seed_step(old(self)@, i as nat, old(ctx)@, now),
    {
        if i >= self.corpus.len() {
            self.stage = Stage::Finished;
            Step::Finished
        } else {
            self.stage = Stage::Seed(i);
            let asked = match ctx.create_fact(self.corpus[i].as_str(), SEED_KIND, now) {
                Ok((_, statement)) => Ok(statement),
                Err(e) => Err(e),
            };
            self.send_or_abort(asked)
        }
    }

    /// What is to be done next.
    pub fn next(&mut self, ctx: &mut FactsContext, now: u64) -> (step: Step)
        ensures
            (final(self)@, final(ctx)@, step@) == next_step(old(self)@, old(ctx)@, now),
    {
        match &self.stage {
            Stage::Keyspace => {
                let asked = ctx.create_keyspace();
                self.send_or_abort(asked)
            },
            Stage::Table => {
                let asked = ctx.create_table();
                self.send_or_abort(asked)
            },
            Stage::Reset => {
                match ctx.reset_data() {
                    Ok(statement) => Step::Send(statement),
                    Err(_) => self.seed_step(0, ctx, now),
                }
            },
            Stage::Seed(i) => {
                let i: usize = *i;
                self.seed_step(i, ctx, now)
            },
            Stage::Finished => Step::Finished,
            Stage::Aborted(e) => Step::Aborted(e.clone()),
        }
    }

    fn must_succeed(intent: Intent, outcome: &Outcome, then: Stage) -> (stage: Stage)
        ensures
            stage@ == must_succeed(intent@, outcome@, then@),
    {
        match crate::outcome::conclude_write(intent, outcome) {
            Ok(_) => then,
            Err(e) => Stage::Aborted(e),
        }
    }

    /// Takes the outcome of the statement that `next` gave out.
    pub fn advance(&mut self, ctx: &mut FactsContext, statement: &Statement, outcome: &Outcome)
        ensures
            final(self)@ == advance(old(self)@, statement@.intent, outcome@),
            final(ctx)@ == context_after(old(ctx)@, outcome@),
    {
        ctx.observe(outcome);
        let intent = statement.intent.clone();
        match &self.stage {
            Stage::Keyspace => {
                self.stage = Migration::must_succeed(intent, outcome, Stage::Table);
            },
            Stage::Table => {
                self.stage = Migration::must_succeed(intent, outcome, Stage::Reset);
            },
            Stage::Reset => {
                self.stage = Stage::Seed(0);
            },
            Stage::Seed(i) => {
                let i: usize = *i;
                if i < self.corpus.len() {
                    self.stage = Migration::must_succeed(intent, outcome, Stage::Seed(i + 1));
                }
            },
            Stage::Finished => {},
            Stage::Aborted(_) => {},
        }
    }
}

} // verus!
