//! From statements with their rows to what is sent to the database, run by
//! run, and what its answers mean.
use vstd::prelude::*;

use crate::error::{ErrorSource, GraphWriteError};
use crate::graph::neo4j::{check_merged, chunk_rows, node_upsert_query, NodeRow, BATCH_SIZE};
use crate::graph::props::Props;
use crate::graph::upsert::Upsert;

verus! {

/// The rows that are sent at once.
#[derive(Debug, Clone, Copy)]
pub enum SentRows<'a> {
    Nodes(&'a [NodeRow]),
    /// Edges of this type. The answer must count as many of them as were sent.
    Edges { edge_type: &'static str, rows: &'a [Props] },
}

/// What `SentRows` hold.
pub ghost enum SentRowsView {
    Nodes(Seq<crate::graph::neo4j::NodeRowView>),
    Edges {
        edge_type: Seq<char>,
        rows: Seq<Map<Seq<char>, crate::graph::props::PropView>>,
    },
}

impl<'a> DeepView for SentRows<'a> {
    type V = SentRowsView;

    open spec fn deep_view(&self) -> SentRowsView {
        match *self {
            SentRows::Nodes(rows) => SentRowsView::Nodes(rows.deep_view()),
            SentRows::Edges { edge_type, rows } => SentRowsView::Edges {
                edge_type: edge_type@,
                rows: rows.deep_view(),
            },
        }
    }
}

/// One statement as it is sent: its text, and the rows bound to `$rows`.
#[derive(Debug)]
pub struct Statement<'a> {
    pub text: String,
    pub rows: SentRows<'a>,
}

/// What a `Statement` holds.
pub ghost struct StatementView {
    pub text: Seq<char>,
    pub rows: SentRowsView,
}

impl<'a> DeepView for Statement<'a> {
    type V = StatementView;

    open spec fn deep_view(&self) -> StatementView {
        StatementView { text: self.text@, rows: self.rows.deep_view() }
    }
}

/// What is sent for one upsert, in order: its rows in runs of `BATCH_SIZE`.
/// Nothing is sent for an upsert without rows.
pub open spec fn sent_for(upsert: crate::graph::upsert::UpsertView) -> Seq<StatementView> {
    match upsert {
        crate::graph::upsert::UpsertView::Nodes { label, rows } => crate::graph::neo4j::chunks_of(
            rows,
            BATCH_SIZE as nat,
        ).map_values(
            |run: Seq<crate::graph::neo4j::NodeRowView>|
                StatementView {
                    text: crate::graph::neo4j::node_statement(label),
                    rows: SentRowsView::Nodes(run),
                },
        ),
        crate::graph::upsert::UpsertView::Edges(edges) => crate::graph::neo4j::chunks_of(
            edges.rows,
            BATCH_SIZE as nat,
        ).map_values(
            |run: Seq<Map<Seq<char>, crate::graph::props::PropView>>|
                StatementView {
                    text: edges.statement,
                    rows: SentRowsView::Edges { edge_type: edges.edge_type, rows: run },
                },
        ),
    }
}

/// The runs of the views are the views of the runs.
proof fn lemma_chunks_of_views<T: DeepView>(rows: Seq<T>, batch_size: nat)
    requires
        batch_size > 0,
    ensures
        crate::graph::neo4j::chunks_of(views(rows), batch_size)
            == crate::graph::neo4j::chunks_of(rows, batch_size).map_values(
            |run: Seq<T>| views(run),
        ),
    decreases rows.len(),
{
    let of_views = crate::graph::neo4j::chunks_of(views(rows), batch_size);
    let of_rows = crate::graph::neo4j::chunks_of(rows, batch_size);
    if rows.len() == 0 {
        assert(of_views =~= of_rows.map_values(|run: Seq<T>| views(run)));
    } else if rows.len() <= batch_size {
        assert(of_views =~= of_rows.map_values(|run: Seq<T>| views(run)));
    } else {
        let rest = rows.skip(batch_size as int);
        lemma_chunks_of_views(rest, batch_size);
        assert(views(rows).take(batch_size as int) =~= views(rows.take(batch_size as int)));
        assert(views(rows).skip(batch_size as int) =~= views(rest));
        assert(of_views =~= of_rows.map_values(|run: Seq<T>| views(run)));
    }
}

/// The views of `items`.
pub open spec fn views<T: DeepView>(items: Seq<T>) -> Seq<T::V> {
    Seq::new(items.len(), |i: int| items[i].deep_view())
}

/// What is sent for one upsert, in order.
pub fn statements_for(upsert: &Upsert) -> (statements: Vec<Statement<'_>>)
    ensures
        statements.deep_view() == sent_for(upsert.deep_view()),
{
    let ghost all = sent_for(upsert.deep_view());
    let mut statements: Vec<Statement<'_>> = Vec::new();
    match upsert {
        Upsert::Nodes { label, rows } => {
            let runs = chunk_rows(rows.as_slice(), BATCH_SIZE);
            proof {
                lemma_chunks_of_views(rows@, BATCH_SIZE as nat);
                assert(rows.deep_view() =~= views(rows@));
            }
            let mut i: usize = 0;
            while i < runs.len()
                invariant
                    0 <= i <= runs@.len(),
                    all.len() == runs@.len(),
                    forall|j: int|
                        0 <= j < runs@.len() ==> #[trigger] all[j] == (StatementView {
                            text: crate::graph::neo4j::node_statement(label@),
                            rows: SentRowsView::Nodes(views(runs@[j]@)),
                        }),
                    statements@.len() == i,
                    forall|j: int|
                        0 <= j < i ==> (#[trigger] statements@[j]).deep_view() == all[j],
                decreases runs@.len() - i,
            {
                let statement = Statement {
                    text: node_upsert_query(label),
                    rows: SentRows::Nodes(runs[i]),
                };
                assert(runs@[i as int].deep_view() =~= views(runs@[i as int]@));
                assert(statement.deep_view() == all[i as int]);
                statements.push(statement);
                i = i + 1;
            }
        },
        Upsert::Edges(edges) => {
            let runs = chunk_rows(edges.rows.as_slice(), BATCH_SIZE);
            proof {
                lemma_chunks_of_views(edges.rows@, BATCH_SIZE as nat);
                assert(edges.rows.deep_view() =~= views(edges.rows@));
            }
            let mut i: usize = 0;
            while i < runs.len()
                invariant
                    0 <= i <= runs@.len(),
                    all.len() == runs@.len(),
                    forall|j: int|
                        0 <= j < runs@.len() ==> #[trigger] all[j] == (StatementView {
                            text: edges.statement@,
                            rows: SentRowsView::Edges {
                                edge_type: edges.edge_type@,
                                rows: views(runs@[j]@),
                            },
                        }),
                    statements@.len() == i,
                    forall|j: int|
                        0 <= j < i ==> (#[trigger] statements@[j]).deep_view() == all[j],
                decreases runs@.len() - i,
            {
                let statement = Statement {
                    text: edges.statement.to_string(),
                    rows: SentRows::Edges { edge_type: edges.edge_type, rows: runs[i] },
                };
                assert(runs@[i as int].deep_view() =~= views(runs@[i as int]@));
                assert(statement.deep_view() == all[i as int]);
                statements.push(statement);
                i = i + 1;
            }
        },
    }
    assert(statements.deep_view() =~= all);
    statements
}

impl<'a> Statement<'a> {
    /// Judges the answer to this statement: a failure of the database, or the
    /// number of edges that it merged, if it gave one. Nodes are merged whatever
    /// is answered; of edges every one must have been.
    pub fn judge(&self, answer: Result<Option<i64>, anyhow::Error>) -> (judged: Result<
        (),
        GraphWriteError,
    >)
        requires
            self.rows matches SentRows::Edges { rows, .. } ==> (answer matches Ok(Some(count))
                ==> 0 <= count <= rows@.len()),
        ensures
            judged is Ok <==> answer is Ok && (self.rows matches SentRows::Edges { rows, .. }
                ==> answer->Ok_0 matches Some(count) && count == rows@.len()),
            judged matches Err(GraphWriteError::Write { source }) ==> (match answer {
                Err(failure) => source == ErrorSource::Error(failure),
                Ok(merged) => self.rows matches SentRows::Edges { edge_type, rows } && (
                source matches ErrorSource::Message(text) && text@ == (match merged {
                    None => edge_type@ + " upsert returned no summary row"@,
                    Some(count) => crate::graph::neo4j::unresolved_endpoints_text(
                        edge_type@,
                        rows@.len(),
                        count as nat,
                    ),
                })),
            }),
    {
        match answer {
            Err(failure) => Err(
                GraphWriteError::Write { source: ErrorSource::Error(failure) },
            ),
            Ok(merged) => match self.rows {
                SentRows::Nodes(_) => Ok(()),
                SentRows::Edges { edge_type, rows } => check_merged(edge_type, rows.len(), merged),
            },
        }
    }
}

/// The rows of the statements sent, put together, are the rows of the upsert:
/// none is lost, none is sent twice, and their order is kept.
pub proof fn law_every_row_is_sent_once(upsert: crate::graph::upsert::UpsertView)
    ensures
        match upsert {
            crate::graph::upsert::UpsertView::Nodes { rows, .. } => sent_for(upsert).map_values(
                |statement: StatementView| statement.rows->Nodes_0,
            ).flatten() == rows,
            crate::graph::upsert::UpsertView::Edges(edges) => sent_for(upsert).map_values(
                |statement: StatementView| statement.rows->Edges_rows,
            ).flatten() == edges.rows,
        },
{
    match upsert {
        crate::graph::upsert::UpsertView::Nodes { rows, .. } => {
            crate::graph::neo4j::law_chunks_are_the_rows(rows, BATCH_SIZE as nat);
            assert(sent_for(upsert).map_values(
                |statement: StatementView| statement.rows->Nodes_0,
            ) =~= crate::graph::neo4j::chunks_of(rows, BATCH_SIZE as nat));
        },
        crate::graph::upsert::UpsertView::Edges(edges) => {
            crate::graph::neo4j::law_chunks_are_the_rows(edges.rows, BATCH_SIZE as nat);
            assert(sent_for(upsert).map_values(
                |statement: StatementView| statement.rows->Edges_rows,
            ) =~= crate::graph::neo4j::chunks_of(edges.rows, BATCH_SIZE as nat));
        },
    }
}

} // verus!
