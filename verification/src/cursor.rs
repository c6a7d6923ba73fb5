//! The protocol of a streaming query cursor.
//!
//! A cursor owns its query text and follows a row stream that the caller
//! drives. What a pull must do, and what it hands back for each thing the
//! stream can produce, is decided here; the caller only performs the fetch.

use vstd::prelude::*;

verus! {

/// Where a cursor stands.
#[derive(Clone, Copy, Debug, PartialEq, Eq, Structural)]
pub enum CursorState {
    /// The stream has not been opened yet.
    Unopened,
    /// The stream is open and may yield further rows.
    Open,
    /// The stream has ended; no row will follow.
    Exhausted,
    /// The driver reported an error; the cursor is unusable.
    Failed,
}

/// What a pull has to do.
#[derive(Clone, Copy, Debug, PartialEq, Eq, Structural)]
pub enum NextStep {
    /// Fetch once from the stream and report what came with
    /// [`StreamingQueryCursor::next_row`].
    Fetch,
    /// Report the end of the rows without touching the stream.
    NoMoreRows,
    /// Report a stream error without touching the stream.
    StreamError,
}

/// What one fetch from the stream produced.
#[derive(Clone, Debug, PartialEq, Eq)]
pub enum Fetched<R, E> {
    Row(R),
    End,
    Error(E),
}

/// What a pull hands to its caller.
#[derive(Clone, Debug, PartialEq, Eq)]
pub enum Delivery<R, E> {
    Row(R),
    NoMoreRows,
    StreamError(E),
}

/// The state in which a fetch leaves an open cursor.
pub open spec fn state_after<R, E>(fetched: Fetched<R, E>) -> CursorState {
    match fetched {
        Fetched::Row(_) => CursorState::Open,
        Fetched::End => CursorState::Exhausted,
        Fetched::Error(_) => CursorState::Failed,
    }
}

/// What is handed on for a fetch: the row itself, the end, or the error.
pub open spec fn delivery_of<R, E>(fetched: Fetched<R, E>) -> Delivery<R, E> {
    match fetched {
        Fetched::Row(row) => Delivery::Row(row),
        Fetched::End => Delivery::NoMoreRows,
        Fetched::Error(error) => Delivery::StreamError(error),
    }
}

/// What a pull has to do in a given state.
pub open spec fn step_in(state: CursorState) -> NextStep {
    match state {
        CursorState::Exhausted => NextStep::NoMoreRows,
        CursorState::Failed => NextStep::StreamError,
        _ => NextStep::Fetch,
    }
}

/// A query and the state of its row stream.
pub struct StreamingQueryCursor {
    query: String,
    state: CursorState,
}

impl StreamingQueryCursor {
    /// The query text that the cursor owns.
    pub closed spec fn query_text(&self) -> Seq<char> {
        self.query@
    }

    /// Where the cursor stands.
    pub closed spec fn spec_state(&self) -> CursorState {
        self.state
    }

    /// A cursor for `query` whose stream is not open yet.
    pub fn new(query: &str) -> (cursor: Self)
        ensures
            cursor.query_text() == query@,
            cursor.spec_state() == CursorState::Unopened,
    {
        StreamingQueryCursor { query: query.to_owned(), state: CursorState::Unopened }
    }

    /// Marks the stream as opened and hands out the text to open it with.
    /// The text is taken as it is: whether it is valid SQL only shows at the
    /// first fetch.
    pub fn run(&mut self) -> (text: &str)
        requires
            old(self).spec_state() == CursorState::Unopened,
        ensures
            text@ == old(self).query_text(),
            final(self).query_text() == old(self).query_text(),
            final(self).spec_state() == CursorState::Open,
    {
        self.state = CursorState::Open;
        self.query.as_str()
    }

    /// A cursor for `query` with its stream marked as opened.
    pub fn start(query: &str) -> (cursor: Self)
        ensures
            cursor.query_text() == query@,
            cursor.spec_state() == CursorState::Open,
    {
        StreamingQueryCursor { query: query.to_owned(), state: CursorState::Open }
    }

    /// The query text.
    pub fn query(&self) -> (text: &str)
        ensures
            text@ == self.query_text(),
    {
        self.query.as_str()
    }

    /// Where the cursor stands.
    #[verifier::when_used_as_spec(spec_state)]
    pub fn state(&self) -> (state: CursorState)
        ensures
            state == self.spec_state(),
    {
        self.state
    }

    /// What the next pull has to do: fetch while the stream is open, and
    /// report the end or the error without a fetch once either was seen.
    pub fn next(&self) -> (step: NextStep)
        requires
            self.spec_state() != CursorState::Unopened,
        ensures
            step == step_in(self.spec_state()),
    {
        match self.state {
            CursorState::Exhausted => NextStep::NoMoreRows,
            CursorState::Failed => NextStep::StreamError,
            _ => NextStep::Fetch,
        }
    }

    /// Takes what a fetch produced and hands it on: a row leaves the cursor
    /// open, the end exhausts it, an error fails it.
    pub fn next_row<R, E>(&mut self, fetched: Fetched<R, E>) -> (delivery: Delivery<R, E>)
        requires
            old(self).spec_state() == CursorState::Open,
        ensures
            delivery == delivery_of(fetched),
            final(self).spec_state() == state_after(fetched),
            final(self).query_text() == old(self).query_text(),
    {
        match fetched {
            Fetched::Row(row) => Delivery::Row(row),
            Fetched::End => {
                self.state = CursorState::Exhausted;
                Delivery::NoMoreRows
            },
            Fetched::Error(error) => {
                self.state = CursorState::Failed;
                Delivery::StreamError(error)
            },
        }
    }
}


/// What the caller of a pull sees: a row, the end of the rows, or a failure.
#[derive(Clone, Debug, PartialEq, Eq)]
pub enum Signal<R> {
    Row(R),
    NoMoreRows,
    StreamError,
}

/// One whole pull: the state it leaves and what its caller sees, given the
/// state it starts in and what the stream produces if it is fetched from.
pub open spec fn pull<R, E>(state: CursorState, produced: Fetched<R, E>) -> (
    CursorState,
    Signal<R>,
) {
    match step_in(state) {
        NextStep::NoMoreRows => (state, Signal::NoMoreRows),
        NextStep::StreamError => (state, Signal::StreamError),
        NextStep::Fetch => (
            state_after(produced),
            match delivery_of(produced) {
                Delivery::Row(row) => Signal::Row(row),
                Delivery::NoMoreRows => Signal::NoMoreRows,
                Delivery::StreamError(_) => Signal::StreamError,
            },
        ),
    }
}

/// The state after a run of pulls, the `i`-th of which would be served with
/// `produced[i]` if it fetched.
pub open spec fn state_after_pulls<R, E>(
    state: CursorState,
    produced: Seq<Fetched<R, E>>,
) -> CursorState
    decreases produced.len(),
{
    if produced.len() == 0 {
        state
    } else {
        pull(state_after_pulls(state, produced.drop_last()), produced.last()).0
    }
}

/// What the callers of a run of pulls see, pull by pull.
pub open spec fn signals<R, E>(state: CursorState, produced: Seq<Fetched<R, E>>) -> Seq<
    Signal<R>,
>
    decreases produced.len(),
{
    if produced.len() == 0 {
        Seq::empty()
    } else {
        signals(state, produced.drop_last()).push(
            pull(state_after_pulls(state, produced.drop_last()), produced.last()).1,
        )
    }
}

/// A query that matches no row ends at once: the first pull on an open
/// cursor whose stream has nothing to give reports the end of the rows, not a
/// failure, and exhausts the cursor.
pub proof fn lemma_empty_result_is_no_error<R, E>()
    ensures
        pull(CursorState::Open, Fetched::<R, E>::End) == (
            CursorState::Exhausted,
            Signal::<R>::NoMoreRows,
        ),
{
}

/// A failure is final: once the driver has reported an error, the cursor
/// stays failed and every later pull reports a failure, whatever the stream
/// would produce.
pub proof fn lemma_failure_is_final<R, E>(error: E, later: Seq<Fetched<R, E>>)
    ensures
        pull(CursorState::Open, Fetched::<R, E>::Error(error)) == (
            CursorState::Failed,
            Signal::<R>::StreamError,
        ),
        state_after_pulls(CursorState::Failed, later) == CursorState::Failed,
        signals(CursorState::Failed, later).len() == later.len(),
        forall|i: int|
            0 <= i < later.len() ==> #[trigger] signals(CursorState::Failed, later)[i]
                == Signal::<R>::StreamError,
    decreases later.len(),
{
    if later.len() > 0 {
        lemma_failure_is_final(error, later.drop_last());
    }
}

/// The end is final: an exhausted cursor stays exhausted and every later
/// pull reports the end of the rows, whatever the stream would produce.
pub proof fn lemma_exhaustion_is_final<R, E>(later: Seq<Fetched<R, E>>)
    ensures
        state_after_pulls(CursorState::Exhausted, later) == CursorState::Exhausted,
        signals(CursorState::Exhausted, later).len() == later.len(),
        forall|i: int|
            0 <= i < later.len() ==> #[trigger] signals(CursorState::Exhausted, later)[i]
                == Signal::<R>::NoMoreRows,
    decreases later.len(),
{
    if later.len() > 0 {
        lemma_exhaustion_is_final(later.drop_last());
    }
}

/// While the stream yields rows, each pull hands on exactly the row that was
/// fetched for it, in the order of the stream, and the cursor stays open.
pub proof fn lemma_rows_in_stream_order<R, E>(produced: Seq<Fetched<R, E>>)
    requires
        forall|i: int| 0 <= i < produced.len() ==> #[trigger] produced[i] is Row,
    ensures
        state_after_pulls(CursorState::Open, produced) == CursorState::Open,
        signals(CursorState::Open, produced).len() == produced.len(),
        forall|i: int|
            0 <= i < produced.len() ==> #[trigger] signals(CursorState::Open, produced)[i]
                == Signal::Row(produced[i]->Row_0),
    decreases produced.len(),
{
    if produced.len() > 0 {
        let head = produced.drop_last();
        assert forall|i: int| 0 <= i < head.len() implies #[trigger] head[i] is Row by {
            assert(head[i] == produced[i]);
        }
        lemma_rows_in_stream_order(head);
        assert(produced.last() == produced[produced.len() - 1]);
    }
}

} // verus!
