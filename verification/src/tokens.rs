use vstd::prelude::*;
use crate::consts::{Contracts, Methods};
use crate::error::AggregationError;
use crate::models::{FungibleTokenMetadata, TokenMetadataView};
use crate::request::{view_call, ViewArgs, ViewArgsView, ViewRequest, ViewRequestView};
use crate::table::{Table, TableView};
use crate::text::holds_text;

verus! {

/// Token metadata by token contract id.
pub type TokenTable = Table<FungibleTokenMetadata>;

/// What an answer to a metadata call adds to the table: the metadata where
/// the call succeeded, nothing where it failed.
pub open spec fn resolved(
    outcome: Result<FungibleTokenMetadata, AggregationError>,
) -> Option<TokenMetadataView> {
    match outcome {
        Ok(metadata) => Some(metadata@),
        Err(_) => None,
    }
}

/// The state of a [`TokenResolver`].
pub struct TokenResolverView {
    /// The metadata held so far.
    pub table: TableView<TokenMetadataView>,
    /// The tokens to ask for, in the order in which they were first wanted.
    pub pending: Seq<Seq<char>>,
    /// How many of `pending` have been asked for and answered.
    pub cursor: nat,
}

impl TokenResolverView {
    /// No token is pending twice, and none that is still to be asked for is
    /// held already.
    pub open spec fn wf(self) -> bool {
        &&& self.table.wf()
        &&& self.cursor <= self.pending.len()
        &&& self.pending.no_duplicates()
        &&& forall|i: int|
            self.cursor <= i < self.pending.len() ==> !self.table.contains_key(
                #[trigger] self.pending[i],
            )
    }

    pub open spec fn start(table: TableView<TokenMetadataView>) -> Self {
        TokenResolverView { table, pending: Seq::empty(), cursor: 0 }
    }

    /// The state after `token` is wanted: it becomes pending unless it is
    /// held or was pending before.
    pub open spec fn want(self, token: Seq<char>) -> Self {
        if self.table.contains_key(token) || self.pending.contains(token) {
            self
        } else {
            TokenResolverView { pending: self.pending.push(token), ..self }
        }
    }

    /// The state after each of `tokens` is wanted, first to last.
    pub open spec fn want_all(self, tokens: Seq<Seq<char>>) -> Self
        decreases tokens.len(),
    {
        if tokens.len() == 0 {
            self
        } else {
            self.want_all(tokens.drop_last()).want(tokens.last())
        }
    }

    /// The token to ask for next, if any is left.
    pub open spec fn request(self) -> Option<Seq<char>> {
        if self.cursor < self.pending.len() {
            Some(self.pending[self.cursor as int])
        } else {
            None
        }
    }

    pub open spec fn done(self) -> bool {
        self.cursor >= self.pending.len()
    }

    /// The state after the answer to the pending request came in: metadata
    /// is stored under the token asked for, a failure leaves the token out;
    /// either way the next token is up. With no request pending nothing
    /// changes.
    pub open spec fn accept(self, outcome: Option<TokenMetadataView>) -> Self {
        match self.request() {
            None => self,
            Some(token) => TokenResolverView {
                table: match outcome {
                    Some(metadata) => self.table.insert(token, metadata),
                    None => self.table,
                },
                cursor: self.cursor + 1,
                ..self
            },
        }
    }

    /// The tokens that are asked for while `outcomes` come in one by one.
    pub open spec fn requests_during(self, outcomes: Seq<Option<TokenMetadataView>>) -> Seq<
        Seq<char>,
    >
        decreases outcomes.len(),
    {
        if outcomes.len() == 0 {
            Seq::empty()
        } else {
            match self.request() {
                None => Seq::empty(),
                Some(token) => seq![token] + self.accept(outcomes[0]).requests_during(
                    outcomes.drop_first(),
                ),
            }
        }
    }

    /// Where the cursor stands once `answers` answers have come in.
    pub open spec fn cursor_after(self, answers: nat) -> int {
        if self.cursor + answers <= self.pending.len() {
            (self.cursor + answers) as int
        } else {
            self.pending.len() as int
        }
    }

    pub proof fn lemma_want_wf(self, token: Seq<char>)
        requires
            self.wf(),
        ensures
            self.want(token).wf(),
    {
        let after = self.want(token);
        if !(self.table.contains_key(token) || self.pending.contains(token)) {
            let n = self.pending.len() as int;
            assert forall|a: int, b: int|
                0 <= a < after.pending.len() && 0 <= b < after.pending.len() && a
                    != b implies after.pending[a] != after.pending[b] by {
                if a < n {
                    assert(self.pending[a] == after.pending[a]);
                }
                if b < n {
                    assert(self.pending[b] == after.pending[b]);
                }
            }
            assert forall|i: int| after.cursor <= i < after.pending.len() implies !after.table.contains_key(
                #[trigger] after.pending[i],
            ) by {
                if i < n {
                    assert(self.pending[i] == after.pending[i]);
                }
            }
        }
    }

    /// Wanting tokens keeps the state well formed and makes pending exactly
    /// those that were pending before or are wanted and not held.
    pub proof fn lemma_want_all(self, tokens: Seq<Seq<char>>)
        requires
            self.wf(),
        ensures
            self.want_all(tokens).wf(),
            self.want_all(tokens).table == self.table,
            self.want_all(tokens).cursor == self.cursor,
            forall|t: Seq<char>| #[trigger]
                self.want_all(tokens).pending.contains(t) <==> self.pending.contains(t) || (
                tokens.contains(t) && !self.table.contains_key(t)),
        decreases tokens.len(),
    {
        if tokens.len() > 0 {
            let front = tokens.drop_last();
            let last = tokens.last();
            let before = self.want_all(front);
            self.lemma_want_all(front);
            before.lemma_want_wf(last);
            let after = before.want(last);
            assert forall|t: Seq<char>| #[trigger]
                after.pending.contains(t) <==> self.pending.contains(t) || (tokens.contains(t)
                    && !self.table.contains_key(t)) by {
                if tokens.contains(t) {
                    let i = choose|i: int| 0 <= i < tokens.len() && tokens[i] == t;
                    if i < front.len() {
                        assert(front[i] == t);
                    }
                }
                if front.contains(t) {
                    let i = choose|i: int| 0 <= i < front.len() && front[i] == t;
                    assert(tokens[i] == t);
                }
                assert(tokens[tokens.len() - 1] == last);
                if after.pending.contains(t) {
                    let i = choose|i: int| 0 <= i < after.pending.len() && after.pending[i] == t;
                    if i < before.pending.len() {
                        assert(before.pending[i] == t);
                    }
                }
                if before.pending.contains(t) {
                    let i = choose|i: int| 0 <= i < before.pending.len() && before.pending[i] == t;
                    assert(after.pending[i] == t);
                }
                if after.pending.len() > before.pending.len() {
                    assert(after.pending[before.pending.len() as int] == last);
                }
            }
        }
    }

    pub proof fn lemma_accept_wf(self, outcome: Option<TokenMetadataView>)
        requires
            self.wf(),
        ensures
            self.accept(outcome).wf(),
    {
        let after = self.accept(outcome);
        if let Some(token) = self.request() {
            if let Some(metadata) = outcome {
                self.table.lemma_insert(token, metadata);
            }
            assert forall|i: int| after.cursor <= i < after.pending.len() implies !after.table.contains_key(
                #[trigger] after.pending[i],
            ) by {
                assert(self.pending[i] != self.pending[self.cursor as int]);
            }
        }
    }

    /// The requests made during a run are the pending tokens from the cursor
    /// on, as many as answers come in.
    pub proof fn lemma_requests_during(self, outcomes: Seq<Option<TokenMetadataView>>)
        requires
            self.wf(),
        ensures
            self.requests_during(outcomes) == self.pending.subrange(
                self.cursor as int,
                self.cursor_after(outcomes.len()),
            ),
        decreases outcomes.len(),
    {
        let end = self.cursor_after(outcomes.len());
        if outcomes.len() == 0 || self.request() is None {
            assert(self.requests_during(outcomes) =~= self.pending.subrange(
                self.cursor as int,
                end,
            ));
        } else {
            let next = self.accept(outcomes[0]);
            self.lemma_accept_wf(outcomes[0]);
            next.lemma_requests_during(outcomes.drop_first());
            assert(self.requests_during(outcomes) =~= self.pending.subrange(
                self.cursor as int,
                end,
            ));
        }
    }

    /// Within one run no token is asked for twice, and none is asked for
    /// that the table held when the run began.
    pub proof fn lemma_each_token_asked_once(self, outcomes: Seq<Option<TokenMetadataView>>)
        requires
            self.wf(),
        ensures
            self.requests_during(outcomes).no_duplicates(),
            forall|t: Seq<char>| #[trigger]
                self.requests_during(outcomes).contains(t) ==> !self.table.contains_key(t),
    {
        self.lemma_requests_during(outcomes);
        let asked = self.requests_during(outcomes);
        assert forall|a: int, b: int| 0 <= a < asked.len() && 0 <= b < asked.len() && a
            != b implies asked[a] != asked[b] by {
            assert(asked[a] == self.pending[self.cursor + a]);
            assert(asked[b] == self.pending[self.cursor + b]);
        }
        assert forall|t: Seq<char>| #[trigger] asked.contains(t) implies !self.table.contains_key(
            t,
        ) by {
            let a = choose|a: int| 0 <= a < asked.len() && asked[a] == t;
            assert(asked[a] == self.pending[self.cursor + a]);
        }
    }
}

/// Resolves token metadata, one view call per token that is not held yet.
///
/// A token whose call fails is left out of the table, and the failure does
/// not stop the others.
pub struct TokenResolver {
    table: TokenTable,
    pending: Vec<String>,
    cursor: usize,
}

impl View for TokenResolver {
    type V = TokenResolverView;

    closed spec fn view(&self) -> TokenResolverView {
        TokenResolverView {
            table: self.table@,
            pending: self.pending.deep_view(),
            cursor: self.cursor as nat,
        }
    }
}

impl TokenResolver {
    /// A resolver that holds `table` and wants nothing yet.
    pub fn new(table: TokenTable) -> (resolver: Self)
        requires
            table@.wf(),
        ensures
            resolver@ == TokenResolverView::start(table@),
            resolver@.wf(),
    {
        let resolver = TokenResolver { table, pending: Vec::new(), cursor: 0 };
        assert(resolver@.pending =~= Seq::empty());
        resolver
    }

    /// Notes that the metadata of `token` is wanted.
    pub fn want(&mut self, token: &str)
        requires
            old(self)@.wf(),
        ensures
            final(self)@ == old(self)@.want(token@),
            final(self)@.wf(),
    {
        proof {
            old(self)@.lemma_want_wf(token@);
        }
        if !self.table.contains_key(token) && !holds_text(&self.pending, token) {
            self.pending.push(token.to_owned());
            assert(self@.pending =~= old(self)@.pending.push(token@));
        }
    }

    /// Notes that the metadata of each of `tokens` is wanted.
    pub fn want_all(&mut self, tokens: &Vec<String>)
        requires
            old(self)@.wf(),
        ensures
            final(self)@ == old(self)@.want_all(tokens.deep_view()),
            final(self)@.wf(),
    {
        let mut i: usize = 0;
        assert(tokens.deep_view().take(0) =~= Seq::empty());
        while i < tokens.len()
            invariant
                i <= tokens.len(),
                self@.wf(),
                self@ == old(self)@.want_all(tokens.deep_view().take(i as int)),
            decreases tokens.len() - i,
        {
            self.want(tokens[i].as_str());
            proof {
                let upto = tokens.deep_view().take(i + 1);
                assert(upto.drop_last() =~= tokens.deep_view().take(i as int));
                assert(upto.last() == tokens[i as int]@);
            }
            i += 1;
        }
        assert(tokens.deep_view().take(tokens.len() as int) =~= tokens.deep_view());
    }

    /// The token to ask for next, if any is left.
    pub fn next_token(&self) -> (token: Option<&String>)
        ensures
            match token {
                Some(t) => self@.request() == Some(t@),
                None => self@.request() is None,
            },
    {
        if self.cursor < self.pending.len() {
            Some(&self.pending[self.cursor])
        } else {
            None
        }
    }

    /// The metadata call for the token that is up next, if any is left.
    pub fn next_request(&self) -> (request: Option<ViewRequest>)
        ensures
            match request {
                Some(r) => self@.request() is Some && r@ == metadata_call(
                    self@.request().unwrap(),
                ),
                None => self@.request() is None,
            },
    {
        match self.next_token() {
            Some(token) => Some(
                ViewRequest::new(token.as_str(), Methods::FtMetadata, &ViewArgs::Empty),
            ),
            None => None,
        }
    }

    /// Whether every wanted token has been asked for.
    pub fn is_done(&self) -> (done: bool)
        ensures
            done == self@.done(),
    {
        self.cursor >= self.pending.len()
    }

    /// Takes in the answer to the pending request.
    pub fn accept(&mut self, outcome: Result<FungibleTokenMetadata, AggregationError>)
        requires
            old(self)@.wf(),
        ensures
            final(self)@ == old(self)@.accept(resolved(outcome)),
            final(self)@.wf(),
    {
        proof {
            old(self)@.lemma_accept_wf(resolved(outcome));
        }
        if self.cursor < self.pending.len() {
            match outcome {
                Ok(metadata) => {
                    let token = self.pending[self.cursor].clone();
                    self.table.insert(token, metadata);
                },
                Err(_) => {},
            }
            self.cursor = self.cursor + 1;
        }
    }

    /// The metadata held so far.
    pub fn table(&self) -> (table: &TokenTable)
        ensures
            table@ == self@.table,
    {
        &self.table
    }

    /// Gives up the table with all that was resolved.
    pub fn into_table(self) -> (table: TokenTable)
        ensures
            table@ == self@.table,
    {
        self.table
    }
}

/// The metadata call for `token`: the token's own contract is asked.
pub open spec fn metadata_call(token: Seq<char>) -> ViewRequestView {
    view_call(token, Methods::FtMetadata, ViewArgsView::Empty)
}

/// Starts the resolution of `tokens` with nothing held.
pub fn internal_update_token_metadata(tokens: &Vec<String>) -> (resolver: TokenResolver)
    ensures
        resolver@ == TokenResolverView::start(TableView::empty()).want_all(tokens.deep_view()),
        resolver@.wf(),
{
    let mut resolver = TokenResolver::new(Table::new());
    resolver.want_all(tokens);
    resolver
}

/// Where the resolution of the whitelisted tokens stands.
#[derive(Clone, Copy, Debug, PartialEq, Eq, Structural)]
pub enum WhitelistPhase {
    /// The whitelist has been asked for.
    Listing,
    /// Metadata of whitelisted tokens is being fetched.
    Resolving,
    /// Every whitelisted token has been dealt with.
    Done,
    /// The whitelist could not be had.
    Failed(AggregationError),
}

/// What an answer to the whitelist request holds.
pub open spec fn whitelist_view(
    whitelist: Result<Vec<String>, AggregationError>,
) -> Result<Seq<Seq<char>>, AggregationError> {
    match whitelist {
        Ok(ids) => Ok(ids.deep_view()),
        Err(e) => Err(e),
    }
}

/// The whitelist call on the exchange.
pub open spec fn whitelist_call() -> ViewRequestView {
    view_call(
        Contracts::RefExchange.account_id(),
        Methods::WhitelistedTokens,
        ViewArgsView::Empty,
    )
}

/// The state of a [`WhitelistResolver`].
pub struct WhitelistResolverView {
    pub phase: WhitelistPhase,
    pub resolver: TokenResolverView,
}

impl WhitelistResolverView {
    pub open spec fn wf(self) -> bool {
        &&& self.resolver.wf()
        &&& self.phase is Resolving ==> !self.resolver.done()
        &&& self.phase is Done ==> self.resolver.done()
    }

    pub open spec fn start(table: TableView<TokenMetadataView>) -> Self {
        WhitelistResolverView {
            phase: WhitelistPhase::Listing,
            resolver: TokenResolverView::start(table),
        }
    }

    /// The call to make next; none once the resolution is done or given up.
    pub open spec fn request(self) -> Option<ViewRequestView> {
        match self.phase {
            WhitelistPhase::Listing => Some(whitelist_call()),
            WhitelistPhase::Resolving => match self.resolver.request() {
                Some(token) => Some(metadata_call(token)),
                None => None,
            },
            WhitelistPhase::Done => None,
            WhitelistPhase::Failed(_) => None,
        }
    }

    /// The state after the answer to the whitelist request: a failure gives
    /// the resolution up; else the listed tokens are wanted, and where none
    /// of them has to be fetched the resolution is done. Outside the listing
    /// phase nothing changes.
    pub open spec fn on_whitelist(self, whitelist: Result<Seq<Seq<char>>, AggregationError>) -> Self {
        if !(self.phase is Listing) {
            self
        } else {
            match whitelist {
                Err(e) => WhitelistResolverView { phase: WhitelistPhase::Failed(e), ..self },
                Ok(ids) => {
                    let resolver = self.resolver.want_all(ids);
                    WhitelistResolverView {
                        phase: if resolver.done() {
                            WhitelistPhase::Done
                        } else {
                            WhitelistPhase::Resolving
                        },
                        resolver,
                    }
                },
            }
        }
    }

    /// The state after the answer to a metadata request: the resolver takes
    /// it in, a failure leaving only that token out, and when no token is
    /// left the resolution is done. Outside the resolving phase nothing
    /// changes.
    pub open spec fn on_metadata(self, outcome: Option<TokenMetadataView>) -> Self {
        if !(self.phase is Resolving) {
            self
        } else {
            let resolver = self.resolver.accept(outcome);
            WhitelistResolverView {
                phase: if resolver.done() {
                    WhitelistPhase::Done
                } else {
                    WhitelistPhase::Resolving
                },
                resolver,
            }
        }
    }

    /// What the resolution came to: the table when it is done, the error
    /// when the whitelist could not be had, nothing while it is under way.
    pub open spec fn outcome(self) -> Option<
        Result<TableView<TokenMetadataView>, AggregationError>,
    > {
        match self.phase {
            WhitelistPhase::Done => Some(Ok(self.resolver.table)),
            WhitelistPhase::Failed(e) => Some(Err(e)),
            _ => None,
        }
    }

    pub proof fn lemma_on_whitelist_wf(self, whitelist: Result<Seq<Seq<char>>, AggregationError>)
        requires
            self.wf(),
        ensures
            self.on_whitelist(whitelist).wf(),
    {
        if let Ok(ids) = whitelist {
            self.resolver.lemma_want_all(ids);
        }
    }

    pub proof fn lemma_on_metadata_wf(self, outcome: Option<TokenMetadataView>)
        requires
            self.wf(),
        ensures
            self.on_metadata(outcome).wf(),
    {
        self.resolver.lemma_accept_wf(outcome);
    }

    /// A failing metadata call never gives the resolution up: whatever the
    /// answers to metadata requests are, the phase is not a failure after
    /// them unless it was one before.
    pub proof fn lemma_token_failures_are_not_fatal(self, outcome: Option<TokenMetadataView>)
        requires
            !(self.phase is Failed),
        ensures
            !(self.on_metadata(outcome).phase is Failed),
            outcome is None ==> self.on_metadata(outcome).resolver.table == self.resolver.table,
    {
    }
}

/// Resolves the metadata of the tokens that the exchange has whitelisted.
pub struct WhitelistResolver {
    phase: WhitelistPhase,
    resolver: TokenResolver,
}

impl View for WhitelistResolver {
    type V = WhitelistResolverView;

    closed spec fn view(&self) -> WhitelistResolverView {
        WhitelistResolverView { phase: self.phase, resolver: self.resolver@ }
    }
}

impl WhitelistResolver {
    /// Where the resolution stands.
    pub fn phase(&self) -> (phase: WhitelistPhase)
        ensures
            phase == self@.phase,
    {
        self.phase
    }

    /// The call to make next; none once the resolution is done or given up.
    pub fn next_request(&self) -> (request: Option<ViewRequest>)
        ensures
            match request {
                Some(r) => self@.request() == Some(r@),
                None => self@.request() is None,
            },
    {
        match self.phase {
            WhitelistPhase::Listing => Some(
                ViewRequest::new(
                    Contracts::RefExchange.value(),
                    Methods::WhitelistedTokens,
                    &ViewArgs::Empty,
                ),
            ),
            WhitelistPhase::Resolving => self.resolver.next_request(),
            WhitelistPhase::Done => None,
            WhitelistPhase::Failed(_) => None,
        }
    }

    /// Takes in the answer to the whitelist request.
    pub fn on_whitelist(&mut self, whitelist: Result<Vec<String>, AggregationError>)
        requires
            old(self)@.wf(),
        ensures
            final(self)@ == old(self)@.on_whitelist(whitelist_view(whitelist)),
            final(self)@.wf(),
    {
        proof {
            old(self)@.lemma_on_whitelist_wf(whitelist_view(whitelist));
        }
        match self.phase {
            WhitelistPhase::Listing => {},
            _ => {
                return ;
            },
        }
        match whitelist {
            Err(e) => {
                self.phase = WhitelistPhase::Failed(e);
            },
            Ok(ids) => {
                self.resolver.want_all(&ids);
                self.phase = if self.resolver.is_done() {
                    WhitelistPhase::Done
                } else {
                    WhitelistPhase::Resolving
                };
            },
        }
    }

    /// Takes in the answer to a metadata request.
    pub fn on_metadata(&mut self, outcome: Result<FungibleTokenMetadata, AggregationError>)
        requires
            old(self)@.wf(),
        ensures
            final(self)@ == old(self)@.on_metadata(resolved(outcome)),
            final(self)@.wf(),
    {
        proof {
            old(self)@.lemma_on_metadata_wf(resolved(outcome));
        }
        match self.phase {
            WhitelistPhase::Resolving => {},
            _ => {
                return ;
            },
        }
        self.resolver.accept(outcome);
        if self.resolver.is_done() {
            self.phase = WhitelistPhase::Done;
        }
    }

    /// Ends the resolution and hands out what it came to: the table when it
    /// is done, the error when the whitelist could not be had, nothing if it
    /// was still under way.
    pub fn into_outcome(self) -> (outcome: Option<Result<TokenTable, AggregationError>>)
        requires
            self@.wf(),
        ensures
            match outcome {
                Some(Ok(table)) => self@.outcome() == Some(
                    Ok::<TableView<TokenMetadataView>, AggregationError>(table@),
                ) && table@.wf(),
                Some(Err(e)) => self@.outcome() == Some(
                    Err::<TableView<TokenMetadataView>, AggregationError>(e),
                ),
                None => self@.outcome() is None,
            },
    {
        match self.phase {
            WhitelistPhase::Done => Some(Ok(self.resolver.into_table())),
            WhitelistPhase::Failed(e) => Some(Err(e)),
            _ => None,
        }
    }
}

/// Starts the resolution of the whitelisted tokens from the metadata in
/// `table`: what is held there is not fetched again.
pub fn get_whitelisted_tokens(table: TokenTable) -> (resolver: WhitelistResolver)
    requires
        table@.wf(),
    ensures
        resolver@ == WhitelistResolverView::start(table@),
        resolver@.wf(),
{
    WhitelistResolver { phase: WhitelistPhase::Listing, resolver: TokenResolver::new(table) }
}

} // verus!
