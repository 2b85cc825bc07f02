use vstd::prelude::*;

use crate::error::{CheckError, InputError, ValidationError};
use crate::graph_ref::{graph_ref_of, validate_subgraph, GraphRef};
use crate::period::{period_hours_of, ValidationPeriod};
use crate::schema::{parse_file_descriptor, resolve_schema_text, schema_text_of, SchemaSource};
use crate::threshold::{
    count_threshold_of, parse_query_count_threshold, parse_query_percentage_threshold,
    percentage_of, Percentage,
};

verus! {

/// The three tuning values of a check as mathematical values: the count
/// threshold, the percentage as whole part and fraction digits, and the
/// window in hours. `None` leaves the registry's default.
pub type ConfigView = (Option<int>, Option<(int, Seq<char>)>, Option<int>);

/// The characters of an optional text.
pub open spec fn opt_view(o: Option<&str>) -> Option<Seq<char>> {
    match o {
        Some(s) => Some(s@),
        None => None,
    }
}

/// The meaning of an optional count threshold text.
pub open spec fn opt_count_of(t: Option<Seq<char>>) -> Result<Option<int>, ValidationError> {
    match t {
        None => Ok(None),
        Some(s) => match count_threshold_of(s) {
            Ok(v) => Ok(Some(v)),
            Err(e) => Err(e),
        },
    }
}

/// The meaning of an optional percentage threshold text.
pub open spec fn opt_percentage_of(t: Option<Seq<char>>) -> Result<
    Option<(int, Seq<char>)>,
    ValidationError,
> {
    match t {
        None => Ok(None),
        Some(s) => match percentage_of(s) {
            Ok(v) => Ok(Some(v)),
            Err(e) => Err(e),
        },
    }
}

/// The meaning of an optional validation window text.
pub open spec fn opt_period_of(t: Option<Seq<char>>) -> Result<Option<int>, ValidationError> {
    match t {
        None => Ok(None),
        Some(s) => match period_hours_of(s) {
            Ok(v) => Ok(Some(v)),
            Err(e) => Err(e),
        },
    }
}

/// The configuration that three optional threshold texts give, or the first
/// error among them, in the order count, percentage, window.
pub open spec fn thresholds_of(
    count: Option<Seq<char>>,
    percentage: Option<Seq<char>>,
    window: Option<Seq<char>>,
) -> Result<ConfigView, ValidationError> {
    match opt_count_of(count) {
        Err(e) => Err(e),
        Ok(c) => match opt_percentage_of(percentage) {
            Err(e) => Err(e),
            Ok(p) => match opt_period_of(window) {
                Err(e) => Err(e),
                Ok(w) => Ok((c, p, w)),
            },
        },
    }
}

/// The tuning values sent with a check.
#[derive(Debug)]
pub struct CheckConfig {
    pub query_count_threshold: Option<i64>,
    pub query_percentage_threshold: Option<Percentage>,
    pub validation_period: Option<ValidationPeriod>,
}

impl CheckConfig {
    pub open spec fn view(&self) -> ConfigView {
        (
            match self.query_count_threshold {
                Some(c) => Some(c as int),
                None => None,
            },
            match self.query_percentage_threshold {
                Some(p) => Some(p.view()),
                None => None,
            },
            match self.validation_period {
                Some(w) => Some(w.view()),
                None => None,
            },
        )
    }

    /// A copy of the configuration.
    pub fn duplicate(&self) -> (r: CheckConfig)
        ensures
            r == *self,
    {
        let query_percentage_threshold = match &self.query_percentage_threshold {
            Some(p) => Some(p.duplicate()),
            None => None,
        };
        CheckConfig {
            query_count_threshold: self.query_count_threshold,
            query_percentage_threshold,
            validation_period: self.validation_period,
        }
    }
}

/// Validates the optional count, percentage and window texts of a check.
pub fn validate_thresholds(
    count: Option<&str>,
    percentage: Option<&str>,
    window: Option<&str>,
) -> (r: Result<CheckConfig, ValidationError>)
    ensures
        match r {
            Ok(c) => thresholds_of(opt_view(count), opt_view(percentage), opt_view(window))
                == Ok::<ConfigView, ValidationError>(c.view()) && (c.query_count_threshold is Some
                ==> c.query_count_threshold->Some_0 >= 0) && (c.query_percentage_threshold is Some
                ==> c.query_percentage_threshold->Some_0.wf()),
            Err(e) => thresholds_of(opt_view(count), opt_view(percentage), opt_view(window))
                == Err::<ConfigView, ValidationError>(e),
        },
{
    let query_count_threshold = match count {
        None => None,
        Some(s) => match parse_query_count_threshold(s) {
            Ok(v) => Some(v),
            Err(e) => return Err(e),
        },
    };
    let query_percentage_threshold = match percentage {
        None => None,
        Some(s) => match parse_query_percentage_threshold(s) {
            Ok(v) => Some(v),
            Err(e) => return Err(e),
        },
    };
    let validation_period = match window {
        None => None,
        Some(s) => match ValidationPeriod::parse(s) {
            Ok(v) => Some(v),
            Err(e) => return Err(e),
        },
    };
    Ok(CheckConfig { query_count_threshold, query_percentage_threshold, validation_period })
}

/// Facts about the repository and commit a check is run from, sent with
/// the check as they are.
#[derive(Debug)]
pub struct GitContext {
    pub branch: Option<String>,
    pub author: Option<String>,
    pub commit: Option<String>,
    pub remote_url: Option<String>,
}

/// Everything the registry is sent to check a proposed subgraph schema.
#[derive(Debug)]
pub struct CheckRequest {
    pub graph_ref: GraphRef,
    pub subgraph: String,
    pub proposed_schema: String,
    pub git_context: GitContext,
    pub config: CheckConfig,
}

/// The one remote operation that a check asks for.
#[derive(Debug)]
pub enum RemoteCheck {
    /// Run the check and wait for its result.
    Sync(CheckRequest),
    /// Start the check and return a handle to it.
    Async(CheckRequest),
}

impl RemoteCheck {
    /// Whether the operation is the asynchronous one.
    pub fn is_async(&self) -> (r: bool)
        ensures
            r == (self is Async),
    {
        match self {
            RemoteCheck::Sync(_) => false,
            RemoteCheck::Async(_) => true,
        }
    }

    /// The request that the operation sends.
    pub fn request(&self) -> (r: &CheckRequest)
        ensures
            *r == match *self {
                RemoteCheck::Sync(q) => q,
                RemoteCheck::Async(q) => q,
            },
    {
        match self {
            RemoteCheck::Sync(q) => q,
            RemoteCheck::Async(q) => q,
        }
    }
}

/// The operation chosen for a request: the asynchronous one exactly when
/// asked for.
pub open spec fn dispatch_of(request: CheckRequest, asynchronous: bool) -> RemoteCheck {
    if asynchronous {
        RemoteCheck::Async(request)
    } else {
        RemoteCheck::Sync(request)
    }
}

/// Chooses the remote operation for a request.
pub fn dispatch(request: CheckRequest, asynchronous: bool) -> (r: RemoteCheck)
    ensures
        r == dispatch_of(request, asynchronous),
{
    if asynchronous {
        RemoteCheck::Async(request)
    } else {
        RemoteCheck::Sync(request)
    }
}

/// What the registry reports for a check that ran to its end.
#[derive(Debug)]
pub struct CheckResponse {
    /// Whether the proposed schema passed.
    pub passed: bool,
    /// How many operations were checked against it.
    pub operation_check_count: u64,
    /// How many problems were found.
    pub failure_count: u64,
    /// Where the full report can be seen, if anywhere.
    pub target_url: Option<String>,
}

/// What the registry reports for a check that it started.
#[derive(Debug)]
pub struct AsyncCheckResponse {
    /// The handle by which the running check can be followed.
    pub workflow_id: String,
    /// Where the check can be followed, if anywhere.
    pub target_url: Option<String>,
}

/// What a remote operation answered.
#[derive(Debug)]
pub enum RemoteReply {
    Sync(CheckResponse),
    Async(AsyncCheckResponse),
}

/// The result of a check, in the shape of the operation that was run.
#[derive(Debug)]
pub enum CheckOutcome {
    CheckResponse(CheckResponse),
    AsyncCheckResponse(AsyncCheckResponse),
}

/// The outcome for an answer to an operation of the given mode, or `None`
/// where the answer is of the other mode.
pub open spec fn outcome_of(asynchronous: bool, reply: RemoteReply) -> Option<CheckOutcome> {
    match reply {
        RemoteReply::Sync(x) => if asynchronous {
            None
        } else {
            Some(CheckOutcome::CheckResponse(x))
        },
        RemoteReply::Async(x) => if asynchronous {
            Some(CheckOutcome::AsyncCheckResponse(x))
        } else {
            None
        },
    }
}

/// Wraps the answer to a remote operation as the outcome of the check. A
/// failed call is passed on as a transport error; an answer of the other
/// mode is refused as one.
pub fn complete(call: &RemoteCheck, reply: Result<RemoteReply, String>) -> (r: Result<
    CheckOutcome,
    CheckError,
>)
    ensures
        match reply {
            Err(m) => r == Err::<CheckOutcome, CheckError>(CheckError::Transport(m)),
            Ok(x) => match outcome_of(call is Async, x) {
                Some(o) => r == Ok::<CheckOutcome, CheckError>(o),
                None => r is Err && r->Err_0 is Transport,
            },
        },
{
    let asynchronous = call.is_async();
    match reply {
        Err(m) => Err(CheckError::Transport(m)),
        Ok(RemoteReply::Sync(x)) => if asynchronous {
            Err(CheckError::Transport("an asynchronous check was answered with a result".to_owned()))
        } else {
            Ok(CheckOutcome::CheckResponse(x))
        },
        Ok(RemoteReply::Async(x)) => if asynchronous {
            Ok(CheckOutcome::AsyncCheckResponse(x))
        } else {
            Err(CheckError::Transport("a synchronous check was answered with a handle".to_owned()))
        },
    }
}

/// The outcome of a check is always of the mode that was asked for: the
/// chosen operation is the asynchronous one exactly when asked, and an answer
/// only becomes an outcome of that same mode.
pub proof fn lemma_outcome_follows_mode(
    request: CheckRequest,
    asynchronous: bool,
    reply: RemoteReply,
)
    ensures
        (dispatch_of(request, asynchronous) is Async) == asynchronous,
        match outcome_of(dispatch_of(request, asynchronous) is Async, reply) {
            Some(o) => (o is AsyncCheckResponse) == asynchronous,
            None => true,
        },
{
}

/// A check's arguments, validated: the graph name and variant, and the
/// tuning values; or the first error, in the order graph reference,
/// subgraph name, thresholds.
pub open spec fn check_args_of(
    graph: Seq<char>,
    subgraph: Seq<char>,
    count: Option<Seq<char>>,
    percentage: Option<Seq<char>>,
    window: Option<Seq<char>>,
) -> Result<((Seq<char>, Seq<char>), ConfigView), ValidationError> {
    match graph_ref_of(graph) {
        Err(e) => Err(e),
        Ok(g) => if subgraph.len() == 0 {
            Err(ValidationError::EmptySubgraph)
        } else {
            match thresholds_of(count, percentage, window) {
                Err(e) => Err(e),
                Ok(c) => Ok((g, c)),
            }
        },
    }
}

/// Checks a proposed schema for one subgraph against a graph in the
/// registry.
#[derive(Debug)]
pub struct Check {
    /// The graph and variant to check against.
    pub graph: GraphRef,
    /// The subgraph whose schema is proposed.
    pub subgraph: String,
    /// The configuration profile whose credentials are used.
    pub profile_name: String,
    /// Where the proposed schema is read from.
    pub schema: SchemaSource,
    /// The tuning values of the check.
    pub config: CheckConfig,
    /// Whether to start the check and return a handle instead of waiting.
    pub asynchronous: bool,
}

/// Whether the check's count threshold, if any, is below zero.
pub open spec fn has_negative_count(check: Check) -> bool {
    check.config.query_count_threshold is Some && check.config.query_count_threshold->Some_0 < 0
}

/// Whether the check's percentage threshold, if any, fails to be a decimal
/// in `0 ..= 100`.
pub open spec fn has_bad_percentage(check: Check) -> bool {
    check.config.query_percentage_threshold is Some
        && !check.config.query_percentage_threshold->Some_0.wf()
}

/// The first rule that the check's values break, if any: the graph
/// reference, the subgraph name, the count threshold, the percentage
/// threshold, in that order.
pub open spec fn check_refusal(check: Check) -> Option<ValidationError> {
    if !check.graph.wf() {
        Some(ValidationError::InvalidGraphRef)
    } else if check.subgraph@.len() == 0 {
        Some(ValidationError::EmptySubgraph)
    } else if has_negative_count(check) {
        Some(ValidationError::NegativeCount)
    } else if has_bad_percentage(check) {
        Some(ValidationError::PercentageOutOfRange)
    } else {
        None
    }
}

/// What running a check asks for, given what reading its schema source
/// gave: the read error; else the first rule that the check's values break;
/// or else the one remote operation of the chosen mode with the check's
/// values, the schema text and the git context.
pub open spec fn run_of(check: Check, read: Result<String, InputError>, git_context: GitContext) -> Result<
    RemoteCheck,
    CheckError,
> {
    match schema_text_of(read) {
        Err(e) => Err(CheckError::Input(e)),
        Ok(text) => match check_refusal(check) {
            Some(e) => Err(CheckError::Validation(e)),
            None => Ok(
                dispatch_of(
                    CheckRequest {
                        graph_ref: check.graph,
                        subgraph: check.subgraph,
                        proposed_schema: text,
                        git_context,
                        config: check.config,
                    },
                    check.asynchronous,
                ),
            ),
        },
    }
}

impl Check {
    /// Builds a check from its command-line texts.
    pub fn new(
        graph: &str,
        subgraph: &str,
        profile_name: &str,
        schema: &str,
        query_count_threshold: Option<&str>,
        query_percentage_threshold: Option<&str>,
        validation_period: Option<&str>,
        asynchronous: bool,
    ) -> (r: Result<Check, ValidationError>)
        ensures
            match r {
                Ok(c) => check_args_of(
                    graph@,
                    subgraph@,
                    opt_view(query_count_threshold),
                    opt_view(query_percentage_threshold),
                    opt_view(validation_period),
                ) == Ok::<((Seq<char>, Seq<char>), ConfigView), ValidationError>(
                    (c.graph.view(), c.config.view()),
                ) && c.graph.wf() && c.subgraph@ == subgraph@ && c.profile_name@ == profile_name@
                    && (schema@ == seq!['-'] ==> c.schema is Stdin) && (schema@ != seq!['-']
                    ==> c.schema is File && c.schema->File_0@ == schema@) && c.asynchronous
                    == asynchronous && check_refusal(c) is None,
                Err(e) => check_args_of(
                    graph@,
                    subgraph@,
                    opt_view(query_count_threshold),
                    opt_view(query_percentage_threshold),
                    opt_view(validation_period),
                ) == Err::<((Seq<char>, Seq<char>), ConfigView), ValidationError>(e),
            },
    {
        let graph = GraphRef::parse(graph)?;
        let subgraph = validate_subgraph(subgraph)?;
        let config = validate_thresholds(
            query_count_threshold,
            query_percentage_threshold,
            validation_period,
        )?;
        Ok(Check {
            graph,
            subgraph,
            profile_name: profile_name.to_owned(),
            schema: parse_file_descriptor(schema),
            config,
            asynchronous,
        })
    }

    /// The line announced before the check is sent.
    pub fn progress_line(&self) -> (r: String)
        ensures
            r@ == "Checking the proposed schema for subgraph "@ + self.subgraph@ + " against "@
                + self.graph.view().0 + seq!['@'] + self.graph.view().1,
    {
        let mut r = "Checking the proposed schema for subgraph ".to_owned();
        r.append(self.subgraph.as_str());
        r.append(" against ");
        let g = self.graph.to_text();
        r.append(g.as_str());
        r
    }

    /// The first rule that the check's values break, if any.
    pub fn refusal(&self) -> (r: Option<ValidationError>)
        ensures
            r == check_refusal(*self),
    {
        if !self.graph.is_valid() {
            return Some(ValidationError::InvalidGraphRef);
        }
        if self.subgraph.as_str().unicode_len() == 0 {
            return Some(ValidationError::EmptySubgraph);
        }
        if let Some(n) = self.config.query_count_threshold {
            if n < 0 {
                return Some(ValidationError::NegativeCount);
            }
        }
        if let Some(p) = &self.config.query_percentage_threshold {
            if !p.in_range() {
                return Some(ValidationError::PercentageOutOfRange);
            }
        }
        None
    }

    /// Assembles the request from the check, the text read from its schema
    /// source and the git context, and chooses the remote operation.
    pub fn run(&self, schema_read: Result<String, InputError>, git_context: GitContext) -> (r:
        Result<RemoteCheck, CheckError>)
        ensures
            r == run_of(*self, schema_read, git_context),
    {
        let proposed_schema = match resolve_schema_text(schema_read) {
            Ok(text) => text,
            Err(e) => return Err(CheckError::Input(e)),
        };
        if let Some(e) = self.refusal() {
            return Err(CheckError::Validation(e));
        }
        let request = CheckRequest {
            graph_ref: self.graph.duplicate(),
            subgraph: self.subgraph.clone(),
            proposed_schema,
            git_context,
            config: self.config.duplicate(),
        };
        Ok(dispatch(request, self.asynchronous))
    }
}

/// A schema source that cannot be read, a missing file among them, ends the
/// check with that input error before any remote operation is chosen.
pub proof fn lemma_unreadable_schema_sends_nothing(
    check: Check,
    error: InputError,
    git_context: GitContext,
)
    ensures
        run_of(check, Err(error), git_context) == Err::<RemoteCheck, CheckError>(
            CheckError::Input(error),
        ),
{
}

/// A count threshold below zero ends the check with a validation error
/// before any remote operation is chosen, once the schema text is read and
/// the graph reference and subgraph name are valid.
pub proof fn lemma_negative_count_sends_nothing(
    check: Check,
    read: Result<String, InputError>,
    git_context: GitContext,
)
    requires
        has_negative_count(check),
    ensures
        run_of(check, read, git_context) is Err,
        schema_text_of(read) is Ok && check.graph.wf() && check.subgraph@.len() > 0 ==> run_of(
            check,
            read,
            git_context,
        ) == Err::<RemoteCheck, CheckError>(
            CheckError::Validation(ValidationError::NegativeCount),
        ),
{
}

/// A percentage threshold that is not a decimal in `0 ..= 100` ends the
/// check with a validation error before any remote operation is chosen, once
/// the schema text is read and the rules before it hold.
pub proof fn lemma_bad_percentage_sends_nothing(
    check: Check,
    read: Result<String, InputError>,
    git_context: GitContext,
)
    requires
        has_bad_percentage(check),
    ensures
        run_of(check, read, git_context) is Err,
        schema_text_of(read) is Ok && check.graph.wf() && check.subgraph@.len() > 0
            && !has_negative_count(check) ==> run_of(check, read, git_context) == Err::<
            RemoteCheck,
            CheckError,
        >(CheckError::Validation(ValidationError::PercentageOutOfRange)),
{
}

/// An empty subgraph name ends the check with a validation error before any
/// remote operation is chosen.
pub proof fn lemma_empty_subgraph_sends_nothing(
    check: Check,
    read: Result<String, InputError>,
    git_context: GitContext,
)
    requires
        check.subgraph@.len() == 0,
    ensures
        run_of(check, read, git_context) is Err,
        schema_text_of(read) is Ok && check.graph.wf() ==> run_of(check, read, git_context)
            == Err::<RemoteCheck, CheckError>(
            CheckError::Validation(ValidationError::EmptySubgraph),
        ),
{
}

/// A check whose values break no rule, given a non-empty schema text, asks
/// for exactly one remote operation: the asynchronous one exactly when the
/// check is asynchronous, carrying the check's graph, subgraph, count,
/// percentage and window unchanged (an absent value stays absent), the
/// schema text as read and the git context.
pub proof fn lemma_valid_check_sends_its_values(
    check: Check,
    text: String,
    git_context: GitContext,
)
    requires
        text@.len() > 0,
        check_refusal(check) is None,
    ensures
        run_of(check, Ok(text), git_context) is Ok,
        (run_of(check, Ok(text), git_context)->Ok_0 is Async) == check.asynchronous,
        run_of(check, Ok(text), git_context)->Ok_0 == dispatch_of(
            CheckRequest {
                graph_ref: check.graph,
                subgraph: check.subgraph,
                proposed_schema: text,
                git_context,
                config: check.config,
            },
            check.asynchronous,
        ),
        match run_of(check, Ok(text), git_context)->Ok_0 {
            RemoteCheck::Sync(q) => q.proposed_schema == text && q.config == check.config
                && q.config.view() == check.config.view(),
            RemoteCheck::Async(q) => q.proposed_schema == text && q.config == check.config
                && q.config.view() == check.config.view(),
        },
{
}

/// The outcome of a valid check with a non-empty schema text has the mode
/// the check asked for, whatever reply of that mode comes back; a failed
/// call is passed on as a transport error.
pub proof fn lemma_check_outcome_has_requested_mode(
    check: Check,
    text: String,
    git_context: GitContext,
    reply: RemoteReply,
)
    requires
        text@.len() > 0,
        check_refusal(check) is None,
        (reply is Async) == check.asynchronous,
    ensures
        outcome_of(run_of(check, Ok(text), git_context)->Ok_0 is Async, reply) is Some,
        (outcome_of(run_of(check, Ok(text), git_context)->Ok_0 is Async, reply)->Some_0
            is AsyncCheckResponse) == check.asynchronous,
{
}

} // verus!
