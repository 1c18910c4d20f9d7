//! Handle wrappers for the engine: context, store, evaluator state, value.
//!
//! The context owns the engine's error channel; every other handle is opened
//! against it and must be released before it.  The context keeps a count of
//! the handles derived from it, releasing a handle gives the count back, and
//! releasing the context itself demands that the count is zero — so a
//! teardown that drops the context too early does not verify.

use vstd::prelude::*;
use vstd::string::StringExecFns;

use crate::expr::Atom;
use crate::expr::AtomModel;
use crate::expr::EvalOut;
use crate::expr::ForceOutcome;
use crate::expr::ForceResult;
use crate::expr::ForcedVal;
use crate::expr::ValModel;
use crate::expr::atoms_ok;
use crate::expr::display_val;
use crate::expr::eval_model;
use crate::expr::force_atoms;
use crate::expr::lemma_force_nonneg;
use crate::expr::lemma_parse_atoms_ok;
use crate::expr::overflow_msg;
use crate::expr::parse_err_msg;
use crate::expr::parse_err_msg_str;
use crate::expr::parse_expr;
use crate::expr::spec_display;
use crate::expr::spec_force;
use crate::expr::spec_parse;
use crate::expr::type_err_msg;
use crate::expr::undef_msg;
use crate::expr::undef_msg_str;

verus! {

/// Status code for an engine operation that succeeded.
pub const NIX_OK: i32 = 0;

/// Status code for an engine operation that failed and left a diagnostic in
/// the context's error slot.
pub const NIX_ERR: i32 = 1;

/// Which handle an allocation failure was for.
#[derive(Debug, Clone, Copy, PartialEq, Eq, Structural)]
pub enum HandleKind {
    Context,
    Store,
    State,
    Value,
}

/// Everything that can go wrong between the entry point and the engine.
#[derive(Debug)]
pub enum NixError {
    /// The engine handed back no handle; for every handle but the context a
    /// diagnostic is available through the error channel.
    HandleCreationFailed { which: HandleKind, message: String },
    /// The expression subsystem would not initialize.
    InitializationFailed { message: String },
    /// The expression text would not parse or bind.
    ExprEvalFailed { message: String },
    /// Forcing the bound expression raised an evaluation error.
    ForceFailed { message: String },
    /// The command line was not one of the accepted shapes.
    ArgumentError { message: String },
}

impl NixError {
    /// The diagnostic text carried by the error, whichever variant it is.
    pub open spec fn spec_message(&self) -> Seq<char> {
        match self {
            NixError::HandleCreationFailed { message, .. } => message@,
            NixError::InitializationFailed { message } => message@,
            NixError::ExprEvalFailed { message } => message@,
            NixError::ForceFailed { message } => message@,
            NixError::ArgumentError { message } => message@,
        }
    }

    /// The diagnostic text, for printing by an unverified caller.
    pub fn message(&self) -> (r: String)
        ensures
            r@ == self.spec_message(),
    {
        match self {
            NixError::HandleCreationFailed { message, .. } => message.clone(),
            NixError::InitializationFailed { message } => message.clone(),
            NixError::ExprEvalFailed { message } => message.clone(),
            NixError::ForceFailed { message } => message.clone(),
            NixError::ArgumentError { message } => message.clone(),
        }
    }
}

/// The engine's top-level handle: the error channel every other handle
/// reports through, plus the count of handles still derived from it.
pub struct NixContext {
    initialized: bool,
    error_slot: Option<String>,
    live_stores: u32,
    live_states: u32,
    live_values: u32,
}

impl NixContext {
    /// Whether the expression subsystem has been initialized on this context.
    pub closed spec fn spec_initialized(&self) -> bool {
        self.initialized
    }

    /// Live stores opened against this context.
    pub closed spec fn stores(&self) -> int {
        self.live_stores as int
    }

    /// Live evaluator states created against this context.
    pub closed spec fn states(&self) -> int {
        self.live_states as int
    }

    /// Live value slots allocated against this context.
    pub closed spec fn values(&self) -> int {
        self.live_values as int
    }

    /// Every live handle derived from this context.
    pub open spec fn derived(&self) -> int {
        self.stores() + self.states() + self.values()
    }

    /// The diagnostic in the error slot; a fixed text when nothing failed
    /// yet, since the engine always hands back some message.
    pub closed spec fn error_text(&self) -> Seq<char> {
        match self.error_slot {
            Some(m) => m@,
            None => "unknown error"@,
        }
    }

    /// Allocates the engine context.  The model engine always yields one;
    /// the error taxonomy still has `HandleCreationFailed { Context }` for
    /// an engine that does not.
    pub fn new() -> (r: Result<NixContext, NixError>)
        ensures
            r matches Ok(c) && !c.spec_initialized() && c.stores() == 0 && c.states() == 0
                && c.values() == 0,
    {
        Ok(
            NixContext {
                initialized: false,
                error_slot: None,
                live_stores: 0,
                live_states: 0,
                live_values: 0,
            },
        )
    }

    /// How many derived handles are still alive, for callers that track
    /// their own teardown.
    pub fn live_handles(&self) -> (n: u64)
        ensures
            n == self.derived(),
    {
        self.live_stores as u64 + self.live_states as u64 + self.live_values as u64
    }

    /// Whether the expression subsystem has been initialized.
    pub fn is_initialized(&self) -> (b: bool)
        ensures
            b == self.spec_initialized(),
    {
        self.initialized
    }

    /// Frees the engine context.  Consuming the handle makes a second
    /// release unrepresentable, and the precondition keeps the context alive
    /// until every store, state and value derived from it is gone — they
    /// borrow the context to report errors during their own teardown.
    pub fn release(self)
        requires
            self.derived() == 0,
    {
    }
}

/// Reads the engine's last diagnostic for this context.
pub fn err_msg(ctx: &NixContext) -> (r: String)
    ensures
        r@ == ctx.error_text(),
{
    match &ctx.error_slot {
        Some(m) => m.clone(),
        None => String::from_str("unknown error"),
    }
}

/// The error channel: classifies a status code, and on failure fetches the
/// diagnostic at once — the slot is last-write-wins, so retrieval must not
/// be deferred past the next engine call.
pub fn check_err(ctx: &NixContext, err: i32) -> (r: Result<(), String>)
    ensures
        r is Ok <==> err == NIX_OK,
        r matches Err(m) ==> m@ == ctx.error_text(),
{
    if err != NIX_OK {
        Err(err_msg(ctx))
    } else {
        Ok(())
    }
}

/// One-time initialization of the expression subsystem.  The engine
/// primitive is idempotent; the model keeps that.
fn engine_libexpr_init(ctx: &mut NixContext) -> (code: i32)
    ensures
        code == NIX_OK,
        final(ctx).spec_initialized(),
        final(ctx).stores() == old(ctx).stores(),
        final(ctx).states() == old(ctx).states(),
        final(ctx).values() == old(ctx).values(),
        final(ctx).error_text() == old(ctx).error_text(),
{
    ctx.initialized = true;
    NIX_OK
}

/// Proof that the expression subsystem was initialized on some context;
/// required before an evaluator state can be created.  Only successful
/// initialization yields one.
#[derive(Debug)]
pub struct NixInitGuard {
    _private: (),
}

impl NixInitGuard {
    /// Initializes the expression subsystem against the context and checks
    /// the status through the error channel.
    pub fn new(ctx: &mut NixContext) -> (r: Result<NixInitGuard, NixError>)
        ensures
            r is Ok,
            final(ctx).spec_initialized(),
            final(ctx).stores() == old(ctx).stores(),
            final(ctx).states() == old(ctx).states(),
            final(ctx).values() == old(ctx).values(),
            final(ctx).error_text() == old(ctx).error_text(),
    {
        let code = engine_libexpr_init(ctx);
        match check_err(ctx, code) {
            Ok(()) => Ok(NixInitGuard { _private: () }),
            Err(m) => Err(NixError::InitializationFailed { message: m }),
        }
    }
}

/// The store backends a store handle can be opened on.
#[derive(Debug, Clone)]
pub enum NixStoreType {
    /// In-memory store without persistence.
    Dummy,
    /// The engine's own default resolution.
    Auto,
    /// A filesystem location.
    Path(String),
    /// A running store daemon.
    Daemon,
    /// An explicit local store.
    Local,
}

impl NixStoreType {
    /// The URL-style descriptor the engine is handed for this backend.
    pub open spec fn spec_descriptor(&self) -> Seq<char> {
        match self {
            NixStoreType::Dummy => "dummy://"@,
            NixStoreType::Auto => "auto"@,
            NixStoreType::Path(p) => p@,
            NixStoreType::Daemon => "daemon"@,
            NixStoreType::Local => "local"@,
        }
    }

    /// Renders the descriptor string.
    pub fn descriptor(&self) -> (r: String)
        ensures
            r@ == self.spec_descriptor(),
    {
        match self {
            NixStoreType::Dummy => String::from_str("dummy://"),
            NixStoreType::Auto => String::from_str("auto"),
            NixStoreType::Path(p) => p.clone(),
            NixStoreType::Daemon => String::from_str("daemon"),
            NixStoreType::Local => String::from_str("local"),
        }
    }
}

/// Whether the descriptor carries a `scheme://` separator somewhere.
pub open spec fn has_scheme_sep(u: Seq<char>) -> bool {
    exists|k: int| 0 <= k && k + 3 <= u.len() && #[trigger] u.subrange(k, k + 3) == "://"@
}

/// The descriptors the model engine accepts: the named backends, and any
/// plain path — a descriptor with an unrecognized `scheme://` is refused.
pub open spec fn store_url_ok(u: Seq<char>) -> bool {
    u == "dummy://"@ || u == "auto"@ || u == "daemon"@ || u == "local"@ || !has_scheme_sep(u)
}

/// The diagnostic the engine leaves for a refused store descriptor.
pub open spec fn store_err_msg(u: Seq<char>) -> Seq<char> {
    "could not open store '"@ + u + "': unrecognized store URL"@
}

fn url_has_scheme_sep(u: &str) -> (b: bool)
    ensures
        b == has_scheme_sep(u@),
{
    let v = crate::expr::to_chars(u);
    proof {
        reveal_strlit("://");
    }
    if v.len() < 3 {
        proof {
            if has_scheme_sep(u@) {
                let k = choose|k: int|
                    0 <= k && k + 3 <= u@.len() && #[trigger] u@.subrange(k, k + 3) == "://"@;
                assert(false);
            }
        }
        return false;
    }
    let mut i: usize = 0;
    while i <= v.len() - 3
        invariant
            v@ == u@,
            v.len() >= 3,
            i <= v.len(),
            forall|m: int| 0 <= m < i ==> #[trigger] u@.subrange(m, m + 3) != "://"@,
        decreases v.len() - i,
    {
        if v[i] == ':' && v[i + 1] == '/' && v[i + 2] == '/' {
            proof {
                reveal_strlit("://");
                assert(u@.subrange(i as int, i + 3) =~= "://"@);
            }
            return true;
        }
        proof {
            reveal_strlit("://");
            if u@.subrange(i as int, i + 3) == "://"@ {
                assert(u@.subrange(i as int, i + 3)[0] == u@[i as int]);
                assert(u@.subrange(i as int, i + 3)[1] == u@[i as int + 1]);
                assert(u@.subrange(i as int, i + 3)[2] == u@[i as int + 2]);
                assert(false);
            }
        }
        i = i + 1;
    }
    proof {
        if has_scheme_sep(u@) {
            let k = choose|k: int|
                0 <= k && k + 3 <= u@.len() && #[trigger] u@.subrange(k, k + 3) == "://"@;
            assert(u@.subrange(k, k + 3) != "://"@);
        }
    }
    false
}

fn string_eq_lit(a: &String, lit: &str) -> (b: bool)
    ensures
        b == (a@ == lit@),
{
    let l = String::from_str(lit);
    a.eq(&l)
}

fn store_url_valid(u: &String) -> (b: bool)
    ensures
        b == store_url_ok(u@),
{
    if string_eq_lit(u, "dummy://") || string_eq_lit(u, "auto") || string_eq_lit(u, "daemon")
        || string_eq_lit(u, "local") {
        true
    } else {
        !url_has_scheme_sep(u.as_str())
    }
}

fn store_err_msg_str(u: &String) -> (r: String)
    ensures
        r@ == store_err_msg(u@),
{
    let mut s = String::from_str("could not open store '");
    s.append(u.as_str());
    s.append("': unrecognized store URL");
    s
}

/// A connection to one store backend, opened against a context.
#[derive(Debug)]
pub struct NixStore {
    url: String,
}

impl NixStore {
    /// The descriptor this store was opened on.
    pub closed spec fn spec_url(&self) -> Seq<char> {
        self.url@
    }

    /// Opens a store.  Succeeds exactly on the descriptors the engine
    /// recognizes; otherwise the diagnostic is left in the context's error
    /// slot and fetched into the error, as for any refused handle.
    pub fn new(ctx: &mut NixContext, store_type: NixStoreType) -> (r: Result<NixStore, NixError>)
        requires
            old(ctx).stores() < u32::MAX,
        ensures
            final(ctx).spec_initialized() == old(ctx).spec_initialized(),
            final(ctx).states() == old(ctx).states(),
            final(ctx).values() == old(ctx).values(),
            match r {
                Ok(st) => store_url_ok(store_type.spec_descriptor()) && st.spec_url()
                    == store_type.spec_descriptor() && final(ctx).stores() == old(ctx).stores() + 1
                    && final(ctx).error_text() == old(ctx).error_text(),
                Err(e) => {
                    &&& !store_url_ok(store_type.spec_descriptor())
                    &&& final(ctx).stores() == old(ctx).stores()
                    &&& match e {
                        NixError::HandleCreationFailed { which, message } => which
                            == HandleKind::Store && message@ == store_err_msg(
                            store_type.spec_descriptor(),
                        ),
                        _ => false,
                    }
                    &&& final(ctx).error_text() == store_err_msg(store_type.spec_descriptor())
                },
            },
    {
        let url = store_type.descriptor();
        if store_url_valid(&url) {
            ctx.live_stores = ctx.live_stores + 1;
            Ok(NixStore { url })
        } else {
            let msg = store_err_msg_str(&url);
            ctx.error_slot = Some(msg.clone());
            Err(NixError::HandleCreationFailed { which: HandleKind::Store, message: msg })
        }
    }

    /// Releases the store's reference.  Consuming the handle makes a second
    /// release unrepresentable; the context outlives the call by the borrow.
    pub fn release(self, ctx: &mut NixContext)
        requires
            old(ctx).stores() > 0,
        ensures
            final(ctx).stores() == old(ctx).stores() - 1,
            final(ctx).states() == old(ctx).states(),
            final(ctx).values() == old(ctx).values(),
            final(ctx).spec_initialized() == old(ctx).spec_initialized(),
            final(ctx).error_text() == old(ctx).error_text(),
    {
        ctx.live_stores = ctx.live_stores - 1;
    }
}

/// Every named store backend maps to a descriptor the engine accepts, and
/// so does every path free of a scheme separator — so opening any of the
/// named backends against a live context succeeds.
pub proof fn lemma_store_descriptors_accepted()
    ensures
        store_url_ok(NixStoreType::Dummy.spec_descriptor()),
        store_url_ok(NixStoreType::Auto.spec_descriptor()),
        store_url_ok(NixStoreType::Daemon.spec_descriptor()),
        store_url_ok(NixStoreType::Local.spec_descriptor()),
        forall|u: Seq<char>| !has_scheme_sep(u) ==> #[trigger] store_url_ok(u),
{
}

/// An evaluator state bound to one store and one context.
#[derive(Debug)]
pub struct NixState {
    guard: NixInitGuard,
}

impl NixState {
    /// Creates the evaluator state.  It needs a live store, and consumes the
    /// initialization guard by value: a state cannot exist without the
    /// subsystem it depends on having been initialized.
    pub fn new(ctx: &mut NixContext, store: &mut NixStore, init_guard: NixInitGuard) -> (r: Result<
        NixState,
        NixError,
    >)
        requires
            old(ctx).states() < u32::MAX,
        ensures
            r is Ok,
            final(ctx).states() == old(ctx).states() + 1,
            final(ctx).stores() == old(ctx).stores(),
            final(ctx).values() == old(ctx).values(),
            final(ctx).spec_initialized() == old(ctx).spec_initialized(),
            final(ctx).error_text() == old(ctx).error_text(),
    {
        ctx.live_states = ctx.live_states + 1;
        Ok(NixState { guard: init_guard })
    }

    /// Releases the evaluator state; it must go before its store and its
    /// context.  Consuming the handle makes a second release
    /// unrepresentable.
    pub fn release(self, ctx: &mut NixContext)
        requires
            old(ctx).states() > 0,
        ensures
            final(ctx).states() == old(ctx).states() - 1,
            final(ctx).stores() == old(ctx).stores(),
            final(ctx).values() == old(ctx).values(),
            final(ctx).spec_initialized() == old(ctx).spec_initialized(),
            final(ctx).error_text() == old(ctx).error_text(),
    {
        ctx.live_states = ctx.live_states - 1;
    }
}

/// Phase of a value slot that is allocated but holds nothing yet.
#[derive(Debug, Clone, Copy, PartialEq, Eq, Structural)]
pub struct ValueInit;

/// Phase of a value slot whose expression has been bound.
#[derive(Debug, Clone, Copy, PartialEq, Eq, Structural)]
pub struct ValueReady;

/// The phases a value slot can be in.
pub trait NixValueState {

}

impl NixValueState for ValueInit {

}

impl NixValueState for ValueReady {

}

/// The engine-reported type of a bound value: known at once for a literal,
/// `Thunk` until a chain or an identifier is forced.
#[derive(Debug, Clone, Copy, PartialEq, Eq, Structural)]
pub enum ValueType {
    Str,
    Int,
    Bool,
    Thunk,
}

/// What a value slot holds.
#[derive(Debug)]
enum SlotContent {
    Empty,
    Lazy(Vec<Atom>),
    Forced(ForcedVal),
}

/// The mathematical shape of a value slot's contents.
pub enum SlotModel {
    Empty,
    Lazy(Seq<AtomModel>),
    Forced(ValModel),
}

impl View for SlotContent {
    type V = SlotModel;

    closed spec fn view(&self) -> SlotModel {
        match self {
            SlotContent::Empty => SlotModel::Empty,
            SlotContent::Lazy(e) => SlotModel::Lazy(e.deep_view()),
            SlotContent::Forced(v) => SlotModel::Forced(v@),
        }
    }
}

/// The type tag known at binding time: a single literal shows its type,
/// anything lazier stays a thunk until it is forced.
pub open spec fn static_tag(atoms: Seq<AtomModel>) -> ValueType {
    if atoms.len() == 1 {
        match atoms[0] {
            AtomModel::Int(_) => ValueType::Int,
            AtomModel::Str(_) => ValueType::Str,
            AtomModel::Bool(_) => ValueType::Bool,
            AtomModel::Var(_) => ValueType::Thunk,
        }
    } else {
        ValueType::Thunk
    }
}

/// The type tag of a forced value.
pub open spec fn tag_of(v: ValModel) -> ValueType {
    match v {
        ValModel::Int(_) => ValueType::Int,
        ValModel::Str(_) => ValueType::Str,
        ValModel::Bool(_) => ValueType::Bool,
    }
}

/// One allocated value slot, typestated by its phase: forcing and display
/// exist only on the ready phase, so neither can even be written against an
/// unassigned slot.
#[derive(Debug)]
pub struct NixValue<S: NixValueState> {
    content: SlotContent,
    eval_state: S,
    value_type: Option<ValueType>,
}

impl<S: NixValueState> NixValue<S> {
    /// The slot's contents, as a model.
    pub closed spec fn model(&self) -> SlotModel {
        self.content@
    }

    /// The type tag, where one is known yet.
    pub closed spec fn spec_tag(&self) -> Option<ValueType> {
        self.value_type
    }

    /// Releases the slot's engine reference.  Defined for every phase — a
    /// slot that was never assigned must still be released — and consuming
    /// the handle makes a second release unrepresentable.
    pub fn release(self, ctx: &mut NixContext)
        requires
            old(ctx).values() > 0,
        ensures
            final(ctx).values() == old(ctx).values() - 1,
            final(ctx).stores() == old(ctx).stores(),
            final(ctx).states() == old(ctx).states(),
            final(ctx).spec_initialized() == old(ctx).spec_initialized(),
            final(ctx).error_text() == old(ctx).error_text(),
    {
        ctx.live_values = ctx.live_values - 1;
    }
}

/// The engine's parse-and-bind primitive: parses the text into a lazy atom
/// chain, or leaves a diagnostic in the error slot.
fn engine_eval_from_string(ctx: &mut NixContext, expr: &str) -> (r: (i32, Option<Vec<Atom>>))
    ensures
        final(ctx).stores() == old(ctx).stores(),
        final(ctx).states() == old(ctx).states(),
        final(ctx).values() == old(ctx).values(),
        final(ctx).spec_initialized() == old(ctx).spec_initialized(),
        match spec_parse(expr@) {
            Some(atoms) => {
                &&& r.0 == NIX_OK
                &&& r.1 matches Some(e) && e.deep_view() == atoms && e.len() >= 1
                &&& final(ctx).error_text() == old(ctx).error_text()
            },
            None => {
                &&& r.0 == NIX_ERR
                &&& r.1 is None
                &&& final(ctx).error_text() == parse_err_msg(expr@)
            },
        },
{
    match parse_expr(expr) {
        Some(e) => (NIX_OK, Some(e)),
        None => {
            let m = parse_err_msg_str(expr);
            ctx.error_slot = Some(m);
            (NIX_ERR, None)
        },
    }
}

impl NixValue<ValueInit> {
    /// An unassigned slot is empty and carries no type tag.
    pub open spec fn wf(&self) -> bool {
        self.model() is Empty && self.spec_tag() is None
    }

    /// Allocates a fresh, empty value slot from the evaluator state.
    pub fn new(ctx: &mut NixContext, state: &mut NixState) -> (r: Result<
        NixValue<ValueInit>,
        NixError,
    >)
        requires
            old(ctx).values() < u32::MAX,
        ensures
            r matches Ok(v) && v.wf(),
            final(ctx).values() == old(ctx).values() + 1,
            final(ctx).stores() == old(ctx).stores(),
            final(ctx).states() == old(ctx).states(),
            final(ctx).spec_initialized() == old(ctx).spec_initialized(),
            final(ctx).error_text() == old(ctx).error_text(),
    {
        ctx.live_values = ctx.live_values + 1;
        Ok(NixValue { content: SlotContent::Empty, eval_state: ValueInit, value_type: None })
    }

    /// Binds `expr` into the slot: parsing and binding only, no forcing —
    /// the lazy graph is built, and the slot moves to the ready phase
    /// exactly once.  On failure the diagnostic is fetched through the error
    /// channel and the still-empty slot is handed back, so that the caller
    /// can release it.  `expr_file_path` anchors relative paths inside the
    /// engine; the model grammar has no path literals, so it never changes
    /// the result.
    pub fn assign_from_expr(
        self,
        ctx: &mut NixContext,
        expr: &str,
        state: &mut NixState,
        expr_file_path: Option<&str>,
    ) -> (r: Result<NixValue<ValueReady>, (NixValue<ValueInit>, NixError)>)
        requires
            self.wf(),
        ensures
            final(ctx).stores() == old(ctx).stores(),
            final(ctx).states() == old(ctx).states(),
            final(ctx).values() == old(ctx).values(),
            final(ctx).spec_initialized() == old(ctx).spec_initialized(),
            match r {
                Ok(v) => {
                    &&& spec_parse(expr@) matches Some(atoms) && v.model() == SlotModel::Lazy(atoms)
                        && v.spec_tag() == Some(static_tag(atoms))
                    &&& v.wf()
                    &&& final(ctx).error_text() == old(ctx).error_text()
                },
                Err((v0, e)) => {
                    &&& spec_parse(expr@) is None
                    &&& v0 == self
                    &&& match e {
                        NixError::ExprEvalFailed { message } => message@ == parse_err_msg(expr@),
                        _ => false,
                    }
                    &&& final(ctx).error_text() == parse_err_msg(expr@)
                },
            },
    {
        let (code, parsed) = engine_eval_from_string(ctx, expr);
        match check_err(ctx, code) {
            Ok(()) => {
                let e = parsed.unwrap();
                let tag = if e.len() == 1 {
                    match &e[0] {
                        Atom::Int(_) => ValueType::Int,
                        Atom::Str(_) => ValueType::Str,
                        Atom::Bool(_) => ValueType::Bool,
                        Atom::Var(_) => ValueType::Thunk,
                    }
                } else {
                    ValueType::Thunk
                };
                proof {
                    lemma_parse_atoms_ok(expr@);
                }
                Ok(
                    NixValue {
                        content: SlotContent::Lazy(e),
                        eval_state: ValueReady,
                        value_type: Some(tag),
                    },
                )
            },
            Err(m) => Err((self, NixError::ExprEvalFailed { message: m })),
        }
    }
}

/// Whether `r` is a forcing failure carrying exactly the diagnostic `msg`.
pub open spec fn is_force_failure(r: Result<(), NixError>, msg: Seq<char>) -> bool {
    match r {
        Err(NixError::ForceFailed { message }) => message@ == msg,
        _ => false,
    }
}

/// The engine's force primitive: evaluates a lazy chain in place, or leaves
/// a diagnostic in the error slot.  An already forced slot is left alone.
fn engine_value_force(ctx: &mut NixContext, content: SlotContent) -> (r: (i32, SlotContent))
    requires
        !(content@ is Empty),
        content@ matches SlotModel::Lazy(atoms) ==> atoms.len() >= 1,
    ensures
        final(ctx).stores() == old(ctx).stores(),
        final(ctx).states() == old(ctx).states(),
        final(ctx).values() == old(ctx).values(),
        final(ctx).spec_initialized() == old(ctx).spec_initialized(),
        match content@ {
            SlotModel::Empty => false,
            SlotModel::Forced(_) => r.0 == NIX_OK && r.1 == content && final(ctx).error_text()
                == old(ctx).error_text(),
            SlotModel::Lazy(atoms) => match spec_force(atoms) {
                ForceOutcome::Val(v) => r.0 == NIX_OK && r.1@ == SlotModel::Forced(v) && final(ctx).error_text() == old(ctx).error_text(),
                ForceOutcome::Undef(x) => r.0 == NIX_ERR && r.1 == content && final(ctx).error_text() == undef_msg(x),
                ForceOutcome::TypeErr => r.0 == NIX_ERR && r.1 == content && final(ctx).error_text() == type_err_msg(),
                ForceOutcome::Overflow => r.0 == NIX_ERR && r.1 == content && final(ctx).error_text() == overflow_msg(),
            },
        },
{
    match content {
        SlotContent::Empty => {
            proof {
                assert(false);
            }
            (NIX_ERR, SlotContent::Empty)
        },
        SlotContent::Forced(v) => (NIX_OK, SlotContent::Forced(v)),
        SlotContent::Lazy(e) => {
            let res = force_atoms(&e);
            match res {
                ForceResult::Val(v) => (NIX_OK, SlotContent::Forced(v)),
                ForceResult::Undef(x) => {
                    let m = undef_msg_str(&x);
                    ctx.error_slot = Some(m);
                    (NIX_ERR, SlotContent::Lazy(e))
                },
                ForceResult::TypeErr => {
                    ctx.error_slot = Some(String::from_str("cannot add non-integer values"));
                    (NIX_ERR, SlotContent::Lazy(e))
                },
                ForceResult::Overflow => {
                    ctx.error_slot = Some(String::from_str("integer overflow in addition"));
                    (NIX_ERR, SlotContent::Lazy(e))
                },
            }
        },
    }
}

impl NixValue<ValueReady> {
    /// A ready slot holds a bound chain, or its forced value, with the
    /// matching type tag; forced integers are never negative.
    pub open spec fn wf(&self) -> bool {
        match self.model() {
            SlotModel::Empty => false,
            SlotModel::Lazy(atoms) => atoms.len() >= 1 && atoms_ok(atoms) && self.spec_tag()
                == Some(static_tag(atoms)),
            SlotModel::Forced(v) => self.spec_tag() == Some(tag_of(v)) && (
            v matches ValModel::Int(n) ==> n >= 0),
        }
    }

    /// Drives full evaluation of the bound graph.  Forcing an already
    /// forced value is a no-op, so repeating the call is safe.  On failure
    /// the slot keeps its graph and the diagnostic is fetched through the
    /// error channel.
    pub fn force(&mut self, ctx: &mut NixContext, state: &mut NixState) -> (r: Result<(), NixError>)
        requires
            old(self).wf(),
        ensures
            final(self).wf(),
            final(ctx).stores() == old(ctx).stores(),
            final(ctx).states() == old(ctx).states(),
            final(ctx).values() == old(ctx).values(),
            final(ctx).spec_initialized() == old(ctx).spec_initialized(),
            match old(self).model() {
                SlotModel::Empty => false,
                SlotModel::Forced(_) => r is Ok && *final(self) == *old(self) && final(ctx).error_text() == old(ctx).error_text(),
                SlotModel::Lazy(atoms) => match spec_force(atoms) {
                    ForceOutcome::Val(v) => {
                        &&& r is Ok
                        &&& final(self).model() == SlotModel::Forced(v)
                        &&& final(self).spec_tag() == Some(tag_of(v))
                        &&& final(ctx).error_text() == old(ctx).error_text()
                    },
                    ForceOutcome::Undef(x) => is_force_failure(r, undef_msg(x)) && *final(self)
                        == *old(self) && final(ctx).error_text() == undef_msg(x),
                    ForceOutcome::TypeErr => is_force_failure(r, type_err_msg()) && *final(self)
                        == *old(self) && final(ctx).error_text() == type_err_msg(),
                    ForceOutcome::Overflow => is_force_failure(r, overflow_msg()) && *final(self)
                        == *old(self) && final(ctx).error_text() == overflow_msg(),
                },
            },
    {
        proof {
            match old(self).model() {
                SlotModel::Lazy(atoms) => lemma_force_nonneg(atoms),
                _ => (),
            }
        }
        let mut taken = SlotContent::Empty;
        core::mem::swap(&mut taken, &mut self.content);
        let (code, newc) = engine_value_force(ctx, taken);
        self.content = newc;
        match check_err(ctx, code) {
            Ok(()) => {
                match &self.content {
                    SlotContent::Forced(v) => {
                        let tag = match v {
                            ForcedVal::Int(_) => ValueType::Int,
                            ForcedVal::Str(_) => ValueType::Str,
                            ForcedVal::Bool(_) => ValueType::Bool,
                        };
                        self.value_type = Some(tag);
                        Ok(())
                    },
                    _ => {
                        proof {
                            assert(false);
                        }
                        Ok(())
                    },
                }
            },
            Err(m) => Err(NixError::ForceFailed { message: m }),
        }
    }

    /// The type tag the value carries; a ready value always has one.
    pub fn value_type(&self) -> (t: ValueType)
        requires
            self.wf(),
        ensures
            self.spec_tag() == Some(t),
    {
        match self.value_type {
            Some(t) => t,
            None => {
                proof {
                    assert(false);
                }
                ValueType::Thunk
            },
        }
    }

    /// The string content, where the forced value is a string.
    pub fn as_str(&self) -> (r: Option<String>)
        requires
            self.wf(),
            self.model() is Forced,
        ensures
            match self.model() {
                SlotModel::Forced(v) => match v {
                    ValModel::Str(s) => r matches Some(out) && out@ == s,
                    _ => r is None,
                },
                _ => false,
            },
    {
        match &self.content {
            SlotContent::Forced(ForcedVal::Str(s)) => Some(s.clone()),
            SlotContent::Forced(_) => None,
            _ => {
                proof {
                    assert(false);
                }
                None
            },
        }
    }

    /// The integer, where the forced value is one.
    pub fn as_int(&self) -> (r: Option<i64>)
        requires
            self.wf(),
            self.model() is Forced,
        ensures
            match self.model() {
                SlotModel::Forced(v) => match v {
                    ValModel::Int(n) => r matches Some(out) && out == n,
                    _ => r is None,
                },
                _ => false,
            },
    {
        match &self.content {
            SlotContent::Forced(ForcedVal::Int(n)) => Some(*n),
            SlotContent::Forced(_) => None,
            _ => {
                proof {
                    assert(false);
                }
                None
            },
        }
    }

    /// The boolean, where the forced value is one.
    pub fn as_bool(&self) -> (r: Option<bool>)
        requires
            self.wf(),
            self.model() is Forced,
        ensures
            match self.model() {
                SlotModel::Forced(v) => match v {
                    ValModel::Bool(b) => r matches Some(out) && out == b,
                    _ => r is None,
                },
                _ => false,
            },
    {
        match &self.content {
            SlotContent::Forced(ForcedVal::Bool(b)) => Some(*b),
            SlotContent::Forced(_) => None,
            _ => {
                proof {
                    assert(false);
                }
                None
            },
        }
    }

    /// The printable text of the forced value, by its type tag.
    pub fn display(&self) -> (r: String)
        requires
            self.wf(),
            self.model() is Forced,
        ensures
            self.model() matches SlotModel::Forced(v) && r@ == spec_display(v),
    {
        match &self.content {
            SlotContent::Forced(v) => display_val(v),
            _ => {
                proof {
                    assert(false);
                }
                String::new()
            },
        }
    }
}

/// Evaluates one expression string, end to end: create a context,
/// initialize, open the default store, create a state, allocate a value,
/// bind the expression, force it, render it — then release the value, the
/// state, the store and the context, in exactly that order, on the failure
/// paths as well as on success.
pub fn eval_string(input: &str) -> (r: Result<String, NixError>)
    ensures
        match r {
            Ok(out) => eval_model(input@) == EvalOut::Val(out@),
            Err(e) => match e {
                NixError::ExprEvalFailed { message } => eval_model(input@) == EvalOut::BindErr(
                    message@,
                ),
                NixError::ForceFailed { message } => eval_model(input@) == EvalOut::ForceErr(
                    message@,
                ),
                _ => false,
            },
        },
{
    let mut ctx = match NixContext::new() {
        Ok(c) => c,
        Err(e) => {
            return Err(e);
        },
    };
    let guard = match NixInitGuard::new(&mut ctx) {
        Ok(g) => g,
        Err(e) => {
            ctx.release();
            return Err(e);
        },
    };
    let mut store = match NixStore::new(&mut ctx, NixStoreType::Auto) {
        Ok(s) => s,
        Err(e) => {
            ctx.release();
            return Err(e);
        },
    };
    let mut state = match NixState::new(&mut ctx, &mut store, guard) {
        Ok(st) => st,
        Err(e) => {
            store.release(&mut ctx);
            ctx.release();
            return Err(e);
        },
    };
    let value = match NixValue::new(&mut ctx, &mut state) {
        Ok(v) => v,
        Err(e) => {
            state.release(&mut ctx);
            store.release(&mut ctx);
            ctx.release();
            return Err(e);
        },
    };
    let mut value = match value.assign_from_expr(&mut ctx, input, &mut state, None) {
        Ok(v) => v,
        Err((v0, e)) => {
            v0.release(&mut ctx);
            state.release(&mut ctx);
            store.release(&mut ctx);
            ctx.release();
            return Err(e);
        },
    };
    match value.force(&mut ctx, &mut state) {
        Ok(()) => {},
        Err(e) => {
            value.release(&mut ctx);
            state.release(&mut ctx);
            store.release(&mut ctx);
            ctx.release();
            return Err(e);
        },
    }
    let out = value.display();
    value.release(&mut ctx);
    state.release(&mut ctx);
    store.release(&mut ctx);
    ctx.release();
    Ok(out)
}

} // verus!
