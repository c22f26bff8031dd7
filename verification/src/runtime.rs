//! State-root manager and dispatch engine.
//!
//! A [`Runtime`] is one program instance: a content-addressed [`Store`] and
//! the root pointer naming the current state record. Every invocation is one
//! call of [`Runtime::invoke`]: the initialization method persists the
//! default record, the business method loads the record, increments its
//! counter, persists the result and returns an encoded greeting, and every
//! other method identifier halts without touching anything.
//!
//! The whole semantics is captured once, at the specification level, by
//! [`spec_step`] (how an invocation transforms the instance) and
//! [`spec_result`] (what it returns), and the executable code is proved to
//! implement exactly that; the laws at the end of the module are stated over
//! the same two functions.

use vstd::prelude::*;

use crate::abort::AbortCode;
use crate::codec::{
    decode, encode, greeting_payload, lemma_round_trip, spec_decode_state, spec_encode_state,
    spec_encode_text, spec_greeting,
};
use crate::state::State;
use crate::store::{spec_addr_of, spec_lookup, spec_put, Address, Store};

verus! {

/// The reserved method identifier of the initialization call.
pub const INIT_METHOD: u64 = 1;

/// The reserved method identifier of the single business method.
pub const HELLO_METHOD: u64 = 2;

/// Specification-level image of a program instance: the store contents and
/// the root pointer, if set.
#[verifier::ext_equal]
pub struct Model {
    pub blocks: Seq<Seq<u8>>,
    pub root: Option<int>,
}

/// Specification-level image of what an invocation hands back: the sentinel
/// for "no return value", an encoded payload, or a halting signal.
pub enum OutcomeModel {
    NoData,
    Payload(Seq<u8>),
    Halt(AbortCode),
}

/// What reading the current record yields: the decoded record, or the fault
/// category — the root was never set, the root names an absent block, or the
/// block is not a canonical record.
pub open spec fn spec_load(m: Model) -> Result<State, AbortCode> {
    match m.root {
        None => Err(AbortCode::PreconditionViolated),
        Some(a) => match spec_lookup(m.blocks, a) {
            None => Err(AbortCode::CorruptRoot),
            Some(b) => match spec_decode_state(b) {
                None => Err(AbortCode::MalformedRecord),
                Some(s) => Ok(s),
            },
        },
    }
}

/// The instance after persisting record `s`: the canonical encoding is put
/// into the store and the root pointer is repointed at its address.
pub open spec fn spec_save(m: Model, s: State) -> Model {
    Model {
        blocks: spec_put(m.blocks, spec_encode_state(s)),
        root: Some(spec_addr_of(m.blocks, spec_encode_state(s))),
    }
}

/// How one invocation transforms the instance. Initialization persists the
/// default record; the business method advances the loaded record by one and
/// persists it; every failure — and every unknown method — leaves the
/// instance exactly as it was.
pub open spec fn spec_step(m: Model, method: u64) -> Model {
    if method == INIT_METHOD {
        spec_save(m, State { count: 0 })
    } else if method == HELLO_METHOD {
        match spec_load(m) {
            Ok(s) => if s.count < u64::MAX {
                spec_save(m, State { count: (s.count + 1) as u64 })
            } else {
                m
            },
            Err(_) => m,
        }
    } else {
        m
    }
}

/// What one invocation hands back: initialization returns the no-value
/// sentinel, a successful business call returns the encoded greeting for the
/// post-increment counter, and everything else halts with its category — an
/// unknown method with `UnhandledMethod`, a failed load with the load's own
/// category, and a counter that cannot advance without wrapping with
/// `MalformedRecord`.
pub open spec fn spec_result(m: Model, method: u64) -> OutcomeModel {
    if method == INIT_METHOD {
        OutcomeModel::NoData
    } else if method == HELLO_METHOD {
        match spec_load(m) {
            Ok(s) => if s.count < u64::MAX {
                OutcomeModel::Payload(spec_encode_text(spec_greeting((s.count + 1) as u64)))
            } else {
                OutcomeModel::Halt(AbortCode::MalformedRecord)
            },
            Err(c) => OutcomeModel::Halt(c),
        }
    } else {
        OutcomeModel::Halt(AbortCode::UnhandledMethod)
    }
}

/// What an invocation hands back: the "no return value" sentinel, an encoded
/// payload, or the halting signal with its category.
#[derive(Debug)]
pub enum Outcome {
    NoData,
    Payload(Vec<u8>),
    Halt(AbortCode),
}

impl View for Outcome {
    type V = OutcomeModel;

    open spec fn view(&self) -> OutcomeModel {
        match self {
            Outcome::NoData => OutcomeModel::NoData,
            Outcome::Payload(v) => OutcomeModel::Payload(v@),
            Outcome::Halt(c) => OutcomeModel::Halt(*c),
        }
    }
}

/// One program instance: the block store and the root pointer.
#[derive(Debug)]
pub struct Runtime {
    pub store: Store,
    pub root: Option<Address>,
}

impl View for Runtime {
    type V = Model;

    open spec fn view(&self) -> Model {
        Model {
            blocks: self.store@,
            root: match self.root {
                Some(a) => Some(a@),
                None => None,
            },
        }
    }
}

impl Runtime {
    /// The store holds no duplicate block, so content addresses are a
    /// function of the stored bytes.
    pub open spec fn wf(&self) -> bool {
        self.store.wf()
    }

    /// A fresh program instance: empty store, root pointer unset.
    pub fn new() -> (r: Runtime)
        ensures
            r@.blocks == Seq::<Seq<u8>>::empty(),
            r@.root is None,
            r.wf(),
    {
        Runtime { store: Store::new(), root: None }
    }

    /// Read the current record: follow the root pointer into the store and
    /// decode. Fails with `PreconditionViolated` if the root was never set,
    /// `CorruptRoot` if it names an absent block, and `MalformedRecord` if
    /// the block is not a canonical record.
    pub fn load(&self) -> (r: Result<State, AbortCode>)
        ensures
            r == spec_load(self@),
    {
        match &self.root {
            None => Err(AbortCode::PreconditionViolated),
            Some(a) => match self.store.get(a) {
                None => Err(AbortCode::CorruptRoot),
                Some(bytes) => decode(bytes.as_slice()),
            },
        }
    }

    /// Persist a record: encode it canonically, put the bytes into the store
    /// and repoint the root at the returned address. The root moves only
    /// after the block is stored, so no partial state change is ever
    /// visible.
    pub fn save_state(&mut self, state: &State) -> (a: Address)
        requires
            old(self).wf(),
        ensures
            final(self).wf(),
            final(self)@ == spec_save(old(self)@, *state),
            final(self)@.root == Some(a@),
    {
        let bytes = encode(state);
        let a = self.store.put(bytes);
        self.root = Some(a);
        proof {
            assert(self@ =~= spec_save(old(self)@, *state));
        }
        a
    }

    /// Initialization handler: persist the default record (counter zero) and
    /// make its address the root.
    pub fn constructor(&mut self)
        requires
            old(self).wf(),
        ensures
            final(self).wf(),
            final(self)@ == spec_save(old(self)@, State { count: 0 }),
    {
        let state = State::default();
        self.save_state(&state);
    }

    /// Business handler: advance the given record's counter by one, persist
    /// the result, and return the encoded greeting for the new counter.
    pub fn say_hello(&mut self, state: State) -> (r: Vec<u8>)
        requires
            old(self).wf(),
            state.count < u64::MAX,
        ensures
            final(self).wf(),
            final(self)@ == spec_save(old(self)@, State { count: (state.count + 1) as u64 }),
            r@ == spec_encode_text(spec_greeting((state.count + 1) as u64)),
    {
        let next = State { count: state.count + 1 };
        self.save_state(&next);
        greeting_payload(next.count)
    }

    /// Dispatch one invocation: route the method identifier to its handler
    /// and shape the return value. The instance afterwards is exactly
    /// [`spec_step`] of the instance before, and the returned outcome is
    /// exactly [`spec_result`].
    pub fn invoke(&mut self, method: u64) -> (r: Outcome)
        requires
            old(self).wf(),
        ensures
            final(self).wf(),
            final(self)@ == spec_step(old(self)@, method),
            r@ == spec_result(old(self)@, method),
    {
        if method == INIT_METHOD {
            self.constructor();
            Outcome::NoData
        } else if method == HELLO_METHOD {
            match self.load() {
                Err(code) => Outcome::Halt(code),
                Ok(state) => {
                    if state.count == u64::MAX {
                        Outcome::Halt(AbortCode::MalformedRecord)
                    } else {
                        Outcome::Payload(self.say_hello(state))
                    }
                },
            }
        } else {
            Outcome::Halt(AbortCode::UnhandledMethod)
        }
    }
}

/// Persisting a record and immediately loading yields that record back: the
/// repointed root resolves to the block just stored, and decoding inverts
/// the canonical encoding.
pub proof fn lemma_save_then_load(m: Model, s: State)
    ensures
        spec_load(spec_save(m, s)) == Ok::<State, AbortCode>(s),
{
    let enc = spec_encode_state(s);
    if m.blocks.contains(enc) {
        let i = choose|i: int| 0 <= i < m.blocks.len() && m.blocks[i] == enc;
        assert(spec_lookup(spec_put(m.blocks, enc), spec_addr_of(m.blocks, enc)) == Some(enc));
    } else {
        assert(spec_put(m.blocks, enc)[m.blocks.len() as int] == enc);
    }
    lemma_round_trip(s);
}

/// Initialization sets the counter to zero and establishes a root from which
/// an immediate load returns that record, whatever the instance held before.
pub proof fn lemma_init_establishes_root(m: Model)
    ensures
        spec_load(spec_step(m, INIT_METHOD)) == Ok::<State, AbortCode>(State { count: 0 }),
{
    lemma_save_then_load(m, State { count: 0 });
}

/// One business call on a loadable record advances the counter by exactly
/// one, and its returned payload is the encoded greeting for the
/// post-increment counter.
pub proof fn lemma_business_step(m: Model, s: State)
    requires
        spec_load(m) == Ok::<State, AbortCode>(s),
        s.count < u64::MAX,
    ensures
        spec_load(spec_step(m, HELLO_METHOD)) == Ok::<State, AbortCode>(
            State { count: (s.count + 1) as u64 },
        ),
        spec_result(m, HELLO_METHOD) == OutcomeModel::Payload(
            spec_encode_text(spec_greeting((s.count + 1) as u64)),
        ),
{
    lemma_save_then_load(m, State { count: (s.count + 1) as u64 });
}

/// The instance after `n` business invocations in sequence.
pub open spec fn spec_run_hello(m: Model, n: nat) -> Model
    decreases n,
{
    if n == 0 {
        m
    } else {
        spec_run_hello(spec_step(m, HELLO_METHOD), (n - 1) as nat)
    }
}

/// Business calls in sequence count up: from a record holding `c`, `n`
/// further calls leave a loadable record holding `c + n`.
pub proof fn lemma_business_progression(m: Model, c: u64, n: u64)
    requires
        spec_load(m) == Ok::<State, AbortCode>(State { count: c }),
        c + n <= u64::MAX,
    ensures
        spec_load(spec_run_hello(m, n as nat)) == Ok::<State, AbortCode>(
            State { count: (c + n) as u64 },
        ),
    decreases n,
{
    if n > 0 {
        lemma_business_step(m, State { count: c });
        lemma_business_progression(spec_step(m, HELLO_METHOD), (c + 1) as u64, (n - 1) as u64);
    }
}

/// From a freshly initialized instance, `n` business calls in sequence yield
/// a loadable record with counter exactly `n`, and the `n`-th call returns
/// the encoded greeting for `n`; the payload of every call along the way is
/// given likewise by `lemma_business_step`.
pub proof fn lemma_counts_from_init(m: Model, n: u64)
    ensures
        spec_load(spec_run_hello(spec_step(m, INIT_METHOD), n as nat)) == Ok::<State, AbortCode>(
            State { count: n },
        ),
        n >= 1 ==> spec_result(spec_run_hello(spec_step(m, INIT_METHOD), (n - 1) as nat), HELLO_METHOD)
            == OutcomeModel::Payload(spec_encode_text(spec_greeting(n))),
{
    lemma_init_establishes_root(m);
    lemma_business_progression(spec_step(m, INIT_METHOD), 0, n);
    if n >= 1 {
        lemma_business_progression(spec_step(m, INIT_METHOD), 0, (n - 1) as u64);
        lemma_business_step(
            spec_run_hello(spec_step(m, INIT_METHOD), (n - 1) as nat),
            State { count: (n - 1) as u64 },
        );
    }
}

/// Any method identifier other than the two reserved ones halts with
/// `UnhandledMethod` and leaves the instance — store and root pointer —
/// exactly as it was, whatever state it was in.
pub proof fn lemma_unknown_method_untouched(m: Model, method: u64)
    requires
        method != INIT_METHOD,
        method != HELLO_METHOD,
    ensures
        spec_step(m, method) == m,
        spec_result(m, method) == OutcomeModel::Halt(AbortCode::UnhandledMethod),
{
}

/// The business method before initialization halts with
/// `PreconditionViolated` and touches neither the store nor the root.
pub proof fn lemma_business_before_init(m: Model)
    requires
        m.root is None,
    ensures
        spec_step(m, HELLO_METHOD) == m,
        spec_result(m, HELLO_METHOD) == OutcomeModel::Halt(AbortCode::PreconditionViolated),
{
}

} // verus!
