//! The resumable parser engine.
//!
//! A parser is described by a [`Schema`]: fixed-width integers with explicit
//! byte order, fixed-size byte arrays, length-prefixed bounded sequences,
//! pairs, and action nodes that emit a user prompt when their inner parser
//! completes.  The engine consumes input one byte at a time through a small
//! state machine, so it can suspend at any point where a chunk ends and
//! resume on the next chunk with no re-parsing.  The machine is mirrored by
//! a mathematical model (`MState`, `step_m`, `drive_m`) over which the
//! chunk-invariance law is proved.

use vstd::prelude::*;
use crate::text::{dec_digits, hex_bytes};

verus! {

/// Byte order of a multi-byte integer.
#[derive(Clone, Copy)]
pub enum Endian {
    Big,
    Little,
}

/// Width in bytes of an integer field.
#[derive(Clone, Copy)]
pub enum Width {
    W1,
    W2,
    W4,
    W8,
}

/// Title under which a prompt is shown; rendering the title text is the
/// shell's concern.
#[derive(Clone, Copy)]
pub enum PromptTitle {
    SignTransaction,
    ForAddress,
    GotBytes,
    GotInts,
    GotList,
    ParseDone,
}

/// Side effect run by an action node once its inner parser completes.
#[derive(Clone, Copy)]
pub enum Action {
    Prompt(PromptTitle),
}

/// The shape of one parser: what it reads and what it yields.
pub enum Schema {
    /// A fixed-width unsigned integer with the given byte order.
    UInt(Width, Endian),
    /// A fixed-size byte array; the size is at least one.
    Bytes(usize),
    /// A length prefix (integer of the given width and order) followed by
    /// that many elements, the count bounded by the last field.
    DArray(Width, Endian, Box<Schema>, usize),
    /// Two parsers in sequence.
    Pair(Box<Schema>, Box<Schema>),
    /// An inner parser whose completion runs an action on the value.
    Act(Box<Schema>, Action),
}

/// A parsed value.  A bounded sequence collects its elements only where the
/// element schema is an integer; element values of compound schemas are
/// consumed by their own action nodes and the sequence itself yields `Unit`.
pub enum Value {
    Int(u64),
    Bytes(Vec<u8>),
    Ints(Vec<u64>),
    PairV(Box<Value>, Box<Value>),
    Unit,
}

/// A queued prompt: a title tag and an ASCII body.
pub struct Prompt {
    pub title: PromptTitle,
    pub body: Vec<u8>,
}

/// Number of bytes of a [`Width`].
pub open spec fn width_of(w: Width) -> nat {
    match w {
        Width::W1 => 1,
        Width::W2 => 2,
        Width::W4 => 4,
        Width::W8 => 8,
    }
}

/// Well-formed schemas: every node consumes at least one byte, so a parser
/// never completes without input and the machine needs no empty-node
/// cascades.
pub open spec fn schema_wf(s: Schema) -> bool
    decreases s,
{
    match s {
        Schema::UInt(_, _) => true,
        Schema::Bytes(n) => 1 <= n,
        Schema::DArray(_, _, elem, _) => schema_wf(*elem),
        Schema::Pair(a, b) => schema_wf(*a) && schema_wf(*b),
        Schema::Act(inner, _) => schema_wf(*inner),
    }
}

/// Whether a schema is a plain integer (its values are collected by a
/// surrounding bounded sequence).
pub open spec fn is_uint(s: Schema) -> bool {
    s matches Schema::UInt(_, _)
}

/// Value of big-endian bytes.
pub open spec fn be_val(s: Seq<u8>) -> nat
    decreases s.len(),
{
    if s.len() == 0 {
        0
    } else {
        (be_val(s.drop_last()) * 256 + s.last()) as nat
    }
}

/// Value of little-endian bytes.
pub open spec fn le_val(s: Seq<u8>) -> nat
    decreases s.len(),
{
    if s.len() == 0 {
        0
    } else {
        (s[0] + 256 * le_val(s.drop_first())) as nat
    }
}

/// 256 to the power `n`.
pub open spec fn pow256(n: nat) -> nat
    decreases n,
{
    if n == 0 {
        1
    } else {
        256 * pow256((n - 1) as nat)
    }
}

/// Value of an integer field, by byte order.  For fields of at most eight
/// bytes the value fits in a `u64`.
pub open spec fn uint_val(e: Endian, s: Seq<u8>) -> u64 {
    (match e {
        Endian::Big => be_val(s),
        Endian::Little => le_val(s),
    }) as u64
}

/// Mathematical model of a parsed value.
pub enum MValue {
    Int(u64),
    Bytes(Seq<u8>),
    Ints(Seq<u64>),
    PairV(Box<MValue>, Box<MValue>),
    Unit,
}

/// Mathematical model of a queued prompt.
pub struct MPrompt {
    pub title: PromptTitle,
    pub body: Seq<u8>,
}

/// Mathematical model of a machine state.
pub enum MState {
    Num { w: Width, e: Endian, got: Seq<u8> },
    Raw { n: usize, got: Seq<u8> },
    Len { w: Width, e: Endian, got: Seq<u8>, elem: Schema, max: usize },
    Elems { elem: Schema, remaining: usize, vals: Seq<u64>, cur: Box<MState> },
    First { cur: Box<MState>, next: Schema },
    Second { first: Box<MValue>, cur: Box<MState> },
    Acting { act: Action, cur: Box<MState> },
}

/// Result of one step of the model machine.
pub enum MStep {
    More(MState, Seq<MPrompt>),
    Done(MValue, Seq<MPrompt>),
    Fail,
}

/// Decimal renderings joined by a space.
pub open spec fn dec_join(s: Seq<u64>) -> Seq<u8>
    decreases s.len(),
{
    if s.len() == 0 {
        Seq::empty()
    } else if s.len() == 1 {
        dec_digits(s[0])
    } else {
        dec_join(s.drop_last()) + seq![0x20u8] + dec_digits(s.last())
    }
}

/// ASCII rendering of a value: decimal for integers, hexadecimal for bytes,
/// comma-joined pairs, nothing for `Unit`.
pub open spec fn render_m(v: MValue) -> Seq<u8>
    decreases v,
{
    match v {
        MValue::Int(n) => dec_digits(n),
        MValue::Bytes(s) => hex_bytes(s),
        MValue::Ints(s) => dec_join(s),
        MValue::PairV(a, b) => render_m(*a) + seq![0x2cu8, 0x20u8] + render_m(*b),
        MValue::Unit => Seq::empty(),
    }
}

/// The prompt an action emits for a completed value.
pub open spec fn prompt_m(act: Action, v: MValue) -> MPrompt {
    match act {
        Action::Prompt(t) => MPrompt { title: t, body: render_m(v) },
    }
}

/// The value a completed bounded sequence yields.
pub open spec fn list_val(elem: Schema, vals: Seq<u64>) -> MValue {
    if is_uint(elem) {
        MValue::Ints(vals)
    } else {
        MValue::Unit
    }
}

/// Initial model state of a schema.
pub open spec fn init_m(s: Schema) -> MState
    decreases s,
{
    match s {
        Schema::UInt(w, e) => MState::Num { w, e, got: Seq::empty() },
        Schema::Bytes(n) => MState::Raw { n, got: Seq::empty() },
        Schema::DArray(w, e, elem, max) => MState::Len {
            w,
            e,
            got: Seq::empty(),
            elem: *elem,
            max,
        },
        Schema::Pair(a, b) => MState::First { cur: Box::new(init_m(*a)), next: *b },
        Schema::Act(inner, act) => MState::Acting { act, cur: Box::new(init_m(*inner)) },
    }
}

/// Machine-state well-formedness, preserved across suspensions.
pub open spec fn st_inv(st: MState) -> bool
    decreases st,
{
    match st {
        MState::Num { w, e, got } => got.len() < width_of(w),
        MState::Raw { n, got } => 1 <= n && got.len() < n,
        MState::Len { w, e, got, elem, max } => got.len() < width_of(w) && schema_wf(elem),
        MState::Elems { elem, remaining, vals, cur } => 1 <= remaining && schema_wf(elem)
            && st_inv(*cur),
        MState::First { cur, next } => st_inv(*cur) && schema_wf(next),
        MState::Second { first, cur } => st_inv(*cur),
        MState::Acting { act, cur } => st_inv(*cur),
    }
}

/// One byte of input against the model machine.
pub open spec fn step_m(st: MState, b: u8) -> MStep
    decreases st,
{
    match st {
        MState::Num { w, e, got } => {
            let g2 = got.push(b);
            if g2.len() == width_of(w) {
                MStep::Done(MValue::Int(uint_val(e, g2)), Seq::empty())
            } else {
                MStep::More(MState::Num { w, e, got: g2 }, Seq::empty())
            }
        },
        MState::Raw { n, got } => {
            let g2 = got.push(b);
            if g2.len() == n {
                MStep::Done(MValue::Bytes(g2), Seq::empty())
            } else {
                MStep::More(MState::Raw { n, got: g2 }, Seq::empty())
            }
        },
        MState::Len { w, e, got, elem, max } => {
            let g2 = got.push(b);
            if g2.len() == width_of(w) {
                let cnt = uint_val(e, g2);
                if cnt > max as u64 {
                    MStep::Fail
                } else if cnt == 0 {
                    MStep::Done(list_val(elem, Seq::empty()), Seq::empty())
                } else {
                    MStep::More(
                        MState::Elems {
                            elem,
                            remaining: cnt as usize,
                            vals: Seq::empty(),
                            cur: Box::new(init_m(elem)),
                        },
                        Seq::empty(),
                    )
                }
            } else {
                MStep::More(MState::Len { w, e, got: g2, elem, max }, Seq::empty())
            }
        },
        MState::Elems { elem, remaining, vals, cur } => match step_m(*cur, b) {
            MStep::Fail => MStep::Fail,
            MStep::More(c2, ps) => MStep::More(
                MState::Elems { elem, remaining, vals, cur: Box::new(c2) },
                ps,
            ),
            MStep::Done(v, ps) => {
                let vals2 = if v matches MValue::Int(n) {
                    vals.push(v->Int_0)
                } else {
                    vals
                };
                if remaining == 1 {
                    MStep::Done(list_val(elem, vals2), ps)
                } else {
                    MStep::More(
                        MState::Elems {
                            elem,
                            remaining: (remaining - 1) as usize,
                            vals: vals2,
                            cur: Box::new(init_m(elem)),
                        },
                        ps,
                    )
                }
            },
        },
        MState::First { cur, next } => match step_m(*cur, b) {
            MStep::Fail => MStep::Fail,
            MStep::More(c2, ps) => MStep::More(MState::First { cur: Box::new(c2), next }, ps),
            MStep::Done(v1, ps) => MStep::More(
                MState::Second { first: Box::new(v1), cur: Box::new(init_m(next)) },
                ps,
            ),
        },
        MState::Second { first, cur } => match step_m(*cur, b) {
            MStep::Fail => MStep::Fail,
            MStep::More(c2, ps) => MStep::More(MState::Second { first, cur: Box::new(c2) }, ps),
            MStep::Done(v2, ps) => MStep::Done(MValue::PairV(first, Box::new(v2)), ps),
        },
        MState::Acting { act, cur } => match step_m(*cur, b) {
            MStep::Fail => MStep::Fail,
            MStep::More(c2, ps) => MStep::More(MState::Acting { act, cur: Box::new(c2) }, ps),
            MStep::Done(v, ps) => MStep::Done(v, ps.push(prompt_m(act, v))),
        },
    }
}

/// Outcome of driving the model machine over a byte sequence: suspended with
/// the prompts emitted so far, done with the unconsumed rest, or failed.
pub enum MDrive {
    More(MState, Seq<MPrompt>),
    Done(MValue, Seq<u8>, Seq<MPrompt>),
    Fail,
}

/// Driving the model machine byte by byte over a sequence.
pub open spec fn drive_m(st: MState, bs: Seq<u8>) -> MDrive
    decreases bs.len(),
{
    if bs.len() == 0 {
        MDrive::More(st, Seq::empty())
    } else {
        match step_m(st, bs[0]) {
            MStep::Fail => MDrive::Fail,
            MStep::Done(v, ps) => MDrive::Done(v, bs.drop_first(), ps),
            MStep::More(s2, ps) => match drive_m(s2, bs.drop_first()) {
                MDrive::Fail => MDrive::Fail,
                MDrive::More(s3, ps2) => MDrive::More(s3, ps + ps2),
                MDrive::Done(v, rest, ps2) => MDrive::Done(v, rest, ps + ps2),
            },
        }
    }
}

/// Model of a parsed value.
pub open spec fn value_view(v: Value) -> MValue
    decreases v,
{
    match v {
        Value::Int(n) => MValue::Int(n),
        Value::Bytes(b) => MValue::Bytes(b@),
        Value::Ints(l) => MValue::Ints(l@),
        Value::PairV(a, b) => MValue::PairV(Box::new(value_view(*a)), Box::new(value_view(*b))),
        Value::Unit => MValue::Unit,
    }
}

impl View for Value {
    type V = MValue;

    open spec fn view(&self) -> MValue {
        value_view(*self)
    }
}

impl View for Prompt {
    type V = MPrompt;

    open spec fn view(&self) -> MPrompt {
        MPrompt { title: self.title, body: self.body@ }
    }
}

/// The models of a sequence of queued prompts.
pub open spec fn prompts_view(s: Seq<Prompt>) -> Seq<MPrompt> {
    s.map_values(|p: Prompt| p@)
}

/// The paused state of one in-flight parser.
pub enum PState {
    Num { w: Width, e: Endian, got: Vec<u8> },
    Raw { n: usize, got: Vec<u8> },
    Len { w: Width, e: Endian, got: Vec<u8>, elem: Box<Schema>, max: usize },
    Elems { elem: Box<Schema>, remaining: usize, vals: Vec<u64>, cur: Box<PState> },
    First { cur: Box<PState>, next: Box<Schema> },
    Second { first: Box<Value>, cur: Box<PState> },
    Acting { act: Action, cur: Box<PState> },
}

/// Model of a paused parser state.
pub open spec fn pstate_view(st: PState) -> MState
    decreases st,
{
    match st {
        PState::Num { w, e, got } => MState::Num { w, e, got: got@ },
        PState::Raw { n, got } => MState::Raw { n, got: got@ },
        PState::Len { w, e, got, elem, max } => MState::Len { w, e, got: got@, elem: *elem, max },
        PState::Elems { elem, remaining, vals, cur } => MState::Elems {
            elem: *elem,
            remaining,
            vals: vals@,
            cur: Box::new(pstate_view(*cur)),
        },
        PState::First { cur, next } => MState::First {
            cur: Box::new(pstate_view(*cur)),
            next: *next,
        },
        PState::Second { first, cur } => MState::Second {
            first: Box::new(value_view(*first)),
            cur: Box::new(pstate_view(*cur)),
        },
        PState::Acting { act, cur } => MState::Acting { act, cur: Box::new(pstate_view(*cur)) },
    }
}

impl View for PState {
    type V = MState;

    open spec fn view(&self) -> MState {
        pstate_view(*self)
    }
}

impl Clone for Schema {
    fn clone(&self) -> (r: Self)
        ensures
            r == *self,
        decreases *self,
    {
        match self {
            Schema::UInt(w, e) => Schema::UInt(*w, *e),
            Schema::Bytes(n) => Schema::Bytes(*n),
            Schema::DArray(w, e, elem, max) => Schema::DArray(
                *w,
                *e,
                Box::new((**elem).clone()),
                *max,
            ),
            Schema::Pair(a, b) => Schema::Pair(Box::new((**a).clone()), Box::new((**b).clone())),
            Schema::Act(inner, act) => Schema::Act(Box::new((**inner).clone()), *act),
        }
    }
}

/// Number of bytes of a width, as a machine integer.
pub fn width_len(w: Width) -> (n: usize)
    ensures
        n == width_of(w),
{
    match w {
        Width::W1 => 1,
        Width::W2 => 2,
        Width::W4 => 4,
        Width::W8 => 8,
    }
}

fn elem_is_uint(s: &Schema) -> (r: bool)
    ensures
        r == is_uint(*s),
{
    match s {
        Schema::UInt(_, _) => true,
        _ => false,
    }
}

/// The initial paused state of a schema: ready to read its first byte.
pub fn init(schema: Schema) -> (st: PState)
    requires
        schema_wf(schema),
    ensures
        st@ == init_m(schema),
        st_inv(st@),
    decreases schema,
{
    match schema {
        Schema::UInt(w, e) => PState::Num { w, e, got: Vec::new() },
        Schema::Bytes(n) => PState::Raw { n, got: Vec::new() },
        Schema::DArray(w, e, elem, max) => PState::Len { w, e, got: Vec::new(), elem, max },
        Schema::Pair(a, b) => PState::First { cur: Box::new(init(*a)), next: b },
        Schema::Act(inner, act) => PState::Acting { act, cur: Box::new(init(*inner)) },
    }
}

proof fn lemma_pow256_mono(a: nat, b: nat)
    requires
        a <= b,
    ensures
        pow256(a) <= pow256(b),
    decreases b,
{
    if a < b {
        lemma_pow256_mono(a, (b - 1) as nat);
    }
}

proof fn lemma_pow256_u64(n: nat)
    requires
        n <= 8,
    ensures
        pow256(n) <= 0x10000000000000000,
{
    lemma_pow256_mono(n, 8);
    assert(pow256(8) == 0x10000000000000000) by {
        reveal_with_fuel(pow256, 9);
    }
}

proof fn lemma_be_val_bound(s: Seq<u8>)
    ensures
        be_val(s) < pow256(s.len()),
    decreases s.len(),
{
    if s.len() > 0 {
        lemma_be_val_bound(s.drop_last());
    }
}

proof fn lemma_le_val_bound(s: Seq<u8>)
    ensures
        le_val(s) < pow256(s.len()),
    decreases s.len(),
{
    if s.len() > 0 {
        lemma_le_val_bound(s.drop_first());
    }
}

/// Assemble the integer value of a completed field.
fn uint_from(e: Endian, got: &Vec<u8>) -> (r: u64)
    requires
        1 <= got@.len() <= 8,
    ensures
        r == uint_val(e, got@),
{
    match e {
        Endian::Big => {
            let mut acc: u64 = 0;
            let mut i: usize = 0;
            while i < got.len()
                invariant
                    i <= got@.len() <= 8,
                    acc == be_val(got@.take(i as int)),
                    acc < pow256(i as nat),
                decreases got@.len() - i,
            {
                proof {
                    lemma_pow256_mono(i as nat, 7);
                    assert(pow256(7) == 0x100000000000000) by {
                        reveal_with_fuel(pow256, 8);
                    }
                    assert(pow256((i + 1) as nat) == 256 * pow256(i as nat));
                    assert(got@.take(i + 1 as int).drop_last() =~= got@.take(i as int));
                }
                acc = acc * 256 + (got[i] as u64);
                i = i + 1;
            }
            proof {
                assert(got@.take(got@.len() as int) =~= got@);
                lemma_be_val_bound(got@);
                lemma_pow256_u64(got@.len());
            }
            acc
        },
        Endian::Little => {
            let mut acc: u64 = 0;
            let mut i: usize = got.len();
            while i > 0
                invariant
                    i <= got@.len() <= 8,
                    acc == le_val(got@.skip(i as int)),
                    acc < pow256((got@.len() - i) as nat),
                decreases i,
            {
                proof {
                    lemma_pow256_mono((got@.len() - i) as nat, 7);
                    assert(pow256(7) == 0x100000000000000) by {
                        reveal_with_fuel(pow256, 8);
                    }
                    assert(pow256((got@.len() - i + 1) as nat) == 256 * pow256(
                        (got@.len() - i) as nat,
                    ));
                    assert(got@.skip(i - 1 as int).drop_first() =~= got@.skip(i as int));
                    assert(got@.skip(i - 1 as int)[0] == got@[i - 1]);
                }
                acc = acc * 256 + (got[i - 1] as u64);
                i = i - 1;
            }
            proof {
                assert(got@.skip(0) =~= got@);
                lemma_le_val_bound(got@);
                lemma_pow256_u64(got@.len());
            }
            acc
        },
    }
}

/// ASCII rendering of a value, matching [`render_m`].
pub fn render_value(v: &Value) -> (r: Vec<u8>)
    ensures
        r@ == render_m(v@),
    decreases *v,
{
    match v {
        Value::Int(n) => crate::text::render_dec(*n),
        Value::Bytes(bts) => crate::text::render_hex(bts),
        Value::Ints(l) => {
            let mut r: Vec<u8> = Vec::new();
            let mut i: usize = 0;
            while i < l.len()
                invariant
                    i <= l@.len(),
                    r@ == dec_join(l@.take(i as int)),
                decreases l@.len() - i,
            {
                if i > 0 {
                    r.push(0x20);
                }
                let mut d = crate::text::render_dec(l[i]);
                r.append(&mut d);
                proof {
                    let t = l@.take(i + 1 as int);
                    assert(t.drop_last() =~= l@.take(i as int));
                    assert(t.last() == l@[i as int]);
                }
                i = i + 1;
            }
            proof {
                assert(l@.take(l@.len() as int) =~= l@);
            }
            r
        },
        Value::PairV(a, b) => {
            let mut r = render_value(&**a);
            r.push(0x2c);
            r.push(0x20);
            let mut rb = render_value(&**b);
            r.append(&mut rb);
            r
        },
        Value::Unit => Vec::new(),
    }
}

/// Result of one step of the machine.
pub enum StepOut {
    More { st: PState, prompts: Vec<Prompt> },
    Done { value: Value, prompts: Vec<Prompt> },
    Fail,
}

/// How a machine step corresponds to a model step.
pub open spec fn step_out_rel(m: MStep, r: StepOut) -> bool {
    match r {
        StepOut::More { st, prompts } => m == MStep::More(st@, prompts_view(prompts@)),
        StepOut::Done { value, prompts } => m == MStep::Done(value@, prompts_view(prompts@)),
        StepOut::Fail => m == MStep::Fail,
    }
}

/// Feed one byte to a paused parser.
pub fn step(st: PState, b: u8) -> (r: StepOut)
    requires
        st_inv(st@),
    ensures
        step_out_rel(step_m(st@, b), r),
        r matches StepOut::More { st: s2, .. } ==> st_inv(s2@),
    decreases st,
{
    proof {
        assert(prompts_view(Seq::<Prompt>::empty()) =~= Seq::<MPrompt>::empty());
    }
    match st {
        PState::Num { w, e, got } => {
            let mut got = got;
            got.push(b);
            let width = width_len(w);
            if got.len() == width {
                let n = uint_from(e, &got);
                StepOut::Done { value: Value::Int(n), prompts: Vec::new() }
            } else {
                StepOut::More { st: PState::Num { w, e, got }, prompts: Vec::new() }
            }
        },
        PState::Raw { n, got } => {
            let mut got = got;
            got.push(b);
            if got.len() == n {
                StepOut::Done { value: Value::Bytes(got), prompts: Vec::new() }
            } else {
                StepOut::More { st: PState::Raw { n, got }, prompts: Vec::new() }
            }
        },
        PState::Len { w, e, got, elem, max } => {
            let mut got = got;
            got.push(b);
            let width = width_len(w);
            if got.len() == width {
                let cnt = uint_from(e, &got);
                if cnt > max as u64 {
                    StepOut::Fail
                } else if cnt == 0 {
                    let value = if elem_is_uint(&elem) {
                        Value::Ints(Vec::new())
                    } else {
                        Value::Unit
                    };
                    StepOut::Done { value, prompts: Vec::new() }
                } else {
                    let fresh = (*elem).clone();
                    StepOut::More {
                        st: PState::Elems {
                            elem,
                            remaining: cnt as usize,
                            vals: Vec::new(),
                            cur: Box::new(init(fresh)),
                        },
                        prompts: Vec::new(),
                    }
                }
            } else {
                StepOut::More { st: PState::Len { w, e, got, elem, max }, prompts: Vec::new() }
            }
        },
        PState::Elems { elem, remaining, vals, cur } => {
            match step(*cur, b) {
                StepOut::Fail => StepOut::Fail,
                StepOut::More { st: c2, prompts } => StepOut::More {
                    st: PState::Elems { elem, remaining, vals, cur: Box::new(c2) },
                    prompts,
                },
                StepOut::Done { value, prompts } => {
                    let mut vals = vals;
                    match &value {
                        Value::Int(n) => vals.push(*n),
                        _ => (),
                    }
                    if remaining == 1 {
                        let out = if elem_is_uint(&elem) {
                            Value::Ints(vals)
                        } else {
                            Value::Unit
                        };
                        StepOut::Done { value: out, prompts }
                    } else {
                        let fresh = (*elem).clone();
                        StepOut::More {
                            st: PState::Elems {
                                elem,
                                remaining: remaining - 1,
                                vals,
                                cur: Box::new(init(fresh)),
                            },
                            prompts,
                        }
                    }
                },
            }
        },
        PState::First { cur, next } => {
            match step(*cur, b) {
                StepOut::Fail => StepOut::Fail,
                StepOut::More { st: c2, prompts } => StepOut::More {
                    st: PState::First { cur: Box::new(c2), next },
                    prompts,
                },
                StepOut::Done { value, prompts } => StepOut::More {
                    st: PState::Second { first: Box::new(value), cur: Box::new(init(*next)) },
                    prompts,
                },
            }
        },
        PState::Second { first, cur } => {
            match step(*cur, b) {
                StepOut::Fail => StepOut::Fail,
                StepOut::More { st: c2, prompts } => StepOut::More {
                    st: PState::Second { first, cur: Box::new(c2) },
                    prompts,
                },
                StepOut::Done { value, prompts } => StepOut::Done {
                    value: Value::PairV(first, Box::new(value)),
                    prompts,
                },
            }
        },
        PState::Acting { act, cur } => {
            match step(*cur, b) {
                StepOut::Fail => StepOut::Fail,
                StepOut::More { st: c2, prompts } => StepOut::More {
                    st: PState::Acting { act, cur: Box::new(c2) },
                    prompts,
                },
                StepOut::Done { value, prompts } => {
                    let ghost ps0 = prompts@;
                    let mut prompts = prompts;
                    let body = render_value(&value);
                    let Action::Prompt(title) = act;
                    prompts.push(Prompt { title, body });
                    proof {
                        assert(prompts_view(prompts@) =~= prompts_view(ps0).push(
                            prompt_m(act, value@),
                        ));
                    }
                    StepOut::Done { value, prompts }
                },
            }
        },
    }
}

/// Copy a prompt queue.
pub fn copy_prompts(q: &Vec<Prompt>) -> (r: Vec<Prompt>)
    ensures
        prompts_view(r@) == prompts_view(q@),
{
    let mut r: Vec<Prompt> = Vec::new();
    let mut i: usize = 0;
    while i < q.len()
        invariant
            i <= q@.len(),
            r@.len() == i,
            forall|j: int| 0 <= j < i ==> (#[trigger] r@[j])@ == q@[j]@,
        decreases q@.len() - i,
    {
        let p = Prompt { title: q[i].title, body: vstd::slice::slice_to_vec(q[i].body.as_slice()) };
        r.push(p);
        i = i + 1;
    }
    proof {
        assert(prompts_view(r@) =~= prompts_view(q@));
    }
    r
}

/// Prefix already-emitted prompts onto a drive outcome.
pub open spec fn prepend_m(ps: Seq<MPrompt>, d: MDrive) -> MDrive {
    match d {
        MDrive::Fail => MDrive::Fail,
        MDrive::More(s, ps2) => MDrive::More(s, ps + ps2),
        MDrive::Done(v, rest, ps2) => MDrive::Done(v, rest, ps + ps2),
    }
}

/// Outcome of feeding one chunk to a paused parser.
pub enum Resumed {
    /// The chunk is exhausted; the parser is paused here.
    Suspended(PState),
    /// The parser completed after consuming the given number of bytes.
    Complete(Value, usize),
    /// The input does not fit the schema.
    Failed,
}

/// A resumed chunk's outcome together with the prompts it emitted, in order.
pub struct ResumeOut {
    pub prompts: Vec<Prompt>,
    pub next: Resumed,
}

/// Feed the bytes of one chunk, in order, to a paused parser.  The outcome
/// is exactly the model's: driving the model state over the chunk's bytes.
/// Feeding a sequence chunk by chunk therefore reaches the same outcome as
/// feeding it whole (see [`lemma_chunk_invariance`]).
pub fn resume(st: PState, chunk: &Vec<u8>) -> (out: ResumeOut)
    requires
        st_inv(st@),
    ensures
        ({
            let d = drive_m(st@, chunk@);
            match out.next {
                Resumed::Suspended(s2) => d == MDrive::More(s2@, prompts_view(out.prompts@))
                    && st_inv(s2@),
                Resumed::Complete(v, used) => used <= chunk@.len() && d == MDrive::Done(
                    v@,
                    chunk@.skip(used as int),
                    prompts_view(out.prompts@),
                ),
                Resumed::Failed => d is Fail,
            }
        }),
{
    proof {
        assert(chunk@.skip(0) =~= chunk@);
    }
    resume_from(st, chunk, 0)
}

/// Feed the bytes of a chunk from position `i` on.
fn resume_from(st: PState, chunk: &Vec<u8>, i: usize) -> (out: ResumeOut)
    requires
        st_inv(st@),
        i <= chunk@.len(),
    ensures
        ({
            let d = drive_m(st@, chunk@.skip(i as int));
            match out.next {
                Resumed::Suspended(s2) => d == MDrive::More(s2@, prompts_view(out.prompts@))
                    && st_inv(s2@),
                Resumed::Complete(v, used) => i < used <= chunk@.len() && d == MDrive::Done(
                    v@,
                    chunk@.skip(used as int),
                    prompts_view(out.prompts@),
                ),
                Resumed::Failed => d is Fail,
            }
        }),
    decreases chunk@.len() - i,
{
    let ghost rest = chunk@.skip(i as int);
    if i == chunk.len() {
        proof {
            assert(prompts_view(Seq::<Prompt>::empty()) =~= Seq::<MPrompt>::empty());
        }
        return ResumeOut { prompts: Vec::new(), next: Resumed::Suspended(st) };
    }
    proof {
        assert(rest[0] == chunk@[i as int]);
        assert(rest.drop_first() =~= chunk@.skip(i + 1 as int));
    }
    let b = chunk[i];
    match step(st, b) {
        StepOut::Fail => ResumeOut { prompts: Vec::new(), next: Resumed::Failed },
        StepOut::Done { value, prompts } => ResumeOut {
            prompts,
            next: Resumed::Complete(value, i + 1),
        },
        StepOut::More { st: s2, prompts } => {
            let ghost psv = prompts@;
            let mut prompts = prompts;
            let mut out = resume_from(s2, chunk, i + 1);
            let ghost recv = out.prompts@;
            prompts.append(&mut out.prompts);
            proof {
                assert(prompts_view(prompts@) =~= prompts_view(psv) + prompts_view(recv));
            }
            ResumeOut { prompts, next: out.next }
        },
    }
}

/// Continuing a finished or paused drive with further bytes.
pub open spec fn extend_m(d: MDrive, b: Seq<u8>) -> MDrive {
    match d {
        MDrive::Fail => MDrive::Fail,
        MDrive::Done(v, rest, ps) => MDrive::Done(v, rest + b, ps),
        MDrive::More(s, ps) => prepend_m(ps, drive_m(s, b)),
    }
}

pub proof fn lemma_prepend_assoc(p: Seq<MPrompt>, q: Seq<MPrompt>, d: MDrive)
    ensures
        prepend_m(p, prepend_m(q, d)) == prepend_m(p + q, d),
{
    match d {
        MDrive::Fail => {},
        MDrive::More(s, r) => {
            assert(p + (q + r) =~= (p + q) + r);
        },
        MDrive::Done(v, rest, r) => {
            assert(p + (q + r) =~= (p + q) + r);
        },
    }
}

pub proof fn lemma_prepend_empty(d: MDrive)
    ensures
        prepend_m(Seq::empty(), d) == d,
{
    match d {
        MDrive::Fail => {},
        MDrive::More(s, r) => {
            assert(Seq::empty() + r =~= r);
        },
        MDrive::Done(v, rest, r) => {
            assert(Seq::empty() + r =~= r);
        },
    }
}

/// Driving the machine over `a + b` is driving it over `a`, then over `b`
/// from wherever `a` left it: no information is lost at a chunk boundary.
pub proof fn lemma_drive_append(st: MState, a: Seq<u8>, b: Seq<u8>)
    ensures
        drive_m(st, a + b) == extend_m(drive_m(st, a), b),
    decreases a.len(),
{
    if a.len() == 0 {
        assert(a + b =~= b);
        lemma_prepend_empty(drive_m(st, b));
    } else {
        assert((a + b)[0] == a[0]);
        assert((a + b).drop_first() =~= a.drop_first() + b);
        match step_m(st, a[0]) {
            MStep::Fail => {},
            MStep::Done(v, ps) => {},
            MStep::More(s2, ps) => {
                lemma_drive_append(s2, a.drop_first(), b);
                match drive_m(s2, a.drop_first()) {
                    MDrive::Fail => {},
                    MDrive::Done(v, r, ps2) => {},
                    MDrive::More(s3, ps2) => {
                        lemma_prepend_assoc(ps, ps2, drive_m(s3, b));
                    },
                }
            },
        }
    }
}

/// Feeding a partition of the input chunk by chunk: once the parser
/// completes or fails, later chunks are no longer fed and simply extend the
/// unconsumed rest.
pub open spec fn drive_chunks(st: MState, chunks: Seq<Seq<u8>>) -> MDrive
    decreases chunks.len(),
{
    if chunks.len() == 0 {
        MDrive::More(st, Seq::empty())
    } else {
        match drive_m(st, chunks.first()) {
            MDrive::Fail => MDrive::Fail,
            MDrive::Done(v, r, ps) => MDrive::Done(v, r + chunks.drop_first().flatten(), ps),
            MDrive::More(s2, ps) => prepend_m(ps, drive_chunks(s2, chunks.drop_first())),
        }
    }
}

/// Chunk invariance: for any machine state and any partition of a byte
/// sequence into chunks, feeding the chunks one resume at a time reaches the
/// same outcome — the same value or failure, the same prompts in the same
/// order, and the same unconsumed rest — as feeding the whole sequence at
/// once.
pub proof fn lemma_chunk_invariance(st: MState, chunks: Seq<Seq<u8>>)
    ensures
        drive_chunks(st, chunks) == drive_m(st, chunks.flatten()),
    decreases chunks.len(),
{
    if chunks.len() == 0 {
        assert(chunks.flatten() =~= Seq::<u8>::empty());
    } else {
        lemma_drive_append(st, chunks.first(), chunks.drop_first().flatten());
        match drive_m(st, chunks.first()) {
            MDrive::Fail => {},
            MDrive::Done(v, r, ps) => {},
            MDrive::More(s2, ps) => {
                lemma_chunk_invariance(s2, chunks.drop_first());
            },
        }
    }
}

} // verus!
