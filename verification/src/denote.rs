//! The denotation of a schema, and the proof that the byte-at-a-time
//! machine computes it.
//!
//! [`parse_den`] says directly what a schema parses from a byte sequence:
//! an integer field takes its width's bytes, a pair parses one schema after
//! the other, a bounded sequence reads its length prefix and then that many
//! elements.  The theorem [`lemma_machine_denotation`] shows that driving
//! the machine from a schema's initial state reaches exactly this outcome:
//! the same value, the same unconsumed rest, the same prompts.  Together
//! with chunk invariance this is the engine's contract: any partition of
//! the input, fed chunk by chunk, parses as the denotation says.

use vstd::prelude::*;
use crate::engine::{
    Action, Endian, MDrive, MPrompt, MState, MStep, MValue, Schema, Width, drive_chunks, drive_m,
    init_m, lemma_chunk_invariance, lemma_prepend_assoc, lemma_prepend_empty, list_val, prompt_m,
    prepend_m, schema_wf, st_inv, step_m, uint_val, width_of,
};

verus! {

/// Outcome of parsing a whole byte sequence against a schema: more input
/// needed, done with a value, the unconsumed rest and the emitted prompts,
/// or failure.
pub enum MParse {
    More,
    Done(MValue, Seq<u8>, Seq<MPrompt>),
    Fail,
}

/// Outcome of parsing a fixed number of sequence elements.
pub enum MParseL {
    LMore,
    LDone(Seq<u64>, Seq<u8>, Seq<MPrompt>),
    LFail,
}

/// What a schema parses from a byte sequence, in one pass.
pub open spec fn parse_den(s: Schema, bs: Seq<u8>) -> MParse
    decreases s, 0nat, 0nat,
{
    match s {
        Schema::UInt(w, e) => if bs.len() < width_of(w) {
            MParse::More
        } else {
            MParse::Done(
                MValue::Int(uint_val(e, bs.take(width_of(w) as int))),
                bs.skip(width_of(w) as int),
                Seq::empty(),
            )
        },
        Schema::Bytes(n) => if bs.len() < n {
            MParse::More
        } else {
            MParse::Done(MValue::Bytes(bs.take(n as int)), bs.skip(n as int), Seq::empty())
        },
        Schema::DArray(w, e, elem, max) => if bs.len() < width_of(w) {
            MParse::More
        } else {
            let cnt = uint_val(e, bs.take(width_of(w) as int));
            if cnt > max as u64 {
                MParse::Fail
            } else {
                match parse_den_list(*elem, cnt as nat, bs.skip(width_of(w) as int)) {
                    MParseL::LMore => MParse::More,
                    MParseL::LFail => MParse::Fail,
                    MParseL::LDone(ints, rest, ps) => MParse::Done(
                        list_val(*elem, ints),
                        rest,
                        ps,
                    ),
                }
            }
        },
        Schema::Pair(a, b) => match parse_den(*a, bs) {
            MParse::More => MParse::More,
            MParse::Fail => MParse::Fail,
            MParse::Done(v1, r1, p1) => match parse_den(*b, r1) {
                MParse::More => MParse::More,
                MParse::Fail => MParse::Fail,
                MParse::Done(v2, r2, p2) => MParse::Done(
                    MValue::PairV(Box::new(v1), Box::new(v2)),
                    r2,
                    p1 + p2,
                ),
            },
        },
        Schema::Act(inner, act) => match parse_den(*inner, bs) {
            MParse::More => MParse::More,
            MParse::Fail => MParse::Fail,
            MParse::Done(v, r, p) => MParse::Done(v, r, p.push(prompt_m(act, v))),
        },
    }
}

/// What `n` consecutive elements of a schema parse from a byte sequence,
/// collecting integer element values.
pub open spec fn parse_den_list(elem: Schema, n: nat, bs: Seq<u8>) -> MParseL
    decreases elem, 1nat, n,
{
    if n == 0 {
        MParseL::LDone(Seq::empty(), bs, Seq::empty())
    } else {
        match parse_den(elem, bs) {
            MParse::More => MParseL::LMore,
            MParse::Fail => MParseL::LFail,
            MParse::Done(v, r, p) => match parse_den_list(elem, (n - 1) as nat, r) {
                MParseL::LMore => MParseL::LMore,
                MParseL::LFail => MParseL::LFail,
                MParseL::LDone(ints, r2, p2) => MParseL::LDone(
                    (if v matches MValue::Int(i) {
                        seq![v->Int_0]
                    } else {
                        Seq::empty()
                    }) + ints,
                    r2,
                    p + p2,
                ),
            },
        }
    }
}

/// How a denotation outcome corresponds to a machine drive: completion and
/// failure agree exactly; where the denotation needs more input, the
/// machine is suspended.
pub open spec fn den_matches(pd: MParse, d: MDrive) -> bool {
    match pd {
        MParse::More => d is More,
        MParse::Fail => d is Fail,
        MParse::Done(v, r, p) => d == MDrive::Done(v, r, p),
    }
}

/// The initial state of a well-formed schema is well-formed.
pub proof fn lemma_init_inv(s: Schema)
    requires
        schema_wf(s),
    ensures
        st_inv(init_m(s)),
    decreases s,
{
    match s {
        Schema::UInt(w, e) => {},
        Schema::Bytes(n) => {},
        Schema::DArray(w, e, elem, max) => {},
        Schema::Pair(a, b) => {
            lemma_init_inv(*a);
        },
        Schema::Act(inner, act) => {
            lemma_init_inv(*inner);
        },
    }
}

proof fn lemma_empty_prompts()
    ensures
        Seq::<MPrompt>::empty() + Seq::<MPrompt>::empty() =~= Seq::<MPrompt>::empty(),
{
}

/// Driving an integer field: it consumes exactly the bytes that complete
/// its width and yields their value.
proof fn lemma_drive_num(w: Width, e: Endian, g: Seq<u8>, bs: Seq<u8>)
    requires
        g.len() < width_of(w),
    ensures
        drive_m(MState::Num { w, e, got: g }, bs) == (if g.len() + bs.len() < width_of(w) {
            MDrive::More(MState::Num { w, e, got: g + bs }, Seq::<MPrompt>::empty())
        } else {
            MDrive::Done(
                MValue::Int(uint_val(e, g + bs.take(width_of(w) - g.len()))),
                bs.skip(width_of(w) - g.len()),
                Seq::<MPrompt>::empty(),
            )
        }),
    decreases bs.len(),
{
    let width = width_of(w) as int;
    if bs.len() == 0 {
        assert(g + bs =~= g);
    } else {
        let b = bs[0];
        let g2 = g.push(b);
        if g2.len() == width_of(w) {
            assert(g + bs.take(width - g.len()) =~= g2);
            assert(bs.skip(width - g.len()) =~= bs.drop_first());
        } else {
            lemma_drive_num(w, e, g2, bs.drop_first());
            lemma_empty_prompts();
            if g2.len() + bs.drop_first().len() < width_of(w) {
                assert(g2 + bs.drop_first() =~= g + bs);
            } else {
                assert(g2 + bs.drop_first().take(width - g2.len()) =~= g + bs.take(
                    width - g.len(),
                ));
                assert(bs.drop_first().skip(width - g2.len()) =~= bs.skip(width - g.len()));
            }
        }
    }
}

/// Driving a fixed-size byte array: it consumes exactly its size and
/// yields those bytes.
proof fn lemma_drive_raw(n: usize, g: Seq<u8>, bs: Seq<u8>)
    requires
        g.len() < n,
    ensures
        drive_m(MState::Raw { n, got: g }, bs) == (if g.len() + bs.len() < n {
            MDrive::More(MState::Raw { n, got: g + bs }, Seq::<MPrompt>::empty())
        } else {
            MDrive::Done(
                MValue::Bytes(g + bs.take(n - g.len())),
                bs.skip(n - g.len()),
                Seq::<MPrompt>::empty(),
            )
        }),
    decreases bs.len(),
{
    if bs.len() == 0 {
        assert(g + bs =~= g);
    } else {
        let b = bs[0];
        let g2 = g.push(b);
        if g2.len() == n {
            assert(g + bs.take(n - g.len()) =~= g2);
            assert(bs.skip(n - g.len()) =~= bs.drop_first());
        } else {
            lemma_drive_raw(n, g2, bs.drop_first());
            lemma_empty_prompts();
            if g2.len() + bs.drop_first().len() < n {
                assert(g2 + bs.drop_first() =~= g + bs);
            } else {
                assert(g2 + bs.drop_first().take(n - g2.len()) =~= g + bs.take(n - g.len()));
                assert(bs.drop_first().skip(n - g2.len()) =~= bs.skip(n - g.len()));
            }
        }
    }
}

/// Driving a length prefix: once the prefix completes, the machine fails on
/// an oversized count, finishes an empty sequence, or goes on to read the
/// elements.
proof fn lemma_drive_len(w: Width, e: Endian, g: Seq<u8>, elem: Schema, max: usize, bs: Seq<u8>)
    requires
        g.len() < width_of(w),
    ensures
        drive_m(MState::Len { w, e, got: g, elem, max }, bs) == (if g.len() + bs.len()
            < width_of(w) {
            MDrive::More(MState::Len { w, e, got: g + bs, elem, max }, Seq::<MPrompt>::empty())
        } else {
            let cnt = uint_val(e, g + bs.take(width_of(w) - g.len()));
            let rest = bs.skip(width_of(w) - g.len());
            if cnt > max as u64 {
                MDrive::Fail
            } else if cnt == 0 {
                MDrive::Done(list_val(elem, Seq::empty()), rest, Seq::<MPrompt>::empty())
            } else {
                drive_m(
                    MState::Elems {
                        elem,
                        remaining: cnt as usize,
                        vals: Seq::empty(),
                        cur: Box::new(init_m(elem)),
                    },
                    rest,
                )
            }
        }),
    decreases bs.len(),
{
    let width = width_of(w) as int;
    if bs.len() == 0 {
        assert(g + bs =~= g);
    } else {
        let b = bs[0];
        let g2 = g.push(b);
        if g2.len() == width_of(w) {
            assert(g + bs.take(width - g.len()) =~= g2);
            assert(bs.skip(width - g.len()) =~= bs.drop_first());
            let cnt = uint_val(e, g2);
            if cnt > max as u64 {
            } else if cnt == 0 {
            } else {
                let st2 = MState::Elems {
                    elem,
                    remaining: cnt as usize,
                    vals: Seq::empty(),
                    cur: Box::new(init_m(elem)),
                };
                lemma_prepend_empty(drive_m(st2, bs.drop_first()));
            }
        } else {
            lemma_drive_len(w, e, g2, elem, max, bs.drop_first());
            lemma_empty_prompts();
            if g2.len() + bs.drop_first().len() < width_of(w) {
                assert(g2 + bs.drop_first() =~= g + bs);
            } else {
                assert(g2 + bs.drop_first().take(width - g2.len()) =~= g + bs.take(
                    width - g.len(),
                ));
                assert(bs.drop_first().skip(width - g2.len()) =~= bs.skip(width - g.len()));
                let cnt = uint_val(e, g + bs.take(width - g.len()));
                let rest = bs.skip(width - g.len());
                if 0 < cnt <= max as u64 {
                    let st2 = MState::Elems {
                        elem,
                        remaining: cnt as usize,
                        vals: Seq::empty(),
                        cur: Box::new(init_m(elem)),
                    };
                    lemma_prepend_empty(drive_m(st2, rest));
                }
            }
        }
    }
}

/// The integer values a completed element contributes to its sequence.
pub open spec fn elem_ints(v: MValue) -> Seq<u64> {
    if v matches MValue::Int(i) {
        seq![v->Int_0]
    } else {
        Seq::empty()
    }
}

/// Driving a sequence-element state follows the element's own drive; when
/// an element completes mid-sequence, the machine starts the next element
/// on the rest.
proof fn lemma_drive_elems(elem: Schema, rem: usize, vals: Seq<u64>, cur: MState, bs: Seq<u8>)
    requires
        1 <= rem,
    ensures
        ({
            let st = MState::Elems { elem, remaining: rem, vals, cur: Box::new(cur) };
            match drive_m(cur, bs) {
                MDrive::Fail => drive_m(st, bs) == MDrive::Fail,
                MDrive::More(c2, p) => drive_m(st, bs) == MDrive::More(
                    MState::Elems { elem, remaining: rem, vals, cur: Box::new(c2) },
                    p,
                ),
                MDrive::Done(v, r, p) => if rem == 1 {
                    drive_m(st, bs) == MDrive::Done(list_val(elem, vals + elem_ints(v)), r, p)
                } else {
                    drive_m(st, bs) == prepend_m(
                        p,
                        drive_m(
                            MState::Elems {
                                elem,
                                remaining: (rem - 1) as usize,
                                vals: vals + elem_ints(v),
                                cur: Box::new(init_m(elem)),
                            },
                            r,
                        ),
                    )
                },
            }
        }),
    decreases bs.len(),
{
    let st = MState::Elems { elem, remaining: rem, vals, cur: Box::new(cur) };
    if bs.len() == 0 {
    } else {
        let b = bs[0];
        match step_m(cur, b) {
            MStep::Fail => {},
            MStep::Done(v, ps) => {
                let vals2 = vals + elem_ints(v);
                assert(v matches MValue::Int(i) ==> vals2 =~= vals.push(v->Int_0));
                assert(!(v matches MValue::Int(i)) ==> vals2 =~= vals);
                if rem == 1 {
                } else {
                    let st2 = MState::Elems {
                        elem,
                        remaining: (rem - 1) as usize,
                        vals: vals2,
                        cur: Box::new(init_m(elem)),
                    };
                    assert(drive_m(st, bs) == prepend_m(ps, drive_m(st2, bs.drop_first())));
                }
            },
            MStep::More(c2, ps) => {
                lemma_drive_elems(elem, rem, vals, c2, bs.drop_first());
                let d2 = drive_m(c2, bs.drop_first());
                match d2 {
                    MDrive::Fail => {},
                    MDrive::More(c3, p2) => {},
                    MDrive::Done(v, r, p2) => {
                        if rem == 1 {
                        } else {
                            let st3 = MState::Elems {
                                elem,
                                remaining: (rem - 1) as usize,
                                vals: vals + elem_ints(v),
                                cur: Box::new(init_m(elem)),
                            };
                            lemma_prepend_assoc(ps, p2, drive_m(st3, r));
                        }
                    },
                }
            },
        }
    }
}

/// Driving the first half of a pair follows the first schema's drive; on
/// its completion the machine turns to the second schema.
proof fn lemma_drive_first(cur: MState, nxt: Schema, bs: Seq<u8>)
    ensures
        ({
            let st = MState::First { cur: Box::new(cur), next: nxt };
            match drive_m(cur, bs) {
                MDrive::Fail => drive_m(st, bs) == MDrive::Fail,
                MDrive::More(c2, p) => drive_m(st, bs) == MDrive::More(
                    MState::First { cur: Box::new(c2), next: nxt },
                    p,
                ),
                MDrive::Done(v, r, p) => drive_m(st, bs) == prepend_m(
                    p,
                    drive_m(
                        MState::Second { first: Box::new(v), cur: Box::new(init_m(nxt)) },
                        r,
                    ),
                ),
            }
        }),
    decreases bs.len(),
{
    if bs.len() == 0 {
    } else {
        match step_m(cur, bs[0]) {
            MStep::Fail => {},
            MStep::Done(v, ps) => {},
            MStep::More(c2, ps) => {
                lemma_drive_first(c2, nxt, bs.drop_first());
                match drive_m(c2, bs.drop_first()) {
                    MDrive::Fail => {},
                    MDrive::More(c3, p2) => {},
                    MDrive::Done(v, r, p2) => {
                        let st3 = MState::Second {
                            first: Box::new(v),
                            cur: Box::new(init_m(nxt)),
                        };
                        lemma_prepend_assoc(ps, p2, drive_m(st3, r));
                    },
                }
            },
        }
    }
}

/// Driving the second half of a pair follows the second schema's drive and
/// pairs the values on completion.
proof fn lemma_drive_second(first: MValue, cur: MState, bs: Seq<u8>)
    ensures
        ({
            let st = MState::Second { first: Box::new(first), cur: Box::new(cur) };
            match drive_m(cur, bs) {
                MDrive::Fail => drive_m(st, bs) == MDrive::Fail,
                MDrive::More(c2, p) => drive_m(st, bs) == MDrive::More(
                    MState::Second { first: Box::new(first), cur: Box::new(c2) },
                    p,
                ),
                MDrive::Done(v, r, p) => drive_m(st, bs) == MDrive::Done(
                    MValue::PairV(Box::new(first), Box::new(v)),
                    r,
                    p,
                ),
            }
        }),
    decreases bs.len(),
{
    if bs.len() == 0 {
    } else {
        match step_m(cur, bs[0]) {
            MStep::Fail => {},
            MStep::Done(v, ps) => {},
            MStep::More(c2, ps) => {
                lemma_drive_second(first, c2, bs.drop_first());
            },
        }
    }
}

/// Driving an action node follows the inner drive and appends the action's
/// prompt on completion.
proof fn lemma_drive_act(act: Action, cur: MState, bs: Seq<u8>)
    ensures
        ({
            let st = MState::Acting { act, cur: Box::new(cur) };
            match drive_m(cur, bs) {
                MDrive::Fail => drive_m(st, bs) == MDrive::Fail,
                MDrive::More(c2, p) => drive_m(st, bs) == MDrive::More(
                    MState::Acting { act, cur: Box::new(c2) },
                    p,
                ),
                MDrive::Done(v, r, p) => drive_m(st, bs) == MDrive::Done(
                    v,
                    r,
                    p.push(prompt_m(act, v)),
                ),
            }
        }),
    decreases bs.len(),
{
    if bs.len() == 0 {
    } else {
        match step_m(cur, bs[0]) {
            MStep::Fail => {},
            MStep::Done(v, ps) => {},
            MStep::More(c2, ps) => {
                lemma_drive_act(act, c2, bs.drop_first());
                match drive_m(c2, bs.drop_first()) {
                    MDrive::Fail => {},
                    MDrive::More(c3, p2) => {},
                    MDrive::Done(v, r, p2) => {
                        assert(ps + p2.push(prompt_m(act, v)) =~= (ps + p2).push(
                            prompt_m(act, v),
                        ));
                    },
                }
            },
        }
    }
}

/// The machine computes the denotation: driving a well-formed schema's
/// initial state over any byte sequence reaches exactly the outcome of the
/// one-pass parse — the same value, the same unconsumed rest, the same
/// prompts in the same order.
pub proof fn lemma_machine_denotation(s: Schema, bs: Seq<u8>)
    requires
        schema_wf(s),
    ensures
        den_matches(parse_den(s, bs), drive_m(init_m(s), bs)),
    decreases s, 0nat, 0nat,
{
    match s {
        Schema::UInt(w, e) => {
            lemma_drive_num(w, e, Seq::empty(), bs);
            if bs.len() >= width_of(w) {
                assert(Seq::<u8>::empty() + bs.take(width_of(w) as int) =~= bs.take(
                    width_of(w) as int,
                ));
            }
        },
        Schema::Bytes(n) => {
            lemma_drive_raw(n, Seq::empty(), bs);
            if bs.len() >= n {
                assert(Seq::<u8>::empty() + bs.take(n as int) =~= bs.take(n as int));
            }
        },
        Schema::DArray(w, e, elem, max) => {
            lemma_drive_len(w, e, Seq::empty(), *elem, max, bs);
            if bs.len() >= width_of(w) {
                assert(Seq::<u8>::empty() + bs.take(width_of(w) as int) =~= bs.take(
                    width_of(w) as int,
                ));
                let cnt = uint_val(e, bs.take(width_of(w) as int));
                let rest = bs.skip(width_of(w) as int);
                if cnt <= max as u64 && cnt > 0 {
                    lemma_den_list(*elem, cnt as usize, Seq::empty(), rest);
                    match parse_den_list(*elem, cnt as nat, rest) {
                        MParseL::LMore => {},
                        MParseL::LFail => {},
                        MParseL::LDone(ints, r2, p2) => {
                            assert(Seq::<u64>::empty() + ints =~= ints);
                        },
                    }
                }
            }
        },
        Schema::Pair(a, b) => {
            lemma_init_inv(*a);
            lemma_machine_denotation(*a, bs);
            lemma_drive_first(init_m(*a), *b, bs);
            match parse_den(*a, bs) {
                MParse::More => {},
                MParse::Fail => {},
                MParse::Done(v1, r1, p1) => {
                    lemma_init_inv(*b);
                    lemma_machine_denotation(*b, r1);
                    lemma_drive_second(v1, init_m(*b), r1);
                    match parse_den(*b, r1) {
                        MParse::More => {},
                        MParse::Fail => {},
                        MParse::Done(v2, r2, p2) => {},
                    }
                },
            }
        },
        Schema::Act(inner, act) => {
            lemma_init_inv(*inner);
            lemma_machine_denotation(*inner, bs);
            lemma_drive_act(act, init_m(*inner), bs);
        },
    }
}

/// The machine computes the element-sequence denotation: starting a fresh
/// element with `n` elements to go, the drive reaches the outcome of
/// parsing `n` elements one after the other, extending the values already
/// collected.
proof fn lemma_den_list(elem: Schema, n: usize, vals: Seq<u64>, bs: Seq<u8>)
    requires
        schema_wf(elem),
        1 <= n,
    ensures
        ({
            let st = MState::Elems {
                elem,
                remaining: n,
                vals,
                cur: Box::new(init_m(elem)),
            };
            match parse_den_list(elem, n as nat, bs) {
                MParseL::LMore => drive_m(st, bs) is More,
                MParseL::LFail => drive_m(st, bs) is Fail,
                MParseL::LDone(ints, r, p) => drive_m(st, bs) == MDrive::Done(
                    list_val(elem, vals + ints),
                    r,
                    p,
                ),
            }
        }),
    decreases elem, 1nat, n,
{
    lemma_machine_denotation(elem, bs);
    lemma_drive_elems(elem, n, vals, init_m(elem), bs);
    match parse_den(elem, bs) {
        MParse::More => {},
        MParse::Fail => {},
        MParse::Done(v, r, p) => {
            assert(drive_m(init_m(elem), bs) == MDrive::Done(v, r, p));
            if n == 1 {
                assert(parse_den_list(elem, 0, r) == MParseL::LDone(
                    Seq::<u64>::empty(),
                    r,
                    Seq::<MPrompt>::empty(),
                ));
                assert(elem_ints(v) + Seq::<u64>::empty() =~= elem_ints(v));
                assert(p + Seq::<MPrompt>::empty() =~= p);
            } else {
                let vals2 = vals + elem_ints(v);
                lemma_den_list(elem, (n - 1) as usize, vals2, r);
                match parse_den_list(elem, (n - 1) as nat, r) {
                    MParseL::LMore => {},
                    MParseL::LFail => {},
                    MParseL::LDone(ints2, r2, p2) => {
                        assert(vals + (elem_ints(v) + ints2) =~= vals2 + ints2);
                    },
                }
            }
        },
    }
}

/// The engine's contract in one statement: feeding any partition of a byte
/// sequence to a well-formed schema's parser, one chunk per resume, reaches
/// exactly the one-pass denotation of the whole sequence — the same value
/// or the same failure, with the same prompts.
pub proof fn lemma_chunked_parse_denotation(s: Schema, chunks: Seq<Seq<u8>>)
    requires
        schema_wf(s),
    ensures
        den_matches(parse_den(s, chunks.flatten()), drive_chunks(init_m(s), chunks)),
{
    lemma_chunk_invariance(init_m(s), chunks);
    lemma_machine_denotation(s, chunks.flatten());
}

} // verus!
