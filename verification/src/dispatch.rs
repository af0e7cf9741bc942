//! The persistent computation slot and the instruction dispatcher.
//!
//! Exactly one paused computation is alive at a time.  A command event
//! resumes the matching computation or starts a fresh one in place; a
//! completed or failed command, or an explicit cancel, returns the slot to
//! `NoState`, wiping any key material held in flight.

use vstd::prelude::*;
use crate::crypto::{
    derived_key_of, pubkey_of, sha256, sha256_of, signature_of, derive_key, public_key,
    sign_message, wipe_bytes,
};
use crate::diag::{DiagState, MDiag, diag_inv, test_parsers_parser, test_parsers_schema_m};
use crate::engine::{
    MDrive, MPrompt, MState, MValue, PState, Prompt, PromptTitle, Resumed, Value,
    drive_m, init, init_m, prompts_view, resume, st_inv,
};
use crate::interface::{
    AppError, Command, Ins, MCmd, MReply, Reply, bip32_path_schema, bip32_path_schema_m, ins_of,
};
use crate::section::{sec_valid, section_valid};
use crate::session::{MSign, SignState, m_feed_candidate, m_feed_section, m_finish_body,
    m_validate_ok, sign_inv};
use crate::store::ChunkStore;
use crate::text::hex_bytes;

verus! {

/// The single slot holding the one paused computation, if any.
pub enum ParsersState {
    /// Idle: no computation in flight.
    NoState,
    /// A paused public-key request: the path parser's state.
    GetAddressState(PState),
    /// A paused sign session.
    SignState(SignState),
    /// A paused diagnostic run.
    TestParsersState(DiagState),
}

/// Model of the computation slot.
pub enum MComp {
    NoState,
    GetAddr(MState),
    Sign(MSign),
    Diag(MDiag),
}

impl View for ParsersState {
    type V = MComp;

    open spec fn view(&self) -> MComp {
        match self {
            ParsersState::NoState => MComp::NoState,
            ParsersState::GetAddressState(p) => MComp::GetAddr(crate::engine::pstate_view(*p)),
            ParsersState::SignState(s) => MComp::Sign(s@),
            ParsersState::TestParsersState(d) => MComp::Diag(d@),
        }
    }
}

/// Slot well-formedness, preserved by every dispatcher operation.
pub open spec fn comp_inv(c: MComp) -> bool {
    match c {
        MComp::NoState => true,
        MComp::GetAddr(p) => st_inv(p),
        MComp::Sign(s) => sign_inv(s),
        MComp::Diag(d) => diag_inv(d),
    }
}

/// Cancelling or finishing always returns the slot to idle.
pub open spec fn m_reset(c: MComp) -> MComp {
    MComp::NoState
}

/// Unconditionally return the slot to idle, wiping any key material that a
/// paused sign session still holds.
pub fn reset_parsers_state(state: &mut ParsersState)
    ensures
        final(state)@ == m_reset(old(state)@),
{
    let mut tmp = ParsersState::NoState;
    core::mem::swap(state, &mut tmp);
    match tmp {
        ParsersState::SignState(SignState::Confirm { signed_hash, mut key }) => {
            wipe_bytes(&mut key);
        },
        _ => (),
    }
}

/// Make sure the slot holds a public-key computation: keep one already in
/// progress, otherwise discard what was there and start afresh.
pub fn get_get_address_state(state: &mut ParsersState)
    ensures
        final(state)@ == (match old(state)@ {
            MComp::GetAddr(p) => MComp::GetAddr(p),
            _ => MComp::GetAddr(init_m(bip32_path_schema_m())),
        }),
        comp_inv(old(state)@) ==> comp_inv(final(state)@),
{
    match state {
        ParsersState::GetAddressState(_) => (),
        _ => {
            *state = ParsersState::GetAddressState(init(bip32_path_schema()));
        },
    }
}

/// Make sure the slot holds a sign session: keep one already in progress,
/// otherwise discard what was there and start afresh.
pub fn get_sign_state(state: &mut ParsersState)
    ensures
        final(state)@ == (match old(state)@ {
            MComp::Sign(s) => MComp::Sign(s),
            _ => MComp::Sign(crate::session::fresh_session()),
        }),
        comp_inv(old(state)@) ==> comp_inv(final(state)@),
{
    match state {
        ParsersState::SignState(_) => (),
        _ => {
            *state = ParsersState::SignState(SignState::begin());
        },
    }
}

/// Make sure the slot holds a diagnostic run: keep one already in progress,
/// otherwise discard what was there and start afresh.
pub fn get_test_parsers_state(state: &mut ParsersState)
    ensures
        final(state)@ == (match old(state)@ {
            MComp::Diag(d) => MComp::Diag(d),
            _ => MComp::Diag(
                MDiag::Parsing {
                    pst: init_m(test_parsers_schema_m()),
                    queue: Seq::empty(),
                },
            ),
        }),
        comp_inv(old(state)@) ==> comp_inv(final(state)@),
{
    match state {
        ParsersState::TestParsersState(_) => (),
        _ => {
            *state = ParsersState::TestParsersState(
                DiagState::Parsing { pst: init(test_parsers_parser()), queue: Vec::new() },
            );
            proof {
                assert(prompts_view(Seq::<Prompt>::empty()) =~= Seq::<MPrompt>::empty());
            }
        },
    }
}

/// The derivation path encoded in a parsed value: the collected child
/// numbers, each of which must fit 32 bits.
pub open spec fn path_of_value(v: MValue) -> Option<Seq<u32>> {
    match v {
        MValue::Ints(l) => if forall|k: int| 0 <= k < l.len() ==> (#[trigger] l[k]) <= u32::MAX {
            Option::Some(l.map_values(|x: u64| x as u32))
        } else {
            Option::None
        },
        _ => Option::None,
    }
}

/// The public-key reply: the 65-byte key, then its hex-rendered content
/// address, each length-prefixed.
pub open spec fn addr_reply(pk: Seq<u8>) -> Seq<u8> {
    seq![65u8] + pk + seq![64u8] + hex_bytes(sha256_of(pk))
}

/// One public-key command against the slot: resume or begin the path
/// parser, and on completion derive and reply.
pub open spec fn m_get_address(comp: MComp, seed: Seq<u8>, chunk: Seq<u8>) -> (MComp, MReply) {
    let pst0 = match comp {
        MComp::GetAddr(p) => p,
        _ => init_m(bip32_path_schema_m()),
    };
    match drive_m(pst0, chunk) {
        MDrive::More(p2, ps) => (MComp::GetAddr(p2), MReply::MoreNeeded),
        MDrive::Fail => (MComp::NoState, MReply::Failed(AppError::Malformed)),
        MDrive::Done(v, rest, ps) => if rest.len() != 0 {
            (MComp::NoState, MReply::Failed(AppError::Malformed))
        } else {
            match path_of_value(v) {
                Option::None => (MComp::NoState, MReply::Failed(AppError::Malformed)),
                Option::Some(path) => match derived_key_of(seed, path) {
                    Option::None => (MComp::NoState, MReply::Failed(AppError::Malformed)),
                    Option::Some(key) => match pubkey_of(key) {
                        Option::None => (MComp::NoState, MReply::Failed(AppError::Malformed)),
                        Option::Some(pk) => (
                            MComp::NoState,
                            MReply::Replied(seq![addr_reply(pk)]),
                        ),
                    },
                },
            }
        },
    }
}

/// One sign command against the slot, driven by the phase the session is in
/// and the terminal flag.
pub open spec fn m_sign(comp: MComp, seed: Seq<u8>, p1: u8, chunk: Seq<u8>) -> (MComp, MReply) {
    let s0 = match comp {
        MComp::Sign(s) => s,
        _ => crate::session::fresh_session(),
    };
    match s0 {
        MSign::Body { tmpl, signed } => if p1 == 0 {
            if sec_valid(chunk) {
                (MComp::Sign(m_feed_section(s0, chunk)), MReply::MoreNeeded)
            } else {
                (MComp::NoState, MReply::Failed(AppError::Malformed))
            }
        } else {
            (MComp::Sign(m_finish_body(s0)), MReply::MoreNeeded)
        },
        MSign::Validate { checksum, signed_hash, meta, found, cands } => if p1 == 0 {
            if chunk.len() == 32 {
                (MComp::Sign(m_feed_candidate(s0, chunk)), MReply::MoreNeeded)
            } else {
                (MComp::NoState, MReply::Failed(AppError::Malformed))
            }
        } else {
            if m_validate_ok(s0) {
                (
                    MComp::Sign(
                        MSign::ReadPath {
                            signed_hash,
                            pst: init_m(bip32_path_schema_m()),
                        },
                    ),
                    MReply::MoreNeeded,
                )
            } else {
                (MComp::NoState, MReply::Failed(AppError::UntrustedTemplate))
            }
        },
        MSign::ReadPath { signed_hash, pst } => match drive_m(pst, chunk) {
            MDrive::More(p2, ps) => (
                MComp::Sign(MSign::ReadPath { signed_hash, pst: p2 }),
                MReply::MoreNeeded,
            ),
            MDrive::Fail => (MComp::NoState, MReply::Failed(AppError::Malformed)),
            MDrive::Done(v, rest, ps) => if rest.len() != 0 {
                (MComp::NoState, MReply::Failed(AppError::Malformed))
            } else {
                match path_of_value(v) {
                    Option::None => (MComp::NoState, MReply::Failed(AppError::Malformed)),
                    Option::Some(path) => match derived_key_of(seed, path) {
                        Option::None => (MComp::NoState, MReply::Failed(AppError::Malformed)),
                        Option::Some(key) => match pubkey_of(key) {
                            Option::None => (
                                MComp::NoState,
                                MReply::Failed(AppError::Malformed),
                            ),
                            Option::Some(pk) => (
                                MComp::Sign(MSign::Confirm { signed_hash, key }),
                                MReply::NeedsConfirmation(
                                    seq![
                                        MPrompt {
                                            title: PromptTitle::SignTransaction,
                                            body: hex_bytes(signed_hash),
                                        },
                                        MPrompt {
                                            title: PromptTitle::ForAddress,
                                            body: hex_bytes(sha256_of(pk)),
                                        },
                                    ],
                                ),
                            ),
                        },
                    },
                }
            },
        },
        MSign::Confirm { signed_hash, key } => (
            MComp::NoState,
            MReply::Failed(AppError::Malformed),
        ),
    }
}

/// One diagnostic chunk against the slot.
pub open spec fn m_diag(comp: MComp, chunk: Seq<u8>) -> (MComp, MReply) {
    let d0 = match comp {
        MComp::Diag(d) => d,
        _ => MDiag::Parsing { pst: init_m(test_parsers_schema_m()), queue: Seq::empty() },
    };
    match d0 {
        MDiag::Awaiting { queue } => (MComp::NoState, MReply::Failed(AppError::Malformed)),
        MDiag::Parsing { pst, queue } => match drive_m(pst, chunk) {
            MDrive::More(p2, ps) => (
                MComp::Diag(MDiag::Parsing { pst: p2, queue: queue + ps }),
                MReply::MoreNeeded,
            ),
            MDrive::Fail => (MComp::NoState, MReply::Failed(AppError::Malformed)),
            MDrive::Done(v, rest, ps) => if rest.len() != 0 {
                (MComp::NoState, MReply::Failed(AppError::Malformed))
            } else {
                (
                    MComp::Diag(MDiag::Awaiting { queue: queue + ps }),
                    MReply::NeedsConfirmation(queue + ps),
                )
            },
        },
    }
}

/// The user's yes/no decision against a computation that awaits one.
pub open spec fn m_provide_decision(comp: MComp, accept: bool) -> (MComp, MReply) {
    match comp {
        MComp::Sign(MSign::Confirm { signed_hash, key }) => if accept {
            match signature_of(key, signed_hash) {
                Option::Some(sig) => (MComp::NoState, MReply::Replied(seq![sig])),
                Option::None => (MComp::NoState, MReply::Failed(AppError::Malformed)),
            }
        } else {
            (MComp::NoState, MReply::Failed(AppError::UserRejected))
        },
        MComp::Diag(MDiag::Awaiting { queue }) => if accept {
            (MComp::NoState, MReply::Replied(seq![Seq::<u8>::empty()]))
        } else {
            (MComp::NoState, MReply::Failed(AppError::UserRejected))
        },
        _ => (MComp::NoState, MReply::Failed(AppError::Malformed)),
    }
}

/// The version triple.
pub open spec fn version_reply() -> Seq<u8> {
    seq![0u8, 1u8, 0u8]
}

/// The version string, in ASCII.
pub open spec fn version_str_reply() -> Seq<u8> {
    seq![0x30u8, 0x2eu8, 0x31u8, 0x2eu8, 0x30u8]
}

/// One command event against the slot: decode the instruction, enforce the
/// payload rule, and run the matching flow.
pub open spec fn m_handle(seed: Seq<u8>, comp: MComp, cmd: MCmd) -> (MComp, MReply) {
    match ins_of(cmd.ins) {
        Option::None => (MComp::NoState, MReply::Failed(AppError::UnknownInstruction)),
        Option::Some(Ins::GetVersion) => (comp, MReply::Replied(seq![version_reply()])),
        Option::Some(Ins::GetVersionStr) => (comp, MReply::Replied(seq![version_str_reply()])),
        Option::Some(Ins::Exit) => (comp, MReply::AppExit),
        Option::Some(Ins::GetPubkey) => if cmd.params.len() == 0 || cmd.params[0].len() == 0 {
            (MComp::NoState, MReply::Failed(AppError::TransportEmpty))
        } else {
            m_get_address(comp, seed, cmd.params[0])
        },
        Option::Some(Ins::Sign) => if cmd.p1 == 0 && (cmd.params.len() == 0 || cmd.params[0].len()
            == 0) {
            (MComp::NoState, MReply::Failed(AppError::TransportEmpty))
        } else {
            m_sign(
                comp,
                seed,
                cmd.p1,
                if cmd.params.len() > 0 {
                    cmd.params[0]
                } else {
                    Seq::empty()
                },
            )
        },
    }
}

/// The device: the computation slot, the chunk store, and the seed the
/// signing keys derive from.
pub struct Device {
    pub state: ParsersState,
    pub store: ChunkStore,
    pub seed: Vec<u8>,
}

impl Device {
    /// A fresh, idle device over the given seed.
    pub fn new(seed: Vec<u8>) -> (d: Device)
        ensures
            d.state@ == MComp::NoState,
            d.store@ is None,
            d.seed@ == seed@,
            comp_inv(d.state@),
    {
        Device { state: ParsersState::NoState, store: ChunkStore::new(), seed }
    }
}

/// Extract the derivation path from a parsed value.
fn path_of(v: &Value) -> (r: Option<Vec<u32>>)
    ensures
        match r {
            Option::Some(p) => path_of_value(v@) == Option::Some(p@),
            Option::None => path_of_value(v@) is None,
        },
{
    match v {
        Value::Ints(l) => {
            let mut out: Vec<u32> = Vec::new();
            let mut i: usize = 0;
            while i < l.len()
                invariant
                    v@ == MValue::Ints(l@),
                    i <= l@.len(),
                    forall|k: int| 0 <= k < i ==> (#[trigger] l@[k]) <= u32::MAX,
                    out@ == l@.take(i as int).map_values(|x: u64| x as u32),
                decreases l@.len() - i,
            {
                let x = l[i];
                if x > 0xffff_ffff {
                    proof {
                        let lv = l@;
                        assert(v@ == MValue::Ints(lv));
                        assert(lv[i as int] > u32::MAX);
                        assert(!(forall|k: int|
                            0 <= k < lv.len() ==> (#[trigger] lv[k]) <= u32::MAX));
                        assert(path_of_value(v@) is None);
                    }
                    return None;
                }
                out.push(x as u32);
                proof {
                    assert(out@ =~= l@.take(i + 1 as int).map_values(|x: u64| x as u32));
                }
                i = i + 1;
            }
            proof {
                assert(l@.take(l@.len() as int) =~= l@);
            }
            Some(out)
        },
        _ => None,
    }
}

/// Build the public-key reply for a derived key.
fn build_addr_reply(pk: &Vec<u8>) -> (r: Vec<u8>)
    requires
        pk@.len() == 65,
    ensures
        r@ == addr_reply(pk@),
{
    let mut r: Vec<u8> = Vec::new();
    r.push(65);
    crate::section::append_all_bytes(&mut r, pk);
    let h = sha256(pk);
    r.push(64);
    let hx = crate::text::render_hex(&h);
    crate::section::append_all_bytes(&mut r, &hx);
    proof {
        assert(r@ =~= addr_reply(pk@));
    }
    r
}

/// Handle one public-key command: resume or begin the path parser on this
/// chunk; once the path is complete, derive the key, reply with the public
/// key and its content address, wipe the key, and go idle.
pub fn get_address_apdu(state: &mut ParsersState, seed: &Vec<u8>, chunk: &Vec<u8>) -> (r: Reply)
    requires
        comp_inv(old(state)@),
    ensures
        final(state)@ == m_get_address(old(state)@, seed@, chunk@).0,
        r@ == m_get_address(old(state)@, seed@, chunk@).1,
        comp_inv(final(state)@),
        r@ matches MReply::Replied(ws) ==> ws.len() == 1,
{
    get_get_address_state(state);
    let mut tmp = ParsersState::NoState;
    core::mem::swap(state, &mut tmp);
    match tmp {
        ParsersState::GetAddressState(pst) => {
            let out = resume(pst, chunk);
            match out.next {
                Resumed::Suspended(s2) => {
                    *state = ParsersState::GetAddressState(s2);
                    Reply::MoreNeeded
                },
                Resumed::Failed => Reply::Failed { err: AppError::Malformed },
                Resumed::Complete(v, used) => {
                    if used != chunk.len() {
                        return Reply::Failed { err: AppError::Malformed };
                    }
                    match path_of(&v) {
                        None => Reply::Failed { err: AppError::Malformed },
                        Some(path) => match derive_key(seed, &path) {
                            None => Reply::Failed { err: AppError::Malformed },
                            Some(mut key) => match public_key(&key) {
                                None => {
                                    wipe_bytes(&mut key);
                                    Reply::Failed { err: AppError::Malformed }
                                },
                                Some(pk) => {
                                    wipe_bytes(&mut key);
                                    let rv = build_addr_reply(&pk);
                                    let writes = vec![rv];
                                    proof {
                                        assert(writes@.map_values(|w: Vec<u8>| w@)
                                            =~= seq![addr_reply(pk@)]);
                                    }
                                    Reply::Replied { writes }
                                },
                            },
                        },
                    }
                },
            }
        },
        _ => {
            proof {
                assert(false);
            }
            Reply::Failed { err: AppError::Malformed }
        },
    }
}

/// Handle one sign command: stream sections, then candidate checksums, then
/// the derivation path; queue the confirmation prompts once the path is
/// complete.  Any protocol failure resets the slot.
pub fn sign_apdu(state: &mut ParsersState, seed: &Vec<u8>, p1: u8, chunk: &Vec<u8>) -> (r: Reply)
    requires
        comp_inv(old(state)@),
    ensures
        final(state)@ == m_sign(old(state)@, seed@, p1, chunk@).0,
        r@ == m_sign(old(state)@, seed@, p1, chunk@).1,
        comp_inv(final(state)@),
{
    get_sign_state(state);
    let mut tmp = ParsersState::NoState;
    core::mem::swap(state, &mut tmp);
    match tmp {
        ParsersState::SignState(mut s) => {
            if matches!(s, SignState::Body { .. }) {
                if p1 == 0 {
                    if section_valid(chunk) {
                        s.feed_section(chunk);
                        *state = ParsersState::SignState(s);
                        Reply::MoreNeeded
                    } else {
                        Reply::Failed { err: AppError::Malformed }
                    }
                } else {
                    s.finish_body();
                    *state = ParsersState::SignState(s);
                    Reply::MoreNeeded
                }
            } else if matches!(s, SignState::Validate { .. }) {
                if p1 == 0 {
                    if chunk.len() == 32 {
                        s.feed_candidate(chunk);
                        *state = ParsersState::SignState(s);
                        Reply::MoreNeeded
                    } else {
                        Reply::Failed { err: AppError::Malformed }
                    }
                } else {
                    if s.finish_validate() {
                        *state = ParsersState::SignState(s);
                        Reply::MoreNeeded
                    } else {
                        Reply::Failed { err: AppError::UntrustedTemplate }
                    }
                }
            } else {
                match s {
                    SignState::ReadPath { signed_hash, pst } => {
                        let out = resume(pst, chunk);
                        match out.next {
                            Resumed::Suspended(p2) => {
                                *state = ParsersState::SignState(
                                    SignState::ReadPath { signed_hash, pst: p2 },
                                );
                                Reply::MoreNeeded
                            },
                            Resumed::Failed => Reply::Failed { err: AppError::Malformed },
                            Resumed::Complete(v, used) => {
                                if used != chunk.len() {
                                    return Reply::Failed { err: AppError::Malformed };
                                }
                                match path_of(&v) {
                                    None => Reply::Failed { err: AppError::Malformed },
                                    Some(path) => match derive_key(seed, &path) {
                                        None => Reply::Failed { err: AppError::Malformed },
                                        Some(mut key) => match public_key(&key) {
                                            None => {
                                                wipe_bytes(&mut key);
                                                Reply::Failed { err: AppError::Malformed }
                                            },
                                            Some(pk) => {
                                                let mut prompts: Vec<Prompt> = Vec::new();
                                                prompts.push(
                                                    Prompt {
                                                        title: PromptTitle::SignTransaction,
                                                        body: crate::text::render_hex(
                                                            &signed_hash,
                                                        ),
                                                    },
                                                );
                                                let pkh = sha256(&pk);
                                                prompts.push(
                                                    Prompt {
                                                        title: PromptTitle::ForAddress,
                                                        body: crate::text::render_hex(&pkh),
                                                    },
                                                );
                                                proof {
                                                    assert(prompts_view(prompts@) =~= seq![
                                                        MPrompt {
                                                            title: PromptTitle::SignTransaction,
                                                            body: hex_bytes(signed_hash@),
                                                        },
                                                        MPrompt {
                                                            title: PromptTitle::ForAddress,
                                                            body: hex_bytes(sha256_of(pk@)),
                                                        },
                                                    ]);
                                                }
                                                *state = ParsersState::SignState(
                                                    SignState::Confirm { signed_hash, key },
                                                );
                                                Reply::NeedsConfirmation { prompts }
                                            },
                                        },
                                    },
                                }
                            },
                        }
                    },
                    SignState::Confirm { signed_hash, mut key } => {
                        wipe_bytes(&mut key);
                        Reply::Failed { err: AppError::Malformed }
                    },
                    _ => {
                        proof {
                            assert(false);
                        }
                        Reply::Failed { err: AppError::Malformed }
                    },
                }
            }
        },
        _ => {
            proof {
                assert(false);
            }
            Reply::Failed { err: AppError::Malformed }
        },
    }
}

/// Drive the diagnostic parser with one chunk; once the whole input is
/// consumed, hand the queued prompts over for confirmation.
pub fn test_parsers(state: &mut ParsersState, chunk: &Vec<u8>) -> (r: Reply)
    requires
        comp_inv(old(state)@),
    ensures
        final(state)@ == m_diag(old(state)@, chunk@).0,
        r@ == m_diag(old(state)@, chunk@).1,
        comp_inv(final(state)@),
{
    get_test_parsers_state(state);
    let mut tmp = ParsersState::NoState;
    core::mem::swap(state, &mut tmp);
    match tmp {
        ParsersState::TestParsersState(d) => match d {
            DiagState::Awaiting { queue } => Reply::Failed { err: AppError::Malformed },
            DiagState::Parsing { pst, mut queue } => {
                let ghost q0 = queue@;
                let mut out = resume(pst, chunk);
                let ghost psv = out.prompts@;
                queue.append(&mut out.prompts);
                proof {
                    assert(prompts_view(queue@) =~= prompts_view(q0) + prompts_view(psv));
                }
                match out.next {
                    Resumed::Suspended(p2) => {
                        *state = ParsersState::TestParsersState(
                            DiagState::Parsing { pst: p2, queue },
                        );
                        Reply::MoreNeeded
                    },
                    Resumed::Failed => Reply::Failed { err: AppError::Malformed },
                    Resumed::Complete(v, used) => {
                        if used != chunk.len() {
                            return Reply::Failed { err: AppError::Malformed };
                        }
                        let prompts = crate::engine::copy_prompts(&queue);
                        *state = ParsersState::TestParsersState(DiagState::Awaiting { queue });
                        Reply::NeedsConfirmation { prompts }
                    },
                }
            },
        },
        _ => {
            proof {
                assert(false);
            }
            Reply::Failed { err: AppError::Malformed }
        },
    }
}

/// The diagnostic entry that drives the same schema through the shared
/// prompt queue.
pub fn test_parsers2(state: &mut ParsersState, chunk: &Vec<u8>) -> (r: Reply)
    requires
        comp_inv(old(state)@),
    ensures
        final(state)@ == m_diag(old(state)@, chunk@).0,
        r@ == m_diag(old(state)@, chunk@).1,
        comp_inv(final(state)@),
{
    test_parsers(state, chunk)
}

/// Hand the user's decision to the computation awaiting one.  Acceptance
/// signs or completes; rejection, or a decision nothing waits for, resets.
/// The derived key is wiped on every path.
pub fn provide_decision(state: &mut ParsersState, accept: bool) -> (r: Reply)
    requires
        comp_inv(old(state)@),
    ensures
        final(state)@ == m_provide_decision(old(state)@, accept).0,
        r@ == m_provide_decision(old(state)@, accept).1,
        comp_inv(final(state)@),
{
    let mut tmp = ParsersState::NoState;
    core::mem::swap(state, &mut tmp);
    match tmp {
        ParsersState::SignState(SignState::Confirm { signed_hash, mut key }) => {
            if accept {
                let sig = sign_message(&key, &signed_hash);
                wipe_bytes(&mut key);
                match sig {
                    Some(sig) => {
                        let writes = vec![sig];
                        proof {
                            assert(writes@.map_values(|w: Vec<u8>| w@) =~= seq![
                                writes@[0]@,
                            ]);
                        }
                        Reply::Replied { writes }
                    },
                    None => Reply::Failed { err: AppError::Malformed },
                }
            } else {
                wipe_bytes(&mut key);
                Reply::Failed { err: AppError::UserRejected }
            }
        },
        ParsersState::TestParsersState(DiagState::Awaiting { queue }) => {
            if accept {
                let empty: Vec<u8> = Vec::new();
                let writes = vec![empty];
                proof {
                    assert(writes@.map_values(|w: Vec<u8>| w@) =~= seq![Seq::<u8>::empty()]);
                }
                Reply::Replied { writes }
            } else {
                Reply::Failed { err: AppError::UserRejected }
            }
        },
        _ => Reply::Failed { err: AppError::Malformed },
    }
}

/// One public-key command that additionally stashes the reply in the chunk
/// store and replays it: the reply travels as one accumulating write
/// followed by the terminal write.
pub open spec fn m_reveal_example(
    comp: MComp,
    st: Option<(Seq<u8>, Seq<u8>)>,
    seed: Seq<u8>,
    chunk: Seq<u8>,
) -> (MComp, Option<(Seq<u8>, Seq<u8>)>, MReply) {
    let (c2, rep) = m_get_address(comp, seed, chunk);
    match rep {
        MReply::Replied(writes) => {
            let rv = writes[0];
            (c2, Option::Some((sha256_of(rv), rv)), MReply::Replied(
                seq![rv, Seq::<u8>::empty()],
            ))
        },
        _ => (c2, st, rep),
    }
}

/// Handle one public-key command, stash the reply under its content hash,
/// read it back, and send what came back: an accumulating write with the
/// replayed reply, then an empty terminal write.
pub fn get_address_prompting_and_example_apdu(
    state: &mut ParsersState,
    store: &mut ChunkStore,
    seed: &Vec<u8>,
    chunk: &Vec<u8>,
) -> (r: Reply)
    requires
        comp_inv(old(state)@),
    ensures
        ({
            let (c2, st2, rep) = m_reveal_example(old(state)@, old(store)@, seed@, chunk@);
            final(state)@ == c2 && final(store)@ == st2 && r@ == rep
        }),
        comp_inv(final(state)@),
{
    let r = get_address_apdu(state, seed, chunk);
    let ghost rview = r@;
    match r {
        Reply::Replied { mut writes } => {
            proof {
                assert(rview == MReply::Replied(writes@.map_values(|w: Vec<u8>| w@)));
                assert(writes@.len() == 1);
            }
            let rv = writes.pop().unwrap();
            let ghost rvv = rv@;
            let h = store.put(rv);
            match store.get(&h) {
                Some(rv2) => {
                    let empty: Vec<u8> = Vec::new();
                    let out = vec![rv2, empty];
                    proof {
                        assert(out@.map_values(|w: Vec<u8>| w@) =~= seq![
                            rvv,
                            Seq::<u8>::empty(),
                        ]);
                        assert((Reply::Replied { writes: out })@ == MReply::Replied(
                            seq![rvv, Seq::<u8>::empty()],
                        ));
                    }
                    Reply::Replied { writes: out }
                },
                None => {
                    proof {
                        assert(false);
                    }
                    Reply::Failed { err: AppError::Malformed }
                },
            }
        },
        other => other,
    }
}

/// Cancel resets cleanly: cancelling returns the slot to idle from any
/// state, and a command handled after a cancel has an outcome independent of
/// whatever was in flight before — there is no residue.
pub proof fn lemma_cancel_resets(c1: MComp, c2: MComp, seed: Seq<u8>, cmd: MCmd)
    ensures
        m_reset(c1) == MComp::NoState,
        m_handle(seed, m_reset(c1), cmd) == m_handle(seed, m_reset(c2), cmd),
{
}

/// Chunk invariance at the protocol level: when a public-key command ends
/// with the path parser suspended, feeding the next chunk continues exactly
/// where the first left off — the slot and the reply are the same as if the
/// two chunks had arrived as one.
pub proof fn lemma_get_address_chunked(comp: MComp, seed: Seq<u8>, c1: Seq<u8>, c2: Seq<u8>)
    requires
        m_get_address(comp, seed, c1).1 is MoreNeeded,
    ensures
        m_get_address(m_get_address(comp, seed, c1).0, seed, c2) == m_get_address(
            comp,
            seed,
            c1 + c2,
        ),
{
    let pst0 = match comp {
        MComp::GetAddr(p) => p,
        _ => init_m(bip32_path_schema_m()),
    };
    crate::engine::lemma_drive_append(pst0, c1, c2);
}

/// Chunk invariance for the sign flow's path phase: when the path parser
/// suspends at a chunk boundary, the next chunk continues exactly where it
/// left off.
pub proof fn lemma_sign_path_chunked(
    comp: MComp,
    seed: Seq<u8>,
    p1: u8,
    c1: Seq<u8>,
    c2: Seq<u8>,
)
    requires
        comp matches MComp::Sign(s) && s is ReadPath,
        m_sign(comp, seed, p1, c1).1 is MoreNeeded,
    ensures
        m_sign(m_sign(comp, seed, p1, c1).0, seed, p1, c2) == m_sign(comp, seed, p1, c1 + c2),
{
    let pst = comp->Sign_0->ReadPath_pst;
    crate::engine::lemma_drive_append(pst, c1, c2);
}

/// Determinism of the public-key flow: a completed public-key command
/// leaves the device idle again, and repeating the identical command on the
/// identical device yields the byte-identical reply.
pub proof fn lemma_get_pubkey_deterministic(seed: Seq<u8>, cmd: MCmd)
    requires
        ins_of(cmd.ins) == Option::Some(Ins::GetPubkey),
    ensures
        ({
            let (c1, r1) = m_handle(seed, MComp::NoState, cmd);
            r1 is Replied ==> c1 == MComp::NoState && m_handle(seed, c1, cmd) == (c1, r1)
        }),
{
}

fn version_reply_bytes() -> (r: Vec<u8>)
    ensures
        r@ == version_reply(),
{
    let mut r: Vec<u8> = Vec::new();
    r.push(0);
    r.push(1);
    r.push(0);
    proof {
        assert(r@ =~= version_reply());
    }
    r
}

fn version_str_reply_bytes() -> (r: Vec<u8>)
    ensures
        r@ == version_str_reply(),
{
    let mut r: Vec<u8> = Vec::new();
    r.push(0x30);
    r.push(0x2e);
    r.push(0x31);
    r.push(0x2e);
    r.push(0x30);
    proof {
        assert(r@ =~= version_str_reply());
    }
    r
}

/// Dispatch one command event: decode the instruction byte, enforce the
/// empty-payload rule, and resume or begin the matching computation.
pub fn handle_apdu_async(dev: &mut Device, cmd: &Command) -> (r: Reply)
    requires
        comp_inv(old(dev).state@),
    ensures
        final(dev).state@ == m_handle(old(dev).seed@, old(dev).state@, cmd@).0,
        r@ == m_handle(old(dev).seed@, old(dev).state@, cmd@).1,
        comp_inv(final(dev).state@),
        final(dev).store@ == old(dev).store@,
        final(dev).seed@ == old(dev).seed@,
{
    proof {
        assert(cmd@.params =~= cmd.params@.map_values(|p: Vec<u8>| p@));
    }
    match Ins::try_from(cmd.ins) {
        Err(_) => {
            reset_parsers_state(&mut dev.state);
            Reply::Failed { err: AppError::UnknownInstruction }
        },
        Ok(Ins::GetVersion) => {
            let writes = vec![version_reply_bytes()];
            proof {
                assert(writes@.map_values(|w: Vec<u8>| w@) =~= seq![version_reply()]);
            }
            Reply::Replied { writes }
        },
        Ok(Ins::GetVersionStr) => {
            let writes = vec![version_str_reply_bytes()];
            proof {
                assert(writes@.map_values(|w: Vec<u8>| w@) =~= seq![version_str_reply()]);
            }
            Reply::Replied { writes }
        },
        Ok(Ins::Exit) => Reply::AppExit,
        Ok(Ins::GetPubkey) => {
            if cmd.params.len() == 0 || cmd.params[0].len() == 0 {
                reset_parsers_state(&mut dev.state);
                Reply::Failed { err: AppError::TransportEmpty }
            } else {
                proof {
                    assert(cmd@.params[0] == cmd.params@[0]@);
                }
                get_address_apdu(&mut dev.state, &dev.seed, &cmd.params[0])
            }
        },
        Ok(Ins::Sign) => {
            if cmd.p1 == 0 && (cmd.params.len() == 0 || cmd.params[0].len() == 0) {
                reset_parsers_state(&mut dev.state);
                Reply::Failed { err: AppError::TransportEmpty }
            } else {
                if cmd.params.len() > 0 {
                    proof {
                        assert(cmd@.params[0] == cmd.params@[0]@);
                    }
                    sign_apdu(&mut dev.state, &dev.seed, cmd.p1, &cmd.params[0])
                } else {
                    let empty: Vec<u8> = Vec::new();
                    sign_apdu(&mut dev.state, &dev.seed, cmd.p1, &empty)
                }
            }
        },
    }
}

} // verus!
