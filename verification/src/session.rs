//! The template-verification and signing session.
//!
//! A sign session moves through three phases.  While hashing the body, each
//! incoming Section record feeds two independent byte streams: the
//! template-checksum stream that pins the narrative's structure, and the
//! signed-content stream that carries what the user approves.  During
//! checksum validation, the host streams the allow-list of approved template
//! checksums; each candidate is compared against the session's checksum and
//! folded into a meta-hash, and the terminal command admits the session only
//! if the checksum was found and the meta-hash equals the fixed trusted
//! commitment.  Only then is the key-derivation path read and the
//! signed-content hash signed.

use vstd::prelude::*;
use crate::crypto::{sha256, sha256_of};
use crate::engine::{MState, PState, init, init_m, pstate_view, st_inv};
use crate::interface::{bip32_path_schema, bip32_path_schema_m};
use crate::section::{sec_signed_bytes, sec_tmpl_bytes, sec_valid};

verus! {

/// The paused state of one sign session.
pub enum SignState {
    /// Phase one: accumulating the two byte streams.
    Body { tmpl: Vec<u8>, signed: Vec<u8> },
    /// Phase two: comparing candidates and folding the meta-hash.  The ghost
    /// history holds every candidate seen so far.
    Validate {
        checksum: Vec<u8>,
        signed_hash: Vec<u8>,
        meta: Vec<u8>,
        found: bool,
        cands: Ghost<Seq<Seq<u8>>>,
    },
    /// Phase three: reading the key-derivation path.
    ReadPath { signed_hash: Vec<u8>, pst: PState },
    /// Awaiting the user's decision; the derived key is held for signing and
    /// wiped on every exit.
    Confirm { signed_hash: Vec<u8>, key: Vec<u8> },
}

/// Model of a sign session.
pub enum MSign {
    Body { tmpl: Seq<u8>, signed: Seq<u8> },
    Validate {
        checksum: Seq<u8>,
        signed_hash: Seq<u8>,
        meta: Seq<u8>,
        found: bool,
        cands: Seq<Seq<u8>>,
    },
    ReadPath { signed_hash: Seq<u8>, pst: MState },
    Confirm { signed_hash: Seq<u8>, key: Seq<u8> },
}

impl View for SignState {
    type V = MSign;

    open spec fn view(&self) -> MSign {
        match self {
            SignState::Body { tmpl, signed } => MSign::Body { tmpl: tmpl@, signed: signed@ },
            SignState::Validate { checksum, signed_hash, meta, found, cands } => MSign::Validate {
                checksum: checksum@,
                signed_hash: signed_hash@,
                meta: meta@,
                found: *found,
                cands: cands@,
            },
            SignState::ReadPath { signed_hash, pst } => MSign::ReadPath {
                signed_hash: signed_hash@,
                pst: pstate_view(*pst),
            },
            SignState::Confirm { signed_hash, key } => MSign::Confirm {
                signed_hash: signed_hash@,
                key: key@,
            },
        }
    }
}

/// The session invariant.  In the validation phase, `found` holds exactly
/// when some candidate seen so far equals the checksum, and the meta stream
/// is the concatenation of all candidates seen.
pub open spec fn sign_inv(s: MSign) -> bool {
    match s {
        MSign::Body { tmpl, signed } => true,
        MSign::Validate { checksum, signed_hash, meta, found, cands } => checksum.len() == 32
            && signed_hash.len() == 32 && meta == cands.flatten() && (found == cands.contains(
            checksum,
        )) && forall|k: int| 0 <= k < cands.len() ==> (#[trigger] cands[k]).len() == 32,
        MSign::ReadPath { signed_hash, pst } => signed_hash.len() == 32 && st_inv(pst),
        MSign::Confirm { signed_hash, key } => signed_hash.len() == 32 && key.len() == 32,
    }
}

/// The fixed, trusted commitment to the complete allow-list of approved
/// template checksums.
pub open spec fn trusted_allowlist_meta() -> Seq<u8> {
    seq![
        0xa7u8, 0x60, 0x9f, 0xb6, 0x7b, 0x42, 0xe5, 0xb8, 0x7c, 0xe7, 0x35, 0x4a, 0x8f, 0xf5,
        0xa5, 0x89, 0x00, 0x79, 0x37, 0x19, 0x66, 0x63, 0x54, 0x50, 0x16, 0x61, 0x4f, 0x28, 0x19,
        0x3e, 0x68, 0xde,
    ]
}

/// The trusted allow-list commitment as bytes.
pub fn trusted_allowlist_meta_bytes() -> (r: Vec<u8>)
    ensures
        r@ == trusted_allowlist_meta(),
{
    let mut r: Vec<u8> = Vec::new();
    r.push(0xa7);
    r.push(0x60);
    r.push(0x9f);
    r.push(0xb6);
    r.push(0x7b);
    r.push(0x42);
    r.push(0xe5);
    r.push(0xb8);
    r.push(0x7c);
    r.push(0xe7);
    r.push(0x35);
    r.push(0x4a);
    r.push(0x8f);
    r.push(0xf5);
    r.push(0xa5);
    r.push(0x89);
    r.push(0x00);
    r.push(0x79);
    r.push(0x37);
    r.push(0x19);
    r.push(0x66);
    r.push(0x63);
    r.push(0x54);
    r.push(0x50);
    r.push(0x16);
    r.push(0x61);
    r.push(0x4f);
    r.push(0x28);
    r.push(0x19);
    r.push(0x3e);
    r.push(0x68);
    r.push(0xde);
    proof {
        assert(r@ =~= trusted_allowlist_meta());
    }
    r
}

/// Feeding one section record to a session in the body phase.
pub open spec fn m_feed_section(s: MSign, rec: Seq<u8>) -> MSign {
    match s {
        MSign::Body { tmpl, signed } => MSign::Body {
            tmpl: tmpl + sec_tmpl_bytes(rec),
            signed: signed + sec_signed_bytes(rec),
        },
        _ => s,
    }
}

/// Finalizing the body phase: both streams are hashed and validation starts
/// afresh.
pub open spec fn m_finish_body(s: MSign) -> MSign {
    match s {
        MSign::Body { tmpl, signed } => MSign::Validate {
            checksum: sha256_of(tmpl),
            signed_hash: sha256_of(signed),
            meta: Seq::empty(),
            found: false,
            cands: Seq::empty(),
        },
        _ => s,
    }
}

/// Feeding one candidate checksum during validation.
pub open spec fn m_feed_candidate(s: MSign, cand: Seq<u8>) -> MSign {
    match s {
        MSign::Validate { checksum, signed_hash, meta, found, cands } => MSign::Validate {
            checksum,
            signed_hash,
            meta: meta + cand,
            found: found || cand == checksum,
            cands: cands.push(cand),
        },
        _ => s,
    }
}

/// Whether the terminal validation command admits the session to signing.
pub open spec fn m_validate_ok(s: MSign) -> bool {
    s matches MSign::Validate { found, meta, .. } && found && sha256_of(meta)
        == trusted_allowlist_meta()
}

impl SignState {
    /// A fresh session with empty streams.
    pub fn begin() -> (s: Self)
        ensures
            s@ == (MSign::Body { tmpl: Seq::<u8>::empty(), signed: Seq::<u8>::empty() }),
            sign_inv(s@),
    {
        let s = SignState::Body { tmpl: Vec::new(), signed: Vec::new() };
        s
    }

    /// Fold one valid section record into both streams, in place.
    pub fn feed_section(&mut self, rec: &Vec<u8>)
        requires
            old(self)@ is Body,
            sec_valid(rec@),
        ensures
            final(self)@ == m_feed_section(old(self)@, rec@),
            sign_inv(final(self)@),
    {
        let mut tmp = SignState::Body { tmpl: Vec::new(), signed: Vec::new() };
        core::mem::swap(self, &mut tmp);
        match tmp {
            SignState::Body { mut tmpl, mut signed } => {
                crate::section::append_tmpl_bytes(&mut tmpl, rec);
                crate::section::append_signed_bytes(&mut signed, rec);
                *self = SignState::Body { tmpl, signed };
            },
            _ => {
                proof {
                    assert(false);
                }
            },
        }
    }

    /// Finalize the body phase, in place: hash both streams and start
    /// validation with nothing found and an empty meta stream.
    pub fn finish_body(&mut self)
        requires
            old(self)@ is Body,
        ensures
            final(self)@ == m_finish_body(old(self)@),
            sign_inv(final(self)@),
    {
        let mut tmp = SignState::Body { tmpl: Vec::new(), signed: Vec::new() };
        core::mem::swap(self, &mut tmp);
        match tmp {
            SignState::Body { tmpl, signed } => {
                let checksum = sha256(&tmpl);
                let signed_hash = sha256(&signed);
                *self = SignState::Validate {
                    checksum,
                    signed_hash,
                    meta: Vec::new(),
                    found: false,
                    cands: Ghost(Seq::empty()),
                };
                proof {
                    assert(Seq::<Seq<u8>>::empty().flatten() =~= Seq::<u8>::empty());
                    assert(!Seq::<Seq<u8>>::empty().contains(sha256_of(tmpl@)));
                }
            },
            _ => {
                proof {
                    assert(false);
                }
            },
        }
    }

    /// Fold one 32-byte candidate checksum into the session, in place: an
    /// exact match sets `found`, and every candidate goes into the meta
    /// stream.
    pub fn feed_candidate(&mut self, cand: &Vec<u8>)
        requires
            old(self)@ is Validate,
            sign_inv(old(self)@),
            cand@.len() == 32,
        ensures
            final(self)@ == m_feed_candidate(old(self)@, cand@),
            sign_inv(final(self)@),
    {
        let mut tmp = SignState::Body { tmpl: Vec::new(), signed: Vec::new() };
        core::mem::swap(self, &mut tmp);
        match tmp {
            SignState::Validate { checksum, signed_hash, mut meta, found, cands } => {
                let hit = crate::store::bytes_eq(cand, &checksum);
                crate::section::append_all_bytes(&mut meta, cand);
                let found2 = found || hit;
                *self = SignState::Validate {
                    checksum,
                    signed_hash,
                    meta,
                    found: found2,
                    cands: Ghost(cands@.push(cand@)),
                };
                proof {
                    let cs = cands@;
                    let cs2 = cs.push(cand@);
                    assert(cs2.flatten() =~= cs.flatten() + cand@) by {
                        lemma_flatten_push(cs, cand@);
                    }
                    assert(cs2.contains(checksum@) == (cs.contains(checksum@) || cand@
                        == checksum@)) by {
                        lemma_contains_push(cs, cand@, checksum@);
                    }
                }
            },
            _ => {
                proof {
                    assert(false);
                }
            },
        }
    }

    /// The terminal validation step, in place.  Succeeds exactly where the
    /// checksum was found in the allow-list and the meta-hash equals the
    /// trusted commitment; the session then starts reading the derivation
    /// path.  On failure the session is left unchanged and the caller
    /// resets.
    pub fn finish_validate(&mut self) -> (ok: bool)
        requires
            old(self)@ is Validate,
            sign_inv(old(self)@),
        ensures
            ok == m_validate_ok(old(self)@),
            ok ==> final(self)@ == (MSign::ReadPath {
                signed_hash: old(self)@->Validate_signed_hash,
                pst: init_m(bip32_path_schema_m()),
            }) && sign_inv(final(self)@),
            !ok ==> final(self)@ == old(self)@,
    {
        let mut tmp = SignState::Body { tmpl: Vec::new(), signed: Vec::new() };
        core::mem::swap(self, &mut tmp);
        match tmp {
            SignState::Validate { checksum, signed_hash, meta, found, cands } => {
                let trusted = trusted_allowlist_meta_bytes();
                let meta_hash = sha256(&meta);
                let ok = found && crate::store::bytes_eq(&meta_hash, &trusted);
                if ok {
                    *self = SignState::ReadPath {
                        signed_hash,
                        pst: init(bip32_path_schema()),
                    };
                    true
                } else {
                    *self = SignState::Validate { checksum, signed_hash, meta, found, cands };
                    false
                }
            },
            _ => {
                proof {
                    assert(false);
                }
                false
            },
        }
    }
}

proof fn lemma_flatten_push(cs: Seq<Seq<u8>>, x: Seq<u8>)
    ensures
        cs.push(x).flatten() == cs.flatten() + x,
    decreases cs.len(),
{
    if cs.len() == 0 {
        let s1 = cs.push(x);
        assert(s1.first() == x);
        assert(s1.drop_first() =~= Seq::<Seq<u8>>::empty());
        assert(s1.flatten() == x + s1.drop_first().flatten());
        assert(x + Seq::<u8>::empty() =~= x);
        assert(cs.flatten() + x =~= x);
    } else {
        assert(cs.push(x).drop_first() =~= cs.drop_first().push(x));
        lemma_flatten_push(cs.drop_first(), x);
        assert(cs.push(x).flatten() =~= cs.flatten() + x);
    }
}

proof fn lemma_contains_push(cs: Seq<Seq<u8>>, x: Seq<u8>, y: Seq<u8>)
    ensures
        cs.push(x).contains(y) == (cs.contains(y) || x == y),
{
    let cs2 = cs.push(x);
    if cs.contains(y) {
        let k = choose|k: int| 0 <= k < cs.len() && cs[k] == y;
        assert(cs2[k] == y);
    }
    if x == y {
        assert(cs2[cs.len() as int] == y);
    }
    if cs2.contains(y) {
        let k = choose|k: int| 0 <= k < cs2.len() && cs2[k] == y;
        if k < cs.len() {
            assert(cs[k] == y);
        }
    }
}

proof fn lemma_contains_first(cs: Seq<Seq<u8>>, y: Seq<u8>)
    requires
        cs.len() > 0,
    ensures
        cs.contains(y) == (cs.first() == y || cs.drop_first().contains(y)),
{
    if cs.first() == y {
        assert(cs[0] == y);
    }
    if cs.drop_first().contains(y) {
        let k = choose|k: int| 0 <= k < cs.drop_first().len() && cs.drop_first()[k] == y;
        assert(cs[k + 1] == y);
    }
    if cs.contains(y) {
        let k = choose|k: int| 0 <= k < cs.len() && cs[k] == y;
        if k > 0 {
            assert(cs.drop_first()[k - 1] == y);
        }
    }
}

/// A session that has just begun.
pub open spec fn fresh_session() -> MSign {
    MSign::Body { tmpl: Seq::empty(), signed: Seq::empty() }
}

/// The session after feeding each section record in order.
pub open spec fn m_feed_sections(s: MSign, rs: Seq<Seq<u8>>) -> MSign
    decreases rs.len(),
{
    if rs.len() == 0 {
        s
    } else {
        m_feed_sections(m_feed_section(s, rs.first()), rs.drop_first())
    }
}

/// The session after feeding each candidate checksum in order.
pub open spec fn m_feed_candidates(s: MSign, cs: Seq<Seq<u8>>) -> MSign
    decreases cs.len(),
{
    if cs.len() == 0 {
        s
    } else {
        m_feed_candidates(m_feed_candidate(s, cs.first()), cs.drop_first())
    }
}

/// The session after a whole body phase over `rs` and a whole validation
/// phase over `cs`.
pub open spec fn session_after(rs: Seq<Seq<u8>>, cs: Seq<Seq<u8>>) -> MSign {
    m_feed_candidates(m_finish_body(m_feed_sections(fresh_session(), rs)), cs)
}

proof fn lemma_feed_sections(t: Seq<u8>, g: Seq<u8>, rs: Seq<Seq<u8>>)
    ensures
        m_feed_sections(MSign::Body { tmpl: t, signed: g }, rs) == (MSign::Body {
            tmpl: t + crate::section::tmpl_stream(rs),
            signed: g + crate::section::signed_stream(rs),
        }),
    decreases rs.len(),
{
    if rs.len() == 0 {
        assert(t + crate::section::tmpl_stream(rs) =~= t);
        assert(g + crate::section::signed_stream(rs) =~= g);
    } else {
        let r0 = rs.first();
        lemma_feed_sections(t + sec_tmpl_bytes(r0), g + sec_signed_bytes(r0), rs.drop_first());
        assert((t + sec_tmpl_bytes(r0)) + crate::section::tmpl_stream(rs.drop_first()) =~= t + (
        sec_tmpl_bytes(r0) + crate::section::tmpl_stream(rs.drop_first())));
        assert((g + sec_signed_bytes(r0)) + crate::section::signed_stream(rs.drop_first()) =~= g
            + (sec_signed_bytes(r0) + crate::section::signed_stream(rs.drop_first())));
    }
}

proof fn lemma_feed_candidates(
    c: Seq<u8>,
    h: Seq<u8>,
    m: Seq<u8>,
    f: bool,
    cd: Seq<Seq<u8>>,
    cs: Seq<Seq<u8>>,
)
    ensures
        m_feed_candidates(
            MSign::Validate { checksum: c, signed_hash: h, meta: m, found: f, cands: cd },
            cs,
        ) == (MSign::Validate {
            checksum: c,
            signed_hash: h,
            meta: m + cs.flatten(),
            found: f || cs.contains(c),
            cands: cd + cs,
        }),
    decreases cs.len(),
{
    if cs.len() == 0 {
        assert(m + cs.flatten() =~= m);
        assert(cd + cs =~= cd);
        assert(!cs.contains(c));
    } else {
        let c0 = cs.first();
        lemma_feed_candidates(c, h, m + c0, f || c0 == c, cd.push(c0), cs.drop_first());
        lemma_contains_first(cs, c);
        assert((m + c0) + cs.drop_first().flatten() =~= m + (c0 + cs.drop_first().flatten()));
        assert(cd.push(c0) + cs.drop_first() =~= cd + cs);
    }
}

/// Template acceptance: after streaming section records `rs` and candidate
/// checksums `cs` from a fresh session, the session holds the signed-content
/// hash of exactly the signed stream of `rs`, and the terminal validation
/// check admits it to signing precisely when the allow-list contains the
/// template checksum of `rs` and the allow-list's meta-hash equals the
/// trusted commitment.
pub proof fn lemma_template_acceptance(rs: Seq<Seq<u8>>, cs: Seq<Seq<u8>>)
    ensures
        session_after(rs, cs) matches MSign::Validate { signed_hash, .. } && signed_hash
            == sha256_of(crate::section::signed_stream(rs)),
        m_validate_ok(session_after(rs, cs)) <==> (cs.contains(
            sha256_of(crate::section::tmpl_stream(rs)),
        ) && sha256_of(cs.flatten()) == trusted_allowlist_meta()),
{
    lemma_feed_sections(Seq::empty(), Seq::empty(), rs);
    assert(Seq::<u8>::empty() + crate::section::tmpl_stream(rs) =~= crate::section::tmpl_stream(
        rs,
    ));
    assert(Seq::<u8>::empty() + crate::section::signed_stream(rs)
        =~= crate::section::signed_stream(rs));
    let c = sha256_of(crate::section::tmpl_stream(rs));
    let h = sha256_of(crate::section::signed_stream(rs));
    lemma_feed_candidates(c, h, Seq::empty(), false, Seq::empty(), cs);
    assert(Seq::<u8>::empty() + cs.flatten() =~= cs.flatten());
}

} // verus!
