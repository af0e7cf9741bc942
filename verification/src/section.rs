//! The fixed-size Section wire format.
//!
//! A Section is one 202-byte record of a transaction's narrative.  Byte 0 is
//! the discriminant: 0 a user message, 1 literal text, 2 a fixed-length
//! substitution.  For the first two, byte 1 is the text length (below 200)
//! and the text area fills the rest of the record.  For a substitution,
//! byte 1 is the substitution length (below 183), byte 2 the title length
//! (below 16), bytes 3..19 the title area, and the substitution area fills
//! the rest.
//!
//! Two byte selections matter: the bytes folded into the template checksum
//! pin the structure (for a substitution only the 19-byte head, so one
//! template covers many concrete values), and the bytes folded into the
//! signed-content hash carry what the user actually approves (for a
//! substitution exactly the substituted value).

use vstd::prelude::*;

verus! {

/// Length of one Section record.
pub const SECTION_LEN: usize = 202;

/// Length of the head of a substitution record: discriminant, two lengths,
/// and the 16-byte title area.
pub const SUBST_HEAD_LEN: usize = 19;

/// Whether a 202-byte record is a valid Section.
pub open spec fn sec_valid(r: Seq<u8>) -> bool {
    r.len() == 202 && ((r[0] == 0 || r[0] == 1) && r[1] < 200 || r[0] == 2 && r[1] < 183 && r[2]
        < 16)
}

/// The bytes of a record folded into the template checksum: the whole
/// record, except that a substitution contributes only its 19-byte head.
pub open spec fn sec_tmpl_bytes(r: Seq<u8>) -> Seq<u8> {
    if r.len() == 202 && r[0] == 2 {
        r.take(19)
    } else {
        r
    }
}

/// The bytes of a record folded into the signed-content hash: nothing for a
/// user message, the used text for literal text, the used substitution for a
/// substitution.
pub open spec fn sec_signed_bytes(r: Seq<u8>) -> Seq<u8> {
    if r.len() != 202 {
        Seq::empty()
    } else if r[0] == 0 {
        Seq::empty()
    } else if r[0] == 1 {
        r.subrange(2, 2 + r[1] as int)
    } else if r[0] == 2 {
        r.subrange(19, 19 + r[1] as int)
    } else {
        Seq::empty()
    }
}

/// Check that a record is a valid Section.
pub fn section_valid(r: &Vec<u8>) -> (ok: bool)
    ensures
        ok == sec_valid(r@),
{
    if r.len() != SECTION_LEN {
        return false;
    }
    let d = r[0];
    if d == 0 || d == 1 {
        r[1] < 200
    } else if d == 2 {
        r[1] < 183 && r[2] < 16
    } else {
        false
    }
}

/// Append the template-checksum bytes of a valid record to an accumulator.
pub fn append_tmpl_bytes(acc: &mut Vec<u8>, r: &Vec<u8>)
    requires
        sec_valid(r@),
    ensures
        final(acc)@ == old(acc)@ + sec_tmpl_bytes(r@),
{
    if r[0] == 2 {
        let mut i: usize = 0;
        while i < SUBST_HEAD_LEN
            invariant
                i <= 19,
                r@.len() == 202,
                acc@ == old(acc)@ + r@.take(i as int),
            decreases 19 - i,
        {
            acc.push(r[i]);
            proof {
                assert(r@.take(i + 1 as int) =~= r@.take(i as int).push(r@[i as int]));
                assert(old(acc)@ + r@.take(i + 1 as int) =~= (old(acc)@ + r@.take(i as int)).push(
                    r@[i as int],
                ));
            }
            i = i + 1;
        }
    } else {
        let mut i: usize = 0;
        while i < r.len()
            invariant
                i <= r@.len(),
                acc@ == old(acc)@ + r@.take(i as int),
            decreases r@.len() - i,
        {
            acc.push(r[i]);
            proof {
                assert(r@.take(i + 1 as int) =~= r@.take(i as int).push(r@[i as int]));
                assert(old(acc)@ + r@.take(i + 1 as int) =~= (old(acc)@ + r@.take(i as int)).push(
                    r@[i as int],
                ));
            }
            i = i + 1;
        }
        proof {
            assert(r@.take(r@.len() as int) =~= r@);
        }
    }
}

/// Append the signed-content bytes of a valid record to an accumulator.
pub fn append_signed_bytes(acc: &mut Vec<u8>, r: &Vec<u8>)
    requires
        sec_valid(r@),
    ensures
        final(acc)@ == old(acc)@ + sec_signed_bytes(r@),
{
    let d = r[0];
    if d == 0 {
        proof {
            assert(old(acc)@ + sec_signed_bytes(r@) =~= old(acc)@);
        }
        return ;
    }
    let start: usize = if d == 1 {
        2
    } else {
        19
    };
    let len: usize = r[1] as usize;
    let mut i: usize = 0;
    while i < len
        invariant
            i <= len,
            r@.len() == 202,
            start + len <= 202,
            acc@ == old(acc)@ + r@.subrange(start as int, start + i as int),
        decreases len - i,
    {
        acc.push(r[start + i]);
        proof {
            assert(r@.subrange(start as int, start + i + 1 as int) =~= r@.subrange(
                start as int,
                start + i as int,
            ).push(r@[start + i as int]));
            assert(old(acc)@ + r@.subrange(start as int, start + i + 1 as int) =~= (old(acc)@
                + r@.subrange(start as int, start + i as int)).push(r@[start + i as int]));
        }
        i = i + 1;
    }
}

/// A sequence of `n` zero bytes.
pub open spec fn zeros(n: nat) -> Seq<u8> {
    Seq::new(n, |i: int| 0u8)
}

/// The record of a user message: discriminant 0, the text length, the text,
/// zero padding.
pub open spec fn user_message_record(text: Seq<u8>) -> Seq<u8> {
    seq![0u8, text.len() as u8] + text + zeros((200 - text.len()) as nat)
}

/// The record of literal text: discriminant 1, the text length, the text,
/// zero padding.
pub open spec fn literal_text_record(text: Seq<u8>) -> Seq<u8> {
    seq![1u8, text.len() as u8] + text + zeros((200 - text.len()) as nat)
}

/// The record of a fixed-length substitution: discriminant 2, the two
/// lengths, the padded title, the substituted value, zero padding.
pub open spec fn substitution_record(title: Seq<u8>, sub: Seq<u8>) -> Seq<u8> {
    seq![2u8, sub.len() as u8, title.len() as u8] + title + zeros((16 - title.len()) as nat) + sub
        + zeros((183 - sub.len()) as nat)
}

fn pad_zeros(v: &mut Vec<u8>, n: usize)
    ensures
        final(v)@ == old(v)@ + zeros(n as nat),
{
    let mut i: usize = 0;
    while i < n
        invariant
            i <= n,
            v@ == old(v)@ + zeros(i as nat),
        decreases n - i,
    {
        v.push(0);
        proof {
            assert(old(v)@ + zeros((i + 1) as nat) =~= (old(v)@ + zeros(i as nat)).push(0u8));
        }
        i = i + 1;
    }
}

pub fn append_all_bytes(v: &mut Vec<u8>, s: &Vec<u8>)
    ensures
        final(v)@ == old(v)@ + s@,
{
    let mut i: usize = 0;
    while i < s.len()
        invariant
            i <= s@.len(),
            v@ == old(v)@ + s@.take(i as int),
        decreases s@.len() - i,
    {
        v.push(s[i]);
        proof {
            assert(old(v)@ + s@.take(i + 1 as int) =~= (old(v)@ + s@.take(i as int)).push(
                s@[i as int],
            ));
        }
        i = i + 1;
    }
    proof {
        assert(s@.take(s@.len() as int) =~= s@);
    }
}

/// Build a user-message record.
pub fn build_user_message(text: &Vec<u8>) -> (r: Vec<u8>)
    requires
        text@.len() < 200,
    ensures
        r@ == user_message_record(text@),
        sec_valid(r@),
{
    let mut r: Vec<u8> = Vec::new();
    r.push(0);
    r.push(text.len() as u8);
    append_all_bytes(&mut r, text);
    pad_zeros(&mut r, 200 - text.len());
    proof {
        assert(r@ =~= user_message_record(text@));
    }
    r
}

/// Build a literal-text record.
pub fn build_literal_text(text: &Vec<u8>) -> (r: Vec<u8>)
    requires
        text@.len() < 200,
    ensures
        r@ == literal_text_record(text@),
        sec_valid(r@),
{
    let mut r: Vec<u8> = Vec::new();
    r.push(1);
    r.push(text.len() as u8);
    append_all_bytes(&mut r, text);
    pad_zeros(&mut r, 200 - text.len());
    proof {
        assert(r@ =~= literal_text_record(text@));
    }
    r
}

/// Build a fixed-length-substitution record.
pub fn build_substitution(title: &Vec<u8>, sub: &Vec<u8>) -> (r: Vec<u8>)
    requires
        title@.len() < 16,
        sub@.len() < 183,
    ensures
        r@ == substitution_record(title@, sub@),
        sec_valid(r@),
{
    let mut r: Vec<u8> = Vec::new();
    r.push(2);
    r.push(sub.len() as u8);
    r.push(title.len() as u8);
    append_all_bytes(&mut r, title);
    pad_zeros(&mut r, 16 - title.len());
    append_all_bytes(&mut r, sub);
    pad_zeros(&mut r, 183 - sub.len());
    proof {
        assert(r@ =~= substitution_record(title@, sub@));
    }
    r
}

/// The template-checksum byte stream of a sequence of records.
pub open spec fn tmpl_stream(recs: Seq<Seq<u8>>) -> Seq<u8>
    decreases recs.len(),
{
    if recs.len() == 0 {
        Seq::empty()
    } else {
        sec_tmpl_bytes(recs.first()) + tmpl_stream(recs.drop_first())
    }
}

/// The signed-content byte stream of a sequence of records.
pub open spec fn signed_stream(recs: Seq<Seq<u8>>) -> Seq<u8>
    decreases recs.len(),
{
    if recs.len() == 0 {
        Seq::empty()
    } else {
        sec_signed_bytes(recs.first()) + signed_stream(recs.drop_first())
    }
}

/// Two records that are equal, or are both substitutions with the same
/// 19-byte head (discriminant, lengths and title) and possibly different
/// substituted values.
pub open spec fn sub_only_variant(r1: Seq<u8>, r2: Seq<u8>) -> bool {
    r1 == r2 || (sec_valid(r1) && sec_valid(r2) && r1[0] == 2 && r2[0] == 2 && r1.take(19)
        == r2.take(19))
}

/// Two record sequences that differ at most in substituted values.
pub open spec fn sub_only_variants(rs1: Seq<Seq<u8>>, rs2: Seq<Seq<u8>>) -> bool {
    rs1.len() == rs2.len() && forall|k: int|
        0 <= k < rs1.len() ==> sub_only_variant(#[trigger] rs1[k], #[trigger] rs2[k])
}

proof fn lemma_append_eq_parts(a: Seq<u8>, b: Seq<u8>, c: Seq<u8>, d: Seq<u8>)
    requires
        a.len() == c.len(),
        a + b == c + d,
    ensures
        a == c,
        b == d,
{
    assert(a =~= (a + b).take(a.len() as int));
    assert(c =~= (c + d).take(c.len() as int));
    assert(b =~= (a + b).skip(a.len() as int));
    assert(d =~= (c + d).skip(c.len() as int));
}

proof fn lemma_signed_len_eq(r1: Seq<u8>, r2: Seq<u8>)
    requires
        sub_only_variant(r1, r2),
    ensures
        sec_signed_bytes(r1).len() == sec_signed_bytes(r2).len(),
{
    if r1 != r2 {
        assert(r1[1] == r1.take(19)[1]);
        assert(r2[1] == r2.take(19)[1]);
    }
}

/// Substitution exclusion, template side: record sequences that differ only
/// in substituted values have the same template-checksum byte stream, so the
/// same template checksum.
pub proof fn lemma_substitution_excluded_from_template(rs1: Seq<Seq<u8>>, rs2: Seq<Seq<u8>>)
    requires
        sub_only_variants(rs1, rs2),
    ensures
        tmpl_stream(rs1) == tmpl_stream(rs2),
    decreases rs1.len(),
{
    if rs1.len() > 0 {
        assert(sub_only_variant(rs1[0], rs2[0]));
        assert(sec_tmpl_bytes(rs1.first()) == sec_tmpl_bytes(rs2.first()));
        assert(sub_only_variants(rs1.drop_first(), rs2.drop_first())) by {
            assert forall|k: int| 0 <= k < rs1.drop_first().len() implies sub_only_variant(
                #[trigger] rs1.drop_first()[k],
                #[trigger] rs2.drop_first()[k],
            ) by {
                assert(sub_only_variant(rs1[k + 1], rs2[k + 1]));
            }
        }
        lemma_substitution_excluded_from_template(rs1.drop_first(), rs2.drop_first());
    }
}

/// Substitution exclusion, signed side: if any record's substituted value
/// actually differs, the signed-content byte streams differ, so the
/// signature commits to the substituted values.
pub proof fn lemma_substitution_changes_signed_stream(
    rs1: Seq<Seq<u8>>,
    rs2: Seq<Seq<u8>>,
    k: int,
)
    requires
        sub_only_variants(rs1, rs2),
        0 <= k < rs1.len(),
        sec_signed_bytes(rs1[k]) != sec_signed_bytes(rs2[k]),
    ensures
        signed_stream(rs1) != signed_stream(rs2),
    decreases rs1.len(),
{
    assert(sub_only_variant(rs1[0], rs2[0]));
    lemma_signed_len_eq(rs1[0], rs2[0]);
    assert(sub_only_variants(rs1.drop_first(), rs2.drop_first())) by {
        assert forall|j: int| 0 <= j < rs1.drop_first().len() implies sub_only_variant(
            #[trigger] rs1.drop_first()[j],
            #[trigger] rs2.drop_first()[j],
        ) by {
            assert(sub_only_variant(rs1[j + 1], rs2[j + 1]));
        }
    }
    if signed_stream(rs1) == signed_stream(rs2) {
        lemma_append_eq_parts(
            sec_signed_bytes(rs1.first()),
            signed_stream(rs1.drop_first()),
            sec_signed_bytes(rs2.first()),
            signed_stream(rs2.drop_first()),
        );
        if k == 0 {
            assert(false);
        } else {
            assert(rs1.drop_first()[k - 1] == rs1[k]);
            lemma_substitution_changes_signed_stream(rs1.drop_first(), rs2.drop_first(), k - 1);
            assert(false);
        }
    }
}

} // verus!
