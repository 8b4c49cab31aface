//! Filling the placeholders of a command line.
//!
//! Arguments are byte strings, so that a value which is no valid UTF-8 (a
//! file name, on some platforms) passes through unchanged.

use bstr::ByteSlice;
use vstd::prelude::*;
use vstd::string::StringSliceAdditionalSpecFns;

verus! {

/// `hay` with each occurrence of `needle` replaced by `with`, the
/// occurrences taken from the left and never overlapping.  An empty needle
/// occurs before each byte and at the end.
pub open spec fn replaced(hay: Seq<u8>, needle: Seq<u8>, with: Seq<u8>) -> Seq<u8>
    decreases hay.len(),
{
    if needle.len() == 0 {
        if hay.len() == 0 {
            with
        } else {
            with + seq![hay[0]] + replaced(hay.skip(1), needle, with)
        }
    } else if hay.len() < needle.len() {
        hay
    } else if hay.take(needle.len() as int) == needle {
        with + replaced(hay.skip(needle.len() as int), needle, with)
    } else {
        seq![hay[0]] + replaced(hay.skip(1), needle, with)
    }
}

/// Replaces every occurrence of `needle` in `hay` with `bstr`'s
/// `ByteSlice::replace`.
///
/// Not proved: the result is `hay` with the occurrences of `needle`, found
/// from the left and not overlapping, replaced by `with`; an empty needle
/// matches before each byte and at the end.
#[verifier::external_body]
fn replace_bytes(hay: &[u8], needle: &[u8], with: &[u8]) -> (out: Vec<u8>)
    ensures
        out@ == replaced(hay@, needle@, with@),
{
    hay.replace(needle, with)
}

/// A placeholder and the bytes that take its place.
#[derive(Debug)]
pub struct Replacement {
    pub token: String,
    pub value: Vec<u8>,
}

/// What a `Replacement` says.
pub struct ReplacementView {
    pub token: Seq<char>,
    pub value: Seq<u8>,
}

impl View for Replacement {
    type V = ReplacementView;

    open spec fn view(&self) -> ReplacementView {
        ReplacementView { token: self.token@, value: self.value@ }
    }
}

/// The views of a sequence of replacements.
pub open spec fn replacement_views(v: Seq<Replacement>) -> Seq<ReplacementView> {
    Seq::new(v.len(), |i: int| v[i]@)
}

/// `arg` after the replacements were applied one after the other, each to
/// the result of the one before.
pub open spec fn substituted(arg: Seq<u8>, replacements: Seq<ReplacementView>) -> Seq<u8>
    decreases replacements.len(),
{
    if replacements.len() == 0 {
        arg
    } else {
        replaced(
            substituted(arg, replacements.drop_last()),
            vstd::utf8::encode_utf8(replacements.last().token),
            replacements.last().value,
        )
    }
}

/// Fills the placeholders of `arg`: applies the replacements in their
/// order, each to the result of the one before.  Bytes that belong to no
/// placeholder are kept as they are.
pub fn replace_os_strings(arg: &str, replacements: &Vec<Replacement>) -> (out: Vec<u8>)
    ensures
        out@ == substituted(vstd::utf8::encode_utf8(arg@), replacement_views(replacements@)),
{
    let mut out: Vec<u8> = Vec::new();
    out.extend_from_slice(arg.as_bytes());
    let mut i: usize = 0;
    proof {
        assert(replacement_views(replacements@).take(0) =~= Seq::<ReplacementView>::empty());
    }
    while i < replacements.len()
        invariant
            i <= replacements.len(),
            out@ == substituted(
                vstd::utf8::encode_utf8(arg@),
                replacement_views(replacements@).take(i as int),
            ),
        decreases replacements.len() - i,
    {
        proof {
            let done = replacement_views(replacements@).take(i as int);
            let next = replacement_views(replacements@).take(i as int + 1);
            assert(next.drop_last() =~= done);
            assert(next.last() == replacements@[i as int]@);
        }
        out = replace_bytes(
            out.as_slice(),
            replacements[i].token.as_str().as_bytes(),
            replacements[i].value.as_slice(),
        );
        i += 1;
    }
    proof {
        assert(replacement_views(replacements@).take(replacements@.len() as int)
            =~= replacement_views(replacements@));
    }
    out
}

/// Whether `needle` stands in `hay` at the position `at`.
pub open spec fn occurs_at(hay: Seq<u8>, needle: Seq<u8>, at: int) -> bool {
    0 <= at && at + needle.len() <= hay.len() && hay.subrange(at, at + needle.len()) == needle
}

/// A text in which a placeholder does not occur is left as it is.
pub proof fn lemma_absent_token_changes_nothing(hay: Seq<u8>, needle: Seq<u8>, with: Seq<u8>)
    requires
        needle.len() > 0,
        forall|at: int| !occurs_at(hay, needle, at),
    ensures
        replaced(hay, needle, with) == hay,
    decreases hay.len(),
{
    if hay.len() >= needle.len() {
        assert(!occurs_at(hay, needle, 0));
        assert(hay.take(needle.len() as int) =~= hay.subrange(0, needle.len() as int));
        let rest = hay.skip(1);
        assert forall|at: int| !occurs_at(rest, needle, at) by {
            if occurs_at(rest, needle, at) {
                assert(rest.subrange(at, at + needle.len()) =~= hay.subrange(
                    at + 1,
                    at + 1 + needle.len(),
                ));
                assert(occurs_at(hay, needle, at + 1));
            }
        }
        lemma_absent_token_changes_nothing(rest, needle, with);
        assert(seq![hay[0]] + rest =~= hay);
    }
}

/// A placeholder that stands between two texts in which it does not occur,
/// not even across their ends, is replaced, and the texts are kept byte
/// for byte.
pub proof fn lemma_token_between_texts(
    before: Seq<u8>,
    needle: Seq<u8>,
    after: Seq<u8>,
    with: Seq<u8>,
)
    requires
        needle.len() > 0,
        forall|at: int| 0 <= at < before.len() ==> !occurs_at(before + needle + after, needle, at),
        forall|at: int| !occurs_at(after, needle, at),
    ensures
        replaced(before + needle + after, needle, with) == before + with + after,
    decreases before.len(),
{
    let hay = before + needle + after;
    if before.len() == 0 {
        assert(hay.take(needle.len() as int) =~= needle);
        assert(hay.skip(needle.len() as int) =~= after);
        lemma_absent_token_changes_nothing(after, needle, with);
        assert(with + after =~= before + with + after);
    } else {
        assert(!occurs_at(hay, needle, 0));
        assert(hay.take(needle.len() as int) =~= hay.subrange(0, needle.len() as int));
        let rest = before.skip(1);
        assert(hay.skip(1) =~= rest + needle + after);
        assert forall|at: int| 0 <= at < rest.len() implies !occurs_at(
            rest + needle + after,
            needle,
            at,
        ) by {
            if occurs_at(rest + needle + after, needle, at) {
                assert((rest + needle + after).subrange(at, at + needle.len()) =~= hay.subrange(
                    at + 1,
                    at + 1 + needle.len(),
                ));
                assert(occurs_at(hay, needle, at + 1));
            }
        }
        lemma_token_between_texts(rest, needle, after, with);
        assert(seq![hay[0]] + (rest + with + after) =~= before + with + after);
    }
}

} // verus!
