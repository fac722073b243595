//! Text helpers the pipeline's logic rests on: substring search, case
//! folding, single character replacement, and the lexicographic order used
//! to build the order-independent combo cache key.

use vstd::prelude::*;
use vstd::relations::{antisymmetric, reflexive, sorted_by, strongly_connected, total_ordering, transitive};
use vstd::string::StrSliceExecFns;

verus! {

/// True iff `needle` occurs as a contiguous run of elements in `hay`.
pub open spec fn contains_seq<T>(hay: Seq<T>, needle: Seq<T>) -> bool {
    exists|i: int|
        0 <= i <= hay.len() - needle.len() && #[trigger] hay.subrange(i, i + needle.len())
            == needle
}

/// The code point of a character, with an ASCII capital letter folded to its
/// lowercase form.
pub open spec fn lower_code(c: char) -> u32 {
    if 65 <= c as u32 && c as u32 <= 90 {
        (c as u32 + 32) as u32
    } else {
        c as u32
    }
}

/// The folded code points of a character sequence: the shape on which two
/// strings compare equal up to ASCII letter case.
pub open spec fn lower_codes(s: Seq<char>) -> Seq<u32> {
    s.map_values(|c: char| lower_code(c))
}

/// The folded code points of a string slice, in character order.
#[verifier::loop_isolation(false)]
pub(crate) fn lower_codes_of(s: &str) -> (r: Vec<u32>)
    ensures
        r@ == lower_codes(s@),
{
    let n = s.unicode_len();
    let mut r: Vec<u32> = Vec::new();
    let mut i: usize = 0;
    proof {
        assert(r@ =~= lower_codes(s@.take(0)));
    }
    while i < n
        invariant
            n == s@.len(),
            i <= n,
            r@ == lower_codes(s@.take(i as int)),
        decreases n - i,
    {
        let c = s.get_char(i);
        let u = c as u32;
        let folded = if 65 <= u && u <= 90 {
            u + 32
        } else {
            u
        };
        r.push(folded);
        proof {
            assert(lower_codes(s@.take(i + 1)) =~= lower_codes(s@.take(i as int)).push(
                lower_code(s@[i as int]),
            ));
        }
        i = i + 1;
    }
    proof {
        assert(s@.take(s@.len() as int) =~= s@);
    }
    r
}

/// Whether `needle` matches `hay` exactly at offset `i`.
fn match_at(hay: &Vec<u32>, needle: &Vec<u32>, i: usize) -> (r: bool)
    requires
        i + needle@.len() <= hay@.len(),
    ensures
        r == (hay@.subrange(i as int, i + needle@.len()) == needle@),
{
    let hn = hay.len();
    let m = needle.len();
    let mut j: usize = 0;
    while j < m
        invariant
            hn == hay@.len(),
            m == needle@.len(),
            i + m <= hn,
            j <= m,
            forall|q: int| 0 <= q < j ==> hay@[i + q] == needle@[q],
        decreases m - j,
    {
        if hay[i + j] != needle[j] {
            proof {
                assert(hay@.subrange(i as int, i + needle@.len())[j as int] == hay@[i + j]);
            }
            return false;
        }
        j = j + 1;
    }
    proof {
        assert(hay@.subrange(i as int, i + needle@.len()) =~= needle@);
    }
    true
}

/// Whether `needle` occurs as a contiguous run anywhere in `hay`.
pub(crate) fn contains_codes(hay: &Vec<u32>, needle: &Vec<u32>) -> (r: bool)
    ensures
        r == contains_seq(hay@, needle@),
{
    let hn = hay.len();
    let m = needle.len();
    if m > hn {
        return false;
    }
    if m == 0 {
        proof {
            assert(hay@.subrange(0, 0 + needle@.len() as int) =~= needle@);
            assert(contains_seq(hay@, needle@));
        }
        return true;
    }
    let last_start = hn - m;
    let mut i: usize = 0;
    while i <= last_start
        invariant
            hn == hay@.len(),
            m == needle@.len(),
            1 <= m <= hn,
            last_start == hn - m,
            i <= last_start + 1,
            forall|p: int|
                0 <= p < i ==> #[trigger] hay@.subrange(p, p + needle@.len()) != needle@,
        decreases last_start + 1 - i,
    {
        if match_at(hay, needle, i) {
            proof {
                assert(hay@.subrange(i as int, i + needle@.len()) == needle@);
            }
            return true;
        }
        i = i + 1;
    }
    false
}

/// `s` with every occurrence of `from` turned into `to`.
pub open spec fn replaced(s: Seq<char>, from: char, to: char) -> Seq<char> {
    s.map_values(|c: char| if c == from { to } else { c })
}

/// Lexicographic order on character sequences, comparing code points. This
/// is the order in which `String`s compare: their UTF-8 bytes order exactly
/// as their code points do.
pub open spec fn lex_le(a: Seq<char>, b: Seq<char>) -> bool
    decreases a.len(),
{
    if a.len() == 0 {
        true
    } else if b.len() == 0 {
        false
    } else if a[0] != b[0] {
        (a[0] as u32) < (b[0] as u32)
    } else {
        lex_le(a.drop_first(), b.drop_first())
    }
}

/// The lexicographic order as a relation value, for use with ordering
/// predicates and sorting specifications.
pub open spec fn lex_leq() -> spec_fn(Seq<char>, Seq<char>) -> bool {
    |a: Seq<char>, b: Seq<char>| lex_le(a, b)
}

proof fn lemma_lex_le_reflexive(a: Seq<char>)
    ensures
        lex_le(a, a),
    decreases a.len(),
{
    if a.len() > 0 {
        lemma_lex_le_reflexive(a.drop_first());
    }
}

proof fn lemma_lex_le_transitive(a: Seq<char>, b: Seq<char>, c: Seq<char>)
    requires
        lex_le(a, b),
        lex_le(b, c),
    ensures
        lex_le(a, c),
    decreases a.len(),
{
    if a.len() > 0 && b.len() > 0 && c.len() > 0 && a[0] == b[0] && b[0] == c[0] {
        lemma_lex_le_transitive(a.drop_first(), b.drop_first(), c.drop_first());
    }
}

proof fn lemma_lex_le_antisymmetric(a: Seq<char>, b: Seq<char>)
    requires
        lex_le(a, b),
        lex_le(b, a),
    ensures
        a == b,
    decreases a.len(),
{
    if a.len() == 0 {
        assert(b.len() == 0);
        assert(a =~= b);
    } else {
        assert(a[0] == b[0]);
        lemma_lex_le_antisymmetric(a.drop_first(), b.drop_first());
        assert forall|i: int| 0 <= i < a.len() implies a[i] == b[i] by {
            if i >= 1 {
                assert(a[i] == a.drop_first()[i - 1]);
                assert(b[i] == b.drop_first()[i - 1]);
            }
        }
        assert(a =~= b);
    }
}

proof fn lemma_lex_le_strongly_connected(a: Seq<char>, b: Seq<char>)
    ensures
        lex_le(a, b) || lex_le(b, a),
    decreases a.len(),
{
    if a.len() > 0 && b.len() > 0 {
        if a[0] == b[0] {
            lemma_lex_le_strongly_connected(a.drop_first(), b.drop_first());
        } else {
            vstd::utf8::char_u32_cast(a[0], a[0] as u32);
            vstd::utf8::char_u32_cast(b[0], b[0] as u32);
            assert((a[0] as u32) != (b[0] as u32));
        }
    }
}

/// The lexicographic order is a total order, so a sequence of names has
/// exactly one sorted arrangement.
pub proof fn lemma_lex_leq_total_ordering()
    ensures
        total_ordering(lex_leq()),
{
    assert forall|a: Seq<char>| #[trigger] lex_leq()(a, a) by {
        lemma_lex_le_reflexive(a);
    }
    assert(reflexive(lex_leq()));
    assert forall|a: Seq<char>, b: Seq<char>, c: Seq<char>|
        #[trigger] lex_leq()(a, b) && #[trigger] lex_leq()(b, c) implies #[trigger] lex_leq()(
        a,
        c,
    ) by {
        lemma_lex_le_transitive(a, b, c);
    }
    assert(transitive(lex_leq()));
    assert forall|a: Seq<char>, b: Seq<char>|
        #[trigger] lex_leq()(a, b) && #[trigger] lex_leq()(b, a) implies a == b by {
        lemma_lex_le_antisymmetric(a, b);
    }
    assert(antisymmetric(lex_leq()));
    assert forall|a: Seq<char>, b: Seq<char>| #[trigger] lex_leq()(a, b) || #[trigger] lex_leq()(
        b,
        a,
    ) by {
        lemma_lex_le_strongly_connected(a, b);
    }
    assert(strongly_connected(lex_leq()));
}

/// Relies on `str::replace` with a single-character pattern: every
/// occurrence of the pattern character is replaced and, the replacement
/// being a single character too, all other characters stay in place.
#[verifier::external_body]
pub(crate) fn replace_char(s: &str, from: char, to: char) -> (r: String)
    ensures
        r@ == replaced(s@, from, to),
{
    s.replace(from, String::from(to).as_str())
}

/// Relies on `<[String]>::sort`: sorts in place by `String`'s `Ord` — the
/// lexicographic order on UTF-8 bytes, which coincides with the code-point
/// order stated by `lex_le` — keeping exactly the same elements.
#[verifier::external_body]
pub(crate) fn sort_strings(v: &mut Vec<String>)
    ensures
        final(v).deep_view().to_multiset() == old(v).deep_view().to_multiset(),
        sorted_by(final(v).deep_view(), lex_leq()),
{
    v.sort();
}

} // verus!
