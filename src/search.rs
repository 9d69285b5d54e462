use vstd::prelude::*;
use vstd::string::StrSliceExecFns;

verus! {

/// The lowercase form of a text, as Unicode defines it.
pub uninterp spec fn lower_of(s: Seq<char>) -> Seq<char>;

/// Relies on str::to_lowercase: the lowercase form depends on the characters
/// alone, and the empty text stays empty.
#[verifier::external_body]
pub(crate) fn lowercase(s: &str) -> (r: String)
    ensures
        r@ == lower_of(s@),
        s@.len() == 0 ==> r@.len() == 0,
{
    s.to_lowercase()
}

/// Whether `needle` occurs in `hay` as a contiguous run of characters.
pub open spec fn is_substring(needle: Seq<char>, hay: Seq<char>) -> bool {
    exists|i: int|
        0 <= i && i + needle.len() <= hay.len() && #[trigger] hay.subrange(i, i + needle.len())
            == needle
}

/// The empty text occurs in every text.
pub proof fn lemma_empty_is_substring(hay: Seq<char>)
    ensures
        is_substring(Seq::empty(), hay),
{
    let e = Seq::<char>::empty();
    assert(hay.subrange(0, 0 + e.len() as int) =~= e);
}

/// Whether the lowercased query occurs in the lowercased name.
pub fn matches_query(lowered_name: &str, lowered_query: &str) -> (r: bool)
    ensures
        r == is_substring(lowered_query@, lowered_name@),
{
    let n = lowered_name.unicode_len();
    let m = lowered_query.unicode_len();
    if m == 0 {
        proof {
            lemma_empty_is_substring(lowered_name@);
            assert(lowered_query@ =~= Seq::<char>::empty());
        }
        return true;
    }
    if m > n {
        return false;
    }
    let mut i: usize = 0;
    while i <= n - m
        invariant
            n == lowered_name@.len(),
            m == lowered_query@.len(),
            0 < m <= n,
            i <= n - m + 1,
            forall|k: int|
                0 <= k < i ==> #[trigger] lowered_name@.subrange(k, k + m) != lowered_query@,
        decreases n - m + 1 - i,
    {
        let mut j: usize = 0;
        let mut same = true;
        while j < m
            invariant
                n == lowered_name@.len(),
                m == lowered_query@.len(),
                i + m <= n,
                j <= m,
                same ==> forall|k: int| 0 <= k < j ==> lowered_name@[i + k] == lowered_query@[k],
                !same ==> lowered_name@.subrange(i as int, i + m) != lowered_query@,
            decreases m - j,
        {
            if same && lowered_name.get_char(i + j) != lowered_query.get_char(j) {
                same = false;
                assert(lowered_name@.subrange(i as int, i + m)[j as int] != lowered_query@[j as int]);
            }
            j = j + 1;
        }
        if same {
            assert(lowered_name@.subrange(i as int, i + m) =~= lowered_query@);
            return true;
        }
        i = i + 1;
    }
    proof {
        assert forall|k: int|
            0 <= k && k + lowered_query@.len() <= lowered_name@.len() implies #[trigger] lowered_name@.subrange(
            k,
            k + lowered_query@.len(),
        ) != lowered_query@ by {
            assert(k < i);
        }
    }
    false
}

} // verus!
