//! Character-wise string equality and lexicographic comparison, with the
//! order laws the sorting engine relies on.

use vstd::prelude::*;

verus! {

use core::cmp::Ordering;

/// Lexicographic order on character sequences by code point; a proper prefix
/// sorts before its extensions. On UTF-8 text this agrees with the byte-wise
/// order of the encoded strings.
pub open spec fn spec_lex_cmp(a: Seq<char>, b: Seq<char>) -> Ordering
    decreases a.len(),
{
    if a.len() == 0 && b.len() == 0 {
        Ordering::Equal
    } else if a.len() == 0 {
        Ordering::Less
    } else if b.len() == 0 {
        Ordering::Greater
    } else if (a[0] as u32) < (b[0] as u32) {
        Ordering::Less
    } else if (a[0] as u32) > (b[0] as u32) {
        Ordering::Greater
    } else {
        spec_lex_cmp(a.drop_first(), b.drop_first())
    }
}

/// Character-wise equality of two string slices.
pub fn str_eq(a: &str, b: &str) -> (r: bool)
    ensures
        r == (a@ == b@),
{
    let na = a.unicode_len();
    let nb = b.unicode_len();
    if na != nb {
        proof {
            assert(a@ != b@);
        }
        return false;
    }
    let mut k: usize = 0;
    while k < na
        invariant
            k <= na,
            na == a@.len(),
            na == b@.len(),
            forall|j: int| 0 <= j < k ==> a@[j] == b@[j],
        decreases na - k,
    {
        if a.get_char(k) != b.get_char(k) {
            return false;
        }
        k = k + 1;
    }
    proof {
        assert(a@ =~= b@);
    }
    true
}

/// Three-way lexicographic comparison of two string slices.
pub fn cmp_str_lex(a: &str, b: &str) -> (r: Ordering)
    ensures
        r == spec_lex_cmp(a@, b@),
{
    let na = a.unicode_len();
    let nb = b.unicode_len();
    let mut k: usize = 0;
    proof {
        assert(a@.skip(0) =~= a@);
        assert(b@.skip(0) =~= b@);
    }
    while k < na && k < nb
        invariant
            k <= na,
            k <= nb,
            na == a@.len(),
            nb == b@.len(),
            spec_lex_cmp(a@, b@) == spec_lex_cmp(a@.skip(k as int), b@.skip(k as int)),
        decreases na - k,
    {
        let ca = a.get_char(k);
        let cb = b.get_char(k);
        proof {
            assert(a@.skip(k as int)[0] == a@[k as int]);
            assert(b@.skip(k as int)[0] == b@[k as int]);
        }
        if (ca as u32) < (cb as u32) {
            return Ordering::Less;
        }
        if (ca as u32) > (cb as u32) {
            return Ordering::Greater;
        }
        proof {
            assert(a@.skip(k as int).drop_first() =~= a@.skip(k as int + 1));
            assert(b@.skip(k as int).drop_first() =~= b@.skip(k as int + 1));
        }
        k = k + 1;
    }
    proof {
        assert(a@.skip(k as int).len() == na - k);
        assert(b@.skip(k as int).len() == nb - k);
    }
    if na == nb {
        Ordering::Equal
    } else if na < nb {
        Ordering::Less
    } else {
        Ordering::Greater
    }
}

/// The lexicographic order is reflexive only at equality, and antisymmetric:
/// reversing the arguments reverses the verdict.
pub proof fn lemma_lex_cmp_antisym(a: Seq<char>, b: Seq<char>)
    ensures
        spec_lex_cmp(a, b) == Ordering::Equal <==> a == b,
        spec_lex_cmp(a, b) == Ordering::Less <==> spec_lex_cmp(b, a) == Ordering::Greater,
    decreases a.len(),
{
    if a.len() != 0 && b.len() != 0 {
        lemma_lex_cmp_antisym(a.drop_first(), b.drop_first());
        if spec_lex_cmp(a, b) == Ordering::Equal {
            vstd::utf8::char_u32_cast(a[0], a[0] as u32);
            vstd::utf8::char_u32_cast(b[0], b[0] as u32);
            assert(a[0] == b[0]);
            assert(a.drop_first() == b.drop_first());
            assert forall|i: int| 0 <= i < a.len() implies a[i] == b[i] by {
                if i > 0 {
                    assert(a[i] == a.drop_first()[i - 1]);
                    assert(b[i] == b.drop_first()[i - 1]);
                }
            }
            assert(a =~= b);
        }
        if a == b {
            assert(a.drop_first() == b.drop_first());
        }
    } else {
        if a.len() == 0 && b.len() == 0 {
            assert(a =~= b);
        }
    }
}

proof fn lemma_lex_cmp_less_trans(a: Seq<char>, b: Seq<char>, c: Seq<char>)
    requires
        spec_lex_cmp(a, b) == Ordering::Less,
        spec_lex_cmp(b, c) == Ordering::Less,
    ensures
        spec_lex_cmp(a, c) == Ordering::Less,
    decreases a.len(),
{
    if a.len() != 0 && b.len() != 0 && c.len() != 0 {
        if (a[0] as u32) == (b[0] as u32) && (b[0] as u32) == (c[0] as u32) {
            lemma_lex_cmp_less_trans(a.drop_first(), b.drop_first(), c.drop_first());
        }
    }
}

/// The lexicographic order is transitive in its non-strict form.
pub proof fn lemma_lex_cmp_trans(a: Seq<char>, b: Seq<char>, c: Seq<char>)
    requires
        spec_lex_cmp(a, b) != Ordering::Greater,
        spec_lex_cmp(b, c) != Ordering::Greater,
    ensures
        spec_lex_cmp(a, c) != Ordering::Greater,
{
    lemma_lex_cmp_antisym(a, b);
    lemma_lex_cmp_antisym(b, c);
    lemma_lex_cmp_antisym(a, c);
    if spec_lex_cmp(a, b) == Ordering::Equal {
        assert(a == b);
    } else if spec_lex_cmp(b, c) == Ordering::Equal {
        assert(b == c);
    } else {
        lemma_lex_cmp_less_trans(a, b, c);
    }
}

} // verus!
