//! The seed-independent cache key of a graph's shape: the exact textual
//! identifier that external parameter caches are keyed by.

use crate::drgraph::BucketGraph;
use crate::hasher::Hasher;
use vstd::prelude::*;
use vstd::string::StringExecFns;

verus! {

/// One decimal digit as its character.
pub open spec fn spec_digit(d: int) -> char {
    if d == 0 {
        '0'
    } else if d == 1 {
        '1'
    } else if d == 2 {
        '2'
    } else if d == 3 {
        '3'
    } else if d == 4 {
        '4'
    } else if d == 5 {
        '5'
    } else if d == 6 {
        '6'
    } else if d == 7 {
        '7'
    } else if d == 8 {
        '8'
    } else {
        '9'
    }
}

/// The decimal rendering of `n`, most significant digit first.
pub open spec fn dec_digits(n: int) -> Seq<char>
    decreases n,
{
    if n < 10 {
        seq![spec_digit(n)]
    } else {
        dec_digits(n / 10).push(spec_digit(n % 10))
    }
}

/// The identifier of a bucket graph's shape: its node count and degree,
/// never its seed.
pub open spec fn spec_bucket_identifier(nodes: usize, degree: usize) -> Seq<char> {
    "drgraph::BucketGraph{size: "@ + dec_digits(nodes as int) + "; degree: "@ + dec_digits(
        degree as int,
    ) + "}"@
}

/// Anything whose shape can serve as a cache key for derived parameters.
pub trait ParameterSetIdentifier: Sized {
    /// The characters of the identifier.
    spec fn spec_identifier(self) -> Seq<char>;

    /// The identifier string.
    fn parameter_set_identifier(&self) -> (r: String)
        ensures
            r@ == self.spec_identifier(),
    ;
}

/// One decimal digit as a string.
fn digit_str(d: u64) -> (r: &'static str)
    requires
        d < 10,
    ensures
        r@ == seq![spec_digit(d as int)],
{
    let r = if d == 0 {
        "0"
    } else if d == 1 {
        "1"
    } else if d == 2 {
        "2"
    } else if d == 3 {
        "3"
    } else if d == 4 {
        "4"
    } else if d == 5 {
        "5"
    } else if d == 6 {
        "6"
    } else if d == 7 {
        "7"
    } else if d == 8 {
        "8"
    } else {
        "9"
    };
    proof {
        reveal_strlit("0");
        reveal_strlit("1");
        reveal_strlit("2");
        reveal_strlit("3");
        reveal_strlit("4");
        reveal_strlit("5");
        reveal_strlit("6");
        reveal_strlit("7");
        reveal_strlit("8");
        reveal_strlit("9");
        assert(r@ =~= seq![spec_digit(d as int)]);
    }
    r
}

/// Appends the decimal rendering of `n`.
fn push_decimal(s: &mut String, n: u64)
    ensures
        final(s)@ == old(s)@ + dec_digits(n as int),
    decreases n,
{
    let ghost pre = s@;
    if n >= 10 {
        push_decimal(s, n / 10);
    }
    let d = digit_str(n % 10);
    s.append(d);
    proof {
        if n >= 10 {
            assert(s@ =~= pre + dec_digits(n as int));
        } else {
            assert(s@ =~= pre + dec_digits(n as int));
        }
    }
}

impl<H: Hasher> ParameterSetIdentifier for BucketGraph<H> {
    open spec fn spec_identifier(self) -> Seq<char> {
        spec_bucket_identifier(self.spec_size(), self.spec_degree())
    }

    fn parameter_set_identifier(&self) -> (r: String) {
        let mut s = String::new();
        s.append("drgraph::BucketGraph{size: ");
        push_decimal(&mut s, self.size() as u64);
        s.append("; degree: ");
        push_decimal(&mut s, self.degree() as u64);
        s.append("}");
        proof {
            assert(s@ =~= self.spec_identifier());
        }
        s
    }
}

/// The identifier never looks at the seed: graphs of one shape share it.
pub proof fn lemma_identifier_ignores_seed<H: Hasher>(a: BucketGraph<H>, b: BucketGraph<H>)
    requires
        a.spec_size() == b.spec_size(),
        a.spec_degree() == b.spec_degree(),
    ensures
        a.spec_identifier() == b.spec_identifier(),
{
}

proof fn lemma_dec_digits_shape(n: int)
    requires
        n >= 0,
    ensures
        dec_digits(n).len() >= 1,
        forall|i: int|
            0 <= i < dec_digits(n).len() ==> '0' <= #[trigger] dec_digits(n)[i] && dec_digits(
                n,
            )[i] <= '9',
    decreases n,
{
    if n < 10 {
    } else {
        lemma_dec_digits_shape(n / 10);
    }
}

proof fn lemma_dec_digits_injective(a: int, b: int)
    requires
        a >= 0,
        b >= 0,
        dec_digits(a) == dec_digits(b),
    ensures
        a == b,
    decreases a,
{
    lemma_dec_digits_shape(a);
    lemma_dec_digits_shape(b);
    if a < 10 && b < 10 {
        assert(dec_digits(a)[0] == spec_digit(a));
        assert(dec_digits(b)[0] == spec_digit(b));
    } else if a >= 10 && b >= 10 {
        let da = dec_digits(a / 10);
        let db = dec_digits(b / 10);
        assert(da.push(spec_digit(a % 10)).last() == spec_digit(a % 10));
        assert(db.push(spec_digit(b % 10)).last() == spec_digit(b % 10));
        assert(a % 10 == b % 10);
        assert(da.push(spec_digit(a % 10)).drop_last() =~= da);
        assert(db.push(spec_digit(b % 10)).drop_last() =~= db);
        assert(da == db);
        lemma_dec_digits_injective(a / 10, b / 10);
    } else if a < 10 {
        lemma_dec_digits_shape(b / 10);
        assert(dec_digits(b).len() >= 2);
    } else {
        lemma_dec_digits_shape(a / 10);
        assert(dec_digits(a).len() >= 2);
    }
}

/// Identifiers of different shapes differ: the identifier pins down the
/// node count and the degree exactly.
pub proof fn lemma_identifier_injective(n1: usize, d1: usize, n2: usize, d2: usize)
    requires
        spec_bucket_identifier(n1, d1) == spec_bucket_identifier(n2, d2),
    ensures
        n1 == n2,
        d1 == d2,
{
    reveal_strlit("drgraph::BucketGraph{size: ");
    reveal_strlit("; degree: ");
    reveal_strlit("}");
    let pre = "drgraph::BucketGraph{size: "@;
    let mid = "; degree: "@;
    let end = "}"@;
    let s1 = spec_bucket_identifier(n1, d1);
    let s2 = spec_bucket_identifier(n2, d2);
    let a1 = dec_digits(n1 as int);
    let a2 = dec_digits(n2 as int);
    let b1 = dec_digits(d1 as int);
    let b2 = dec_digits(d2 as int);
    lemma_dec_digits_shape(n1 as int);
    lemma_dec_digits_shape(n2 as int);
    lemma_dec_digits_shape(d1 as int);
    lemma_dec_digits_shape(d2 as int);
    let p = pre.len() as int;
    assert(mid[0] == ';');
    assert(end[0] == '}');
    // The first digit run has the same length on both sides: the character
    // after it is ';', which is not a digit.
    if a1.len() < a2.len() {
        assert(s1[p + a1.len()] == mid[0]);
        assert(s2[p + a1.len()] == a2[a1.len() as int]);
        assert('0' <= s2[p + a1.len()] <= '9');
        assert(false);
    }
    if a2.len() < a1.len() {
        assert(s2[p + a2.len()] == mid[0]);
        assert(s1[p + a2.len()] == a1[a2.len() as int]);
        assert(false);
    }
    assert(a1.len() == a2.len());
    assert forall|i: int| 0 <= i < a1.len() implies a1[i] == a2[i] by {
        assert(s1[p + i] == a1[i]);
        assert(s2[p + i] == a2[i]);
    }
    assert(a1 =~= a2);
    lemma_dec_digits_injective(n1 as int, n2 as int);
    // Total lengths now force the second digit runs to the same length.
    assert(s1.len() == p + a1.len() + mid.len() + b1.len() + 1);
    assert(s2.len() == p + a2.len() + mid.len() + b2.len() + 1);
    assert(b1.len() == b2.len());
    let q = p + a1.len() + mid.len();
    assert forall|i: int| 0 <= i < b1.len() implies b1[i] == b2[i] by {
        assert(s1[q + i] == b1[i]);
        assert(s2[q + i] == b2[i]);
    }
    assert(b1 =~= b2);
    lemma_dec_digits_injective(d1 as int, d2 as int);
}

} // verus!
