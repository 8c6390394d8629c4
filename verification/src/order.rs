//! Lexicographic order on sequences: by the first position where they
//! differ, a proper prefix first. Texts (`String`s) compare this way by code
//! point, and file names (`Path`s) by byte.

use vstd::prelude::*;

verus! {

/// Length of the common prefix of `a` and `b`, counting from position `i`.
pub open spec fn common_from<T>(a: Seq<T>, b: Seq<T>, i: int) -> int
    decreases a.len() - i,
{
    if 0 <= i < a.len() && i < b.len() && a[i] == b[i] {
        common_from(a, b, i + 1)
    } else {
        i
    }
}

/// Length of the longest common prefix of `a` and `b`.
pub open spec fn common_len<T>(a: Seq<T>, b: Seq<T>) -> int {
    common_from(a, b, 0)
}

/// `a` comes strictly before `b` in the lexicographic order that compares
/// elements by `rank`.
pub open spec fn seq_lt<T>(a: Seq<T>, b: Seq<T>, rank: spec_fn(T) -> int) -> bool {
    let k = common_len(a, b);
    if k < a.len() && k < b.len() {
        rank(a[k]) < rank(b[k])
    } else {
        k == a.len() && k < b.len()
    }
}

/// Characters compare by code point.
pub open spec fn char_rank() -> spec_fn(char) -> int {
    |c: char| c as int
}

/// Bytes compare by value.
pub open spec fn byte_rank() -> spec_fn(u8) -> int {
    |b: u8| b as int
}

/// `a` comes strictly before `b` in lexicographic order of code points (the
/// order of `String`s).
pub open spec fn chars_lt(a: Seq<char>, b: Seq<char>) -> bool {
    seq_lt(a, b, char_rank())
}

/// `a` comes strictly before `b` in lexicographic order of bytes (the order
/// of file names as paths compare them).
pub open spec fn bytes_lt(a: Seq<u8>, b: Seq<u8>) -> bool {
    seq_lt(a, b, byte_rank())
}

/// Different elements have different ranks.
pub open spec fn injective_rank<T>(rank: spec_fn(T) -> int) -> bool {
    forall|x: T, y: T| #[trigger] rank(x) == #[trigger] rank(y) ==> x == y
}

proof fn lemma_common_from<T>(a: Seq<T>, b: Seq<T>, i: int)
    requires
        0 <= i <= a.len(),
        i <= b.len(),
        forall|j: int| 0 <= j < i ==> a[j] == b[j],
    ensures
        i <= common_from(a, b, i) <= a.len(),
        common_from(a, b, i) <= b.len(),
        forall|j: int| 0 <= j < common_from(a, b, i) ==> a[j] == b[j],
        common_from(a, b, i) < a.len() && common_from(a, b, i) < b.len() ==> a[common_from(
            a,
            b,
            i,
        )] != b[common_from(a, b, i)],
    decreases a.len() - i,
{
    if i < a.len() && i < b.len() && a[i] == b[i] {
        lemma_common_from(a, b, i + 1);
    }
}

/// What the common prefix length is: the sequences agree below it, and at it
/// one of them ends or they differ.
pub proof fn lemma_common_len<T>(a: Seq<T>, b: Seq<T>)
    ensures
        0 <= common_len(a, b) <= a.len(),
        common_len(a, b) <= b.len(),
        forall|j: int| 0 <= j < common_len(a, b) ==> a[j] == b[j],
        common_len(a, b) < a.len() && common_len(a, b) < b.len() ==> a[common_len(a, b)]
            != b[common_len(a, b)],
{
    lemma_common_from(a, b, 0);
}

/// Any position with those properties is the common prefix length.
proof fn lemma_common_len_unique<T>(a: Seq<T>, b: Seq<T>, k: int)
    requires
        0 <= k <= a.len(),
        k <= b.len(),
        forall|j: int| 0 <= j < k ==> a[j] == b[j],
        k < a.len() && k < b.len() ==> a[k] != b[k],
    ensures
        common_len(a, b) == k,
{
    lemma_common_len(a, b);
    let c = common_len(a, b);
    if c < k {
        assert(a[c] == b[c]);
    } else if c > k {
        assert(a[k] == b[k]);
    }
}

proof fn lemma_common_len_symmetric<T>(a: Seq<T>, b: Seq<T>)
    ensures
        common_len(a, b) == common_len(b, a),
{
    lemma_common_len(a, b);
    lemma_common_len_unique(b, a, common_len(a, b));
}

/// No sequence comes before itself.
pub proof fn lemma_seq_lt_irreflexive<T>(a: Seq<T>, rank: spec_fn(T) -> int)
    ensures
        !seq_lt(a, a, rank),
{
    lemma_common_len(a, a);
    lemma_common_len_unique(a, a, a.len() as int);
}

/// The order is transitive.
pub proof fn lemma_seq_lt_transitive<T>(a: Seq<T>, b: Seq<T>, c: Seq<T>, rank: spec_fn(T) -> int)
    requires
        seq_lt(a, b, rank),
        seq_lt(b, c, rank),
    ensures
        seq_lt(a, c, rank),
{
    lemma_common_len(a, b);
    lemma_common_len(b, c);
    let k1 = common_len(a, b);
    let k2 = common_len(b, c);
    if k1 < k2 {
        assert forall|j: int| 0 <= j < k1 implies a[j] == c[j] by {}
        if k1 < a.len() {
            assert(k1 < b.len());
            assert(b[k1] == c[k1]);
            lemma_common_len_unique(a, c, k1);
        } else {
            assert(k1 < c.len());
            lemma_common_len_unique(a, c, k1);
        }
    } else if k2 < k1 {
        assert forall|j: int| 0 <= j < k2 implies a[j] == c[j] by {}
        assert(k2 < b.len());
        assert(k2 < c.len());
        assert(a[k2] == b[k2]);
        lemma_common_len_unique(a, c, k2);
    } else {
        assert forall|j: int| 0 <= j < k1 implies a[j] == c[j] by {}
        if k1 < a.len() {
            assert(k1 < b.len());
            lemma_common_len_unique(a, c, k1);
        } else {
            lemma_common_len_unique(a, c, k1);
        }
    }
}

/// Two different sequences are ordered one way or the other, when
/// different elements have different ranks.
pub proof fn lemma_seq_lt_total<T>(a: Seq<T>, b: Seq<T>, rank: spec_fn(T) -> int)
    requires
        a != b,
        injective_rank(rank),
    ensures
        seq_lt(a, b, rank) || seq_lt(b, a, rank),
{
    lemma_common_len(a, b);
    lemma_common_len_symmetric(a, b);
    let k = common_len(a, b);
    if k == a.len() && k == b.len() {
        assert(a =~= b);
    }
    if k < a.len() && k < b.len() {
        if rank(a[k]) == rank(b[k]) {
            assert(a[k] == b[k]);
        }
    }
}

/// The order is asymmetric.
pub proof fn lemma_seq_lt_asymmetric<T>(a: Seq<T>, b: Seq<T>, rank: spec_fn(T) -> int)
    requires
        seq_lt(a, b, rank),
    ensures
        !seq_lt(b, a, rank),
{
    lemma_common_len(a, b);
    lemma_common_len_symmetric(a, b);
}

/// Order of code points and of bytes tells different elements apart.
pub proof fn lemma_ranks_injective()
    ensures
        injective_rank(char_rank()),
        injective_rank(byte_rank()),
{
}

/// Compares the first `la` characters of `a` with the first `lb` characters
/// of `b`.
pub fn prefix_lt(a: &Vec<char>, la: usize, b: &Vec<char>, lb: usize) -> (r: bool)
    requires
        la <= a.len(),
        lb <= b.len(),
    ensures
        r == chars_lt(a@.take(la as int), b@.take(lb as int)),
{
    let ghost sa = a@.take(la as int);
    let ghost sb = b@.take(lb as int);
    let mut i: usize = 0;
    while i < la && i < lb && a[i] == b[i]
        invariant
            la <= a.len(),
            lb <= b.len(),
            sa == a@.take(la as int),
            sb == b@.take(lb as int),
            i <= la,
            i <= lb,
            common_from(sa, sb, i as int) == common_len(sa, sb),
        decreases la - i,
    {
        assert(sa[i as int] == sb[i as int]);
        i = i + 1;
    }
    assert(common_from(sa, sb, i as int) == i);
    if i < la && i < lb {
        let x: char = a[i];
        let y: char = b[i];
        x < y
    } else {
        i == la && i < lb
    }
}

/// Compares two byte strings.
pub fn bytes_before(a: &Vec<u8>, b: &Vec<u8>) -> (r: bool)
    ensures
        r == bytes_lt(a@, b@),
{
    let mut i: usize = 0;
    while i < a.len() && i < b.len() && a[i] == b[i]
        invariant
            i <= a.len(),
            i <= b.len(),
            common_from(a@, b@, i as int) == common_len(a@, b@),
        decreases a.len() - i,
    {
        i = i + 1;
    }
    assert(common_from(a@, b@, i as int) == i);
    if i < a.len() && i < b.len() {
        a[i] < b[i]
    } else {
        i == a.len() && i < b.len()
    }
}

} // verus!
