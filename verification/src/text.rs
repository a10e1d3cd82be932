//! Small string helpers shared by the name-resolution functions: exact
//! comparison, character sequences, lowercasing and edit distance.
use vstd::prelude::*;
use vstd::std_specs::iter::IteratorSpec;

verus! {

/// Exact (case-sensitive) string equality.
pub fn str_eq(a: &str, b: &str) -> (r: bool)
    ensures
        r == (a@ == b@),
{
    a.to_owned() == b.to_owned()
}

/// The characters of `s`, in order.
pub fn chars_of(s: &str) -> (r: Vec<char>)
    ensures
        r@ == s@,
{
    broadcast use {vstd::string::axiom_spec_iter, vstd::string::next_postcondition};

    let mut chars = s.chars();
    let mut out: Vec<char> = Vec::new();
    loop
        invariant
            out@ + chars.remaining() == s@,
            chars.decrease() is Some,
        decreases chars.decrease()->0,
    {
        let ghost before = chars.remaining();
        match chars.next() {
            Some(c) => {
                out.push(c);
                assert(out@ + chars.remaining() =~= s@);
            },
            None => {
                assert(out@ =~= s@);
                return out;
            },
        }
    }
}

/// The Unicode lowercase mapping of a text (what `str::to_lowercase`
/// returns).
pub uninterp spec fn lowercase(s: Seq<char>) -> Seq<char>;

/// `str::to_lowercase`. Its result is named: it depends on `s` alone.
#[verifier::external_body]
pub fn to_lowercase(s: &str) -> (r: String)
    ensures
        r@ == lowercase(s@),
{
    s.to_lowercase()
}

/// `min(a, b)`.
pub open spec fn min_nat(a: nat, b: nat) -> nat {
    if a <= b {
        a
    } else {
        b
    }
}

/// Levenshtein distance between `a[..i]` and `b[..j]`: the fewest
/// single-character insertions, deletions and substitutions turning one
/// into the other.
pub open spec fn lev(a: Seq<char>, b: Seq<char>, i: nat, j: nat) -> nat
    decreases i, j,
{
    if i == 0 {
        j
    } else if j == 0 {
        i
    } else {
        let cost: nat = if a[i - 1] == b[j - 1] {
            0
        } else {
            1
        };
        min_nat(
            min_nat(lev(a, b, (i - 1) as nat, j) + 1, lev(a, b, i, (j - 1) as nat) + 1),
            lev(a, b, (i - 1) as nat, (j - 1) as nat) + cost,
        )
    }
}

/// The edit distance of two texts.
pub open spec fn edit_distance_of(a: Seq<char>, b: Seq<char>) -> nat {
    lev(a, b, a.len(), b.len())
}

/// The distance between two prefixes is at most the longer one.
proof fn lemma_lev_bound(a: Seq<char>, b: Seq<char>, i: nat, j: nat)
    ensures
        lev(a, b, i, j) <= if i >= j {
            i
        } else {
            j
        },
    decreases i, j,
{
    if i > 0 && j > 0 {
        lemma_lev_bound(a, b, (i - 1) as nat, (j - 1) as nat);
    }
}

fn sat_inc(x: usize) -> (r: usize)
    ensures
        r == if x == usize::MAX {
            x as int
        } else {
            x + 1
        },
{
    if x == usize::MAX {
        x
    } else {
        x + 1
    }
}

/// Levenshtein distance of two character sequences, one DP row at a
/// time.
pub fn edit_distance(a: &Vec<char>, b: &Vec<char>) -> (r: usize)
    ensures
        r == edit_distance_of(a@, b@),
{
    let m = a.len();
    let n = b.len();
    let mut prev: Vec<usize> = Vec::new();
    let mut j: usize = 0;
    while j < n
        invariant
            j <= n,
            n == b@.len(),
            prev@.len() == j,
            forall|k: int| 0 <= k < j ==> #[trigger] prev@[k] == lev(a@, b@, 0, k as nat),
        decreases n - j,
    {
        prev.push(j);
        j = j + 1;
    }
    prev.push(n);
    let mut r: usize = 0;
    while r < m
        invariant
            r <= m,
            m == a@.len(),
            n == b@.len(),
            prev@.len() == n + 1,
            forall|k: int| 0 <= k <= n ==> #[trigger] prev@[k] == lev(a@, b@, r as nat, k as nat),
        decreases m - r,
    {
        let i = r + 1;
        let mut cur: Vec<usize> = Vec::new();
        cur.push(i);
        let mut j: usize = 0;
        while j < n
            invariant
                r < m,
                i == r + 1,
                j <= n,
                m == a@.len(),
                n == b@.len(),
                prev@.len() == n + 1,
                forall|k: int| 0 <= k <= n ==> #[trigger] prev@[k] == lev(a@, b@, r as nat, k as nat),
                cur@.len() == j + 1,
                forall|k: int| 0 <= k <= j ==> #[trigger] cur@[k] == lev(a@, b@, i as nat, k as nat),
            decreases n - j,
        {
            proof {
                lemma_lev_bound(a@, b@, r as nat, j as nat);
                lemma_lev_bound(a@, b@, i as nat, (j + 1) as nat);
            }
            let cost: usize = if a[r] == b[j] {
                0
            } else {
                1
            };
            let up = sat_inc(prev[j + 1]);
            let left = sat_inc(cur[j]);
            let diag = prev[j] + cost;
            let best = if up <= left {
                up
            } else {
                left
            };
            let best = if best <= diag {
                best
            } else {
                diag
            };
            cur.push(best);
            j = j + 1;
        }
        prev = cur;
        r = r + 1;
    }
    prev[n]
}

} // verus!
