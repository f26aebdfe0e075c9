//! The directive that a misspelled one was meant to be.
use vstd::prelude::*;

use crate::text::chars_of;

verus! {

/// How many directives there are.
pub const DIRECTIVE_COUNT: usize = 11;

/// The names of the directives.
pub open spec fn directive_name(k: int) -> Seq<char> {
    if k == 0 {
        "define"@
    } else if k == 1 {
        "undefine"@
    } else if k == 2 {
        "ifdef"@
    } else if k == 3 {
        "ifndef"@
    } else if k == 4 {
        "if"@
    } else if k == 5 {
        "elseif"@
    } else if k == 6 {
        "elseifdef"@
    } else if k == 7 {
        "else"@
    } else if k == 8 {
        "endif"@
    } else if k == 9 {
        "module"@
    } else {
        "import"@
    }
}

fn directive_at(k: usize) -> (r: &'static str)
    ensures
        r@ == directive_name(k as int),
{
    if k == 0 {
        "define"
    } else if k == 1 {
        "undefine"
    } else if k == 2 {
        "ifdef"
    } else if k == 3 {
        "ifndef"
    } else if k == 4 {
        "if"
    } else if k == 5 {
        "elseif"
    } else if k == 6 {
        "elseifdef"
    } else if k == 7 {
        "else"
    } else if k == 8 {
        "endif"
    } else if k == 9 {
        "module"
    } else {
        "import"
    }
}

/// The smaller of two numbers.
pub open spec fn least(a: nat, b: nat) -> nat {
    if a <= b {
        a
    } else {
        b
    }
}

/// How many characters have to be put in, taken out or changed to get from the
/// first `i` characters of `a` to the first `j` of `b`.
pub open spec fn distance(a: Seq<char>, b: Seq<char>, i: nat, j: nat) -> nat
    decreases i + j,
{
    if i == 0 {
        j
    } else if j == 0 {
        i
    } else {
        let change: nat = if a[i - 1] != b[j - 1] {
            1
        } else {
            0
        };
        least(
            least(
                distance(a, b, (i - 1) as nat, (j - 1) as nat) + change,
                distance(a, b, (i - 1) as nat, j) + 1,
            ),
            distance(a, b, i, (j - 1) as nat) + 1,
        )
    }
}

proof fn lemma_distance_bound(a: Seq<char>, b: Seq<char>, i: nat, j: nat)
    ensures
        distance(a, b, i, j) <= i || distance(a, b, i, j) <= j,
    decreases i + j,
{
    if i > 0 && j > 0 {
        lemma_distance_bound(a, b, (i - 1) as nat, (j - 1) as nat);
    }
}

/// The edit distance of two texts.
pub fn levenshtein(a: &str, b: &str) -> (r: usize)
    ensures
        r == distance(a@, b@, a@.len(), b@.len()),
{
    let x = chars_of(a);
    let y = chars_of(b);
    let n = x.len();
    let m = y.len();
    let mut prev: Vec<usize> = Vec::new();
    let mut k: usize = 0;
    while k < m
        invariant
            k <= m,
            m == y@.len(),
            prev@.len() == k,
            forall|j: int| 0 <= j < k ==> #[trigger] prev@[j] == distance(x@, y@, 0, j as nat),
        decreases m - k,
    {
        prev.push(k);
        k = k + 1;
    }
    prev.push(m);
    let mut i: usize = 0;
    while i < n
        invariant
            i <= n,
            n == x@.len(),
            m == y@.len(),
            prev@.len() == m + 1,
            forall|j: int|
                0 <= j <= m ==> #[trigger] prev@[j] == distance(x@, y@, i as nat, j as nat),
        decreases n - i,
    {
        let mut row: Vec<usize> = Vec::new();
        row.push(i + 1);
        let mut j: usize = 0;
        while j < m
            invariant
                j <= m,
                i < n,
                n == x@.len(),
                m == y@.len(),
                prev@.len() == m + 1,
                row@.len() == j + 1,
                forall|k: int|
                    0 <= k <= m ==> #[trigger] prev@[k] == distance(x@, y@, i as nat, k as nat),
                forall|k: int|
                    0 <= k <= j ==> #[trigger] row@[k] == distance(
                        x@,
                        y@,
                        (i + 1) as nat,
                        k as nat,
                    ),
            decreases m - j,
        {
            proof {
                lemma_distance_bound(x@, y@, i as nat, j as nat);
                lemma_distance_bound(x@, y@, i as nat, (j + 1) as nat);
                lemma_distance_bound(x@, y@, (i + 1) as nat, j as nat);
                lemma_distance_bound(x@, y@, (i + 1) as nat, (j + 1) as nat);
                assert(prev@[j as int] == distance(x@, y@, i as nat, j as nat));
                assert(prev@[j + 1] == distance(x@, y@, i as nat, (j + 1) as nat));
                assert(row@[j as int] == distance(x@, y@, (i + 1) as nat, j as nat));
            }
            let same = x[i] == y[j];
            let mut best: usize = prev[j];
            if !same {
                if prev[j + 1] < best {
                    best = prev[j + 1];
                }
                if row[j] < best {
                    best = row[j];
                }
                best = best + 1;
            } else {
                if prev[j + 1] < best {
                    best = prev[j + 1] + 1;
                }
                if row[j] < best {
                    best = row[j] + 1;
                }
            }
            row.push(best);
            j = j + 1;
        }
        prev = row;
        i = i + 1;
    }
    prev[m]
}

/// The nearest of the first `k` directives that is near enough, with its
/// distance.
pub open spec fn nearest(name: Seq<char>, k: nat) -> Option<(nat, Seq<char>)>
    decreases k,
{
    if k == 0 {
        None
    } else {
        let before = nearest(name, (k - 1) as nat);
        let candidate = directive_name(k - 1);
        let d = distance(name, candidate, name.len(), candidate.len());
        if d > (vstd::utf8::encode_utf8(name).len() + 2) / 3 {
            before
        } else {
            match before {
                Some((best, _)) if best <= d => before,
                _ => Some((d, candidate)),
            }
        }
    }
}

/// The directive that `name` was meant to be.
pub open spec fn suggestion(name: Seq<char>) -> Option<Seq<char>> {
    match nearest(name, DIRECTIVE_COUNT as nat) {
        Some((_, candidate)) => Some(candidate),
        None => None,
    }
}

/// The directive nearest to `name`, if one is within a third of its length in
/// bytes.
pub fn suggest_directive(name: &str) -> (r: Option<String>)
    ensures
        r.deep_view() == suggestion(name@),
{
    let len = name.as_bytes().len();
    let limit: usize = if len % 3 == 0 {
        len / 3
    } else {
        len / 3 + 1
    };
    let mut best: Option<(usize, &'static str)> = None;
    let mut k: usize = 0;
    while k < DIRECTIVE_COUNT
        invariant
            k <= DIRECTIVE_COUNT,
            limit == (vstd::utf8::encode_utf8(name@).len() + 2) / 3,
            match best {
                Some((d, candidate)) => nearest(name@, k as nat) == Some((d as nat, candidate@)),
                None => nearest(name@, k as nat) is None,
            },
        decreases DIRECTIVE_COUNT - k,
    {
        let candidate = directive_at(k);
        let d = levenshtein(name, candidate);
        if d <= limit {
            let better = match best {
                Some((least, _)) => d < least,
                None => true,
            };
            if better {
                best = Some((d, candidate));
            }
        }
        k = k + 1;
    }
    match best {
        Some((_, candidate)) => Some(candidate.to_owned()),
        None => None,
    }
}

} // verus!
