//! Scoring a guess against a target, one mark per position.
use vstd::prelude::*;

verus! {

/// What a guessed letter tells the player at its position.
#[derive(PartialEq, Eq, Structural, Clone, Copy, Debug)]
pub enum Mark {
    /// The letter does not stand for any occurrence of the target that is left.
    Absent,
    /// The letter occurs in the target elsewhere, within the letter's budget.
    Present,
    /// The letter is the target's letter at this position.
    Exact,
}

/// How many of the positions `0..n` satisfy `p`.
pub open spec fn count_up_to(n: int, p: spec_fn(int) -> bool) -> nat
    decreases n,
{
    if n <= 0 {
        0
    } else {
        count_up_to(n - 1, p) + if p(n - 1) { 1nat } else { 0nat }
    }
}

/// Occurrences of `c` among the first `n` letters of the target that no exact
/// match has taken: the budget of `c` before any present mark is handed out.
pub open spec fn unmatched(t: Seq<char>, g: Seq<char>, c: char, n: int) -> nat {
    count_up_to(n, spare_at(t, g, c))
}

/// Whether position `j` holds a `c` in the target that the guess does not match.
pub open spec fn spare_at(t: Seq<char>, g: Seq<char>, c: char) -> spec_fn(int) -> bool {
    |j: int| t[j] == c && g[j] != t[j]
}

/// Occurrences of `c` among the first `n` letters of the guess that are not
/// exact matches: those that draw on the budget of `c`, left to right.
pub open spec fn drawn(t: Seq<char>, g: Seq<char>, c: char, n: int) -> nat {
    count_up_to(n, |k: int| g[k] == c && g[k] != t[k])
}

/// The mark of position `i`: exact where the letters agree; otherwise present
/// while the budget of the guessed letter is not used up by earlier positions.
pub open spec fn mark_at(t: Seq<char>, g: Seq<char>, i: int) -> Mark {
    if g[i] == t[i] {
        Mark::Exact
    } else if drawn(t, g, g[i], i) < unmatched(t, g, g[i], t.len() as int) {
        Mark::Present
    } else {
        Mark::Absent
    }
}

/// The feedback for guess `g` against target `t`, one mark per position.
pub open spec fn score_spec(t: Seq<char>, g: Seq<char>) -> Seq<Mark> {
    Seq::new(g.len(), |i: int| mark_at(t, g, i))
}

/// Counts the target's letters equal to `c` whose position the guess does not match.
fn count_unmatched(target: &str, guess: &str, c: char, n: usize) -> (r: usize)
    requires
        target@.len() == n,
        guess@.len() == n,
    ensures
        r == unmatched(target@, guess@, c, n as int),
{
    let mut r: usize = 0;
    let mut j: usize = 0;
    while j < n
        invariant
            target@.len() == n,
            guess@.len() == n,
            j <= n,
            r == unmatched(target@, guess@, c, j as int),
            r <= j,
        decreases n - j,
    {
        let tj = target.get_char(j);
        if tj == c && guess.get_char(j) != tj {
            r = r + 1;
        }
        j = j + 1;
    }
    r
}

/// Counts the guess's letters equal to `c` before position `i` that are not exact matches.
fn count_drawn(target: &str, guess: &str, c: char, i: usize) -> (r: usize)
    requires
        i <= target@.len(),
        target@.len() == guess@.len(),
    ensures
        r == drawn(target@, guess@, c, i as int),
{
    let mut r: usize = 0;
    let mut k: usize = 0;
    while k < i
        invariant
            i <= target@.len(),
            target@.len() == guess@.len(),
            k <= i,
            r == drawn(target@, guess@, c, k as int),
            r <= k,
        decreases i - k,
    {
        let gk = guess.get_char(k);
        if gk == c && gk != target.get_char(k) {
            r = r + 1;
        }
        k = k + 1;
    }
    r
}

/// Scores `guess` against `target`. Exact matches are settled first at every
/// position; each letter's budget is then its count in the target less the
/// exact matches that used it, and the other positions, left to right, are
/// marked present while the budget of their letter lasts and absent after.
pub fn score(target: &str, guess: &str) -> (r: Vec<Mark>)
    requires
        target@.len() == guess@.len(),
    ensures
        r@ == score_spec(target@, guess@),
{
    let n = guess.unicode_len();
    let mut marks: Vec<Mark> = Vec::new();
    let mut i: usize = 0;
    while i < n
        invariant
            n == guess@.len(),
            target@.len() == guess@.len(),
            i <= n,
            marks@.len() == i,
            forall|k: int| 0 <= k < i ==> marks@[k] == mark_at(target@, guess@, k),
        decreases n - i,
    {
        let gi = guess.get_char(i);
        let m = if gi == target.get_char(i) {
            Mark::Exact
        } else if count_drawn(target, guess, gi, i) < count_unmatched(target, guess, gi, n) {
            Mark::Present
        } else {
            Mark::Absent
        };
        marks.push(m);
        i = i + 1;
    }
    assert(marks@ =~= score_spec(target@, guess@));
    marks
}

/// Positions whose mark is exact.
pub open spec fn num_exact(m: Seq<Mark>) -> nat {
    count_up_to(m.len() as int, |i: int| m[i] == Mark::Exact)
}

/// Positions at which the target and the guess hold the same letter.
pub open spec fn num_agree(t: Seq<char>, g: Seq<char>) -> nat {
    count_up_to(g.len() as int, |i: int| t[i] == g[i])
}

/// Occurrences of `c` in the guess that are marked present or exact.
pub open spec fn letter_hits(g: Seq<char>, m: Seq<Mark>, c: char) -> nat {
    count_up_to(g.len() as int, hit_at(g, m, c))
}

/// Whether position `i` holds a `c` in the guess that is marked present or exact.
pub open spec fn hit_at(g: Seq<char>, m: Seq<Mark>, c: char) -> spec_fn(int) -> bool {
    |i: int| g[i] == c && m[i] != Mark::Absent
}

/// Occurrences of `c` in the target.
pub open spec fn letter_count(t: Seq<char>, c: char) -> nat {
    count_up_to(t.len() as int, occurs_at(t, c))
}

/// Whether position `j` of `t` holds `c`.
pub open spec fn occurs_at(t: Seq<char>, c: char) -> spec_fn(int) -> bool {
    |j: int| t[j] == c
}

/// Occurrences of `c` among the first `k` letters of the guess that are marked present.
pub open spec fn presents(t: Seq<char>, g: Seq<char>, c: char, k: int) -> nat {
    count_up_to(k, present_at(t, g, c))
}

/// Whether position `i` holds a `c` in the guess that is marked present.
pub open spec fn present_at(t: Seq<char>, g: Seq<char>, c: char) -> spec_fn(int) -> bool {
    |i: int| g[i] == c && g[i] != t[i] && mark_at(t, g, i) == Mark::Present
}

/// Counting over two predicates that agree below `n` gives the same number.
pub proof fn lemma_count_same(n: int, p: spec_fn(int) -> bool, q: spec_fn(int) -> bool)
    requires
        forall|i: int| 0 <= i < n ==> #[trigger] p(i) == q(i),
    ensures
        count_up_to(n, p) == count_up_to(n, q),
    decreases n,
{
    if n > 0 {
        lemma_count_same(n - 1, p, q);
    }
}

/// Counting over a predicate that is the disjoint union of two others below `n`
/// gives the sum of their counts.
pub proof fn lemma_count_split(
    n: int,
    r: spec_fn(int) -> bool,
    p: spec_fn(int) -> bool,
    q: spec_fn(int) -> bool,
)
    requires
        forall|i: int| 0 <= i < n ==> #[trigger] r(i) == (p(i) || q(i)),
        forall|i: int| 0 <= i < n ==> !(#[trigger] p(i) && q(i)),
    ensures
        count_up_to(n, r) == count_up_to(n, p) + count_up_to(n, q),
    decreases n,
{
    if n > 0 {
        lemma_count_split(n - 1, r, p, q);
    }
}

/// Of the non-exact occurrences of `c` in the guess, the first ones are marked
/// present, as many as the budget of `c` allows.
proof fn lemma_presents(t: Seq<char>, g: Seq<char>, c: char, k: int)
    requires
        t.len() == g.len(),
        0 <= k <= g.len(),
    ensures
        presents(t, g, c, k) == if drawn(t, g, c, k) < unmatched(t, g, c, t.len() as int) {
            drawn(t, g, c, k)
        } else {
            unmatched(t, g, c, t.len() as int)
        },
    decreases k,
{
    if k > 0 {
        lemma_presents(t, g, c, k - 1);
    }
}

/// The number of exact marks equals the number of positions at which the target
/// and the guess agree, so it never exceeds it.
pub proof fn lemma_exact_count(t: Seq<char>, g: Seq<char>)
    requires
        t.len() == g.len(),
    ensures
        num_exact(score_spec(t, g)) == num_agree(t, g),
        num_exact(score_spec(t, g)) <= num_agree(t, g),
{
    let m = score_spec(t, g);
    lemma_count_same(
        g.len() as int,
        |i: int| m[i] == Mark::Exact,
        |i: int| t[i] == g[i],
    );
}

/// For every letter, the positions of the guess that hold it and are marked
/// present or exact are no more than its occurrences in the target.
pub proof fn lemma_letter_budget(t: Seq<char>, g: Seq<char>, c: char)
    requires
        t.len() == g.len(),
    ensures
        letter_hits(g, score_spec(t, g), c) <= letter_count(t, c),
{
    let n = g.len() as int;
    let m = score_spec(t, g);
    let agree = |i: int| t[i] == c && g[i] == t[i];
    let pres = present_at(t, g, c);
    let spare = spare_at(t, g, c);
    lemma_count_split(n, hit_at(g, m, c), agree, pres);
    lemma_count_split(n, occurs_at(t, c), agree, spare);
    lemma_presents(t, g, c, n);
}

/// Scoring is a function of the target and the guess alone: equal inputs give
/// equal feedback, whenever it is asked for.
pub proof fn lemma_score_deterministic(t1: Seq<char>, g1: Seq<char>, t2: Seq<char>, g2: Seq<char>)
    requires
        t1 == t2,
        g1 == g2,
    ensures
        score_spec(t1, g1) == score_spec(t2, g2),
{
}

/// The feedback has one mark per position of the guess.
pub proof fn lemma_score_len(t: Seq<char>, g: Seq<char>)
    ensures
        score_spec(t, g).len() == g.len(),
{
}

} // verus!
