//! Evaluating a classifier from its outcomes: pairs of the actual class and
//! the predicted class of each sample. The model that makes the predictions
//! is the caller's; accuracies, being ratios, are the caller's too.
use vstd::prelude::*;

verus! {

/// How many outcomes are the pair (`actual`, `predicted`).
pub open spec fn count_pair(s: Seq<(usize, usize)>, actual: int, predicted: int) -> nat
    decreases s.len(),
{
    if s.len() == 0 {
        0
    } else {
        count_pair(s.drop_last(), actual, predicted)
            + if s.last().0 == actual && s.last().1 == predicted { 1nat } else { 0nat }
    }
}

/// How many outcomes have the actual class `actual`.
pub open spec fn count_actual(s: Seq<(usize, usize)>, actual: int) -> nat
    decreases s.len(),
{
    if s.len() == 0 {
        0
    } else {
        count_actual(s.drop_last(), actual) + if s.last().0 == actual { 1nat } else { 0nat }
    }
}

/// Every class in the outcomes is below `n`.
pub open spec fn classes_below(s: Seq<(usize, usize)>, n: nat) -> bool {
    forall|i: int| 0 <= i < s.len() ==> (#[trigger] s[i]).0 < n && s[i].1 < n
}

proof fn lemma_counts_bounded(s: Seq<(usize, usize)>, a: int, p: int)
    ensures
        count_pair(s, a, p) <= s.len(),
        count_actual(s, a) <= s.len(),
        count_pair(s, a, p) <= count_actual(s, a),
    decreases s.len(),
{
    if s.len() > 0 {
        lemma_counts_bounded(s.drop_last(), a, p);
    }
}

fn zeros(n: usize) -> (v: Vec<u32>)
    ensures
        v@.len() == n,
        forall|j: int| 0 <= j < n ==> v@[j] == 0,
{
    let mut v: Vec<u32> = Vec::new();
    let mut j: usize = 0;
    while j < n
        invariant
            j <= n,
            v@.len() == j,
            forall|k: int| 0 <= k < j ==> v@[k] == 0,
        decreases n - j,
    {
        v.push(0);
        j = j + 1;
    }
    v
}

/// The confusion matrix of the outcomes over `num_classes` classes: row
/// `a`, column `p` counts the samples of class `a` predicted as `p`.
pub fn confusion_matrix(outcomes: &Vec<(usize, usize)>, num_classes: usize) -> (m: Vec<Vec<u32>>)
    requires
        classes_below(outcomes@, num_classes as nat),
        outcomes@.len() <= u32::MAX,
    ensures
        m@.len() == num_classes,
        forall|a: int| 0 <= a < num_classes ==> (#[trigger] m@[a])@.len() == num_classes,
        forall|a: int, p: int| 0 <= a < num_classes && 0 <= p < num_classes
            ==> #[trigger] m@[a]@[p] == count_pair(outcomes@, a, p),
{
    let mut m: Vec<Vec<u32>> = Vec::new();
    let mut r: usize = 0;
    while r < num_classes
        invariant
            r <= num_classes,
            m@.len() == r,
            forall|a: int| 0 <= a < r ==> (#[trigger] m@[a])@.len() == num_classes,
            forall|a: int, p: int| 0 <= a < r && 0 <= p < num_classes ==> #[trigger] m@[a]@[p] == 0,
        decreases num_classes - r,
    {
        m.push(zeros(num_classes));
        r = r + 1;
    }
    let mut i: usize = 0;
    while i < outcomes.len()
        invariant
            i <= outcomes@.len(),
            outcomes@.len() <= u32::MAX,
            classes_below(outcomes@, num_classes as nat),
            m@.len() == num_classes,
            forall|a: int| 0 <= a < num_classes ==> (#[trigger] m@[a])@.len() == num_classes,
            forall|a: int, p: int| 0 <= a < num_classes && 0 <= p < num_classes
                ==> #[trigger] m@[a]@[p] == count_pair(outcomes@.take(i as int), a, p),
        decreases outcomes.len() - i,
    {
        let (a, p) = outcomes[i];
        assert(outcomes@[i as int].0 < num_classes && outcomes@[i as int].1 < num_classes);
        proof {
            lemma_counts_bounded(outcomes@.take(i as int), a as int, p as int);
            assert(outcomes@.take(i + 1).drop_last() =~= outcomes@.take(i as int));
        }
        let mut row = m[a].clone();
        assert(row@ =~= m@[a as int]@);
        let cur = row[p];
        row.set(p, cur + 1);
        let ghost before = m@;
        m.set(a, row);
        i = i + 1;
        proof {
            assert forall|x: int, y: int| 0 <= x < num_classes && 0 <= y < num_classes
                implies #[trigger] m@[x]@[y] == count_pair(outcomes@.take(i as int), x, y) by {
                assert(outcomes@.take(i as int).drop_last() =~= outcomes@.take(i - 1));
                assert(outcomes@.take(i as int).last() == outcomes@[i - 1]);
                if x != a {
                    assert(m@[x] == before[x]);
                }
            }
        }
    }
    assert(outcomes@.take(outcomes@.len() as int) =~= outcomes@);
    m
}

/// For each of `num_classes` classes, how many samples of it were predicted
/// right, and how many there were.
pub fn class_tallies(outcomes: &Vec<(usize, usize)>, num_classes: usize) -> (r: (Vec<u32>, Vec<u32>))
    requires
        classes_below(outcomes@, num_classes as nat),
        outcomes@.len() <= u32::MAX,
    ensures
        r.0@.len() == num_classes,
        r.1@.len() == num_classes,
        forall|c: int| 0 <= c < num_classes ==> #[trigger] r.0@[c] == count_pair(outcomes@, c, c),
        forall|c: int| 0 <= c < num_classes ==> #[trigger] r.1@[c] == count_actual(outcomes@, c),
{
    let mut correct = zeros(num_classes);
    let mut total = zeros(num_classes);
    let mut i: usize = 0;
    while i < outcomes.len()
        invariant
            i <= outcomes@.len(),
            outcomes@.len() <= u32::MAX,
            classes_below(outcomes@, num_classes as nat),
            correct@.len() == num_classes,
            total@.len() == num_classes,
            forall|c: int| 0 <= c < num_classes ==> #[trigger] correct@[c] == count_pair(outcomes@.take(i as int), c, c),
            forall|c: int| 0 <= c < num_classes ==> #[trigger] total@[c] == count_actual(outcomes@.take(i as int), c),
        decreases outcomes.len() - i,
    {
        let (a, p) = outcomes[i];
        assert(outcomes@[i as int].0 < num_classes && outcomes@[i as int].1 < num_classes);
        proof {
            lemma_counts_bounded(outcomes@.take(i as int), a as int, a as int);
            assert(outcomes@.take(i + 1).drop_last() =~= outcomes@.take(i as int));
        }
        let t = total[a];
        total.set(a, t + 1);
        if a == p {
            let c = correct[a];
            correct.set(a, c + 1);
        }
        i = i + 1;
        proof {
            assert(outcomes@.take(i as int).drop_last() =~= outcomes@.take(i - 1));
            assert(outcomes@.take(i as int).last() == outcomes@[i - 1]);
        }
    }
    assert(outcomes@.take(outcomes@.len() as int) =~= outcomes@);
    (correct, total)
}

} // verus!
