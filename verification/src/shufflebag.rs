//! A weighted shuffle bag: items are drawn without replacement from a stock
//! that holds each item as often as its weight says, and the stock is
//! refilled once it is empty. Over every full round the drawn frequencies
//! are exactly the weights, whatever the random words are.
use vstd::prelude::*;
use crate::random::{Entropy, pick_below};

verus! {

/// Sum of the entries of `s` from index `k` on.
pub open spec fn sum_from(s: Seq<u64>, k: int) -> int
    decreases s.len() - k,
{
    if k < 0 || k >= s.len() {
        0
    } else {
        s[k] + sum_from(s, k + 1)
    }
}

/// The kind that holds the `pick`-th item, counting the stock from kind `k`
/// on.
pub open spec fn select_from(stock: Seq<u64>, pick: int, k: int) -> int
    decreases stock.len() - k,
{
    if k < 0 || k >= stock.len() {
        k
    } else if pick < stock[k] {
        k
    } else {
        select_from(stock, pick - stock[k], k + 1)
    }
}

/// The stock that the next draw takes from: the bag refilled if it is empty.
pub open spec fn stock_to_draw(counts: Seq<u64>, remaining: Seq<u64>) -> Seq<u64> {
    if sum_from(remaining, 0) == 0 { counts } else { remaining }
}

/// The kind that `word` draws.
pub open spec fn drawn_kind(counts: Seq<u64>, remaining: Seq<u64>, word: u64) -> int {
    let stock = stock_to_draw(counts, remaining);
    select_from(stock, pick_below(word, sum_from(stock, 0) as u64) as int, 0)
}

/// The stock after `word` has drawn from it.
pub open spec fn stock_after(counts: Seq<u64>, remaining: Seq<u64>, word: u64) -> Seq<u64> {
    let stock = stock_to_draw(counts, remaining);
    let k = drawn_kind(counts, remaining, word);
    stock.update(k, (stock[k] - 1) as u64)
}

/// The stock after one draw for each of `words`, starting from `remaining`.
pub open spec fn stock_after_all(counts: Seq<u64>, remaining: Seq<u64>, words: Seq<u64>) -> Seq<u64>
    decreases words.len(),
{
    if words.len() == 0 {
        remaining
    } else {
        stock_after(counts, stock_after_all(counts, remaining, words.drop_last()), words.last())
    }
}

/// How many of the draws for `words` yield kind `kind`.
pub open spec fn tally(counts: Seq<u64>, remaining: Seq<u64>, words: Seq<u64>, kind: int) -> int
    decreases words.len(),
{
    if words.len() == 0 {
        0
    } else {
        tally(counts, remaining, words.drop_last(), kind) + if drawn_kind(
            counts,
            stock_after_all(counts, remaining, words.drop_last()),
            words.last(),
        ) == kind {
            1int
        } else {
            0int
        }
    }
}

pub proof fn lemma_sum_nonneg(s: Seq<u64>, k: int)
    ensures
        sum_from(s, k) >= 0,
    decreases s.len() - k,
{
    if 0 <= k < s.len() {
        lemma_sum_nonneg(s, k + 1);
    }
}

/// A pick below the sum of the stock from `k` on selects a kind that still
/// has items.
pub proof fn lemma_select_valid(stock: Seq<u64>, pick: int, k: int)
    requires
        0 <= k,
        0 <= pick < sum_from(stock, k),
    ensures
        k <= select_from(stock, pick, k) < stock.len(),
        stock[select_from(stock, pick, k)] > 0,
    decreases stock.len() - k,
{
    if k < stock.len() {
        if pick >= stock[k] {
            lemma_select_valid(stock, pick - stock[k], k + 1);
        }
    }
}

/// Taking one item of kind `at` lowers the sum by one.
pub proof fn lemma_sum_after_take(stock: Seq<u64>, at: int, k: int)
    requires
        0 <= k <= at < stock.len(),
        stock[at] > 0,
    ensures
        sum_from(stock.update(at, (stock[at] - 1) as u64), k) == sum_from(stock, k) - 1,
    decreases at - k,
{
    let next = stock.update(at, (stock[at] - 1) as u64);
    if k == at {
        lemma_sum_same_tail(stock, next, at + 1);
    } else {
        lemma_sum_after_take(stock, at, k + 1);
    }
}

pub proof fn lemma_sum_same_tail(a: Seq<u64>, b: Seq<u64>, k: int)
    requires
        a.len() == b.len(),
        0 <= k,
        forall|i: int| k <= i < a.len() ==> a[i] == b[i],
    ensures
        sum_from(a, k) == sum_from(b, k),
    decreases a.len() - k,
{
    if k < a.len() {
        lemma_sum_same_tail(a, b, k + 1);
    }
}

/// A stock whose sum is zero holds nothing of any kind.
pub proof fn lemma_empty_stock(stock: Seq<u64>, k: int)
    requires
        0 <= k,
        sum_from(stock, k) == 0,
    ensures
        forall|i: int| k <= i < stock.len() ==> stock[i] == 0,
    decreases stock.len() - k,
{
    if k < stock.len() {
        lemma_sum_nonneg(stock, k + 1);
        lemma_empty_stock(stock, k + 1);
    }
}

/// While a freshly filled bag is not drawn empty, every item is either
/// still in stock or has been drawn.
pub proof fn lemma_round_accounts(counts: Seq<u64>, words: Seq<u64>)
    requires
        words.len() <= sum_from(counts, 0) <= u64::MAX,
    ensures
        ({
            let rest = stock_after_all(counts, counts, words);
            &&& rest.len() == counts.len()
            &&& sum_from(rest, 0) == sum_from(counts, 0) - words.len()
            &&& forall|i: int|
                0 <= i < counts.len() ==> tally(counts, counts, words, i) + #[trigger] rest[i] == counts[i]
        }),
    decreases words.len(),
{
    if words.len() > 0 {
        let head = words.drop_last();
        lemma_round_accounts(counts, head);
        let prev = stock_after_all(counts, counts, head);
        let word = words.last();
        assert(sum_from(prev, 0) > 0);
        assert(stock_to_draw(counts, prev) == prev);
        let total = sum_from(prev, 0) as u64;
        let pick = pick_below(word, total) as int;
        assert(0 <= pick < total);
        lemma_select_valid(prev, pick, 0);
        let k = drawn_kind(counts, prev, word);
        lemma_sum_after_take(prev, k, 0);
        let rest = stock_after_all(counts, counts, words);
        assert(rest == prev.update(k, (prev[k] - 1) as u64));
        assert forall|i: int| 0 <= i < counts.len() implies tally(counts, counts, words, i)
            + #[trigger] rest[i] == counts[i] by {
            assert(tally(counts, counts, head, i) + prev[i] == counts[i]);
        }
    }
}

/// Over one full round of a freshly filled bag, each kind is drawn exactly
/// as often as its weight says: the drawn frequencies are the weights, for
/// any random words.
pub proof fn lemma_full_round_matches_weights(counts: Seq<u64>, words: Seq<u64>)
    requires
        words.len() == sum_from(counts, 0),
        sum_from(counts, 0) <= u64::MAX,
    ensures
        forall|i: int| 0 <= i < counts.len() ==> #[trigger] tally(counts, counts, words, i) == counts[i],
{
    lemma_round_accounts(counts, words);
    let rest = stock_after_all(counts, counts, words);
    lemma_empty_stock(rest, 0);
    assert forall|i: int| 0 <= i < counts.len() implies #[trigger] tally(counts, counts, words, i)
        == counts[i] by {
        assert(tally(counts, counts, words, i) + rest[i] == counts[i]);
    }
}

/// A bag of items with weights.
#[derive(Debug)]
pub struct Shufflebag<T> {
    /// The kinds of item.
    pub items: Vec<T>,
    /// How often each kind is in a full bag.
    pub counts: Vec<u64>,
    /// How often each kind is still in the bag.
    pub remaining: Vec<u64>,
}

impl<T: Copy> Shufflebag<T> {
    pub open spec fn wf(&self) -> bool {
        &&& self.items@.len() == self.counts@.len()
        &&& self.remaining@.len() == self.counts@.len()
        &&& sum_from(self.counts@, 0) <= u64::MAX
        &&& sum_from(self.remaining@, 0) <= u64::MAX
    }

    /// Number of items in a full bag.
    pub open spec fn total(&self) -> int {
        sum_from(self.counts@, 0)
    }

    /// A full bag with the given kinds and weights. Weights are taken in
    /// order as long as their sum fits the machine word; a weight that would
    /// not fit is counted as zero.
    pub fn new_with_counts(entries: &Vec<(T, u64)>) -> (bag: Shufflebag<T>)
        ensures
            bag.wf(),
            bag.items@.len() == entries@.len(),
            bag.remaining@ == bag.counts@,
            forall|i: int| 0 <= i < entries@.len() ==> bag.items@[i] == (#[trigger] entries@[i]).0,
            bag.counts@ == fitted_counts(entries@),
            entries_total(entries@, 0) <= u64::MAX ==> forall|i: int|
                0 <= i < entries@.len() ==> bag.counts@[i] == (#[trigger] entries@[i]).1,
    {
        let mut items: Vec<T> = Vec::new();
        let mut counts: Vec<u64> = Vec::new();
        let mut total: u64 = 0;
        let mut i: usize = 0;
        assert(entries@.take(0) == Seq::<(T, u64)>::empty());
        while i < entries.len()
            invariant
                i <= entries@.len(),
                items@.len() == i,
                counts@.len() == i,
                total == sum_prefix(counts@, i as int),
                counts@ == fitted_counts(entries@.take(i as int)),
                forall|j: int| 0 <= j < i ==> items@[j] == (#[trigger] entries@[j]).0,
                entries_total(entries@, 0) <= u64::MAX ==> {
                    &&& total + entries_total(entries@, i as int) == entries_total(entries@, 0)
                    &&& forall|j: int| 0 <= j < i ==> counts@[j] == (#[trigger] entries@[j]).1
                },
            decreases entries@.len() - i,
        {
            let item: T = entries[i].0;
            let weight: u64 = entries[i].1;
            let fits: bool = weight <= u64::MAX - total;
            let count: u64 = if fits { weight } else { 0 };
            proof {
                lemma_entries_total_nonneg(entries@, i as int + 1);
                let before = counts@;
                let after = counts@.push(count);
                lemma_sum_prefix_same(before, after, i as int);
                assert(entries@.take(i as int + 1).drop_last() == entries@.take(i as int));
            }
            items.push(item);
            counts.push(count);
            total = total + count;
            i = i + 1;
        }
        proof {
            lemma_prefix_is_sum(counts@, 0);
            assert(entries@.take(entries@.len() as int) == entries@);
        }
        let mut remaining: Vec<u64> = Vec::new();
        let mut k: usize = 0;
        while k < counts.len()
            invariant
                k <= counts@.len(),
                remaining@ == counts@.take(k as int),
            decreases counts@.len() - k,
        {
            remaining.push(counts[k]);
            assert(counts@.take(k as int).push(counts@[k as int]) == counts@.take(k as int + 1));
            k = k + 1;
        }
        assert(counts@.take(counts@.len() as int) == counts@);
        Shufflebag { items, counts, remaining }
    }

    /// Draws the next item. An empty bag is refilled first.
    pub fn get_next(&mut self, entropy: &mut Entropy) -> (item: T)
        requires
            old(self).wf(),
            old(self).total() > 0,
        ensures
            final(self).wf(),
            final(self).items@ == old(self).items@,
            final(self).counts@ == old(self).counts@,
            ({
                let k = drawn_kind(old(self).counts@, old(self).remaining@, old(entropy).upcoming());
                &&& 0 <= k < old(self).items@.len()
                &&& item == old(self).items@[k]
                &&& stock_to_draw(old(self).counts@, old(self).remaining@)[k] > 0
            }),
            final(self).remaining@ == stock_after(
                old(self).counts@,
                old(self).remaining@,
                old(entropy).upcoming(),
            ),
            old(entropy).after_draw(final(entropy)),
    {
        let mut left: u64 = sum_of(&self.remaining);
        if left == 0 {
            let mut k: usize = 0;
            while k < self.remaining.len()
                invariant
                    k <= self.remaining@.len(),
                    self.remaining@.len() == self.counts@.len(),
                    self.counts@ == old(self).counts@,
                    self.items@ == old(self).items@,
                    forall|j: int| 0 <= j < k ==> self.remaining@[j] == self.counts@[j],
                decreases self.remaining@.len() - k,
            {
                let c: u64 = self.counts[k];
                self.remaining[k] = c;
                k = k + 1;
            }
            assert(self.remaining@ == self.counts@);
            left = sum_of(&self.remaining);
        }
        let ghost stock = self.remaining@;
        assert(stock == stock_to_draw(old(self).counts@, old(self).remaining@));
        let pick: u64 = entropy.below(left);
        let kinds: usize = self.remaining.len();
        let mut k: usize = 0;
        let mut rest: u64 = pick;
        proof {
            lemma_select_valid(stock, pick as int, 0);
        }
        while rest >= self.remaining[k]
            invariant
                self.remaining@ == stock,
                stock.len() == kinds,
                0 <= k < stock.len(),
                0 <= rest < sum_from(stock, k as int),
                select_from(stock, pick as int, 0) == select_from(stock, rest as int, k as int),
            decreases stock.len() - k,
        {
            proof {
                assert(sum_from(stock, k as int) == stock[k as int] + sum_from(stock, k as int + 1));
                assert(sum_from(stock, k as int + 1) > 0);
                assert(k as int + 1 < stock.len());
            }
            rest = rest - self.remaining[k];
            k = k + 1;
        }
        proof {
            lemma_sum_after_take(stock, k as int, 0);
        }
        let old_count: u64 = self.remaining[k];
        self.remaining[k] = old_count - 1;
        self.items[k]
    }
}

/// The counts of a bag made of `entries`: each weight in order, but zero
/// for a weight that would take the sum past the machine word.
pub open spec fn fitted_counts<T>(entries: Seq<(T, u64)>) -> Seq<u64>
    decreases entries.len(),
{
    if entries.len() == 0 {
        Seq::empty()
    } else {
        let before = fitted_counts(entries.drop_last());
        let weight = entries.last().1;
        before.push(if weight <= u64::MAX - sum_prefix(before, before.len() as int) { weight } else { 0 })
    }
}

/// Sum of the weights of `entries` from index `k` on.
pub open spec fn entries_total<T>(entries: Seq<(T, u64)>, k: int) -> int
    decreases entries.len() - k,
{
    if k < 0 || k >= entries.len() {
        0
    } else {
        entries[k].1 + entries_total(entries, k + 1)
    }
}

pub proof fn lemma_entries_total_nonneg<T>(entries: Seq<(T, u64)>, k: int)
    ensures
        entries_total(entries, k) >= 0,
    decreases entries.len() - k,
{
    if 0 <= k < entries.len() {
        lemma_entries_total_nonneg(entries, k + 1);
    }
}

/// Sum of the first `n` entries of `s`.
pub open spec fn sum_prefix(s: Seq<u64>, n: int) -> int
    decreases n,
{
    if n <= 0 || n > s.len() {
        0
    } else {
        sum_prefix(s, n - 1) + s[n - 1]
    }
}

pub proof fn lemma_sum_prefix_same(a: Seq<u64>, b: Seq<u64>, n: int)
    requires
        0 <= n <= a.len(),
        n <= b.len(),
        forall|i: int| 0 <= i < n ==> a[i] == b[i],
    ensures
        sum_prefix(a, n) == sum_prefix(b, n),
    decreases n,
{
    if n > 0 {
        lemma_sum_prefix_same(a, b, n - 1);
    }
}

/// The sum of a prefix and the sum of the rest make the whole sum.
pub proof fn lemma_prefix_is_sum(s: Seq<u64>, k: int)
    requires
        0 <= k <= s.len(),
    ensures
        sum_prefix(s, k) + sum_from(s, k) == sum_prefix(s, s.len() as int),
    decreases s.len() - k,
{
    if k < s.len() {
        lemma_prefix_is_sum(s, k + 1);
    }
}

/// Sum of the entries of a vector whose sum fits the machine word.
pub fn sum_of(v: &Vec<u64>) -> (total: u64)
    requires
        sum_from(v@, 0) <= u64::MAX,
    ensures
        total == sum_from(v@, 0),
{
    let mut total: u64 = 0;
    let mut i: usize = 0;
    proof {
        lemma_prefix_is_sum(v@, 0);
    }
    while i < v.len()
        invariant
            i <= v@.len(),
            total == sum_prefix(v@, i as int),
            sum_prefix(v@, v@.len() as int) == sum_from(v@, 0),
            sum_from(v@, 0) <= u64::MAX,
        decreases v@.len() - i,
    {
        proof {
            lemma_prefix_is_sum(v@, i as int + 1);
            lemma_sum_nonneg(v@, i as int + 1);
        }
        total = total + v[i];
        i = i + 1;
    }
    total
}

} // verus!
