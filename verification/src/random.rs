//! Randomness handed in by the host, and a shuffle bag on top of it.
//!
//! The simulation owns no generator. The host fills an `Entropy` with words
//! from its own seeded stream; every draw here is a fixed function of the
//! next word, so a run is determined by the words it was given.
use vstd::prelude::*;
use crate::fixed::UNIT;

verus! {

/// A stock of random words and the place of the next one. When the stock
/// runs out it is read again from the start; an empty stock yields zeros.
#[derive(Debug)]
pub struct Entropy {
    pub words: Vec<u64>,
    pub cursor: usize,
}

/// The value that a word selects from `lo ..= hi`; `lo` when the range is
/// empty.
pub open spec fn pick_range(word: u64, lo: i64, hi: i64) -> i64 {
    if hi <= lo {
        lo
    } else {
        (lo + (word as int) % (hi - lo + 1)) as i64
    }
}

/// The index that a word selects below `n`; 0 when `n` is 0.
pub open spec fn pick_below(word: u64, n: u64) -> u64 {
    if n == 0 { 0 } else { word % n }
}

/// Whether a word counts as a hit at probability `chance` out of `UNIT`.
pub open spec fn pick_chance(word: u64, chance: i64) -> bool {
    (word % 1_000_000) < chance
}

impl Entropy {
    /// Index of the word that the next draw reads.
    pub open spec fn position(&self) -> int {
        if self.cursor < self.words@.len() { self.cursor as int } else { 0 }
    }

    /// The word that the next draw reads.
    pub open spec fn upcoming(&self) -> u64 {
        if self.words@.len() == 0 { 0 } else { self.words@[self.position()] }
    }

    /// The stock and the cursor after one draw.
    pub open spec fn after_draw(&self, next: &Entropy) -> bool {
        &&& next.words@ == self.words@
        &&& next.cursor == (if self.position() + 1 < self.words@.len() { self.position() + 1 } else { 0 })
    }

    /// Index of the word that is read after `draws` draws have been made.
    pub open spec fn position_after(&self, draws: nat) -> int
        decreases draws,
    {
        if draws == 0 {
            self.position()
        } else {
            let before = self.position_after((draws - 1) as nat);
            if before + 1 < self.words@.len() { before + 1 } else { 0 }
        }
    }

    /// The word that the draw after `draws` draws reads.
    pub open spec fn word_after(&self, draws: nat) -> u64 {
        if self.words@.len() == 0 { 0 } else { self.words@[self.position_after(draws)] }
    }

    /// The stock and the cursor after `draws` draws, for at least one draw.
    pub open spec fn after_draws(&self, next: &Entropy, draws: nat) -> bool {
        &&& next.words@ == self.words@
        &&& next.cursor == self.position_after(draws)
    }

    /// Every position lies within the stock, or is 0 for an empty stock.
    pub proof fn lemma_position_in_stock(&self, draws: nat)
        ensures
            0 <= self.position_after(draws),
            self.words@.len() > 0 ==> self.position_after(draws) < self.words@.len(),
            self.words@.len() == 0 ==> self.position_after(draws) == 0,
        decreases draws,
    {
        if draws > 0 {
            self.lemma_position_in_stock((draws - 1) as nat);
        }
    }

    /// The first draw reads the word after no draws and leaves the stock as
    /// after one draw.
    pub proof fn lemma_first_draw(&self, next: &Entropy)
        requires
            self.after_draw(next),
        ensures
            self.upcoming() == self.word_after(0),
            self.after_draws(next, 1),
    {
        assert(self.position_after(0) == self.position());
        assert(self.position_after(1) == (if self.position_after(0) + 1 < self.words@.len() {
            self.position_after(0) + 1
        } else {
            0
        }));
    }

    /// One more draw after `draws` draws makes `draws + 1` draws, and it
    /// reads the word that comes after `draws` draws.
    pub proof fn lemma_one_more_draw(&self, mid: &Entropy, next: &Entropy, draws: nat)
        requires
            draws >= 1,
            self.after_draws(mid, draws),
            mid.after_draw(next),
        ensures
            mid.upcoming() == self.word_after(draws),
            self.after_draws(next, draws + 1),
    {
        self.lemma_position_in_stock(draws);
    }

    /// The stock and the cursor after `draws` draws: both as they were
    /// after none.
    pub open spec fn drawn(&self, next: &Entropy, draws: nat) -> bool {
        if draws == 0 {
            *next == *self
        } else {
            self.after_draws(next, draws)
        }
    }

    /// A draw after `draws` draws reads the word that comes after them and
    /// makes one draw more.
    pub proof fn lemma_draw_after(&self, mid: &Entropy, next: &Entropy, draws: nat)
        requires
            self.drawn(mid, draws),
            mid.after_draw(next),
        ensures
            mid.upcoming() == self.word_after(draws),
            self.drawn(next, draws + 1),
    {
        if draws == 0 {
            self.lemma_first_draw(next);
        } else {
            self.lemma_one_more_draw(mid, next, draws);
        }
    }

    /// After `first` draws the place of the `k`-th next word is the place
    /// of the word after `first + k` draws.
    pub proof fn lemma_position_shift(&self, mid: &Entropy, first: nat, k: nat)
        requires
            self.drawn(mid, first),
        ensures
            mid.position_after(k) == self.position_after(first + k),
            mid.word_after(k) == self.word_after(first + k),
        decreases k,
    {
        self.lemma_position_in_stock(first);
        if k > 0 {
            self.lemma_position_shift(mid, first, (k - 1) as nat);
            assert(first + k - 1 == (first + k - 1) as nat);
        }
    }

    /// Draws add up: `second` draws after `first` draws are `first +
    /// second` draws.
    pub proof fn lemma_draws_add(&self, mid: &Entropy, next: &Entropy, first: nat, second: nat)
        requires
            self.drawn(mid, first),
            mid.drawn(next, second),
        ensures
            self.drawn(next, first + second),
    {
        if second > 0 {
            self.lemma_position_shift(mid, first, second);
        }
    }

    pub fn new(words: Vec<u64>) -> (e: Entropy)
        ensures
            e.words@ == words@,
            e.cursor == 0,
    {
        Entropy { words, cursor: 0 }
    }

    pub fn next_word(&mut self) -> (word: u64)
        ensures
            word == old(self).upcoming(),
            old(self).after_draw(final(self)),
    {
        let len: usize = self.words.len();
        if len == 0 {
            self.cursor = 0;
            0
        } else {
            let at: usize = if self.cursor < len { self.cursor } else { 0 };
            let word: u64 = self.words[at];
            self.cursor = if at + 1 < len { at + 1 } else { 0 };
            word
        }
    }

    /// Draws an index below `n`.
    pub fn below(&mut self, n: u64) -> (index: u64)
        ensures
            index == pick_below(old(self).upcoming(), n),
            n > 0 ==> index < n,
            old(self).after_draw(final(self)),
    {
        let word: u64 = self.next_word();
        if n == 0 { 0 } else { word % n }
    }

    /// Draws a value from `lo ..= hi`.
    pub fn range(&mut self, lo: i64, hi: i64) -> (value: i64)
        ensures
            value == pick_range(old(self).upcoming(), lo, hi),
            lo <= hi ==> lo <= value <= hi,
            old(self).after_draw(final(self)),
    {
        let word: u64 = self.next_word();
        if hi <= lo {
            lo
        } else {
            let span: u128 = (hi as i128 - lo as i128 + 1) as u128;
            let offset: u128 = (word as u128) % span;
            (lo as i128 + offset as i128) as i64
        }
    }

    /// Draws `true` with probability `chance` out of `UNIT`.
    pub fn chance(&mut self, chance: i64) -> (hit: bool)
        ensures
            hit == pick_chance(old(self).upcoming(), chance),
            old(self).after_draw(final(self)),
    {
        let word: u64 = self.next_word();
        ((word % (UNIT as u64)) as i64) < chance
    }
}

} // verus!
