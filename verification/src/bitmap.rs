//! Sets of processors and NUMA nodes, designated by their index
use vstd::prelude::*;

verus! {

/// Set of processing units, designated by their OS index
pub type CpuSet = Bitmap;

/// Set of NUMA nodes, designated by their OS index
pub type NodeSet = Bitmap;

/// Set of indices that is finite, or that holds every index from some point on
#[derive(Clone, Debug)]
pub struct Bitmap {
    /// Bit `i % 64` of word `i / 64` tells if the set holds index `i`
    words: Vec<u64>,
    /// Truth that the set holds the indices which lie beyond the last word
    infinite: bool,
}

/// Truth that bit `k` of `word` is set
pub open spec fn bit(word: u64, k: u64) -> bool {
    (word >> k) & 1 == 1
}

impl View for Bitmap {
    type V = Set<nat>;

    closed spec fn view(&self) -> Set<nat> {
        Set::new(|i: nat| bit(self.word_at((i / 64) as int), (i % 64) as u64))
    }
}

impl Bitmap {
    /// Word `w` of the set, without an end
    closed spec fn word_at(&self, w: int) -> u64 {
        if w < self.words@.len() {
            self.words@[w]
        } else if self.infinite {
            u64::MAX
        } else {
            0
        }
    }

    /// Set that holds index `i` if bit `i % 64` of `words[i / 64]` is set, and
    /// holds the indices beyond the last word if `infinite` is set
    pub fn from_words(words: Vec<u64>, infinite: bool) -> (set: Bitmap)
        ensures
            forall|i: nat| #[trigger]
                set@.contains(i) <==> if i / 64 < words@.len() {
                    bit(words@[(i / 64) as int], (i % 64) as u64)
                } else {
                    infinite
                },
    {
        let set = Bitmap { words, infinite };
        assert forall|i: nat| #[trigger] set@.contains(i) <==> if i / 64 < words@.len() {
            bit(words@[(i / 64) as int], (i % 64) as u64)
        } else {
            infinite
        } by {
            lemma_constant_word_bits((i % 64) as u64);
        }
        set
    }

    /// The empty set
    pub fn new() -> (set: Bitmap)
        ensures
            set@ == Set::<nat>::empty(),
    {
        let set = Bitmap { words: Vec::new(), infinite: false };
        assert forall|i: nat| !#[trigger] set@.contains(i) by {
            lemma_constant_word_bits((i % 64) as u64);
        }
        assert(set@ =~= Set::<nat>::empty());
        set
    }

    /// The set of all indices
    pub fn full() -> (set: Bitmap)
        ensures
            set@ == Set::<nat>::full(),
    {
        let set = Bitmap { words: Vec::new(), infinite: true };
        assert forall|i: nat| #[trigger] set@.contains(i) by {
            lemma_constant_word_bits((i % 64) as u64);
        }
        assert(set@ =~= Set::<nat>::full());
        set
    }

    /// Word `w` of the set, without an end
    fn word(&self, w: usize) -> (word: u64)
        ensures
            word == self.word_at(w as int),
    {
        if w < self.words.len() {
            self.words[w]
        } else if self.infinite {
            u64::MAX
        } else {
            0
        }
    }

    /// Add an index to the set
    pub fn set(&mut self, index: usize)
        ensures
            final(self)@ == old(self)@.insert(index as nat),
    {
        let w: usize = index / 64;
        let k: u64 = (index % 64) as u64;
        while self.words.len() <= w
            invariant
                self@ == old(self)@,
                self.infinite == old(self).infinite,
            decreases w + 1 - self.words@.len(),
        {
            let ghost before = *self;
            let next = self.word(self.words.len());
            self.words.push(next);
            assert forall|i: nat| #[trigger] self@.contains(i) == before@.contains(i) by {
                assert(self.word_at((i / 64) as int) == before.word_at((i / 64) as int));
            }
            assert(self@ =~= before@);
        }
        let ghost before = *self;
        let word = self.words[w];
        let marked = word | (1u64 << k);
        self.words[w] = marked;
        assert forall|i: nat| #[trigger]
            self@.contains(i) == (before@.contains(i) || i == index) by {
            let j = (i % 64) as u64;
            lemma_set_bit(word, k, j);
            if i / 64 == w {
                assert(before.word_at((i / 64) as int) == word);
                assert(self.word_at((i / 64) as int) == marked);
                assert(i == index <==> j == k);
            } else {
                assert(self.word_at((i / 64) as int) == before.word_at((i / 64) as int));
            }
        }
        assert(self@ =~= before@.insert(index as nat));
    }

    /// Add the indices of another set to the set
    pub fn add_all(&mut self, other: &Bitmap)
        ensures
            final(self)@ == old(self)@.union(other@),
    {
        let length = if self.words.len() < other.words.len() {
            other.words.len()
        } else {
            self.words.len()
        };
        let mut words: Vec<u64> = Vec::new();
        while words.len() < length
            invariant
                *self == *old(self),
                words@.len() <= length,
                forall|v: int|
                    0 <= v < words@.len() ==> #[trigger] words@[v] == self.word_at(v)
                        | other.word_at(v),
            decreases length - words@.len(),
        {
            let w = words.len();
            words.push(self.word(w) | other.word(w));
        }
        let all = Bitmap { words, infinite: self.infinite || other.infinite };
        proof {
            assert forall|i: nat| #[trigger]
                all@.contains(i) == (self@.contains(i) || other@.contains(i)) by {
                let v = (i / 64) as int;
                let k = (i % 64) as u64;
                lemma_constant_word_bits(k);
                if v < length {
                    lemma_or_bit(self.word_at(v), other.word_at(v), k);
                }
            }
            assert(all@ =~= self@.union(other@));
        }
        *self = all;
    }

    /// Truth that both sets hold the same indices
    pub fn same(&self, other: &Bitmap) -> (same: bool)
        ensures
            same == (self@ == other@),
    {
        let same = self.includes(other) && other.includes(self);
        proof {
            if same {
                assert(self@ =~= other@);
            }
        }
        same
    }

    /// Truth that the set holds an index
    pub fn is_set(&self, index: usize) -> (set: bool)
        ensures
            set == self@.contains(index as nat),
    {
        (self.word(index / 64) >> ((index % 64) as u64)) & 1 == 1
    }

    /// Truth that the set holds no index
    pub fn is_empty(&self) -> (empty: bool)
        ensures
            empty == (self@ == Set::<nat>::empty()),
    {
        if self.infinite {
            proof {
                let i = 64 * self.words@.len();
                assert((i / 64) as int == self.words@.len() as int);
                lemma_constant_word_bits((i % 64) as u64);
                assert(self@.contains(i));
            }
            return false;
        }
        let mut w: usize = 0;
        while w < self.words.len()
            invariant
                w <= self.words@.len(),
                forall|v: int| 0 <= v < w ==> self.words@[v] == 0,
            decreases self.words@.len() - w,
        {
            if self.words[w] != 0 {
                proof {
                    let k = lemma_some_bit(self.words@[w as int]);
                    let i = (64 * w + k) as nat;
                    assert(i / 64 == w && i % 64 == k);
                    assert(self@.contains(i));
                }
                return false;
            }
            w += 1;
        }
        assert forall|i: nat| !#[trigger] self@.contains(i) by {
            assert(self.word_at((i / 64) as int) == 0);
            lemma_constant_word_bits((i % 64) as u64);
        }
        assert(self@ =~= Set::<nat>::empty());
        true
    }

    /// Truth that every index of `inner` is in this set
    pub fn includes(&self, inner: &Bitmap) -> (includes: bool)
        ensures
            includes == inner@.subset_of(self@),
    {
        let length = if self.words.len() < inner.words.len() {
            inner.words.len()
        } else {
            self.words.len()
        };
        if inner.infinite && !self.infinite {
            proof {
                let i = (64 * length) as nat;
                assert(i / 64 == length && i % 64 == 0);
                lemma_constant_word_bits(0);
                assert(inner@.contains(i) && !self@.contains(i));
            }
            return false;
        }
        let mut w: usize = 0;
        while w < length
            invariant
                w <= length,
                self.words@.len() <= length,
                inner.words@.len() <= length,
                forall|v: int|
                    0 <= v < w ==> #[trigger] self.word_at(v) & inner.word_at(v) == inner.word_at(
                        v,
                    ),
            decreases length - w,
        {
            if self.word(w) & inner.word(w) != inner.word(w) {
                proof {
                    let k = lemma_missing_bit(self.word_at(w as int), inner.word_at(w as int));
                    let i = (64 * w + k) as nat;
                    assert(i / 64 == w && i % 64 == k);
                    assert(inner@.contains(i) && !self@.contains(i));
                }
                return false;
            }
            w += 1;
        }
        assert forall|i: nat| inner@.contains(i) implies self@.contains(i) by {
            let v = (i / 64) as int;
            let k = (i % 64) as u64;
            let a = self.word_at(v);
            let b = inner.word_at(v);
            lemma_constant_word_bits(k);
            if v < length {
                assert(a & b == b);
                assert(bit(b, k) ==> bit(a, k)) by (bit_vector)
                    requires
                        a & b == b,
                        k < 64,
                ;
            }
        }
        true
    }
}

impl Default for Bitmap {
    /// The empty set
    fn default() -> (set: Self)
        ensures
            set@ == Set::<nat>::empty(),
    {
        Bitmap::new()
    }
}

proof fn lemma_constant_word_bits(k: u64)
    requires
        k < 64,
    ensures
        !bit(0, k),
        bit(u64::MAX, k),
{
    assert(!bit(0, k) && bit(u64::MAX, k)) by (bit_vector)
        requires
            k < 64,
    ;
}

proof fn lemma_set_bit(word: u64, k: u64, j: u64)
    requires
        k < 64,
        j < 64,
    ensures
        bit(word | (1u64 << k), j) == (bit(word, j) || j == k),
{
    assert(bit(word | (1u64 << k), j) == (bit(word, j) || j == k)) by (bit_vector)
        requires
            k < 64,
            j < 64,
    ;
}

proof fn lemma_or_bit(a: u64, b: u64, k: u64)
    requires
        k < 64,
    ensures
        bit(a | b, k) == (bit(a, k) || bit(b, k)),
{
    assert(bit(a | b, k) == (bit(a, k) || bit(b, k))) by (bit_vector)
        requires
            k < 64,
    ;
}

/// A bit from position `from` on that is set in `inner` and not in `outer`,
/// where the two words show that there is one
proof fn lemma_missing_bit_from(outer: u64, inner: u64, from: u64) -> (k: u64)
    requires
        from < 64,
        (outer >> from) & (inner >> from) != inner >> from,
    ensures
        k < 64,
        bit(inner, k),
        !bit(outer, k),
    decreases 64 - from,
{
    if bit(inner, from) && !bit(outer, from) {
        from
    } else if from == 63 {
        assert(false) by {
            assert((outer >> 63u64) & (inner >> 63u64) == inner >> 63u64 || (bit(inner, 63)
                && !bit(outer, 63))) by (bit_vector);
        }
        from
    } else {
        let next = (from + 1) as u64;
        assert((outer >> next) & (inner >> next) != inner >> next) by (bit_vector)
            requires
                from < 63,
                next == from + 1,
                (outer >> from) & (inner >> from) != inner >> from,
                !(bit(inner, from) && !bit(outer, from)),
        ;
        lemma_missing_bit_from(outer, inner, next)
    }
}

/// A bit that is set in `inner` and not in `outer`
proof fn lemma_missing_bit(outer: u64, inner: u64) -> (k: u64)
    requires
        outer & inner != inner,
    ensures
        k < 64,
        bit(inner, k),
        !bit(outer, k),
{
    assert((outer >> 0u64) & (inner >> 0u64) == outer & inner && inner >> 0u64 == inner)
        by (bit_vector);
    lemma_missing_bit_from(outer, inner, 0)
}

/// A bit that is set in `word`
proof fn lemma_some_bit(word: u64) -> (k: u64)
    requires
        word != 0,
    ensures
        k < 64,
        bit(word, k),
{
    assert(0u64 & word != word) by (bit_vector)
        requires
            word != 0,
    ;
    lemma_missing_bit(0, word)
}

/// A word with a single bit has this bit and no other, and words that are put together have
/// the bits of both
pub proof fn law_word_bits(a: u64, b: u64, k: u64, j: u64)
    requires
        k < 64,
        j < 64,
    ensures
        bit(1u64 << k, j) <==> j == k,
        bit(a | b, k) <==> bit(a, k) || bit(b, k),
        !bit(0, k),
        bit(u64::MAX, k),
{
    lemma_constant_word_bits(k);
    lemma_constant_word_bits(j);
    lemma_set_bit(0, k, j);
    lemma_or_bit(a, b, k);
    assert(0u64 | (1u64 << k) == 1u64 << k) by (bit_vector);
}

} // verus!
