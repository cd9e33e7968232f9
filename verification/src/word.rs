//! Unsigned integers as big-endian byte strings: the unbounded numbers of a
//! fixture, the 256-bit words of the machine and its 160-bit addresses.

use vstd::prelude::*;

verus! {

/// `256^n`: how many values `n` bytes can tell apart.
pub open spec fn radix_pow(n: nat) -> nat
    decreases n,
{
    if n == 0 {
        1
    } else {
        256 * radix_pow((n - 1) as nat)
    }
}

/// The number that a string of big-endian base-256 digits denotes.
pub open spec fn be_value(digits: Seq<u8>) -> nat
    decreases digits.len(),
{
    if digits.len() == 0 {
        0
    } else {
        256 * be_value(digits.drop_last()) + digits.last() as nat
    }
}

/// First number that no 256-bit word can hold.
pub open spec fn word_limit() -> nat {
    radix_pow(32)
}

/// `radix_pow` never decreases.
pub proof fn lemma_radix_pow_monotonic(m: nat, n: nat)
    requires
        m <= n,
    ensures
        1 <= radix_pow(m) <= radix_pow(n),
    decreases n,
{
    if m < n {
        lemma_radix_pow_monotonic(m, (n - 1) as nat);
    } else if n > 0 {
        lemma_radix_pow_monotonic((m - 1) as nat, (n - 1) as nat);
    }
}

/// Eight bytes tell apart `2^64` values.
pub proof fn lemma_radix_pow_eight()
    ensures
        radix_pow(8) == 0x1_0000_0000_0000_0000,
{
    reveal_with_fuel(radix_pow, 9);
}

/// `n` digits denote a number below `256^n`.
pub proof fn lemma_be_value_bound(digits: Seq<u8>)
    ensures
        be_value(digits) < radix_pow(digits.len()),
    decreases digits.len(),
{
    if digits.len() > 0 {
        lemma_be_value_bound(digits.drop_last());
    }
}

/// Digit strings of one length that denote the same number are the same.
pub proof fn lemma_be_value_injective(a: Seq<u8>, b: Seq<u8>)
    requires
        a.len() == b.len(),
        be_value(a) == be_value(b),
    ensures
        a == b,
    decreases a.len(),
{
    if a.len() > 0 {
        lemma_be_value_injective(a.drop_last(), b.drop_last());
        assert(a =~= a.drop_last().push(a.last()));
        assert(b =~= b.drop_last().push(b.last()));
    } else {
        assert(a =~= b);
    }
}

/// Zero digits in front change nothing.
pub proof fn lemma_be_value_leading_zeros(zeros: Seq<u8>, digits: Seq<u8>)
    requires
        forall|i: int| 0 <= i < zeros.len() ==> zeros[i] == 0,
    ensures
        be_value(zeros + digits) == be_value(digits),
    decreases zeros.len() + digits.len(),
{
    let all = zeros + digits;
    if digits.len() > 0 {
        assert(all.drop_last() =~= zeros + digits.drop_last());
        lemma_be_value_leading_zeros(zeros, digits.drop_last());
    } else if zeros.len() > 0 {
        assert(all.drop_last() =~= zeros.drop_last() + digits);
        lemma_be_value_leading_zeros(zeros.drop_last(), digits);
    }
}

/// A nonzero digit at `index` makes the number at least the weight of its place.
pub proof fn lemma_be_value_nonzero_digit(digits: Seq<u8>, index: int)
    requires
        0 <= index < digits.len(),
        digits[index] != 0,
    ensures
        be_value(digits) >= radix_pow((digits.len() - 1 - index) as nat),
    decreases digits.len(),
{
    if index < digits.len() - 1 {
        lemma_be_value_nonzero_digit(digits.drop_last(), index);
    }
}

/// A prefix denotes no more than the whole string.
pub proof fn lemma_be_value_prefix(digits: Seq<u8>, n: int)
    requires
        0 <= n <= digits.len(),
    ensures
        be_value(digits.take(n)) <= be_value(digits),
    decreases digits.len() - n,
{
    if n < digits.len() {
        lemma_be_value_prefix(digits, n + 1);
        assert(digits.take(n + 1).drop_last() =~= digits.take(n));
    } else {
        assert(digits.take(n) =~= digits);
    }
}


/// Digits written one after the other: the first string counts for as much
/// as the places behind it weigh.
pub proof fn lemma_be_value_concat(front: Seq<u8>, back: Seq<u8>)
    ensures
        be_value(front + back) == be_value(front) * radix_pow(back.len()) + be_value(back),
    decreases back.len(),
{
    if back.len() == 0 {
        assert(front + back =~= front);
        assert(be_value(front) * radix_pow(0) == be_value(front)) by (nonlinear_arith)
            requires
                radix_pow(0) == 1,
        ;
    } else {
        let shorter = back.drop_last();
        assert((front + back).drop_last() =~= front + shorter);
        assert((front + back).last() == back.last());
        lemma_be_value_concat(front, shorter);
        let weight = radix_pow(shorter.len());
        assert(radix_pow(back.len()) == 256 * weight);
        assert(be_value(front + back) == 256 * (be_value(front) * weight + be_value(shorter))
            + back.last());
        assert(256 * (be_value(front) * weight + be_value(shorter)) == be_value(front) * (256
            * weight) + 256 * be_value(shorter)) by (nonlinear_arith);
    }
}

/// The digits from `index` on denote the digit at `index`, at the weight of
/// its place, and what the digits behind it denote.
pub proof fn lemma_be_value_skip(digits: Seq<u8>, index: int)
    requires
        0 <= index < digits.len(),
    ensures
        be_value(digits.skip(index)) == digits[index] * radix_pow(
            (digits.len() - index - 1) as nat,
        ) + be_value(digits.skip(index + 1)),
{
    let first = seq![digits[index]];
    assert(first + digits.skip(index + 1) =~= digits.skip(index));
    lemma_be_value_concat(first, digits.skip(index + 1));
    assert(first.drop_last() =~= Seq::<u8>::empty());
    assert(be_value(first) == digits[index]) by {
        reveal_with_fuel(be_value, 2);
    }
}

/// A 256-bit machine word, most significant byte first.
#[derive(Clone, Copy, Debug, PartialEq, Eq)]
pub struct Word {
    pub bytes: [u8; 32],
}

impl View for Word {
    type V = nat;

    open spec fn view(&self) -> nat {
        be_value(self.bytes@)
    }
}

impl Word {
    /// The word zero.
    pub fn zero() -> (word: Word)
        ensures
            word@ == 0,
    {
        let word = Word { bytes: [0u8; 32] };
        proof {
            lemma_be_value_leading_zeros(word.bytes@, Seq::empty());
            assert(word.bytes@ + Seq::<u8>::empty() =~= word.bytes@);
        }
        word
    }

    /// The word that holds `count`.
    pub fn from_usize(count: usize) -> (word: Word)
        ensures
            word@ == count,
    {
        let mut bytes: [u8; 32] = [0u8; 32];
        let mut rest: usize = count;
        let mut i: usize = 32;
        assert(bytes@.skip(32) =~= Seq::<u8>::empty());
        assert(rest * radix_pow(0) == rest) by (nonlinear_arith)
            requires
                radix_pow(0) == 1,
        ;
        while i > 0
            invariant
                i <= 32,
                be_value(bytes@.skip(i as int)) + rest * radix_pow((32 - i) as nat) == count,
            decreases i,
        {
            let ghost before = bytes@;
            let ghost weight = radix_pow((32 - i) as nat);
            i -= 1;
            bytes[i] = (rest % 256) as u8;
            proof {
                assert(bytes@.skip(i + 1) =~= before.skip(i + 1));
                lemma_be_value_skip(bytes@, i as int);
                assert((rest % 256) * weight + (rest / 256) * (256 * weight) == rest * weight)
                    by (nonlinear_arith)
                    requires
                        rest == 256 * (rest / 256) + rest % 256,
                ;
            }
            rest = rest / 256;
        }
        proof {
            assert(bytes@.skip(0) =~= bytes@);
            lemma_radix_pow_monotonic(8, 32);
            lemma_radix_pow_eight();
            assert(rest == 0) by (nonlinear_arith)
                requires
                    rest * radix_pow(32) <= count,
                    count < radix_pow(32),
                    rest >= 0,
            ;
        }
        Word { bytes }
    }

    /// The sum of two words, or `None` where it needs more than 256 bits.
    pub fn checked_add(&self, other: &Word) -> (sum: Option<Word>)
        ensures
            match sum {
                Some(word) => word@ == self@ + other@ && self@ + other@ < word_limit(),
                None => self@ + other@ >= word_limit(),
            },
    {
        let mut bytes: [u8; 32] = [0u8; 32];
        let mut carry: u16 = 0;
        let mut i: usize = 32;
        assert(bytes@.skip(32) =~= Seq::<u8>::empty());
        assert(self.bytes@.skip(32) =~= Seq::<u8>::empty());
        assert(other.bytes@.skip(32) =~= Seq::<u8>::empty());
        while i > 0
            invariant
                i <= 32,
                carry <= 1,
                be_value(bytes@.skip(i as int)) + carry * radix_pow((32 - i) as nat) == be_value(
                    self.bytes@.skip(i as int),
                ) + be_value(other.bytes@.skip(i as int)),
            decreases i,
        {
            let ghost before = bytes@;
            let ghost weight = radix_pow((32 - i) as nat);
            i -= 1;
            let total: u16 = self.bytes[i] as u16 + other.bytes[i] as u16 + carry;
            bytes[i] = (total % 256) as u8;
            proof {
                assert(bytes@.skip(i + 1) =~= before.skip(i + 1));
                lemma_be_value_skip(bytes@, i as int);
                lemma_be_value_skip(self.bytes@, i as int);
                lemma_be_value_skip(other.bytes@, i as int);
                assert((total % 256) * weight + (total / 256) * (256 * weight) == (self.bytes@[i as int]
                    + other.bytes@[i as int]) * weight + carry * weight) by (nonlinear_arith)
                    requires
                        total == 256 * (total / 256) + total % 256,
                        total == self.bytes@[i as int] + other.bytes@[i as int] + carry,
                ;
                assert((self.bytes@[i as int] + other.bytes@[i as int]) * weight
                    == self.bytes@[i as int] * weight + other.bytes@[i as int] * weight)
                    by (nonlinear_arith);
            }
            carry = total / 256;
        }
        proof {
            assert(bytes@.skip(0) =~= bytes@);
            assert(self.bytes@.skip(0) =~= self.bytes@);
            assert(other.bytes@.skip(0) =~= other.bytes@);
            lemma_be_value_bound(bytes@);
        }
        if carry == 0 {
            Some(Word { bytes })
        } else {
            None
        }
    }

    /// Whether the word is zero.
    pub fn is_zero(&self) -> (zero: bool)
        ensures
            zero == (self@ == 0),
    {
        self.same(&Word::zero())
    }

    /// Whether two words hold the same number.
    pub fn same(&self, other: &Word) -> (same: bool)
        ensures
            same == (self@ == other@),
    {
        let mut i: usize = 0;
        while i < 32
            invariant
                i <= 32,
                forall|j: int| 0 <= j < i ==> self.bytes@[j] == other.bytes@[j],
            decreases 32 - i,
        {
            if self.bytes[i] != other.bytes[i] {
                proof {
                    if self@ == other@ {
                        lemma_be_value_injective(self.bytes@, other.bytes@);
                    }
                }
                return false;
            }
            i += 1;
        }
        assert(self.bytes@ =~= other.bytes@);
        true
    }
}

/// A 160-bit account address, most significant byte first.
#[derive(Clone, Copy, Debug, PartialEq, Eq)]
pub struct Address {
    pub bytes: [u8; 20],
}

impl View for Address {
    type V = nat;

    open spec fn view(&self) -> nat {
        be_value(self.bytes@)
    }
}

impl Address {
    /// Whether two addresses name the same account.
    pub fn same(&self, other: &Address) -> (same: bool)
        ensures
            same == (self@ == other@),
    {
        let mut i: usize = 0;
        while i < 20
            invariant
                i <= 20,
                forall|j: int| 0 <= j < i ==> self.bytes@[j] == other.bytes@[j],
            decreases 20 - i,
        {
            if self.bytes[i] != other.bytes[i] {
                proof {
                    if self@ == other@ {
                        lemma_be_value_injective(self.bytes@, other.bytes@);
                    }
                }
                return false;
            }
            i += 1;
        }
        assert(self.bytes@ =~= other.bytes@);
        true
    }
}

/// An unsigned integer of any size, as a fixture writes it: big-endian
/// digits, leading zeros allowed, no digits at all for zero.
#[derive(Clone, Debug, PartialEq, Eq)]
pub struct Uint {
    pub digits: Vec<u8>,
}

impl View for Uint {
    type V = nat;

    open spec fn view(&self) -> nat {
        be_value(self.digits@)
    }
}

impl Uint {
    /// The 256-bit word with the same value, or `None` where the value
    /// needs more than 256 bits.
    pub fn to_word(&self) -> (word: Option<Word>)
        ensures
            match word {
                Some(w) => w@ == self@ && self@ < word_limit(),
                None => self@ >= word_limit(),
            },
    {
        let n: usize = self.digits.len();
        let skip: usize = if n > 32 { n - 32 } else { 0 };
        let pad: usize = if n < 32 { 32 - n } else { 0 };
        let mut k: usize = 0;
        while k < skip
            invariant
                k <= skip,
                skip < n || skip == 0,
                n == self.digits@.len(),
                skip == if n > 32 { n - 32 } else { 0 },
                forall|j: int| 0 <= j < k ==> self.digits@[j] == 0,
            decreases skip - k,
        {
            if self.digits[k] != 0 {
                proof {
                    lemma_be_value_nonzero_digit(self.digits@, k as int);
                    lemma_radix_pow_monotonic(32, (n - 1 - k) as nat);
                }
                return None;
            }
            k += 1;
        }
        let mut bytes: [u8; 32] = [0u8; 32];
        let mut i: usize = 0;
        while i < n - skip
            invariant
                i <= n - skip,
                skip <= n,
                n == self.digits@.len(),
                pad + (n - skip) == 32,
                forall|j: int| 0 <= j < pad ==> bytes@[j] == 0,
                forall|j: int| pad <= j < pad + i ==> bytes@[j] == self.digits@[j - pad + skip],
            decreases n - skip - i,
        {
            bytes[pad + i] = self.digits[skip + i];
            i += 1;
        }
        proof {
            let kept = self.digits@.skip(skip as int);
            assert(bytes@ =~= bytes@.take(pad as int) + kept);
            lemma_be_value_leading_zeros(bytes@.take(pad as int), kept);
            assert(self.digits@ =~= self.digits@.take(skip as int) + kept);
            lemma_be_value_leading_zeros(self.digits@.take(skip as int), kept);
            lemma_be_value_bound(bytes@);
        }
        Some(Word { bytes })
    }

    /// The value as a machine-sized count, or `None` where it does not fit.
    pub fn to_usize(&self) -> (count: Option<usize>)
        ensures
            match count {
                Some(c) => c == self@,
                None => self@ > usize::MAX,
            },
    {
        let n: usize = self.digits.len();
        let mut acc: usize = 0;
        let mut i: usize = 0;
        assert(self.digits@.take(0) =~= Seq::<u8>::empty());
        while i < n
            invariant
                i <= n,
                n == self.digits@.len(),
                acc == be_value(self.digits@.take(i as int)),
            decreases n - i,
        {
            proof {
                assert(self.digits@.take(i + 1).drop_last() =~= self.digits@.take(i as int));
                lemma_be_value_prefix(self.digits@, i + 1);
            }
            let digit: usize = self.digits[i] as usize;
            if acc > (usize::MAX - digit) / 256 {
                return None;
            }
            acc = acc * 256 + digit;
            i += 1;
        }
        assert(self.digits@.take(n as int) =~= self.digits@);
        Some(acc)
    }
}

} // verus!
