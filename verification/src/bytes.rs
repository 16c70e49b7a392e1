//! Machine words as bytes in memory, least significant byte first.
use vstd::prelude::*;
use vstd::arithmetic::div_mod::lemma_div_denominator;
use vstd::arithmetic::power::{lemma_pow_positive, pow};
use vstd::layout::size_of;

verus! {

/// The size of a machine word in bytes.
pub open spec fn word_size() -> nat {
    size_of::<usize>()
}

/// The `n` low bytes of `v`, least significant first.
pub open spec fn le_bytes(v: nat, n: nat) -> Seq<u8>
    decreases n,
{
    if n == 0 {
        Seq::empty()
    } else {
        seq![(v % 256) as u8] + le_bytes(v / 256, (n - 1) as nat)
    }
}

/// The number that the bytes `b` spell, least significant first.
pub open spec fn le_value(b: Seq<u8>) -> nat
    decreases b.len(),
{
    if b.len() == 0 {
        0
    } else {
        b[0] as nat + 256 * le_value(b.drop_first())
    }
}

/// The bytes of word `v` in memory.
pub open spec fn word_bytes(v: usize) -> Seq<u8> {
    le_bytes(v as nat, word_size())
}

/// A word is four or eight bytes long.
pub proof fn lemma_word_size()
    ensures
        word_size() == 4 || word_size() == 8,
{
    broadcast use vstd::layout::layout_of_primitives;

}

/// As many bytes come out as were asked for.
pub proof fn lemma_le_bytes_len(v: nat, n: nat)
    ensures
        le_bytes(v, n).len() == n,
    decreases n,
{
    if n > 0 {
        lemma_le_bytes_len(v / 256, (n - 1) as nat);
    }
}

proof fn lemma_le_bytes_value(v: nat, n: nat)
    requires
        v < pow(256, n),
    ensures
        le_value(le_bytes(v, n)) == v,
    decreases n,
{
    reveal(pow);
    if n > 0 {
        let m = (n - 1) as nat;
        assert(pow(256, n) == 256 * pow(256, m));
        assert(v / 256 < pow(256, m));
        lemma_le_bytes_value(v / 256, m);
        assert(le_bytes(v, n).drop_first() =~= le_bytes(v / 256, m));
    }
}

/// Reading the bytes of a word gives the word back.
pub proof fn law_word_bytes_read_back(v: usize)
    ensures
        word_bytes(v).len() == word_size(),
        le_value(word_bytes(v)) == v,
{
    vstd::layout::unsigned_int_max_values();
    lemma_le_bytes_len(v as nat, word_size());
    lemma_le_bytes_value(v as nat, word_size());
}

proof fn lemma_le_bytes_at(v: nat, n: nat, i: nat)
    requires
        i < n,
    ensures
        le_bytes(v, n).len() == n,
        le_bytes(v, n)[i as int] == (v as int / pow(256, i)) % 256,
    decreases n,
{
    reveal(pow);
    lemma_le_bytes_len(v / 256, (n - 1) as nat);
    if i == 0 {
        assert(pow(256, 0) == 1);
    } else {
        let j = (i - 1) as nat;
        lemma_le_bytes_at(v / 256, (n - 1) as nat, j);
        assert(le_bytes(v, n)[i as int] == le_bytes(v / 256, (n - 1) as nat)[j as int]);
        lemma_pow_positive(256, j);
        lemma_div_denominator(v as int, 256, pow(256, j));
        assert(pow(256, i) == 256 * pow(256, j));
    }
}

/// A word lies in memory as its digits to base 256, the lowest one first: byte `i` of it is the
/// digit that counts for 256 to the power of `i`.
pub proof fn law_word_bytes_are_digits(v: usize, i: nat)
    requires
        i < size_of::<usize>(),
    ensures
        word_bytes(v).len() == size_of::<usize>(),
        word_bytes(v)[i as int] as int == (v as int / pow(256, i)) % 256,
{
    lemma_le_bytes_at(v as nat, word_size(), i);
}

/// Appending a word keeps what was there and adds the digits of the word to base 256, the lowest
/// one first.
pub proof fn law_push_word(out: &mut Vec<u8>, v: usize, i: nat)
    requires
        call_ensures(push_word, (out, v), ()),
    ensures
        final(out)@.len() == old(out)@.len() + size_of::<usize>(),
        i < old(out)@.len() ==> final(out)@[i as int] == old(out)@[i as int],
        i < size_of::<usize>() ==> final(out)@[(old(out)@.len() + i) as int] as int == (v as int
            / pow(256, i)) % 256,
{
    lemma_le_bytes_len(v as nat, word_size());
    if i < size_of::<usize>() {
        law_word_bytes_are_digits(v, i);
    }
}

/// Appends the bytes of word `v` to `out`.
pub fn push_word(out: &mut Vec<u8>, v: usize)
    ensures
        final(out)@ == old(out)@ + word_bytes(v),
{
    let n: usize = core::mem::size_of::<usize>();
    let mut rest: usize = v;
    let mut i: usize = 0;
    proof {
        lemma_word_size();
    }
    assert(out@ + word_bytes(v) =~= old(out)@ + word_bytes(v));
    while i < n
        invariant
            n == word_size(),
            i <= n,
            out@ + le_bytes(rest as nat, (n - i) as nat) == old(out)@ + word_bytes(v),
        decreases n - i,
    {
        let ghost before = out@;
        out.push((rest % 256) as u8);
        assert(before + le_bytes(rest as nat, (n - i) as nat) =~= out@ + le_bytes(
            rest as nat / 256,
            (n - i - 1) as nat,
        ));
        rest = rest / 256;
        i += 1;
    }
    assert(out@ =~= out@ + le_bytes(rest as nat, 0));
}

} // verus!
