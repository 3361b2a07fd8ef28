//! The content fingerprint of a video file.
//!
//! A 64-bit accumulator starts at the file's size. Every little-endian 64-bit
//! word of the file's first 64 KiB and of its last 64 KiB is added to it,
//! wrapping around at 2^64. The fingerprint is the accumulator written as
//! sixteen lowercase hexadecimal digits.

use vstd::prelude::*;
use vstd::string::*;
use vstd::arithmetic::div_mod::*;
use crate::error::SubError;

verus! {

/// Size in bytes of each of the two windows that the fingerprint reads.
pub const HASH_BLK_SIZE: u64 = 65536;

/// What the failure says when a window is not 64 KiB long.
pub const SHORT_READ: &'static str = "short read of a 64 KiB window";

/// Two to the power 64: where the accumulator wraps around.
pub open spec fn two_64() -> int {
    0x1_0000_0000_0000_0000
}

/// The little-endian 64-bit word whose first byte is `block[at]`.
pub open spec fn word_at(block: Seq<u8>, at: int) -> int {
    block[at] as int
        + block[at + 1] as int * 0x100
        + block[at + 2] as int * 0x1_0000
        + block[at + 3] as int * 0x100_0000
        + block[at + 4] as int * 0x1_0000_0000
        + block[at + 5] as int * 0x100_0000_0000
        + block[at + 6] as int * 0x1_0000_0000_0000
        + block[at + 7] as int * 0x100_0000_0000_0000
}

/// The sum, as a mathematical integer, of the first `words` words of `block`.
pub open spec fn words_sum(block: Seq<u8>, words: nat) -> int
    decreases words,
{
    if words == 0 {
        0
    } else {
        words_sum(block, (words - 1) as nat) + word_at(block, 8 * (words - 1))
    }
}

/// The sum of all whole words of `block`. Bytes after the last whole word do
/// not count.
pub open spec fn block_sum(block: Seq<u8>) -> int {
    words_sum(block, (block.len() / 8) as nat)
}

/// `v` reduced to the range of the accumulator.
pub open spec fn wrap(v: int) -> u64 {
    (v % two_64()) as u64
}

/// The accumulator after both windows: the size plus every word of `head` and
/// of `tail`, modulo 2^64.
pub open spec fn fingerprint_value(size: u64, head: Seq<u8>, tail: Seq<u8>) -> u64 {
    wrap(size as int + block_sum(head) + block_sum(tail))
}

/// Reads the little-endian word that starts at byte `at`, whatever the byte
/// order of the machine.
pub fn read_word(block: &[u8], at: usize) -> (w: u64)
    requires
        at + 8 <= block.len(),
    ensures
        w == word_at(block@, at as int),
{
    let b0: u64 = block[at] as u64;
    let b1: u64 = block[at + 1] as u64;
    let b2: u64 = block[at + 2] as u64;
    let b3: u64 = block[at + 3] as u64;
    let b4: u64 = block[at + 4] as u64;
    let b5: u64 = block[at + 5] as u64;
    let b6: u64 = block[at + 6] as u64;
    let b7: u64 = block[at + 7] as u64;
    b0 + b1 * 0x100 + b2 * 0x1_0000 + b3 * 0x100_0000 + b4 * 0x1_0000_0000 + b5
        * 0x100_0000_0000 + b6 * 0x1_0000_0000_0000 + b7 * 0x100_0000_0000_0000
}

/// Adds every whole word of `block` to `seed`, wrapping around at 2^64.
pub fn add_block(seed: u64, block: &[u8]) -> (acc: u64)
    ensures
        acc == wrap(seed as int + block_sum(block@)),
{
    let words: usize = block.len() / 8;
    let mut acc: u64 = seed;
    let mut i: usize = 0;
    while i < words
        invariant
            words == block.len() / 8,
            i <= words,
            acc == wrap(seed as int + words_sum(block@, i as nat)),
        decreases words - i,
    {
        let w: u64 = read_word(block, i * 8);
        proof {
            lemma_add_mod_noop_right(w as int, seed as int + words_sum(block@, i as nat), two_64());
        }
        acc = acc.wrapping_add(w);
        i = i + 1;
    }
    acc
}

/// The lowercase hexadecimal digit for `n`, where `0 <= n < 16`.
pub open spec fn hex_digit(n: int) -> char {
    if n == 0 {
        '0'
    } else if n == 1 {
        '1'
    } else if n == 2 {
        '2'
    } else if n == 3 {
        '3'
    } else if n == 4 {
        '4'
    } else if n == 5 {
        '5'
    } else if n == 6 {
        '6'
    } else if n == 7 {
        '7'
    } else if n == 8 {
        '8'
    } else if n == 9 {
        '9'
    } else if n == 10 {
        'a'
    } else if n == 11 {
        'b'
    } else if n == 12 {
        'c'
    } else if n == 13 {
        'd'
    } else if n == 14 {
        'e'
    } else {
        'f'
    }
}

/// Whether `c` is one of `0`..`9`, `a`..`f`.
pub open spec fn is_lower_hex(c: char) -> bool {
    exists|n: int| 0 <= n < 16 && c == #[trigger] hex_digit(n)
}

/// Sixteen to the power `n`.
pub open spec fn pow16(n: nat) -> int
    decreases n,
{
    if n == 0 {
        1
    } else {
        16 * pow16((n - 1) as nat)
    }
}

/// The last `digits` hexadecimal digits of `v`, most significant first, with
/// leading zeros.
pub open spec fn hex_text(v: nat, digits: nat) -> Seq<char>
    decreases digits,
{
    if digits == 0 {
        Seq::empty()
    } else {
        hex_text(v / 16, (digits - 1) as nat).push(hex_digit((v % 16) as int))
    }
}

/// The fingerprint of a file of `size` bytes whose first 64 KiB are `head` and
/// whose last 64 KiB are `tail`.
pub open spec fn fingerprint_text(size: u64, head: Seq<u8>, tail: Seq<u8>) -> Seq<char> {
    hex_text(fingerprint_value(size, head, tail) as nat, 16)
}

/// The first window of a file that holds exactly `content`.
pub open spec fn head_window(content: Seq<u8>) -> Seq<u8>
    recommends
        HASH_BLK_SIZE <= content.len(),
{
    content.subrange(0, HASH_BLK_SIZE as int)
}

/// The last window of a file that holds exactly `content`: the 64 KiB that
/// start at offset `content.len() - 65536`.
pub open spec fn tail_window(content: Seq<u8>) -> Seq<u8>
    recommends
        HASH_BLK_SIZE <= content.len(),
{
    content.subrange(content.len() - HASH_BLK_SIZE, content.len() as int)
}

/// The fingerprint of a file that holds exactly `content`. Where the file is
/// shorter than two windows, the windows overlap.
pub open spec fn content_fingerprint(content: Seq<u8>) -> Seq<char>
    recommends
        HASH_BLK_SIZE <= content.len() <= u64::MAX,
{
    fingerprint_text(content.len() as u64, head_window(content), tail_window(content))
}

/// The text of one hexadecimal digit.
fn hex_digit_str(n: u64) -> (s: &'static str)
    requires
        n < 16,
    ensures
        s@ == seq![hex_digit(n as int)],
{
    proof {
        reveal_strlit("0");
        reveal_strlit("1");
        reveal_strlit("2");
        reveal_strlit("3");
        reveal_strlit("4");
        reveal_strlit("5");
        reveal_strlit("6");
        reveal_strlit("7");
        reveal_strlit("8");
        reveal_strlit("9");
        reveal_strlit("a");
        reveal_strlit("b");
        reveal_strlit("c");
        reveal_strlit("d");
        reveal_strlit("e");
        reveal_strlit("f");
    }
    if n == 0 {
        "0"
    } else if n == 1 {
        "1"
    } else if n == 2 {
        "2"
    } else if n == 3 {
        "3"
    } else if n == 4 {
        "4"
    } else if n == 5 {
        "5"
    } else if n == 6 {
        "6"
    } else if n == 7 {
        "7"
    } else if n == 8 {
        "8"
    } else if n == 9 {
        "9"
    } else if n == 10 {
        "a"
    } else if n == 11 {
        "b"
    } else if n == 12 {
        "c"
    } else if n == 13 {
        "d"
    } else if n == 14 {
        "e"
    } else {
        "f"
    }
}

proof fn lemma_pow16_values()
    ensures
        pow16(15) == 0x1000_0000_0000_0000,
        pow16(16) == two_64(),
{
    reveal_with_fuel(pow16, 17);
}

/// Writes `v` as sixteen lowercase hexadecimal digits, zero-padded.
pub fn to_hex(v: u64) -> (text: String)
    ensures
        text@ == hex_text(v as nat, 16),
{
    let mut text = String::new();
    let mut div: u64 = 0x1000_0000_0000_0000;
    let mut i: usize = 0;
    proof {
        lemma_pow16_values();
    }
    while i < 16
        invariant
            i <= 16,
            i < 16 ==> div == pow16((15 - i) as nat),
            0 < pow16((16 - i) as nat),
            text@ == hex_text((v as int / pow16((16 - i) as nat)) as nat, i as nat),
        decreases 16 - i,
    {
        let top: u64 = v / div;
        let nibble: u64 = top % 16;
        proof {
            lemma_div_denominator(v as int, div as int, 16);
        }
        text.append(hex_digit_str(nibble));
        if i < 15 {
            div = div / 16;
        }
        i = i + 1;
    }
    text
}

/// Computes the fingerprint of a file of `size` bytes from its first and its
/// last 64 KiB. A window of any other length is a failed read.
pub fn fingerprint(size: u64, head: &[u8], tail: &[u8]) -> (result: Result<String, SubError>)
    ensures
        head@.len() == HASH_BLK_SIZE && tail@.len() == HASH_BLK_SIZE ==> result is Ok,
        result matches Ok(text) ==> head@.len() == HASH_BLK_SIZE && tail@.len() == HASH_BLK_SIZE
            && text@ == fingerprint_text(size, head@, tail@),
        result matches Err(e) ==> e matches SubError::Io(text) && text@ == SHORT_READ@,
{
    if head.len() != HASH_BLK_SIZE as usize || tail.len() != HASH_BLK_SIZE as usize {
        return Err(SubError::Io(String::from_str(SHORT_READ)));
    }
    let after_head: u64 = add_block(size, head);
    let after_tail: u64 = add_block(after_head, tail);
    proof {
        lemma_add_mod_noop_right(
            block_sum(tail@),
            size as int + block_sum(head@),
            two_64(),
        );
    }
    Ok(to_hex(after_tail))
}

proof fn lemma_hex_text_len(v: nat, digits: nat)
    ensures
        hex_text(v, digits).len() == digits,
    decreases digits,
{
    if digits > 0 {
        lemma_hex_text_len(v / 16, (digits - 1) as nat);
    }
}

proof fn lemma_hex_text_lower(v: nat, digits: nat)
    ensures
        forall|i: int| 0 <= i < digits ==> is_lower_hex(#[trigger] hex_text(v, digits)[i]),
    decreases digits,
{
    lemma_hex_text_len(v, digits);
    if digits > 0 {
        lemma_hex_text_len(v / 16, (digits - 1) as nat);
        lemma_hex_text_lower(v / 16, (digits - 1) as nat);
        let text = hex_text(v, digits);
        assert forall|i: int| 0 <= i < digits implies is_lower_hex(#[trigger] text[i]) by {
            if i == digits - 1 {
                assert(text[i] == hex_digit((v % 16) as int));
            } else {
                assert(text[i] == hex_text(v / 16, (digits - 1) as nat)[i]);
            }
        }
    }
}

proof fn lemma_hex_digit_injective(a: int, b: int)
    requires
        0 <= a < 16,
        0 <= b < 16,
        hex_digit(a) == hex_digit(b),
    ensures
        a == b,
{
}

proof fn lemma_hex_text_injective(a: nat, b: nat, digits: nat)
    requires
        a < pow16(digits),
        b < pow16(digits),
        hex_text(a, digits) == hex_text(b, digits),
    ensures
        a == b,
    decreases digits,
{
    if digits > 0 {
        let rest_a = hex_text(a / 16, (digits - 1) as nat);
        let rest_b = hex_text(b / 16, (digits - 1) as nat);
        let last_a = hex_digit((a % 16) as int);
        let last_b = hex_digit((b % 16) as int);
        assert(rest_a.push(last_a).last() == last_a);
        assert(rest_b.push(last_b).last() == last_b);
        assert(rest_a.push(last_a).drop_last() =~= rest_a);
        assert(rest_b.push(last_b).drop_last() =~= rest_b);
        lemma_hex_digit_injective((a % 16) as int, (b % 16) as int);
        lemma_hex_text_injective(a / 16, b / 16, (digits - 1) as nat);
    }
}

/// A fingerprint has sixteen characters, each of them a lowercase
/// hexadecimal digit.
pub proof fn lemma_fingerprint_shape(size: u64, head: Seq<u8>, tail: Seq<u8>)
    ensures
        fingerprint_text(size, head, tail).len() == 16,
        forall|i: int|
            0 <= i < 16 ==> is_lower_hex(#[trigger] fingerprint_text(size, head, tail)[i]),
{
    let v = fingerprint_value(size, head, tail) as nat;
    lemma_hex_text_len(v, 16);
    lemma_hex_text_lower(v, 16);
}

/// Two fingerprints are the same text exactly when the two accumulators are
/// the same number.
pub proof fn lemma_fingerprint_text_injective(
    size_a: u64,
    head_a: Seq<u8>,
    tail_a: Seq<u8>,
    size_b: u64,
    head_b: Seq<u8>,
    tail_b: Seq<u8>,
)
    ensures
        fingerprint_text(size_a, head_a, tail_a) == fingerprint_text(size_b, head_b, tail_b)
            <==> fingerprint_value(size_a, head_a, tail_a) == fingerprint_value(
            size_b,
            head_b,
            tail_b,
        ),
{
    lemma_pow16_values();
    let a = fingerprint_value(size_a, head_a, tail_a) as nat;
    let b = fingerprint_value(size_b, head_b, tail_b) as nat;
    if hex_text(a, 16) == hex_text(b, 16) {
        lemma_hex_text_injective(a, b, 16);
    }
}

/// The size seeds the accumulator: two files whose windows hold the same
/// bytes, and whose sizes differ, have different fingerprints.
pub proof fn lemma_size_changes_fingerprint(size_a: u64, size_b: u64, head: Seq<u8>, tail: Seq<u8>)
    requires
        size_a != size_b,
    ensures
        fingerprint_text(size_a, head, tail) != fingerprint_text(size_b, head, tail),
{
    lemma_fingerprint_text_injective(size_a, head, tail, size_b, head, tail);
    let rest = block_sum(head) + block_sum(tail);
    if wrap(size_a + rest) == wrap(size_b + rest) {
        lemma_fundamental_div_mod(size_a + rest, two_64());
        lemma_fundamental_div_mod(size_b + rest, two_64());
        let qa = (size_a + rest) / two_64();
        let qb = (size_b + rest) / two_64();
        assert(size_a - size_b == two_64() * (qa - qb)) by (nonlinear_arith)
            requires
                size_a + rest == two_64() * qa + (size_a + rest) % two_64(),
                size_b + rest == two_64() * qb + (size_b + rest) % two_64(),
                (size_a + rest) % two_64() == (size_b + rest) % two_64(),
        ;
        assert(qa == qb) by (nonlinear_arith)
            requires
                size_a - size_b == two_64() * (qa - qb),
                -two_64() < size_a - size_b < two_64(),
                two_64() == 0x1_0000_0000_0000_0000,
        ;
    }
}

/// Trailing padding changes the fingerprint, unless the change of the last
/// window's sum cancels the change of the size modulo 2^64. The first window
/// is the same in both files, so only the size and the last window count.
pub proof fn lemma_padding_changes_fingerprint(content: Seq<u8>, padding: Seq<u8>)
    requires
        HASH_BLK_SIZE <= content.len(),
        content.len() + padding.len() <= u64::MAX,
        wrap(content.len() + block_sum(tail_window(content))) != wrap(
            content.len() + padding.len() + block_sum(tail_window(content + padding)),
        ),
    ensures
        content_fingerprint(content) != content_fingerprint(content + padding),
{
    let padded = content + padding;
    assert(head_window(padded) =~= head_window(content));
    let head = block_sum(head_window(content));
    let a = content.len() + block_sum(tail_window(content));
    let b = padded.len() + block_sum(tail_window(padded));
    lemma_fingerprint_text_injective(
        content.len() as u64,
        head_window(content),
        tail_window(content),
        padded.len() as u64,
        head_window(padded),
        tail_window(padded),
    );
    if wrap(a + head) == wrap(b + head) {
        lemma_add_mod_noop_right(head, a, two_64());
        lemma_add_mod_noop_right(head, b, two_64());
        lemma_add_mod_noop(a, head, two_64());
        lemma_add_mod_noop(b, head, two_64());
        lemma_sub_mod_noop(a + head, head, two_64());
        lemma_sub_mod_noop(b + head, head, two_64());
    }
}

} // verus!
