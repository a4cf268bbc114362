//! Building strings character by character, and decimal rendering of numbers.
use vstd::prelude::*;

verus! {

/// `String::push` appends one character to the end of the string.
#[verifier::external_body]
pub(crate) fn push_char(s: &mut String, c: char)
    ensures
        final(s)@ == old(s)@.push(c),
{
    s.push(c);
}

/// Appends the characters of `t` to `s`.
pub fn push_str(s: &mut String, t: &str)
    ensures
        final(s)@ == old(s)@ + t@,
{
    s.append(t);
}

/// A string holding exactly the characters of `t`.
pub fn string_of(t: &str) -> (res: String)
    ensures
        res@ == t@,
{
    String::from_str(t)
}

/// The ASCII digit for a value below ten.
pub open spec fn digit_char(d: nat) -> char {
    if d == 0 { '0' } else if d == 1 { '1' } else if d == 2 { '2' } else if d == 3 { '3' }
    else if d == 4 { '4' } else if d == 5 { '5' } else if d == 6 { '6' } else if d == 7 { '7' }
    else if d == 8 { '8' } else { '9' }
}

/// The decimal digits of `n`, most significant first, without leading zeros.
pub open spec fn dec(n: nat) -> Seq<char>
    decreases n,
{
    if n < 10 {
        seq![digit_char(n)]
    } else {
        dec(n / 10).push(digit_char(n % 10))
    }
}

/// `k` copies of the character `c`.
pub open spec fn repeat(c: char, k: nat) -> Seq<char>
    decreases k,
{
    if k == 0 {
        Seq::empty()
    } else {
        repeat(c, (k - 1) as nat).push(c)
    }
}

/// The decimal digits of `n`, left-padded with zeros to at least `width` characters.
pub open spec fn dec_pad(n: nat, width: nat) -> Seq<char> {
    if dec(n).len() < width {
        repeat('0', (width - dec(n).len()) as nat) + dec(n)
    } else {
        dec(n)
    }
}

/// The decimal rendering of a signed integer, with a leading `-` for negatives.
pub open spec fn dec_signed(v: int) -> Seq<char> {
    if v < 0 {
        seq!['-'] + dec((-v) as nat)
    } else {
        dec(v as nat)
    }
}

pub proof fn lemma_repeat_len(c: char, k: nat)
    ensures
        repeat(c, k).len() == k,
    decreases k,
{
    if k > 0 {
        lemma_repeat_len(c, (k - 1) as nat);
    }
}

pub proof fn lemma_dec_len(n: nat)
    ensures
        1 <= dec(n).len(),
        n < 10 ==> dec(n).len() == 1,
        10 <= n < 100 ==> dec(n).len() == 2,
        100 <= n < 1000 ==> dec(n).len() == 3,
        1000 <= n < 10000 ==> dec(n).len() == 4,
    decreases n,
{
    if n >= 10 {
        lemma_dec_len(n / 10);
    }
}

/// Ten to the power `k`.
pub open spec fn pow10(k: nat) -> nat
    decreases k,
{
    if k == 0 { 1 } else { 10 * pow10((k - 1) as nat) }
}

pub proof fn lemma_dec_len_bound(n: nat, k: nat)
    requires
        k >= 1,
        n < pow10(k),
    ensures
        dec(n).len() <= k,
    decreases k,
{
    if n >= 10 {
        assert(k >= 2) by {
            if k == 1 {
                assert(pow10(1) == 10 * pow10(0));
            }
        }
        assert(pow10(k) == 10 * pow10((k - 1) as nat));
        lemma_dec_len_bound(n / 10, (k - 1) as nat);
    }
}

pub proof fn lemma_dec_len_u64(n: u64)
    ensures
        dec(n as nat).len() <= 20,
{
    reveal_with_fuel(pow10, 21);
    assert(pow10(20) == 100000000000000000000nat);
    lemma_dec_len_bound(n as nat, 20);
}

fn digit(d: u64) -> (c: char)
    requires
        d < 10,
    ensures
        c == digit_char(d as nat),
{
    if d == 0 { '0' } else if d == 1 { '1' } else if d == 2 { '2' } else if d == 3 { '3' }
    else if d == 4 { '4' } else if d == 5 { '5' } else if d == 6 { '6' } else if d == 7 { '7' }
    else if d == 8 { '8' } else { '9' }
}

/// Appends the decimal digits of `n`.
pub fn push_dec(s: &mut String, n: u64)
    ensures
        final(s)@ == old(s)@ + dec(n as nat),
    decreases n,
{
    if n >= 10 {
        push_dec(s, n / 10);
    }
    push_char(s, digit(n % 10));
    proof {
        assert(final(s)@ =~= old(s)@ + dec(n as nat)) by {
            if n >= 10 {
                assert(dec(n as nat) == dec((n / 10) as nat).push(digit_char((n % 10) as nat)));
            }
        }
    }
}

/// The number of decimal digits of `n`.
pub fn dec_len(n: u64) -> (k: u64)
    ensures
        k == dec(n as nat).len(),
        1 <= k <= 20,
    decreases n,
{
    proof { lemma_dec_len(n as nat); }
    if n < 10 {
        1
    } else {
        let k = dec_len(n / 10);
        proof { lemma_dec_len_u64(n); }
        k + 1
    }
}

/// Appends `k` zero characters.
pub fn push_zeros(s: &mut String, k: u64)
    ensures
        final(s)@ == old(s)@ + repeat('0', k as nat),
    decreases k,
{
    if k > 0 {
        push_zeros(s, k - 1);
        push_char(s, '0');
        assert(final(s)@ =~= old(s)@ + repeat('0', k as nat));
    } else {
        assert(final(s)@ =~= old(s)@ + repeat('0', k as nat));
    }
}

/// Appends the decimal digits of `n`, zero-padded on the left to `width` characters.
pub fn push_dec_pad(s: &mut String, n: u64, width: u64)
    ensures
        final(s)@ == old(s)@ + dec_pad(n as nat, width as nat),
{
    let k = dec_len(n);
    if k < width {
        push_zeros(s, width - k);
    }
    push_dec(s, n);
    assert(final(s)@ =~= old(s)@ + dec_pad(n as nat, width as nat));
}

/// Appends a signed integer in decimal.
pub fn push_dec_signed(s: &mut String, v: i64)
    ensures
        final(s)@ == old(s)@ + dec_signed(v as int),
{
    if v < 0 {
        push_char(s, '-');
        let m: u64 = if v == i64::MIN { 0x8000_0000_0000_0000u64 } else { (-v) as u64 };
        push_dec(s, m);
        assert(final(s)@ =~= old(s)@ + dec_signed(v as int));
    } else {
        push_dec(s, v as u64);
    }
}

/// The characters of a string, in order.
pub fn chars_of(s: &str) -> (v: Vec<char>)
    ensures
        v@ == s@,
{
    broadcast use vstd::string::group_string_axioms;
    let mut v: Vec<char> = Vec::new();
    for c in it: s.chars()
        invariant
            v@ == it.seq().take(it.index()),
            it.seq() == s@,
    {
        v.push(c);
        assert(v@ =~= it.seq().take(it.index() + 1));
    }
    assert(v@ =~= s@);
    v
}

/// A string holding the characters `v[from..to]`.
pub fn string_from_chars(v: &Vec<char>, from: usize, to: usize) -> (s: String)
    requires
        from <= to <= v@.len(),
    ensures
        s@ == v@.subrange(from as int, to as int),
{
    let mut s = String::new();
    let mut i = from;
    while i < to
        invariant
            from <= i <= to <= v@.len(),
            s@ == v@.subrange(from as int, i as int),
        decreases to - i,
    {
        push_char(&mut s, v[i]);
        i = i + 1;
        assert(s@ =~= v@.subrange(from as int, i as int));
    }
    s
}

/// The lower-case hexadecimal digit for a value below sixteen.
pub open spec fn hex_char(d: nat) -> char {
    if d < 10 { digit_char(d) } else if d == 10 { 'a' } else if d == 11 { 'b' } else if d == 12 { 'c' }
    else if d == 13 { 'd' } else if d == 14 { 'e' } else { 'f' }
}

/// The lower-case hexadecimal digits of `n`, most significant first, without leading zeros.
pub open spec fn hex(n: nat) -> Seq<char>
    decreases n,
{
    if n < 16 { seq![hex_char(n)] } else { hex(n / 16).push(hex_char(n % 16)) }
}

/// The hexadecimal digits of `n`, left-padded with zeros to at least `width` digits.
pub open spec fn hex_pad(n: nat, width: nat) -> Seq<char> {
    if hex(n).len() < width { repeat('0', (width - hex(n).len()) as nat) + hex(n) } else { hex(n) }
}

/// `{:#0Wx}`: `0x` and the digits, padded so that the whole is `W` characters.
pub open spec fn alt_hex(n: nat, total: nat) -> Seq<char> {
    seq!['0', 'x'] + hex_pad(n, if total >= 2 { (total - 2) as nat } else { 0 })
}

fn hex_digit(d: u64) -> (c: char)
    requires
        d < 16,
    ensures
        c == hex_char(d as nat),
{
    if d < 10 { digit(d) } else if d == 10 { 'a' } else if d == 11 { 'b' } else if d == 12 { 'c' }
    else if d == 13 { 'd' } else if d == 14 { 'e' } else { 'f' }
}

/// Appends the hexadecimal digits of `n`.
pub fn push_hex(s: &mut String, n: u64)
    ensures
        final(s)@ == old(s)@ + hex(n as nat),
    decreases n,
{
    if n >= 16 {
        push_hex(s, n / 16);
    }
    push_char(s, hex_digit(n % 16));
    proof {
        assert(final(s)@ =~= old(s)@ + hex(n as nat)) by {
            if n >= 16 {
                assert(hex(n as nat) == hex((n / 16) as nat).push(hex_char((n % 16) as nat)));
            }
        }
    }
}

proof fn lemma_hex_len_bound(n: nat, k: nat)
    requires
        k >= 1,
        n < pow16(k),
    ensures
        hex(n).len() <= k,
    decreases k,
{
    if n >= 16 {
        assert(k >= 2) by {
            if k == 1 { assert(pow16(1) == 16 * pow16(0)); }
        }
        assert(pow16(k) == 16 * pow16((k - 1) as nat));
        lemma_hex_len_bound(n / 16, (k - 1) as nat);
    }
}

pub open spec fn pow16(k: nat) -> nat
    decreases k,
{
    if k == 0 { 1 } else { 16 * pow16((k - 1) as nat) }
}

/// The number of hexadecimal digits of `n`.
pub fn hex_len(n: u64) -> (k: u64)
    ensures
        k == hex(n as nat).len(),
        1 <= k <= 16,
    decreases n,
{
    proof {
        reveal_with_fuel(pow16, 17);
        assert(pow16(16) == 0x1_0000_0000_0000_0000nat);
        lemma_hex_len_bound(n as nat, 16);
    }
    if n < 16 {
        1
    } else {
        let k = hex_len(n / 16);
        k + 1
    }
}

/// Appends `{:#0Wx}` of `n`, where `total` is the padded width including `0x`.
pub fn push_alt_hex(s: &mut String, n: u64, total: u64)
    ensures
        final(s)@ == old(s)@ + alt_hex(n as nat, total as nat),
{
    push_char(s, '0');
    push_char(s, 'x');
    let width: u64 = if total >= 2 { total - 2 } else { 0 };
    let k = hex_len(n);
    if k < width {
        push_zeros(s, width - k);
    }
    push_hex(s, n);
    assert(final(s)@ =~= old(s)@ + alt_hex(n as nat, total as nat));
}

/// `true` or `false`.
pub open spec fn bool_text(b: bool) -> Seq<char> {
    if b { "true"@ } else { "false"@ }
}

/// Whether `needle` occurs in `hay` as a contiguous run.
pub open spec fn seq_contains(hay: Seq<char>, needle: Seq<char>) -> bool {
    exists|i: int| 0 <= i && i + needle.len() <= hay.len() && #[trigger] hay.subrange(i, i + needle.len()) == needle
}

/// Whether `needle` occurs in `hay`.
pub fn contains_str(hay: &Vec<char>, needle: &str) -> (res: bool)
    ensures
        res == seq_contains(hay@, needle@),
{
    let n = chars_of(needle);
    if n.len() > hay.len() {
        assert(!seq_contains(hay@, needle@));
        return false;
    }
    let mut i: usize = 0;
    let limit = hay.len() - n.len();
    while i <= limit
        invariant
            limit == hay@.len() - n@.len(),
            hay@.len() <= usize::MAX,
            n@ == needle@,
            n@.len() <= hay@.len(),
            i <= hay@.len(),
            forall|k: int| 0 <= k < i ==> #[trigger] hay@.subrange(k, k + n@.len()) != needle@,
        decreases hay@.len() - i,
    {
        let mut j: usize = 0;
        let mut same = true;
        while j < n.len()
            invariant
                n@ == needle@,
                i + n@.len() <= hay@.len(),
                hay@.len() <= usize::MAX,
                j <= n@.len(),
                same == (forall|k: int| 0 <= k < j ==> hay@[i + k] == n@[k]),
            decreases n@.len() - j,
        {
            if hay[i + j] != n[j] {
                same = false;
            }
            j = j + 1;
        }
        if same {
            assert(hay@.subrange(i as int, i + n@.len()) =~= needle@);
            return true;
        }
        assert(hay@.subrange(i as int, i + n@.len()) != needle@) by {
            assert(exists|k: int| 0 <= k < n@.len() && hay@[i + k] != n@[k]);
            let k = choose|k: int| 0 <= k < n@.len() && hay@[i + k] != n@[k];
            assert(hay@.subrange(i as int, i + n@.len())[k] != needle@[k]);
        }
        i = i + 1;
    }
    false
}

/// What `str::to_uppercase` gives for a text.
pub uninterp spec fn spec_uppercase(s: Seq<char>) -> Seq<char>;

/// `str::to_uppercase`: the text with every character mapped to its Unicode upper case.
/// The contract names the result and says no more about the mapping.
#[verifier::external_body]
pub(crate) fn to_uppercase(s: &str) -> (res: String)
    ensures
        res@ == spec_uppercase(s@),
{
    s.to_uppercase()
}


/// `t` followed by spaces up to `width` characters (unchanged if already that long),
/// as `{:<width}` lays out a value.
pub open spec fn pad_right(t: Seq<char>, width: nat) -> Seq<char> {
    if t.len() >= width { t } else { t + repeat(' ', (width - t.len()) as nat) }
}

/// Appends `t` left-aligned in a field of `width` characters.
pub fn push_padded(s: &mut String, t: &str, width: usize)
    ensures
        final(s)@ == old(s)@ + pad_right(t@, width as nat),
{
    let cs = chars_of(t);
    push_str(s, t);
    if cs.len() < width {
        let ghost mid = s@;
        let k = width - cs.len();
        let mut i: usize = 0;
        while i < k
            invariant
                i <= k,
                s@ == mid + repeat(' ', i as nat),
            decreases k - i,
        {
            push_char(s, ' ');
            i = i + 1;
        }
        assert(s@ =~= old(s)@ + pad_right(t@, width as nat));
    } else {
        assert(s@ =~= old(s)@ + pad_right(t@, width as nat));
    }
}

/// Whether two strings hold the same characters.
pub fn str_eq(a: &str, b: &str) -> (res: bool)
    ensures
        res == (a@ == b@),
{
    let x = chars_of(a);
    let y = chars_of(b);
    if x.len() != y.len() {
        return false;
    }
    let mut i: usize = 0;
    while i < x.len()
        invariant
            x@ == a@,
            y@ == b@,
            x@.len() == y@.len(),
            i <= x@.len(),
            forall|k: int| 0 <= k < i ==> x@[k] == y@[k],
        decreases x@.len() - i,
    {
        if x[i] != y[i] {
            return false;
        }
        i = i + 1;
    }
    assert(x@ =~= y@);
    true
}


/// `core::str::from_utf8`: the text the bytes encode when they are valid UTF-8, `None`
/// otherwise (as its documentation states).
#[verifier::external_body]
pub(crate) fn decode_utf8(b: &[u8]) -> (res: Option<String>)
    ensures
        res is Some <==> vstd::utf8::valid_utf8(b@),
        res matches Some(s) ==> s@ == vstd::utf8::decode_utf8(b@),
{
    match core::str::from_utf8(b) {
        Ok(s) => Some(s.to_string()),
        Err(_) => None,
    }
}


/// What `str::to_lowercase` gives for a text.
pub uninterp spec fn spec_lowercase(s: Seq<char>) -> Seq<char>;

/// `str::to_lowercase`: the text with every character mapped to its Unicode lower case.
/// The contract names the result and says no more about the mapping.
#[verifier::external_body]
pub(crate) fn to_lowercase(s: &str) -> (res: String)
    ensures
        res@ == spec_lowercase(s@),
{
    s.to_lowercase()
}


/// Appends `{:0Wx}` of `n`: its hexadecimal digits, zero-padded to `width`.
pub fn push_hex_pad(s: &mut String, n: u64, width: u64)
    ensures
        final(s)@ == old(s)@ + hex_pad(n as nat, width as nat),
{
    let k = hex_len(n);
    if k < width {
        push_zeros(s, width - k);
    }
    push_hex(s, n);
    assert(final(s)@ =~= old(s)@ + hex_pad(n as nat, width as nat));
}


/// The upper-case hexadecimal digit for a value below sixteen.
pub open spec fn hex_char_upper(d: nat) -> char {
    if d < 10 { digit_char(d) } else if d == 10 { 'A' } else if d == 11 { 'B' } else if d == 12 { 'C' }
    else if d == 13 { 'D' } else if d == 14 { 'E' } else { 'F' }
}

/// `{:X}`: the upper-case hexadecimal digits of `n`, without leading zeros.
pub open spec fn hex_upper(n: nat) -> Seq<char>
    decreases n,
{
    if n < 16 { seq![hex_char_upper(n)] } else { hex_upper(n / 16).push(hex_char_upper(n % 16)) }
}

fn hex_digit_upper(d: u64) -> (c: char)
    requires
        d < 16,
    ensures
        c == hex_char_upper(d as nat),
{
    if d < 10 { digit(d) } else if d == 10 { 'A' } else if d == 11 { 'B' } else if d == 12 { 'C' }
    else if d == 13 { 'D' } else if d == 14 { 'E' } else { 'F' }
}

/// Appends the upper-case hexadecimal digits of `n`.
pub fn push_hex_upper(s: &mut String, n: u64)
    ensures
        final(s)@ == old(s)@ + hex_upper(n as nat),
    decreases n,
{
    if n >= 16 {
        push_hex_upper(s, n / 16);
    }
    push_char(s, hex_digit_upper(n % 16));
    proof {
        assert(final(s)@ =~= old(s)@ + hex_upper(n as nat)) by {
            if n >= 16 {
                assert(hex_upper(n as nat) == hex_upper((n / 16) as nat).push(hex_char_upper((n % 16) as nat)));
            }
        }
    }
}


/// What `String::from_utf8_lossy` gives for bytes that are not valid UTF-8 (each invalid
/// sequence replaced by U+FFFD).
pub uninterp spec fn spec_utf8_lossy(b: Seq<u8>) -> Seq<char>;

/// `String::from_utf8_lossy`: the text of valid UTF-8 bytes; otherwise the text with
/// replacement characters, which the contract names without describing.
#[verifier::external_body]
pub(crate) fn utf8_lossy(b: &[u8]) -> (res: String)
    ensures
        vstd::utf8::valid_utf8(b@) ==> res@ == vstd::utf8::decode_utf8(b@),
        !vstd::utf8::valid_utf8(b@) ==> res@ == spec_utf8_lossy(b@),
{
    String::from_utf8_lossy(b).into_owned()
}

} // verus!
