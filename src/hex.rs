//! Codepoints written as hexadecimal text.

use vstd::prelude::*;

use vstd::arithmetic::div_mod::lemma_fundamental_div_mod_converse;

verus! {

/// The lowercase hexadecimal digits, by value.
pub open spec fn hex_digits() -> Seq<char> {
    seq!['0', '1', '2', '3', '4', '5', '6', '7', '8', '9', 'a', 'b', 'c', 'd', 'e', 'f']
}

/// The value of a hexadecimal digit of either case, or -1 for any other character.
pub open spec fn digit_value(c: char) -> int {
    let u = c as u32;
    if 0x30 <= u <= 0x39 {
        u - 0x30
    } else if 0x61 <= u <= 0x66 {
        u - 0x61 + 10
    } else if 0x41 <= u <= 0x46 {
        u - 0x41 + 10
    } else {
        -1
    }
}

/// A non-empty run of hexadecimal digits.
pub open spec fn is_hex_text(s: Seq<char>) -> bool {
    s.len() > 0 && forall|i: int| 0 <= i < s.len() ==> digit_value(#[trigger] s[i]) >= 0
}

/// The number that a run of hexadecimal digits denotes.
pub open spec fn hex_value(s: Seq<char>) -> nat
    decreases s.len(),
{
    if s.len() == 0 {
        0
    } else {
        hex_value(s.drop_last()) * 16 + digit_value(s.last()) as nat
    }
}

/// The lowercase hexadecimal form of `n`, without leading zeros.
pub open spec fn hex_of(n: nat) -> Seq<char>
    decreases n,
{
    if n < 16 {
        seq![hex_digits()[n as int]]
    } else {
        hex_of(n / 16).push(hex_digits()[(n % 16) as int])
    }
}

/// Canonical hexadecimal text: lowercase digits with no leading zero.
pub open spec fn is_canonical_hex(s: Seq<char>) -> bool {
    &&& s.len() > 0
    &&& forall|i: int| 0 <= i < s.len() ==> hex_digits().contains(#[trigger] s[i])
    &&& (s.len() == 1 || s[0] != '0')
}

/// A Unicode scalar value: a codepoint that is not a surrogate.
pub open spec fn is_scalar_value(n: nat) -> bool {
    n <= 0x10FFFF && !(0xD800 <= n <= 0xDFFF)
}

/// The digits of a codepoint text, after an optional leading `+`.
pub open spec fn hex_body(s: Seq<char>) -> Seq<char> {
    if s.len() > 0 && s[0] == '+' {
        s.drop_first()
    } else {
        s
    }
}

/// The scalar value that a codepoint text denotes, if it denotes one.
pub open spec fn codepoint_of(s: Seq<char>) -> Option<nat> {
    let b = hex_body(s);
    if is_hex_text(b) && is_scalar_value(hex_value(b)) {
        Some(hex_value(b))
    } else {
        None
    }
}

proof fn lemma_digits_have_values()
    ensures
        forall|d: int| 0 <= d < 16 ==> digit_value(#[trigger] hex_digits()[d]) == d,
{
    assert forall|d: int| 0 <= d < 16 implies digit_value(#[trigger] hex_digits()[d]) == d by {
        let h = hex_digits();
        if d == 0 { assert(h[d] == '0'); }
        else if d == 1 { assert(h[d] == '1'); }
        else if d == 2 { assert(h[d] == '2'); }
        else if d == 3 { assert(h[d] == '3'); }
        else if d == 4 { assert(h[d] == '4'); }
        else if d == 5 { assert(h[d] == '5'); }
        else if d == 6 { assert(h[d] == '6'); }
        else if d == 7 { assert(h[d] == '7'); }
        else if d == 8 { assert(h[d] == '8'); }
        else if d == 9 { assert(h[d] == '9'); }
        else if d == 10 { assert(h[d] == 'a'); }
        else if d == 11 { assert(h[d] == 'b'); }
        else if d == 12 { assert(h[d] == 'c'); }
        else if d == 13 { assert(h[d] == 'd'); }
        else if d == 14 { assert(h[d] == 'e'); }
        else { assert(h[d] == 'f'); }
    }
}

/// A prefix of a digit run denotes no more than the whole run.
proof fn lemma_hex_value_prefix(s: Seq<char>, k: int)
    requires
        0 <= k <= s.len(),
    ensures
        hex_value(s.take(k)) <= hex_value(s),
    decreases s.len(),
{
    if k == s.len() {
        assert(s.take(k) =~= s);
    } else {
        lemma_hex_value_prefix(s.drop_last(), k);
        assert(s.drop_last().take(k) =~= s.take(k));
    }
}

/// Appending one digit to a slice of a run.
proof fn lemma_hex_value_step(s: Seq<char>, a: int, i: int)
    requires
        0 <= a <= i < s.len(),
        digit_value(s[i]) >= 0,
    ensures
        hex_value(s.subrange(a, i + 1)) == hex_value(s.subrange(a, i)) * 16 + digit_value(s[i]),
{
    assert(s.subrange(a, i + 1).drop_last() =~= s.subrange(a, i));
}

/// Formatting as hexadecimal gives canonical text that reads back as the
/// same number.
pub proof fn lemma_hex_of_reads_back(n: nat)
    ensures
        is_canonical_hex(hex_of(n)),
        is_hex_text(hex_of(n)),
        hex_value(hex_of(n)) == n,
    decreases n,
{
    lemma_digits_have_values();
    let h = hex_digits();
    if n < 16 {
        assert(h.contains(h[n as int]));
        assert(hex_of(n).drop_last() =~= Seq::<char>::empty());
        assert(hex_value(Seq::<char>::empty()) == 0);
        assert(digit_value(hex_of(n).last()) == n);
    } else {
        lemma_hex_of_reads_back(n / 16);
        let p = hex_of(n / 16);
        let s = hex_of(n);
        assert(s.drop_last() =~= p);
        assert(h.contains(h[(n % 16) as int]));
        assert forall|i: int| 0 <= i < s.len() implies h.contains(#[trigger] s[i]) by {
            if i < p.len() {
                assert(s[i] == p[i]);
            }
        }
        assert forall|i: int| 0 <= i < s.len() implies digit_value(#[trigger] s[i]) >= 0 by {
            assert(h.contains(s[i]));
        }
        if n / 16 < 16 {
            assert(p[0] == h[(n / 16) as int]);
            assert(digit_value(p[0]) == n / 16);
        } else {
            lemma_hex_of_reads_back(n / 16 / 16);
            assert(p.len() >= 2);
        }
        assert(s[0] == p[0]);
        assert(s.last() == h[(n % 16) as int]);
        assert(digit_value(s.last()) == n % 16);
        assert(n == (n / 16) * 16 + n % 16);
        assert(hex_value(s) == hex_value(p) * 16 + digit_value(s.last()));
    }
}

/// Canonical hexadecimal text is the formatting of the number it denotes.
pub proof fn lemma_canonical_hex_round_trip(s: Seq<char>)
    requires
        is_canonical_hex(s),
    ensures
        is_hex_text(s),
        hex_of(hex_value(s)) == s,
    decreases s.len(),
{
    lemma_digits_have_values();
    let h = hex_digits();
    assert forall|i: int| 0 <= i < s.len() implies digit_value(#[trigger] s[i]) >= 0 && h[digit_value(s[i])] == s[i] by {
        assert(h.contains(s[i]));
        let j = choose|j: int| 0 <= j < h.len() && h[j] == s[i];
        assert(digit_value(h[j]) == j);
    }
    let d = digit_value(s.last());
    if s.len() == 1 {
        assert(s.drop_last() =~= Seq::<char>::empty());
        assert(hex_value(Seq::<char>::empty()) == 0);
        assert(hex_value(s) == d);
        assert(0 <= d < 16);
        assert(h[d] == s[0]);
        assert(hex_of(hex_value(s)) =~= s);
    } else {
        let t = s.drop_last();
        assert(t[0] == s[0]);
        assert forall|i: int| 0 <= i < t.len() implies h.contains(#[trigger] t[i]) by {
            assert(t[i] == s[i]);
        }
        lemma_canonical_hex_round_trip(t);
        lemma_hex_value_prefix(t, 1);
        assert(t.take(1).drop_last() =~= Seq::<char>::empty());
        assert(digit_value(t[0]) != 0) by {
            if digit_value(t[0]) == 0 {
                assert(h[0] == t[0]);
            }
        }
        let v = hex_value(t);
        let n = hex_value(s);
        assert(n == v * 16 + d);
        lemma_fundamental_div_mod_converse(n as int, 16, v as int, d);
        assert(n >= 16);
        assert(hex_of(n) == hex_of(v).push(h[d]));
        assert(hex_of(n) =~= s);
    }
}

/// The one-character text of hexadecimal digit `d`.
fn hex_digit_str(d: u32) -> (r: &'static str)
    requires
        d < 16,
    ensures
        r@ == seq![hex_digits()[d as int]],
{
    let digits = "0123456789abcdef";
    proof {
        reveal_strlit("0123456789abcdef");
        assert(digits@ =~= hex_digits());
    }
    let r = digits.substring_char(d as usize, d as usize + 1);
    assert(r@ =~= seq![hex_digits()[d as int]]);
    r
}

/// The lowercase hexadecimal form of `n`, without leading zeros.
pub fn format_hex(n: u32) -> (r: String)
    ensures
        r@ == hex_of(n as nat),
    decreases n,
{
    if n < 16 {
        String::from_str(hex_digit_str(n))
    } else {
        let mut s = format_hex(n / 16);
        s.append(hex_digit_str(n % 16));
        assert(s@ =~= hex_of(n as nat));
        s
    }
}

/// The value of the hexadecimal digit `c`, if it is one.
fn digit_of(c: char) -> (r: Option<u32>)
    ensures
        match r {
            Some(d) => digit_value(c) == d as int,
            None => digit_value(c) < 0,
        },
{
    let u = c as u32;
    if 0x30 <= u && u <= 0x39 {
        Some(u - 0x30)
    } else if 0x61 <= u && u <= 0x66 {
        Some(u - 0x61 + 10)
    } else if 0x41 <= u && u <= 0x46 {
        Some(u - 0x41 + 10)
    } else {
        None
    }
}

/// Reads a codepoint written in hexadecimal (either case, after an optional
/// `+`). Gives `None` unless the text is a non-empty run of digits whose value
/// is a Unicode scalar value.
pub fn parse_codepoint(id: &str) -> (r: Option<u32>)
    ensures
        match r {
            Some(n) => codepoint_of(id@) == Some(n as nat),
            None => codepoint_of(id@) is None,
        },
{
    let len = id.unicode_len();
    let start: usize = if len > 0 && id.get_char(0) == '+' {
        1
    } else {
        0
    };
    let ghost b = hex_body(id@);
    proof {
        assert(b =~= id@.subrange(start as int, len as int));
    }
    if start == len {
        return None;
    }
    let mut value: u32 = 0;
    let mut i: usize = start;
    while i < len
        invariant
            start <= i <= len,
            len == id@.len(),
            b == id@.subrange(start as int, len as int),
            b == hex_body(id@),
            value as nat == hex_value(id@.subrange(start as int, i as int)),
            value <= 0x10FFFF,
            forall|j: int| start <= j < i ==> digit_value(#[trigger] id@[j]) >= 0,
        decreases len - i,
    {
        let c = id.get_char(i);
        match digit_of(c) {
            None => {
                assert(b[i - start] == c);
                assert(!is_hex_text(b));
                return None;
            },
            Some(d) => {
                proof {
                    lemma_hex_value_step(id@, start as int, i as int);
                }
                let next: u64 = value as u64 * 16 + d as u64;
                if next > 0x10FFFF {
                    proof {
                        if is_hex_text(b) {
                            let k = i + 1 - start;
                            assert(b.take(k) =~= id@.subrange(start as int, i + 1));
                            lemma_hex_value_prefix(b, k);
                            assert(hex_value(b.take(k)) == next);
                            assert(!is_scalar_value(hex_value(b)));
                        }
                    }
                    return None;
                }
                value = next as u32;
                i = i + 1;
            },
        }
    }
    assert(id@.subrange(start as int, len as int) == b);
    assert forall|j: int| 0 <= j < b.len() implies digit_value(#[trigger] b[j]) >= 0 by {
        assert(b[j] == id@[start + j]);
    }
    if 0xD800 <= value && value <= 0xDFFF {
        None
    } else {
        Some(value)
    }
}

} // verus!
