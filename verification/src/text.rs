//! Small verified operations on strings, stated over their character sequences.

use vstd::prelude::*;
use vstd::string::*;
use vstd::utf8::*;

verus! {

/// Whether two strings hold the same characters.
pub fn str_eq(a: &str, b: &str) -> (r: bool)
    ensures
        r == (a@ == b@),
{
    let x = a.as_bytes();
    let y = b.as_bytes();
    if x.len() != y.len() {
        return false;
    }
    let mut i: usize = 0;
    while i < x.len()
        invariant
            i <= x.len(),
            x.len() == y.len(),
            x@ == a.spec_bytes(),
            y@ == b.spec_bytes(),
            forall|j: int| 0 <= j < i ==> x@[j] == y@[j],
        decreases x.len() - i,
    {
        if x[i] != y[i] {
            return false;
        }
        i += 1;
    }
    proof {
        assert(x@ =~= y@);
        encode_utf8_decode_utf8(a@);
        encode_utf8_decode_utf8(b@);
    }
    true
}

/// The characters of a string, in order.
pub fn chars_of(s: &str) -> (v: Vec<char>)
    ensures
        v@ == s@,
{
    let n = s.unicode_len();
    let mut v: Vec<char> = Vec::new();
    let mut i: usize = 0;
    while i < n
        invariant
            i <= n,
            n == s@.len(),
            v@ == s@.take(i as int),
        decreases n - i,
    {
        let c = s.get_char(i);
        v.push(c);
        i += 1;
        assert(v@ =~= s@.take(i as int));
    }
    assert(s@.take(n as int) =~= s@);
    v
}

/// `p` stands in `h` at index `i`.
pub open spec fn occurs_at<T>(h: Seq<T>, p: Seq<T>, i: int) -> bool {
    0 <= i && i + p.len() <= h.len() && h.subrange(i, i + p.len()) == p
}

/// `p` stands somewhere in `h`.
pub open spec fn contains_seq<T>(h: Seq<T>, p: Seq<T>) -> bool {
    exists|i: int| occurs_at(h, p, i)
}

/// Whether `p` stands in `h` at index `i`.
pub fn chars_match_at(h: &Vec<char>, p: &Vec<char>, i: usize) -> (r: bool)
    ensures
        r == occurs_at(h@, p@, i as int),
{
    if p.len() > h.len() || i > h.len() - p.len() {
        return false;
    }
    let mut k: usize = 0;
    while k < p.len()
        invariant
            k <= p.len(),
            i + p.len() <= h.len(),
            forall|j: int| 0 <= j < k ==> h@[i + j] == p@[j],
        decreases p.len() - k,
    {
        if h[i + k] != p[k] {
            assert(h@.subrange(i as int, i + p.len())[k as int] == h@[i + k]);
            return false;
        }
        k += 1;
    }
    assert(h@.subrange(i as int, i + p.len()) =~= p@);
    true
}

/// Whether the pattern stands somewhere in the text.
pub fn str_contains(text: &str, pattern: &str) -> (r: bool)
    ensures
        r == contains_seq(text@, pattern@),
{
    let h = chars_of(text);
    let p = chars_of(pattern);
    let mut i: usize = 0;
    while i < h.len()
        invariant
            i <= h.len(),
            h@ == text@,
            p@ == pattern@,
            forall|j: int| 0 <= j < i ==> !occurs_at(h@, p@, j),
        decreases h.len() - i,
    {
        if chars_match_at(&h, &p, i) {
            return true;
        }
        i += 1;
    }
    chars_match_at(&h, &p, i)
}

/// The index of the first occurrence of `c` in `s` at or after `from`, or the
/// length of `s` where there is none.
pub open spec fn index_of_from(s: Seq<char>, c: char, from: int) -> int
    decreases s.len() - from,
{
    if from < 0 || from >= s.len() {
        s.len() as int
    } else if s[from] == c {
        from
    } else {
        index_of_from(s, c, from + 1)
    }
}

/// The pieces of `s` between occurrences of `sep`: always at least one piece.
pub open spec fn split_seq(s: Seq<char>, sep: char) -> Seq<Seq<char>>
    decreases s.len(),
{
    let i = index_of_from(s, sep, 0);
    if 0 <= i < s.len() {
        seq![s.take(i)] + split_seq(s.skip(i + 1), sep)
    } else {
        seq![s]
    }
}

proof fn lemma_index_of_first(s: Seq<char>, c: char, from: int, k: int)
    requires
        0 <= from <= k <= s.len(),
        forall|j: int| from <= j < k ==> s[j] != c,
        k == s.len() || s[k] == c,
    ensures
        index_of_from(s, c, from) == k,
    decreases k - from,
{
    if from < k {
        lemma_index_of_first(s, c, from + 1, k);
    }
}

/// The views of a list of strings.
pub open spec fn strings_view(v: Seq<String>) -> Seq<Seq<char>> {
    Seq::new(v.len(), |i: int| v[i]@)
}

/// The pieces of a text between the occurrences of a separator.
pub fn str_split(text: &str, sep: char) -> (r: Vec<String>)
    ensures
        strings_view(r@) == split_seq(text@, sep),
{
    let h = chars_of(text);
    let mut out: Vec<String> = Vec::new();
    let mut start: usize = 0;
    let mut i: usize = 0;
    assert(h@.skip(0) =~= h@);
    assert(strings_view(out@) + split_seq(h@, sep) =~= split_seq(h@, sep));
    while i < h.len()
        invariant
            start <= i <= h.len(),
            h@ == text@,
            forall|j: int| start <= j < i ==> h@[j] != sep,
            strings_view(out@) + split_seq(h@.skip(start as int), sep) == split_seq(h@, sep),
        decreases h.len() - i,
    {
        if h[i] == sep {
            let ghost rest = h@.skip(start as int);
            proof {
                lemma_index_of_first(rest, sep, 0, i - start);
                assert(rest.take(i - start) =~= h@.subrange(start as int, i as int));
                assert(rest.skip(i - start + 1) =~= h@.skip(i + 1));
            }
            let piece = String::from_str(text.substring_char(start, i));
            let ghost before = strings_view(out@);
            out.push(piece);
            assert(strings_view(out@) =~= before + seq![rest.take(i - start)]);
            assert(strings_view(out@) + split_seq(h@.skip(i + 1), sep) =~= before + split_seq(rest, sep));
            start = i + 1;
        }
        i += 1;
    }
    let ghost rest = h@.skip(start as int);
    proof {
        lemma_index_of_first(rest, sep, 0, i - start);
        assert(rest =~= h@.subrange(start as int, i as int));
    }
    let piece = String::from_str(text.substring_char(start, i));
    let ghost before = strings_view(out@);
    out.push(piece);
    assert(strings_view(out@) =~= before + seq![rest]);
    out
}

/// A device address of twelve characters written in six groups of two with
/// colons between them. A shorter text has no such form; of a longer one the
/// first twelve characters count.
pub open spec fn colon_form(s: Seq<char>) -> Option<Seq<char>> {
    if s.len() < 12 {
        None
    } else {
        Some(
            s.subrange(0, 2) + seq![':'] + s.subrange(2, 4) + seq![':'] + s.subrange(4, 6) + seq![':']
                + s.subrange(6, 8) + seq![':'] + s.subrange(8, 10) + seq![':'] + s.subrange(10, 12),
        )
    }
}

/// A device address with colons between its bytes.
pub fn mac_with_colons(mac: &str) -> (r: Option<String>)
    ensures
        match r {
            Some(s) => colon_form(mac@) == Some(s@),
            None => colon_form(mac@) is None,
        },
{
    if mac.unicode_len() < 12 {
        return None;
    }
    proof {
        reveal_strlit(":");
    }
    assert(":"@ =~= seq![':']);
    let mut out = String::from_str(mac.substring_char(0, 2));
    out.append(":");
    out.append(mac.substring_char(2, 4));
    out.append(":");
    out.append(mac.substring_char(4, 6));
    out.append(":");
    out.append(mac.substring_char(6, 8));
    out.append(":");
    out.append(mac.substring_char(8, 10));
    out.append(":");
    out.append(mac.substring_char(10, 12));
    Some(out)
}

/// The value of one decimal digit.
pub open spec fn digit_value(c: char) -> Option<int> {
    let u = c as u32;
    if 0x30 <= u <= 0x39 {
        Some(u - 0x30)
    } else {
        None
    }
}

/// The number that a run of decimal digits stands for, or nothing where a
/// character is no digit.
pub open spec fn digits_value(s: Seq<char>) -> Option<int>
    decreases s.len(),
{
    if s.len() == 0 {
        Some(0int)
    } else {
        match (digits_value(s.drop_last()), digit_value(s.last())) {
            (Some(head), Some(d)) => Some(head * 10 + d),
            _ => None,
        }
    }
}

/// The signed whole number that a text stands for: an optional sign, then at
/// least one decimal digit, and a value that a 64-bit integer holds.
pub open spec fn signed_value(s: Seq<char>) -> Option<i64> {
    let negative = s.len() > 0 && s[0] == '-';
    let digits = if s.len() > 0 && (s[0] == '-' || s[0] == '+') {
        s.skip(1)
    } else {
        s
    };
    if digits.len() == 0 {
        None
    } else {
        match digits_value(digits) {
            Some(v) => {
                let n = if negative {
                    -v
                } else {
                    v
                };
                if i64::MIN <= n <= i64::MAX {
                    Some(n as i64)
                } else {
                    None
                }
            },
            None => None,
        }
    }
}

proof fn lemma_digits_value_grows(s: Seq<char>)
    requires
        s.len() > 0,
        digits_value(s) is Some,
    ensures
        digits_value(s.drop_last()) is Some,
        digits_value(s.drop_last()).unwrap() <= digits_value(s).unwrap(),
        digits_value(s).unwrap() >= 0,
    decreases s.len(),
{
    if s.len() > 1 {
        lemma_digits_value_grows(s.drop_last());
    }
}

/// Reads a signed whole number, as `signed_value` says.
pub fn parse_signed(text: &str) -> (r: Option<i64>)
    ensures
        r == signed_value(text@),
{
    let h = chars_of(text);
    if h.len() == 0 {
        return None;
    }
    let negative = h[0] == '-';
    let first: usize = if h[0] == '-' || h[0] == '+' {
        1
    } else {
        0
    };
    if first == h.len() {
        assert(h@.skip(1).len() == 0);
        return None;
    }
    let ghost digits = h@.skip(first as int);
    let mut total: i128 = 0;
    let mut i: usize = first;
    assert(digits.take(0) =~= Seq::<char>::empty());
    while i < h.len()
        invariant
            first <= i <= h.len(),
            first < h.len(),
            h@ == text@,
            negative == (h@[0] == '-'),
            first == (if h@[0] == '-' || h@[0] == '+' {
                1int
            } else {
                0int
            }),
            digits == h@.skip(first as int),
            digits_value(digits.take(i - first)) == Some(total as int),
            0 <= total <= 0x8000_0000_0000_0000,
        decreases h.len() - i,
    {
        let c = h[i];
        let ghost next = digits.take(i - first + 1);
        proof {
            assert(next.drop_last() =~= digits.take(i - first));
            assert(next.last() == c);
        }
        let u: u32 = c as u32;
        if u < 0x30 || u > 0x39 {
            proof {
                assert(digit_value(c) is None);
                assert(digits_value(next) is None);
                lemma_digits_none_extends(digits, i - first + 1);
                assert(h@.skip(0) =~= h@);
            }
            return None;
        }
        let d: i128 = (u - 0x30) as i128;
        total = total * 10 + d;
        assert(digits_value(next) == Some(total as int));
        if total > 0x8000_0000_0000_0000 {
            proof {
                lemma_digits_large_extends(digits, i - first + 1);
                assert(h@.skip(0) =~= h@);
            }
            return None;
        }
        i += 1;
    }
    assert(digits.take(i - first) =~= digits);
    assert(h@.skip(0) =~= h@);
    if negative {
        Some((-total) as i64)
    } else if total > 0x7fff_ffff_ffff_ffff {
        None
    } else {
        Some(total as i64)
    }
}

proof fn lemma_digits_none_extends(s: Seq<char>, k: int)
    requires
        0 <= k <= s.len(),
        digits_value(s.take(k)) is None,
    ensures
        digits_value(s) is None,
    decreases s.len() - k,
{
    if k < s.len() {
        assert(s.take(k + 1).drop_last() =~= s.take(k));
        lemma_digits_none_extends(s, k + 1);
    } else {
        assert(s.take(k) =~= s);
    }
}

proof fn lemma_digits_large_extends(s: Seq<char>, k: int)
    requires
        0 <= k <= s.len(),
        digits_value(s.take(k)) is Some ==> digits_value(s.take(k)).unwrap() > 0x8000_0000_0000_0000,
    ensures
        digits_value(s) is Some ==> digits_value(s).unwrap() > 0x8000_0000_0000_0000,
    decreases s.len() - k,
{
    if k < s.len() {
        assert(s.take(k + 1).drop_last() =~= s.take(k));
        if digits_value(s.take(k + 1)) is Some {
            lemma_digits_value_grows(s.take(k + 1));
        }
        lemma_digits_large_extends(s, k + 1);
    } else {
        assert(s.take(k) =~= s);
    }
}

/// The text with every occurrence of the pattern taken out, reading from the
/// left and never looking twice at a character.
pub open spec fn without_seq(s: Seq<char>, p: Seq<char>) -> Seq<char>
    decreases s.len(),
{
    if p.len() == 0 || s.len() < p.len() {
        s
    } else if s.take(p.len() as int) == p {
        without_seq(s.skip(p.len() as int), p)
    } else {
        seq![s[0]] + without_seq(s.skip(1), p)
    }
}

/// The text with every occurrence of the pattern taken out.
pub fn str_without(text: &str, pattern: &str) -> (s: String)
    ensures
        s@ == without_seq(text@, pattern@),
{
    let h = chars_of(text);
    let p = chars_of(pattern);
    if p.len() == 0 {
        return String::from_str(text);
    }
    let mut out = String::new();
    let mut i: usize = 0;
    assert(h@.skip(0) =~= h@);
    assert(out@ + without_seq(h@, p@) =~= without_seq(h@, p@));
    while i < h.len()
        invariant
            i <= h.len(),
            h@ == text@,
            p@ == pattern@,
            p.len() > 0,
            out@ + without_seq(h@.skip(i as int), p@) == without_seq(h@, p@),
        decreases h.len() - i,
    {
        let ghost rest = h@.skip(i as int);
        if chars_match_at(&h, &p, i) {
            assert(rest.take(p.len() as int) =~= h@.subrange(i as int, i + p.len()));
            assert(rest.skip(p.len() as int) =~= h@.skip(i + p.len()));
            i += p.len();
        } else {
            proof {
                if rest.len() >= p.len() {
                    assert(rest.take(p.len() as int) =~= h@.subrange(i as int, i + p.len()));
                }
            }
            assert(rest.skip(1) =~= h@.skip(i + 1));
            assert(without_seq(rest, p@) =~= seq![rest[0]] + without_seq(rest.skip(1), p@)) by {
                if rest.len() < p.len() {
                    lemma_without_short(rest, p@);
                    lemma_without_short(rest.skip(1), p@);
                }
            }
            let piece = text.substring_char(i, i + 1);
            assert(piece@ =~= seq![rest[0]]);
            let ghost before = out@;
            out.append(piece);
            assert(out@ + without_seq(rest.skip(1), p@) =~= before + without_seq(rest, p@));
            i += 1;
        }
    }
    assert(h@.skip(i as int) =~= Seq::<char>::empty());
    assert(out@ + Seq::<char>::empty() =~= out@);
    out
}

proof fn lemma_without_short(s: Seq<char>, p: Seq<char>)
    requires
        s.len() < p.len(),
    ensures
        without_seq(s, p) == s,
{
}

/// The decimal digits of a natural number, most significant first.
pub open spec fn decimal_seq(n: nat) -> Seq<char>
    decreases n,
{
    if n < 10 {
        seq![digit_char(n)]
    } else {
        decimal_seq(n / 10).push(digit_char(n % 10))
    }
}

/// The character of one decimal digit.
pub open spec fn digit_char(d: nat) -> char {
    if d == 0 {
        '0'
    } else if d == 1 {
        '1'
    } else if d == 2 {
        '2'
    } else if d == 3 {
        '3'
    } else if d == 4 {
        '4'
    } else if d == 5 {
        '5'
    } else if d == 6 {
        '6'
    } else if d == 7 {
        '7'
    } else if d == 8 {
        '8'
    } else {
        '9'
    }
}

fn digit_str(d: u64) -> (r: &'static str)
    requires
        d < 10,
    ensures
        r@ == seq![digit_char(d as nat)],
{
    proof {
        reveal_strlit("0");
        reveal_strlit("1");
        reveal_strlit("2");
        reveal_strlit("3");
        reveal_strlit("4");
        reveal_strlit("5");
        reveal_strlit("6");
        reveal_strlit("7");
        reveal_strlit("8");
        reveal_strlit("9");
    }
    let r = if d == 0 {
        "0"
    } else if d == 1 {
        "1"
    } else if d == 2 {
        "2"
    } else if d == 3 {
        "3"
    } else if d == 4 {
        "4"
    } else if d == 5 {
        "5"
    } else if d == 6 {
        "6"
    } else if d == 7 {
        "7"
    } else if d == 8 {
        "8"
    } else {
        "9"
    };
    assert(r@ =~= seq![digit_char(d as nat)]);
    r
}

/// A number written in decimal digits.
pub fn decimal_string(n: u64) -> (s: String)
    ensures
        s@ == decimal_seq(n as nat),
    decreases n,
{
    if n < 10 {
        String::from_str(digit_str(n))
    } else {
        let head = decimal_string(n / 10);
        let s = head.concat(digit_str(n % 10));
        assert(s@ =~= decimal_seq((n / 10) as nat).push(digit_char((n % 10) as nat)));
        s
    }
}

/// Two strings joined.
pub fn join2(a: &str, b: &str) -> (s: String)
    ensures
        s@ == a@ + b@,
{
    String::from_str(a).concat(b)
}

} // verus!
