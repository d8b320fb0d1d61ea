//! Verified text utilities: equality and lexicographic order on strings,
//! decimal and hexadecimal rendering, prefix and suffix tests, splitting on a
//! separator, joining path segments, and newline handling.

use vstd::prelude::*;
use vstd::string::*;

verus! {

/// Character equality of two string slices.
pub fn str_eq(a: &str, b: &str) -> (r: bool)
    ensures
        r == (a@ == b@),
{
    let la = a.unicode_len();
    let lb = b.unicode_len();
    if la != lb {
        assert(a@ != b@) by {
            assert(a@.len() != b@.len());
        }
        return false;
    }
    let mut i: usize = 0;
    while i < la
        invariant
            la == a@.len(),
            la == b@.len(),
            i <= la,
            forall|j: int| 0 <= j < i ==> a@[j] == b@[j],
        decreases la - i,
    {
        if a.get_char(i) != b.get_char(i) {
            return false;
        }
        i += 1;
    }
    assert(a@ =~= b@);
    true
}

/// Distinct characters have distinct code points.
proof fn lemma_char_code(c1: char, c2: char)
    ensures
        c1 != c2 ==> (c1 as u32) != (c2 as u32),
{
}

/// Strict lexicographic order on character sequences, by code point.
pub open spec fn lex_lt(a: Seq<char>, b: Seq<char>) -> bool
    decreases a.len(),
{
    if b.len() == 0 {
        false
    } else if a.len() == 0 {
        true
    } else if a[0] != b[0] {
        (a[0] as u32) < (b[0] as u32)
    } else {
        lex_lt(a.drop_first(), b.drop_first())
    }
}

/// Lexicographic order, reflexive form.
pub open spec fn lex_le(a: Seq<char>, b: Seq<char>) -> bool {
    lex_lt(a, b) || a == b
}

/// Dropping an equal prefix from both sides leaves the order unchanged.
proof fn lemma_lex_skip(a: Seq<char>, b: Seq<char>, i: int)
    requires
        0 <= i <= a.len(),
        i <= b.len(),
        forall|j: int| 0 <= j < i ==> a[j] == b[j],
    ensures
        lex_lt(a, b) == lex_lt(a.skip(i), b.skip(i)),
    decreases i,
{
    if i > 0 {
        assert(a.drop_first().skip(i - 1) =~= a.skip(i));
        assert(b.drop_first().skip(i - 1) =~= b.skip(i));
        lemma_lex_skip(a.drop_first(), b.drop_first(), i - 1);
    } else {
        assert(a.skip(0) =~= a);
        assert(b.skip(0) =~= b);
    }
}

/// The order is total: of any two sequences, one is below the other.
pub proof fn lemma_lex_total(a: Seq<char>, b: Seq<char>)
    ensures
        lex_le(a, b) || lex_le(b, a),
    decreases a.len(),
{
    if a.len() == 0 && b.len() == 0 {
        assert(a =~= b);
        assert(lex_le(a, b));
    } else if a.len() == 0 {
        assert(lex_lt(a, b));
    } else if b.len() == 0 {
        assert(lex_lt(b, a));
    } else if a[0] != b[0] {
        lemma_char_code(a[0], b[0]);
        assert(lex_lt(a, b) || lex_lt(b, a));
    } else {
        lemma_lex_total(a.drop_first(), b.drop_first());
        if a.drop_first() == b.drop_first() {
            assert(a =~= seq![a[0]] + a.drop_first());
            assert(b =~= seq![b[0]] + b.drop_first());
        }
    }
}

/// Lexicographic comparison of two string slices.
pub fn str_le(a: &str, b: &str) -> (r: bool)
    ensures
        r == lex_le(a@, b@),
{
    let la = a.unicode_len();
    let lb = b.unicode_len();
    let mut i: usize = 0;
    loop
        invariant
            la == a@.len(),
            lb == b@.len(),
            i <= la,
            i <= lb,
            forall|j: int| 0 <= j < i ==> a@[j] == b@[j],
        decreases la - i,
    {
        proof {
            lemma_lex_skip(a@, b@, i as int);
        }
        if i >= la {
            // `a` is exhausted: equal to `b`, or a strict prefix of it.
            if i >= lb {
                assert(a@ =~= b@);
            } else {
                assert(a@.skip(i as int).len() == 0);
            }
            return true;
        }
        if i >= lb {
            // `b` is a strict prefix of `a`.
            assert(b@.skip(i as int).len() == 0);
            assert(a@.len() != b@.len());
            return false;
        }
        let ca = a.get_char(i);
        let cb = b.get_char(i);
        if ca != cb {
            assert(a@.skip(i as int)[0] == a@[i as int]);
            assert(b@.skip(i as int)[0] == b@[i as int]);
            assert(a@ != b@) by {
                if a@ == b@ {
                    assert(a@[i as int] == b@[i as int]);
                }
            }
            return (ca as u32) < (cb as u32);
        }
        i += 1;
    }
}

/// The decimal digit character for `d`.
pub open spec fn dec_digit(d: int) -> char {
    if d == 0 {
        '0'
    } else if d == 1 {
        '1'
    } else if d == 2 {
        '2'
    } else if d == 3 {
        '3'
    } else if d == 4 {
        '4'
    } else if d == 5 {
        '5'
    } else if d == 6 {
        '6'
    } else if d == 7 {
        '7'
    } else if d == 8 {
        '8'
    } else {
        '9'
    }
}

/// Decimal rendering of a non-negative integer, most significant digit
/// first, no leading zeroes (a sole zero for 0).
pub open spec fn spec_dec(n: int) -> Seq<char>
    decreases n,
{
    if n < 10 {
        seq![dec_digit(n)]
    } else {
        spec_dec(n / 10).push(dec_digit(n % 10))
    }
}

/// Decimal rendering of a signed integer: a minus sign before the digits of
/// the magnitude when negative.
pub open spec fn spec_dec_signed(n: int) -> Seq<char> {
    if n >= 0 {
        spec_dec(n)
    } else {
        seq!['-'] + spec_dec(-n)
    }
}

/// The one-character string holding the decimal digit `d`.
fn dec_digit_str(d: u64) -> (r: String)
    requires
        d < 10,
    ensures
        r@ =~= seq![dec_digit(d as int)],
{
    let lit = "0123456789";
    proof {
        reveal_strlit("0123456789");
    }
    let sub = lit.substring_char(d as usize, d as usize + 1);
    sub.to_owned()
}

/// Decimal rendering of `n`.
pub fn u64_to_dec(n: u64) -> (r: String)
    ensures
        r@ == spec_dec(n as int),
    decreases n,
{
    if n < 10 {
        let r = dec_digit_str(n);
        assert(r@ == spec_dec(n as int));
        r
    } else {
        let mut s = u64_to_dec(n / 10);
        let d = dec_digit_str(n % 10);
        s.append(d.as_str());
        assert(s@ =~= spec_dec((n / 10) as int).push(dec_digit((n % 10) as int)));
        s
    }
}

/// Decimal rendering of `n`, signed.
pub fn i64_to_dec(n: i64) -> (r: String)
    ensures
        r@ == spec_dec_signed(n as int),
{
    if n >= 0 {
        u64_to_dec(n as u64)
    } else {
        let mag: u64 = (-(n as i128)) as u64;
        let mut s = String::from_str("-");
        let digits = u64_to_dec(mag);
        s.append(digits.as_str());
        proof {
            reveal_strlit("-");
        }
        assert(s@ =~= seq!['-'] + spec_dec(-(n as int)));
        s
    }
}

/// The lower-case hexadecimal digit character for `d`.
pub open spec fn hex_digit(d: int) -> char {
    if d < 10 {
        dec_digit(d)
    } else if d == 10 {
        'a'
    } else if d == 11 {
        'b'
    } else if d == 12 {
        'c'
    } else if d == 13 {
        'd'
    } else if d == 14 {
        'e'
    } else {
        'f'
    }
}

/// Lower-case hexadecimal rendering of a byte sequence, two digits per
/// byte.
pub open spec fn spec_hex(bs: Seq<u8>) -> Seq<char>
    decreases bs.len(),
{
    if bs.len() == 0 {
        Seq::empty()
    } else {
        spec_hex(bs.drop_last()) + seq![
            hex_digit(bs.last() as int / 16),
            hex_digit(bs.last() as int % 16),
        ]
    }
}

/// The one-character string holding the hexadecimal digit `d`.
fn hex_digit_str(d: u8) -> (r: String)
    requires
        d < 16,
    ensures
        r@ =~= seq![hex_digit(d as int)],
{
    let lit = "0123456789abcdef";
    proof {
        reveal_strlit("0123456789abcdef");
    }
    let sub = lit.substring_char(d as usize, d as usize + 1);
    sub.to_owned()
}

/// Lower-case hexadecimal rendering of `bytes`.
pub fn bytes_to_hex(bytes: &Vec<u8>) -> (r: String)
    ensures
        r@ == spec_hex(bytes@),
{
    let mut s = String::new();
    let mut i: usize = 0;
    while i < bytes.len()
        invariant
            i <= bytes@.len(),
            s@ == spec_hex(bytes@.take(i as int)),
        decreases bytes@.len() - i,
    {
        let b = bytes[i];
        let hi = hex_digit_str(b / 16);
        let lo = hex_digit_str(b % 16);
        s.append(hi.as_str());
        s.append(lo.as_str());
        proof {
            let t = bytes@.take(i as int + 1);
            assert(t.drop_last() =~= bytes@.take(i as int));
            assert(t.last() == bytes@[i as int]);
            assert(s@ =~= spec_hex(t));
        }
        i += 1;
    }
    proof {
        assert(bytes@.take(bytes@.len() as int) =~= bytes@);
    }
    s
}

/// Whether `p` is a prefix of `s`.
pub open spec fn is_prefix(p: Seq<char>, s: Seq<char>) -> bool {
    p.len() <= s.len() && s.subrange(0, p.len() as int) == p
}

/// Whether `p` is a suffix of `s`.
pub open spec fn is_suffix(p: Seq<char>, s: Seq<char>) -> bool {
    p.len() <= s.len() && s.subrange(s.len() - p.len(), s.len() as int) == p
}

/// Whether the characters of `p` open the string `s`.
pub fn starts_with_str(s: &str, p: &str) -> (r: bool)
    ensures
        r == is_prefix(p@, s@),
{
    let ls = s.unicode_len();
    let lp = p.unicode_len();
    if lp > ls {
        return false;
    }
    let mut i: usize = 0;
    while i < lp
        invariant
            ls == s@.len(),
            lp == p@.len(),
            lp <= ls,
            i <= lp,
            forall|j: int| 0 <= j < i ==> s@[j] == p@[j],
        decreases lp - i,
    {
        if s.get_char(i) != p.get_char(i) {
            assert(!is_prefix(p@, s@)) by {
                if is_prefix(p@, s@) {
                    assert(s@.subrange(0, p@.len() as int)[i as int] == s@[i as int]);
                }
            }
            return false;
        }
        i += 1;
    }
    assert(s@.subrange(0, p@.len() as int) =~= p@);
    true
}

/// Whether the characters of `p` close the string `s`.
pub fn ends_with_str(s: &str, p: &str) -> (r: bool)
    ensures
        r == is_suffix(p@, s@),
{
    let ls = s.unicode_len();
    let lp = p.unicode_len();
    if lp > ls {
        return false;
    }
    let off = ls - lp;
    let mut i: usize = 0;
    while i < lp
        invariant
            ls == s@.len(),
            lp == p@.len(),
            lp <= ls,
            off == ls - lp,
            i <= lp,
            forall|j: int| 0 <= j < i ==> s@[off + j] == p@[j],
        decreases lp - i,
    {
        if s.get_char(off + i) != p.get_char(i) {
            assert(!is_suffix(p@, s@)) by {
                if is_suffix(p@, s@) {
                    assert(s@.subrange(s@.len() - p@.len(), s@.len() as int)[i as int]
                        == s@[off + i]);
                }
            }
            return false;
        }
        i += 1;
    }
    assert(s@.subrange(s@.len() - p@.len(), s@.len() as int) =~= p@);
    true
}

/// Splitting a character sequence at every occurrence of `sep`. Always at
/// least one (possibly empty) part; separators are not kept.
pub open spec fn spec_split(s: Seq<char>, sep: char) -> Seq<Seq<char>>
    decreases s.len(),
{
    if s.len() == 0 {
        seq![Seq::empty()]
    } else if s[0] == sep {
        seq![Seq::<char>::empty()] + spec_split(s.drop_first(), sep)
    } else {
        let rest = spec_split(s.drop_first(), sep);
        seq![seq![s[0]] + rest[0]] + rest.drop_first()
    }
}

/// A split has one part more than the string has separators; in particular
/// it is never empty.
pub proof fn lemma_split_nonempty(s: Seq<char>, sep: char)
    ensures
        spec_split(s, sep).len() >= 1,
    decreases s.len(),
{
    if s.len() > 0 {
        lemma_split_nonempty(s.drop_first(), sep);
    }
}

/// When the first `k` characters are free of the separator and character
/// `k` is the separator, the first part is exactly those `k` characters.
proof fn lemma_split_at_sep(s: Seq<char>, sep: char, k: int)
    requires
        0 <= k < s.len(),
        s[k] == sep,
        forall|j: int| 0 <= j < k ==> s[j] != sep,
    ensures
        spec_split(s, sep) =~= seq![s.take(k)] + spec_split(s.skip(k + 1), sep),
    decreases k,
{
    if k == 0 {
        assert(s.take(0) =~= Seq::<char>::empty());
        assert(s.drop_first() =~= s.skip(1));
    } else {
        lemma_split_at_sep(s.drop_first(), sep, k - 1);
        lemma_split_nonempty(s.drop_first().skip(k), sep);
        assert(s.drop_first().take(k - 1) =~= s.take(k).drop_first());
        assert(s.drop_first().skip(k) =~= s.skip(k + 1));
        assert(seq![s[0]] + s.take(k).drop_first() =~= s.take(k));
    }
}

/// A string without the separator is a single part.
proof fn lemma_split_no_sep(s: Seq<char>, sep: char)
    requires
        forall|j: int| 0 <= j < s.len() ==> s[j] != sep,
    ensures
        spec_split(s, sep) =~= seq![s],
    decreases s.len(),
{
    if s.len() == 0 {
        assert(s =~= Seq::<char>::empty());
    } else {
        lemma_split_no_sep(s.drop_first(), sep);
        let rest = spec_split(s.drop_first(), sep);
        assert(rest.drop_first() =~= Seq::<Seq<char>>::empty());
        assert(seq![s[0]] + s.drop_first() =~= s);
        assert(seq![seq![s[0]] + rest[0]] + rest.drop_first() =~= seq![s]);
    }
}

/// The views of a vector of strings.
pub open spec fn views_of(v: Seq<String>) -> Seq<Seq<char>> {
    v.map_values(|p: String| p@)
}

/// Splits `s` at every occurrence of `sep`.
pub fn split_char(s: &str, sep: char) -> (r: Vec<String>)
    ensures
        views_of(r@) == spec_split(s@, sep),
{
    let len = s.unicode_len();
    let mut res: Vec<String> = Vec::new();
    let mut start: usize = 0;
    let mut i: usize = 0;
    proof {
        assert(s@.skip(0) =~= s@);
        assert(views_of(res@) =~= Seq::<Seq<char>>::empty());
    }
    while i < len
        invariant
            len == s@.len(),
            start <= i <= len,
            forall|j: int| start <= j < i ==> s@[j] != sep,
            spec_split(s@, sep) =~= views_of(res@) + spec_split(s@.skip(start as int), sep),
        decreases len - i,
    {
        if s.get_char(i) == sep {
            let part = s.substring_char(start, i);
            let ghost old_res = res@;
            res.push(part.to_owned());
            proof {
                let tail = s@.skip(start as int);
                assert(tail[i - start] == s@[i as int]);
                assert(forall|j: int| 0 <= j < i - start ==> tail[j] == s@[#[trigger] (j
                    + start)]);
                lemma_split_at_sep(tail, sep, i - start);
                assert(tail.take(i - start) =~= s@.subrange(start as int, i as int));
                assert(tail.skip(i - start + 1) =~= s@.skip(i as int + 1));
                assert(views_of(res@) =~= views_of(old_res).push(s@.subrange(
                    start as int,
                    i as int,
                )));
            }
            start = i + 1;
        }
        i += 1;
    }
    let part = s.substring_char(start, len);
    let ghost old_res = res@;
    res.push(part.to_owned());
    proof {
        let tail = s@.skip(start as int);
        assert(forall|j: int| 0 <= j < tail.len() ==> tail[j] == s@[#[trigger] (j + start)]);
        lemma_split_no_sep(tail, sep);
        assert(tail =~= s@.subrange(start as int, len as int));
        assert(views_of(res@) =~= views_of(old_res).push(s@.subrange(start as int, len as int)));
        assert(views_of(res@) =~= spec_split(s@, sep));
    }
    res
}

/// Joining parts with a separator character between consecutive parts.
pub open spec fn spec_join(parts: Seq<Seq<char>>, sep: char) -> Seq<char>
    decreases parts.len(),
{
    if parts.len() == 0 {
        Seq::empty()
    } else if parts.len() == 1 {
        parts[0]
    } else {
        spec_join(parts.drop_last(), sep) + seq![sep] + parts.last()
    }
}

/// Joins the first `upto` elements of `parts` with `/` between them.
pub fn join_slash(parts: &Vec<String>, upto: usize) -> (r: String)
    requires
        upto <= parts@.len(),
    ensures
        r@ == spec_join(views_of(parts@).take(upto as int), '/'),
{
    let mut s = String::new();
    let mut k: usize = 0;
    while k < upto
        invariant
            upto <= parts@.len(),
            k <= upto,
            s@ == spec_join(views_of(parts@).take(k as int), '/'),
        decreases upto - k,
    {
        if k > 0 {
            proof {
                reveal_strlit("/");
            }
            s.append("/");
        }
        s.append(parts[k].as_str());
        proof {
            let m = views_of(parts@);
            assert(m.take(k as int + 1).drop_last() =~= m.take(k as int));
            assert(m.take(k as int + 1).last() == m[k as int]);
            if k == 0 {
                assert(s@ =~= spec_join(m.take(1), '/'));
            } else {
                assert(s@ =~= spec_join(m.take(k as int), '/') + seq!['/'] + m[k as int]);
            }
        }
        k += 1;
    }
    s
}

/// `s` without its leading newline characters.
pub open spec fn trim_front_nl(s: Seq<char>) -> Seq<char>
    decreases s.len(),
{
    if s.len() > 0 && s[0] == '\n' {
        trim_front_nl(s.drop_first())
    } else {
        s
    }
}

/// `s` without its trailing newline characters.
pub open spec fn trim_back_nl(s: Seq<char>) -> Seq<char>
    decreases s.len(),
{
    if s.len() > 0 && s.last() == '\n' {
        trim_back_nl(s.drop_last())
    } else {
        s
    }
}

/// `s` without newline characters at either end.
pub open spec fn trim_nl(s: Seq<char>) -> Seq<char> {
    trim_back_nl(trim_front_nl(s))
}

proof fn lemma_trim_front(s: Seq<char>, i: int)
    requires
        0 <= i <= s.len(),
        forall|j: int| 0 <= j < i ==> s[j] == '\n',
        i == s.len() || s[i] != '\n',
    ensures
        trim_front_nl(s) == s.skip(i),
    decreases i,
{
    if i == 0 {
        assert(s.skip(0) =~= s);
    } else {
        assert(s.drop_first().skip(i - 1) =~= s.skip(i));
        lemma_trim_front(s.drop_first(), i - 1);
    }
}

proof fn lemma_trim_back(s: Seq<char>, i: int)
    requires
        0 <= i <= s.len(),
        forall|j: int| i <= j < s.len() ==> s[j] == '\n',
        i == 0 || s[i - 1] != '\n',
    ensures
        trim_back_nl(s) == s.take(i),
    decreases s.len() - i,
{
    if i == s.len() {
        assert(s.take(i) =~= s);
    } else {
        assert(s.drop_last().take(i) =~= s.take(i));
        lemma_trim_back(s.drop_last(), i);
    }
}

/// `s` with newline characters removed from both ends.
pub fn trim_nl_exec(s: &str) -> (r: String)
    ensures
        r@ == trim_nl(s@),
{
    let len = s.unicode_len();
    let mut start: usize = 0;
    while start < len && s.get_char(start) == '\n'
        invariant
            len == s@.len(),
            start <= len,
            forall|j: int| 0 <= j < start ==> s@[j] == '\n',
        decreases len - start,
    {
        start += 1;
    }
    proof {
        lemma_trim_front(s@, start as int);
    }
    let mut end: usize = len;
    while end > start && s.get_char(end - 1) == '\n'
        invariant
            len == s@.len(),
            start <= end <= len,
            forall|j: int| end <= j < len ==> s@[j] == '\n',
        decreases end,
    {
        end -= 1;
    }
    proof {
        let t = s@.skip(start as int);
        assert(forall|j: int| end - start <= j < t.len() ==> t[j] == s@[#[trigger] (j
            + start)]);
        if end > start {
            assert(t[end - start - 1] == s@[end - 1]);
        }
        lemma_trim_back(t, end - start);
    }
    let sub = s.substring_char(start, end);
    proof {
        assert(s@.skip(start as int).take(end - start as int) =~= s@.subrange(
            start as int,
            end as int,
        ));
    }
    sub.to_owned()
}

/// `s` without one trailing carriage return.
pub open spec fn strip_cr(s: Seq<char>) -> Seq<char> {
    if s.len() > 0 && s.last() == '\r' {
        s.drop_last()
    } else {
        s
    }
}

/// The lines of a text: split at `\n`, one optional `\r` removed before
/// each line feed, the final line ending optional.
pub open spec fn spec_lines(s: Seq<char>) -> Seq<Seq<char>> {
    if s.len() == 0 {
        Seq::empty()
    } else if s.last() == '\n' {
        spec_split(s, '\n').drop_last().map_values(|p: Seq<char>| strip_cr(p))
    } else {
        let ps = spec_split(s, '\n');
        ps.drop_last().map_values(|p: Seq<char>| strip_cr(p)).push(ps.last())
    }
}

/// `p` without one trailing carriage return.
fn strip_cr_exec(p: &String) -> (r: String)
    ensures
        r@ == strip_cr(p@),
{
    let len = p.as_str().unicode_len();
    if len > 0 && p.as_str().get_char(len - 1) == '\r' {
        let sub = p.as_str().substring_char(0, len - 1);
        proof {
            assert(p@.subrange(0, p@.len() - 1) =~= p@.drop_last());
        }
        sub.to_owned()
    } else {
        p.clone()
    }
}

/// The lines of `text`, in order.
pub fn split_lines(text: &str) -> (r: Vec<String>)
    ensures
        views_of(r@) == spec_lines(text@),
{
    let len = text.unicode_len();
    let mut out: Vec<String> = Vec::new();
    if len == 0 {
        assert(views_of(out@) =~= spec_lines(text@));
        return out;
    }
    let parts = split_char(text, '\n');
    proof {
        lemma_split_nonempty(text@, '\n');
    }
    let ends_nl = text.get_char(len - 1) == '\n';
    let full = parts.len() - 1;
    let mut k: usize = 0;
    while k < full
        invariant
            parts@.len() >= 1,
            full == parts@.len() - 1,
            k <= full,
            views_of(parts@) == spec_split(text@, '\n'),
            views_of(out@) =~= spec_split(text@, '\n').drop_last().map_values(
                |p: Seq<char>| strip_cr(p),
            ).take(k as int),
        decreases full - k,
    {
        let ghost old_out = out@;
        let stripped = strip_cr_exec(&parts[k]);
        out.push(stripped);
        proof {
            let m = spec_split(text@, '\n').drop_last().map_values(|p: Seq<char>| strip_cr(p));
            assert(m.take(k as int + 1) =~= m.take(k as int).push(m[k as int]));
            assert(views_of(out@) =~= views_of(old_out).push(strip_cr(parts@[k as int]@)));
        }
        k += 1;
    }
    proof {
        let m = spec_split(text@, '\n').drop_last().map_values(|p: Seq<char>| strip_cr(p));
        assert(m.take(full as int) =~= m);
    }
    if !ends_nl {
        let ghost old_out = out@;
        let last = parts[parts.len() - 1].clone();
        out.push(last);
        proof {
            assert(views_of(out@) =~= views_of(old_out).push(parts@[parts@.len() - 1]@));
            assert(views_of(parts@).last() == parts@[parts@.len() - 1]@);
        }
    }
    assert(views_of(out@) =~= spec_lines(text@));
    out
}

} // verus!
