use vstd::prelude::*;
use vstd::string::*;

verus! {

/// The Unicode `White_Space` characters, written out.  These are the
/// blanks recognised between listing fields and trimmed from the end of
/// the top-level path.
pub open spec fn is_unicode_space(c: char) -> bool {
    let u = c as u32;
    ||| u == 0x20
    ||| (0x9 <= u && u <= 0xd)
    ||| u == 0x85
    ||| u == 0xa0
    ||| u == 0x1680
    ||| (0x2000 <= u && u <= 0x200a)
    ||| u == 0x2028
    ||| u == 0x2029
    ||| u == 0x202f
    ||| u == 0x205f
    ||| u == 0x3000
}

pub fn is_space_char(c: char) -> (r: bool)
    ensures
        r == is_unicode_space(c),
{
    let u = c as u32;
    u == 0x20 || (0x9 <= u && u <= 0xd) || u == 0x85 || u == 0xa0 || u == 0x1680 || (0x2000 <= u
        && u <= 0x200a) || u == 0x2028 || u == 0x2029 || u == 0x202f || u == 0x205f || u == 0x3000
}

/// Numeric value of a digit character, counted from `'0'`.
pub open spec fn digit_val(c: char) -> int {
    c as u32 - '0' as u32
}

/// `c` is a digit of the given radix (radix at most 10 is used here).
pub open spec fn is_digit_below(c: char, radix: int) -> bool {
    0 <= digit_val(c) && digit_val(c) < radix
}

pub open spec fn all_digits_below(s: Seq<char>, radix: int) -> bool {
    forall|i: int| 0 <= i < s.len() ==> is_digit_below(#[trigger] s[i], radix)
}

/// The integer a digit string denotes in the given radix.
pub open spec fn radix_val(s: Seq<char>, radix: int) -> int
    decreases s.len(),
{
    if s.len() == 0 {
        0
    } else {
        radix_val(s.drop_last(), radix) * radix + digit_val(s.last())
    }
}

/// The digit part of a number token: an optional leading `+` sign is
/// accepted, as the standard unsigned parsers accept it.
pub open spec fn unsigned_digits(s: Seq<char>) -> Seq<char> {
    if s.len() > 0 && s[0] == '+' {
        s.drop_first()
    } else {
        s
    }
}

/// What parsing a token as a base-8 `u32` yields: an optional `+` sign,
/// then one or more octal digits, with a value that fits in `u32`.
pub open spec fn spec_octal_u32(s: Seq<char>) -> Option<u32> {
    let d = unsigned_digits(s);
    if d.len() > 0 && all_digits_below(d, 8) && radix_val(d, 8) <= u32::MAX as int {
        Some(radix_val(d, 8) as u32)
    } else {
        None
    }
}

/// What parsing a token as a base-10 `usize` yields.
pub open spec fn spec_dec_usize(s: Seq<char>) -> Option<usize> {
    let d = unsigned_digits(s);
    if d.len() > 0 && all_digits_below(d, 10) && radix_val(d, 10) <= usize::MAX as int {
        Some(radix_val(d, 10) as usize)
    } else {
        None
    }
}

proof fn lemma_radix_val_nonneg(s: Seq<char>, radix: int)
    requires
        radix >= 1,
        all_digits_below(s, radix),
    ensures
        radix_val(s, radix) >= 0,
    decreases s.len(),
{
    if s.len() > 0 {
        assert(all_digits_below(s.drop_last(), radix));
        lemma_radix_val_nonneg(s.drop_last(), radix);
        assert(radix_val(s.drop_last(), radix) * radix >= 0) by (nonlinear_arith)
            requires
                radix >= 1,
                radix_val(s.drop_last(), radix) >= 0,
        ;
    }
}

/// A digit string is worth at least any of its prefixes.
proof fn lemma_radix_val_prefix_le(s: Seq<char>, k: int, radix: int)
    requires
        radix >= 1,
        all_digits_below(s, radix),
        0 <= k <= s.len(),
    ensures
        radix_val(s.take(k), radix) <= radix_val(s, radix),
    decreases s.len(),
{
    if k == s.len() {
        assert(s.take(k) =~= s);
    } else {
        assert(all_digits_below(s.drop_last(), radix));
        assert(s.drop_last().take(k) =~= s.take(k));
        lemma_radix_val_prefix_le(s.drop_last(), k, radix);
        lemma_radix_val_nonneg(s.drop_last(), radix);
        assert(radix_val(s.drop_last(), radix) * radix >= radix_val(s.drop_last(), radix))
            by (nonlinear_arith)
            requires
                radix >= 1,
                radix_val(s.drop_last(), radix) >= 0,
        ;
    }
}

/// Parses a token as a base-8 `u32`, exactly as the standard library's
/// radix parser would: optional `+` sign, one or more octal digits, no
/// overflow.
pub fn parse_octal_u32(s: &str) -> (r: Option<u32>)
    ensures
        r == spec_octal_u32(s@),
{
    let n = s.unicode_len();
    let mut off: usize = 0;
    if n > 0 && s.get_char(0) == '+' {
        off = 1;
    }
    let ghost d = unsigned_digits(s@);
    proof {
        assert(d =~= s@.subrange(off as int, n as int));
    }
    if off == n {
        return None;
    }
    let mut v: u64 = 0;
    let mut i: usize = off;
    while i < n
        invariant
            off <= i <= n,
            n == s@.len(),
            off == 1 ==> (n > 0 && s@[0] == '+'),
            off == 0 ==> !(n > 0 && s@[0] == '+'),
            d == unsigned_digits(s@),
            d =~= s@.subrange(off as int, n as int),
            all_digits_below(d.take(i - off), 8),
            v == radix_val(d.take(i - off), 8),
            v <= u32::MAX as u64,
        decreases n - i,
    {
        let c = s.get_char(i);
        let u = c as u32;
        proof {
            assert(d[i - off] == s@[i as int]);
        }
        if u < 0x30 || u > 0x37 {
            proof {
                assert(!is_digit_below(d[i - off], 8));
            }
            return None;
        }
        let dv = (u - 0x30) as u64;
        let v2: u64 = v * 8 + dv;
        proof {
            let k = i - off;
            assert(d.take(k + 1).drop_last() =~= d.take(k));
            assert(d.take(k + 1).last() == d[k]);
            assert(radix_val(d.take(k + 1), 8) == v * 8 + dv);
            assert(all_digits_below(d.take(k + 1), 8));
        }
        if v2 > 0xffff_ffff {
            proof {
                if all_digits_below(d, 8) {
                    lemma_radix_val_prefix_le(d, i - off + 1, 8);
                }
            }
            return None;
        }
        v = v2;
        i += 1;
    }
    proof {
        assert(d.take(n - off) =~= d);
    }
    Some(v as u32)
}

/// Parses a token as a base-10 `usize`, exactly as the standard library
/// would: optional `+` sign, one or more decimal digits, no overflow.
pub fn parse_dec_usize(s: &str) -> (r: Option<usize>)
    ensures
        r == spec_dec_usize(s@),
{
    let n = s.unicode_len();
    let mut off: usize = 0;
    if n > 0 && s.get_char(0) == '+' {
        off = 1;
    }
    let ghost d = unsigned_digits(s@);
    proof {
        assert(d =~= s@.subrange(off as int, n as int));
    }
    if off == n {
        return None;
    }
    let mut v: usize = 0;
    let mut i: usize = off;
    while i < n
        invariant
            off <= i <= n,
            n == s@.len(),
            off == 1 ==> (n > 0 && s@[0] == '+'),
            off == 0 ==> !(n > 0 && s@[0] == '+'),
            d == unsigned_digits(s@),
            d =~= s@.subrange(off as int, n as int),
            all_digits_below(d.take(i - off), 10),
            v == radix_val(d.take(i - off), 10),
        decreases n - i,
    {
        let c = s.get_char(i);
        let u = c as u32;
        proof {
            assert(d[i - off] == s@[i as int]);
        }
        if u < 0x30 || u > 0x39 {
            proof {
                assert(!is_digit_below(d[i - off], 10));
            }
            return None;
        }
        let dv = (u - 0x30) as usize;
        proof {
            let k = i - off;
            assert(d.take(k + 1).drop_last() =~= d.take(k));
            assert(d.take(k + 1).last() == d[k]);
            assert(all_digits_below(d.take(k + 1), 10));
        }
        let v2: usize = match v.checked_mul(10) {
            Some(v10) => match v10.checked_add(dv) {
                Some(v2) => v2,
                None => {
                    proof {
                        if all_digits_below(d, 10) {
                            lemma_radix_val_prefix_le(d, i - off + 1, 10);
                        }
                    }
                    return None;
                },
            },
            None => {
                proof {
                    if all_digits_below(d, 10) {
                        lemma_radix_val_prefix_le(d, i - off + 1, 10);
                    }
                }
                return None;
            },
        };
        v = v2;
        i += 1;
    }
    proof {
        assert(d.take(n - off) =~= d);
    }
    Some(v)
}

/// The string with its trailing whitespace removed.
pub open spec fn spec_trim_end(s: Seq<char>) -> Seq<char>
    decreases s.len(),
{
    if s.len() > 0 && is_unicode_space(s.last()) {
        spec_trim_end(s.drop_last())
    } else {
        s
    }
}

/// Removes trailing whitespace, as the repository tool's single trailing
/// newline is not part of the top-level path it reports.
pub fn trim_end_spaces(s: &str) -> (r: String)
    ensures
        r@ == spec_trim_end(s@),
{
    let n = s.unicode_len();
    let mut k: usize = n;
    proof {
        assert(s@.take(n as int) =~= s@);
    }
    while k > 0
        invariant
            k <= n,
            n == s@.len(),
            spec_trim_end(s@) == spec_trim_end(s@.take(k as int)),
        ensures
            k == 0 || !is_unicode_space(s@[k - 1]),
        decreases k,
    {
        if !is_space_char(s.get_char(k - 1)) {
            break;
        }
        proof {
            assert(s@.take(k as int).drop_last() =~= s@.take(k - 1));
        }
        k -= 1;
    }
    proof {
        if k == 0 {
            assert(s@.take(0) =~= Seq::<char>::empty());
        }
        assert(spec_trim_end(s@.take(k as int)) == s@.take(k as int));
    }
    String::from_str(s.substring_char(0, k))
}

/// Character-wise string equality.
pub fn str_eq_char(a: &str, b: &str) -> (r: bool)
    ensures
        r == (a@ == b@),
{
    let n = a.unicode_len();
    let m = b.unicode_len();
    if n != m {
        return false;
    }
    let mut i: usize = 0;
    while i < n
        invariant
            i <= n,
            n == a@.len(),
            n == b@.len(),
            forall|j: int| 0 <= j < i ==> a@[j] == b@[j],
        decreases n - i,
    {
        if a.get_char(i) != b.get_char(i) {
            return false;
        }
        i += 1;
    }
    proof {
        assert(a@ =~= b@);
    }
    true
}

/// The whitespace-separated tokens of `s`, read left to right: `acc` are
/// the tokens already complete, `cur` the one being gathered.
pub open spec fn split_ws_from(s: Seq<char>, i: int, acc: Seq<Seq<char>>, cur: Seq<char>) -> Seq<
    Seq<char>,
>
    decreases s.len() - i,
{
    if i < 0 || i >= s.len() {
        if cur.len() > 0 {
            acc.push(cur)
        } else {
            acc
        }
    } else if is_unicode_space(s[i]) {
        if cur.len() > 0 {
            split_ws_from(s, i + 1, acc.push(cur), Seq::empty())
        } else {
            split_ws_from(s, i + 1, acc, Seq::empty())
        }
    } else {
        split_ws_from(s, i + 1, acc, cur.push(s[i]))
    }
}

/// The whitespace-separated tokens of `s`.
pub open spec fn split_ws(s: Seq<char>) -> Seq<Seq<char>> {
    split_ws_from(s, 0, Seq::empty(), Seq::empty())
}

/// Splits a string into its whitespace-separated tokens.
pub fn split_ws_str(s: &str) -> (toks: Vec<String>)
    ensures
        toks@.map_values(|t: String| t@) == split_ws(s@),
{
    let n = s.unicode_len();
    let mut toks: Vec<String> = Vec::new();
    let mut start: Option<usize> = None;
    let mut i: usize = 0;
    proof {
        assert(toks@.map_values(|t: String| t@) =~= Seq::<Seq<char>>::empty());
    }
    while i < n
        invariant
            i <= n,
            n == s@.len(),
            match start {
                Some(st) => 0 <= st < i && (forall|j: int|
                    st <= j < i ==> !is_unicode_space(#[trigger] s@[j])) && split_ws_from(
                    s@,
                    i as int,
                    toks@.map_values(|t: String| t@),
                    s@.subrange(st as int, i as int),
                ) == split_ws(s@),
                None => split_ws_from(
                    s@,
                    i as int,
                    toks@.map_values(|t: String| t@),
                    Seq::empty(),
                ) == split_ws(s@),
            },
        decreases n - i,
    {
        let c = s.get_char(i);
        if is_space_char(c) {
            if let Some(st) = start {
                let ghost old_toks = toks@.map_values(|t: String| t@);
                let tok = String::from_str(s.substring_char(st, i));
                toks.push(tok);
                start = None;
                proof {
                    assert(s@.subrange(st as int, i as int).len() > 0);
                    assert(toks@.map_values(|t: String| t@) =~= old_toks.push(
                        s@.subrange(st as int, i as int),
                    ));
                }
            }
        } else {
            if start.is_none() {
                start = Some(i);
            }
            proof {
                let st = start->0;
                assert(s@.subrange(st as int, i + 1) =~= s@.subrange(st as int, i as int).push(
                    s@[i as int],
                ));
                if st == i {
                    assert(s@.subrange(st as int, i as int) =~= Seq::<char>::empty());
                }
            }
        }
        i += 1;
    }
    if let Some(st) = start {
        let ghost old_toks = toks@.map_values(|t: String| t@);
        let tok = String::from_str(s.substring_char(st, n));
        toks.push(tok);
        proof {
            assert(s@.subrange(st as int, n as int).len() > 0);
            assert(toks@.map_values(|t: String| t@) =~= old_toks.push(
                s@.subrange(st as int, n as int),
            ));
        }
    }
    toks
}

/// One trailing carriage return is not part of a line.
pub open spec fn strip_cr(l: Seq<char>) -> Seq<char> {
    if l.len() > 0 && l.last() == '\r' {
        l.drop_last()
    } else {
        l
    }
}

/// The lines of `s`, read left to right: split at `'\n'`, each line's one
/// trailing `'\r'` dropped, a final piece kept only when non-empty.
pub open spec fn lines_from(s: Seq<char>, i: int, acc: Seq<Seq<char>>, cur: Seq<char>) -> Seq<
    Seq<char>,
>
    decreases s.len() - i,
{
    if i < 0 || i >= s.len() {
        if cur.len() > 0 {
            acc.push(cur)
        } else {
            acc
        }
    } else if s[i] == '\n' {
        lines_from(s, i + 1, acc.push(strip_cr(cur)), Seq::empty())
    } else {
        lines_from(s, i + 1, acc, cur.push(s[i]))
    }
}

/// The lines of `s`, as the standard line iterator yields them.
pub open spec fn spec_lines(s: Seq<char>) -> Seq<Seq<char>> {
    lines_from(s, 0, Seq::empty(), Seq::empty())
}

/// Splits a string into lines at `'\n'`, dropping one `'\r'` at the end
/// of a line and any empty final piece.
pub fn split_lines(s: &str) -> (ls: Vec<String>)
    ensures
        ls@.map_values(|l: String| l@) == spec_lines(s@),
{
    let n = s.unicode_len();
    let mut ls: Vec<String> = Vec::new();
    let mut st: usize = 0;
    let mut i: usize = 0;
    proof {
        assert(ls@.map_values(|l: String| l@) =~= Seq::<Seq<char>>::empty());
        assert(s@.subrange(0, 0) =~= Seq::<char>::empty());
    }
    while i < n
        invariant
            st <= i <= n,
            n == s@.len(),
            forall|j: int| st <= j < i ==> s@[j] != '\n',
            lines_from(
                s@,
                i as int,
                ls@.map_values(|l: String| l@),
                s@.subrange(st as int, i as int),
            ) == spec_lines(s@),
        decreases n - i,
    {
        let c = s.get_char(i);
        if c == '\n' {
            let ghost old_ls = ls@.map_values(|l: String| l@);
            let ghost cur = s@.subrange(st as int, i as int);
            let line = if i > st && s.get_char(i - 1) == '\r' {
                proof {
                    assert(cur.len() > 0 && cur.last() == '\r');
                    assert(cur.drop_last() =~= s@.subrange(st as int, i - 1));
                }
                String::from_str(s.substring_char(st, i - 1))
            } else {
                String::from_str(s.substring_char(st, i))
            };
            ls.push(line);
            proof {
                assert(ls@.map_values(|l: String| l@) =~= old_ls.push(strip_cr(cur)));
            }
            st = i + 1;
            proof {
                assert(s@.subrange(st as int, i + 1) =~= Seq::<char>::empty());
            }
        } else {
            proof {
                assert(s@.subrange(st as int, i + 1) =~= s@.subrange(st as int, i as int).push(
                    s@[i as int],
                ));
            }
        }
        i += 1;
    }
    if st < n {
        let ghost old_ls = ls@.map_values(|l: String| l@);
        let line = String::from_str(s.substring_char(st, n));
        ls.push(line);
        proof {
            assert(s@.subrange(st as int, n as int).len() > 0);
            assert(ls@.map_values(|l: String| l@) =~= old_ls.push(
                s@.subrange(st as int, n as int),
            ));
        }
    } else {
        proof {
            assert(s@.subrange(st as int, n as int) =~= Seq::<char>::empty());
        }
    }
    ls
}

} // verus!
