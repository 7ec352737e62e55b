use vstd::prelude::*;
use vstd::string::StrSliceExecFns;

verus! {

// ---------------------------------------------------------------------------
// Characters of a string
// ---------------------------------------------------------------------------

/// Collects the characters of a string slice into a vector.
pub fn chars_of(s: &str) -> (r: Vec<char>)
    ensures
        r@ == s@,
{
    let n = s.unicode_len();
    let mut r: Vec<char> = Vec::new();
    let mut i: usize = 0;
    while i < n
        invariant
            i <= n,
            n == s@.len(),
            r@ == s@.take(i as int),
        decreases n - i,
    {
        let c = s.get_char(i);
        r.push(c);
        proof {
            assert(s@.take(i as int).push(s@[i as int]) =~= s@.take(i as int + 1));
        }
        i = i + 1;
    }
    proof {
        assert(s@.take(n as int) =~= s@);
    }
    r
}

// ---------------------------------------------------------------------------
// Splitting on a separator character
// ---------------------------------------------------------------------------

/// The fields of `s` between occurrences of `sep`, in order. There is always
/// at least one field; empty fields between, before or after separators are
/// kept.
pub open spec fn spec_split(s: Seq<char>, sep: char) -> Seq<Seq<char>>
    decreases s.len(),
{
    if s.len() == 0 {
        seq![Seq::<char>::empty()]
    } else if s[0] == sep {
        seq![Seq::<char>::empty()] + spec_split(s.skip(1), sep)
    } else {
        let rest = spec_split(s.skip(1), sep);
        seq![seq![s[0]] + rest[0]] + rest.skip(1)
    }
}

pub proof fn lemma_spec_split_len(s: Seq<char>, sep: char)
    ensures
        spec_split(s, sep).len() >= 1,
    decreases s.len(),
{
    if s.len() != 0 {
        lemma_spec_split_len(s.skip(1), sep);
    }
}

/// Splits the characters of `s` from position `i` on at every occurrence of
/// `sep`.
fn split_from(s: &Vec<char>, i: usize, sep: char) -> (r: Vec<Vec<char>>)
    requires
        i <= s.len(),
    ensures
        r@.len() == spec_split(s@.skip(i as int), sep).len(),
        forall|j: int|
            0 <= j < r@.len() ==> #[trigger] r@[j]@ == spec_split(s@.skip(i as int), sep)[j],
    decreases s@.len() - i,
{
    let ghost tail = s@.skip(i as int);
    if i == s.len() {
        let mut r: Vec<Vec<char>> = Vec::new();
        r.push(Vec::new());
        proof {
            assert(tail =~= Seq::<char>::empty());
        }
        r
    } else if s[i] == sep {
        proof {
            assert(tail.skip(1) =~= s@.skip(i as int + 1));
            lemma_spec_split_len(s@.skip(i as int + 1), sep);
        }
        let mut r = split_from(s, i + 1, sep);
        r.insert(0, Vec::new());
        r
    } else {
        proof {
            assert(tail.skip(1) =~= s@.skip(i as int + 1));
            lemma_spec_split_len(s@.skip(i as int + 1), sep);
        }
        let mut r = split_from(s, i + 1, sep);
        let mut first = r.remove(0);
        first.insert(0, s[i]);
        r.insert(0, first);
        proof {
            let parts = spec_split(tail, sep);
            let rest = spec_split(tail.skip(1), sep);
            assert(first@ =~= seq![tail[0]] + rest[0]);
            assert forall|j: int| 0 <= j < r@.len() implies #[trigger] r@[j]@ == parts[j] by {
                if j > 0 {
                    assert(r@[j]@ == rest[j]);
                    assert(parts[j] == rest.skip(1)[j - 1]);
                }
            }
        }
        r
    }
}

/// Splits `s` at every occurrence of `sep`.
pub fn split_chars(s: &Vec<char>, sep: char) -> (r: Vec<Vec<char>>)
    ensures
        r@.len() == spec_split(s@, sep).len(),
        forall|j: int| 0 <= j < r@.len() ==> #[trigger] r@[j]@ == spec_split(s@, sep)[j],
{
    let r = split_from(s, 0, sep);
    proof {
        assert(s@.skip(0) =~= s@);
    }
    r
}

// ---------------------------------------------------------------------------
// Lines of a text
// ---------------------------------------------------------------------------

/// Copies a character vector.
pub fn copy_chars(v: &Vec<char>) -> (r: Vec<char>)
    ensures
        r@ == v@,
{
    let mut r: Vec<char> = Vec::new();
    let mut i: usize = 0;
    while i < v.len()
        invariant
            i <= v.len(),
            r@ == v@.take(i as int),
        decreases v.len() - i,
    {
        r.push(v[i]);
        proof {
            assert(v@.take(i as int).push(v@[i as int]) =~= v@.take(i as int + 1));
        }
        i = i + 1;
    }
    proof {
        assert(v@.take(v@.len() as int) =~= v@);
    }
    r
}

/// A line with a trailing carriage return removed.
pub open spec fn strip_cr(p: Seq<char>) -> Seq<char> {
    if p.len() > 0 && p.last() == '\r' {
        p.drop_last()
    } else {
        p
    }
}

/// The lines of `s`: the fields between newline characters, a final empty
/// field dropped (so a trailing newline ends the last line rather than
/// opening an empty one), each with a trailing carriage return removed.
pub open spec fn spec_lines(s: Seq<char>) -> Seq<Seq<char>> {
    let parts = spec_split(s, '\n');
    let kept = if parts.last().len() == 0 {
        parts.drop_last()
    } else {
        parts
    };
    kept.map_values(|p: Seq<char>| strip_cr(p))
}

/// Splits a text into its lines.
pub fn split_lines(s: &str) -> (r: Vec<Vec<char>>)
    ensures
        r@.len() == spec_lines(s@).len(),
        forall|j: int| 0 <= j < r@.len() ==> (#[trigger] r@[j])@ == spec_lines(s@)[j],
{
    let chars = chars_of(s);
    let mut parts = split_chars(&chars, '\n');
    proof {
        lemma_spec_split_len(s@, '\n');
    }
    let ghost all = spec_split(s@, '\n');
    let last_i = parts.len() - 1;
    if parts[last_i].len() == 0 {
        let _ = parts.pop();
    }
    let ghost kept = if all.last().len() == 0 {
        all.drop_last()
    } else {
        all
    };
    let mut r: Vec<Vec<char>> = Vec::new();
    let mut i: usize = 0;
    while i < parts.len()
        invariant
            i <= parts.len(),
            parts@.len() == kept.len(),
            forall|j: int| 0 <= j < kept.len() ==> (#[trigger] parts@[j])@ == kept[j],
            r@.len() == i,
            forall|j: int| 0 <= j < i ==> (#[trigger] r@[j])@ == strip_cr(kept[j]),
        decreases parts.len() - i,
    {
        let mut p = copy_chars(&parts[i]);
        if p.len() > 0 && p[p.len() - 1] == '\r' {
            let _ = p.pop();
        }
        r.push(p);
        i = i + 1;
    }
    r
}

// ---------------------------------------------------------------------------
// Trimming and lower-casing
// ---------------------------------------------------------------------------

/// The characters treated as trimmable whitespace.
pub open spec fn is_space_char(c: char) -> bool {
    c == ' ' || c == '\t' || c == '\n' || c == '\r'
}

/// `s` with leading and trailing whitespace removed.
pub open spec fn spec_trim(s: Seq<char>) -> Seq<char>
    decreases s.len(),
{
    if s.len() == 0 {
        s
    } else if is_space_char(s[0]) {
        spec_trim(s.skip(1))
    } else if is_space_char(s.last()) {
        spec_trim(s.drop_last())
    } else {
        s
    }
}

fn is_space(c: char) -> (r: bool)
    ensures
        r == is_space_char(c),
{
    c == ' ' || c == '\t' || c == '\n' || c == '\r'
}

/// Removes leading and trailing whitespace characters.
pub fn trim_chars(s: &Vec<char>) -> (r: Vec<char>)
    ensures
        r@ == spec_trim(s@),
{
    let mut i: usize = 0;
    let mut j: usize = s.len();
    proof {
        assert(s@.subrange(0, s@.len() as int) =~= s@);
    }
    while i < j && is_space(s[i])
        invariant
            i <= j <= s.len(),
            spec_trim(s@) == spec_trim(s@.subrange(i as int, j as int)),
        decreases j - i,
    {
        proof {
            assert(s@.subrange(i as int, j as int).skip(1) =~= s@.subrange(i as int + 1, j as int));
        }
        i = i + 1;
    }
    while i < j && is_space(s[j - 1])
        invariant
            i <= j <= s.len(),
            spec_trim(s@) == spec_trim(s@.subrange(i as int, j as int)),
            i < j ==> !is_space_char(s@[i as int]),
        decreases j - i,
    {
        proof {
            assert(s@.subrange(i as int, j as int).drop_last() =~= s@.subrange(
                i as int,
                j as int - 1,
            ));
        }
        j = j - 1;
    }
    let mut r: Vec<char> = Vec::new();
    let mut k: usize = i;
    while k < j
        invariant
            i <= k <= j <= s.len(),
            r@ == s@.subrange(i as int, k as int),
        decreases j - k,
    {
        r.push(s[k]);
        proof {
            assert(s@.subrange(i as int, k as int).push(s@[k as int]) =~= s@.subrange(
                i as int,
                k as int + 1,
            ));
        }
        k = k + 1;
    }
    r
}

/// An upper-case ASCII letter folded to lower case; any other character is
/// kept as it is.
pub open spec fn lower_char(c: char) -> char {
    if 'A' <= c && c <= 'Z' {
        ((c as u8) + 32) as char
    } else {
        c
    }
}

/// Every character of `s` folded with `lower_char`.
pub open spec fn spec_lower(s: Seq<char>) -> Seq<char> {
    s.map_values(|c: char| lower_char(c))
}

/// Folds upper-case ASCII letters to lower case.
pub fn lower_chars(s: &Vec<char>) -> (r: Vec<char>)
    ensures
        r@ == spec_lower(s@),
{
    let mut r: Vec<char> = Vec::new();
    let mut i: usize = 0;
    while i < s.len()
        invariant
            i <= s.len(),
            r@ == spec_lower(s@.take(i as int)),
        decreases s.len() - i,
    {
        let c = s[i];
        let lc = if c >= 'A' && c <= 'Z' {
            ((c as u8) + 32) as char
        } else {
            c
        };
        r.push(lc);
        proof {
            assert(spec_lower(s@.take(i as int + 1)) =~= spec_lower(s@.take(i as int)).push(
                lower_char(s@[i as int]),
            ));
        }
        i = i + 1;
    }
    proof {
        assert(s@.take(s@.len() as int) =~= s@);
    }
    r
}

/// The two sequences hold the same characters.
pub fn chars_eq(a: &Vec<char>, b: &Vec<char>) -> (r: bool)
    ensures
        r == (a@ == b@),
{
    if a.len() != b.len() {
        proof {
            assert(a@ != b@);
        }
        return false;
    }
    let mut i: usize = 0;
    while i < a.len()
        invariant
            i <= a.len(),
            a@.len() == b@.len(),
            forall|k: int| 0 <= k < i ==> a@[k] == b@[k],
        decreases a.len() - i,
    {
        if a[i] != b[i] {
            return false;
        }
        i = i + 1;
    }
    proof {
        assert(a@ =~= b@);
    }
    true
}

// ---------------------------------------------------------------------------
// Decimal numerals
// ---------------------------------------------------------------------------

pub open spec fn is_digit_char(c: char) -> bool {
    '0' <= c && c <= '9'
}

pub open spec fn digit_value(c: char) -> int {
    (c as u32) as int - 48
}

pub open spec fn all_digits(s: Seq<char>) -> bool {
    forall|k: int| 0 <= k < s.len() ==> is_digit_char(#[trigger] s[k])
}

/// The value of a sequence of decimal digits, most significant first.
pub open spec fn dec_value(s: Seq<char>) -> int
    decreases s.len(),
{
    if s.len() == 0 {
        0
    } else {
        dec_value(s.drop_last()) * 10 + digit_value(s.last())
    }
}

/// The digits of a numeral after an optional leading plus sign.
pub open spec fn numeral_body(s: Seq<char>) -> Seq<char> {
    if s.len() > 0 && s[0] == '+' {
        s.skip(1)
    } else {
        s
    }
}

/// What `str::parse::<u32>` accepts: an optional plus sign, then one or more
/// decimal digits whose value fits in a `u32`.
pub open spec fn spec_parse_u32(s: Seq<char>) -> Option<u32> {
    let b = numeral_body(s);
    if b.len() > 0 && all_digits(b) && dec_value(b) <= u32::MAX {
        Some(dec_value(b) as u32)
    } else {
        None
    }
}

/// Once a numeral's leading digits pass the `u32` range, appending further
/// characters cannot bring its value back into range.
pub proof fn lemma_dec_value_take(s: Seq<char>, k: int)
    requires
        0 <= k <= s.len(),
        dec_value(s.take(k)) > u32::MAX,
    ensures
        dec_value(s) > u32::MAX,
    decreases s.len() - k,
{
    if k < s.len() {
        assert(s.take(k + 1).drop_last() =~= s.take(k));
        assert(s.take(k + 1).last() == s[k]);
        assert(digit_value(s[k]) >= -48);
        assert(dec_value(s.take(k + 1)) == dec_value(s.take(k)) * 10 + digit_value(s[k]));
        lemma_dec_value_take(s, k + 1);
    } else {
        assert(s.take(k) =~= s);
    }
}

/// Parses a decimal numeral, exactly as `spec_parse_u32` describes.
pub fn parse_u32_chars(s: &Vec<char>) -> (r: Option<u32>)
    ensures
        r == spec_parse_u32(s@),
{
    let ghost b = numeral_body(s@);
    let start: usize = if s.len() > 0 && s[0] == '+' {
        1
    } else {
        0
    };
    proof {
        assert(b =~= s@.skip(start as int));
    }
    if start == s.len() {
        return None;
    }
    let mut acc: u64 = 0;
    let mut i: usize = start;
    while i < s.len()
        invariant
            start < s@.len(),
            start <= i <= s.len(),
            b == numeral_body(s@),
            b == s@.skip(start as int),
            b.len() == s@.len() - start,
            forall|k: int| 0 <= k < b.len() ==> b[k] == s@[k + start],
            all_digits(b.take(i - start)),
            acc == dec_value(b.take(i - start)),
            acc <= u32::MAX,
        decreases s.len() - i,
    {
        let c = s[i];
        if !(c >= '0' && c <= '9') {
            proof {
                assert(b[i - start] == s@[i as int]);
                assert(!is_digit_char(b[i - start]));
                assert(!all_digits(b));
            }
            return None;
        }
        let d: u64 = (c as u64) - 48;
        acc = acc * 10 + d;
        proof {
            let ghost k = i - start;
            assert(b.take(k + 1).drop_last() =~= b.take(k as int));
            assert(b.take(k + 1).last() == b[k as int]);
            assert(all_digits(b.take(k + 1))) by {
                assert(forall|m: int|
                    0 <= m < k + 1 ==> #[trigger] b.take(k + 1)[m] == b.take(k + 1)[m]);
                assert(forall|m: int| 0 <= m < k ==> b.take(k + 1)[m] == b.take(k as int)[m]);
            }
            assert(acc == dec_value(b.take(k + 1)));
        }
        i = i + 1;
        if acc > 0xffff_ffff {
            proof {
                lemma_dec_value_take(b, i - start);
                assert(b.take(b.len() as int) =~= b);
                assert(dec_value(b) > u32::MAX);
            }
            return None;
        }
    }
    proof {
        assert(b.take(b.len() as int) =~= b);
    }
    Some(acc as u32)
}

/// The decimal digits of `n`, most significant first; zero has no digits.
pub open spec fn spec_digits(n: int) -> Seq<char>
    decreases n,
{
    if n <= 0 {
        Seq::empty()
    } else {
        spec_digits(n / 10).push((((n % 10) + 48) as u8) as char)
    }
}

/// The decimal numeral of `n`.
pub open spec fn spec_numeral(n: int) -> Seq<char> {
    if n == 0 {
        seq!['0']
    } else {
        spec_digits(n)
    }
}

fn push_digits(n: u32, out: &mut Vec<char>)
    ensures
        final(out)@ == old(out)@ + spec_digits(n as int),
    decreases n,
{
    if n == 0 {
        proof {
            assert(out@ =~= out@ + spec_digits(0));
        }
        return ;
    }
    push_digits(n / 10, out);
    let d = n % 10;
    let c = ((d as u8) + 48) as char;
    out.push(c);
    proof {
        assert(old(out)@ + spec_digits(n as int) =~= (old(out)@ + spec_digits(n as int / 10)).push(
            (((n as int % 10) + 48) as u8) as char,
        ));
    }
}

/// Renders `n` as a decimal numeral.
pub fn numeral_chars(n: u32) -> (r: Vec<char>)
    ensures
        r@ == spec_numeral(n as int),
{
    if n == 0 {
        let mut r: Vec<char> = Vec::new();
        r.push('0');
        proof {
            assert(r@ =~= seq!['0']);
        }
        return r;
    }
    let mut r: Vec<char> = Vec::new();
    push_digits(n, &mut r);
    proof {
        assert(Seq::<char>::empty() + spec_digits(n as int) =~= spec_digits(n as int));
    }
    r
}

/// The decimal numeral of `n`, zero-padded on the left to two characters.
pub open spec fn spec_numeral2(n: int) -> Seq<char> {
    if n < 10 {
        seq!['0'] + spec_numeral(n)
    } else {
        spec_numeral(n)
    }
}

/// Renders `n` as a decimal numeral of at least two characters.
pub fn numeral2_chars(n: u32) -> (r: Vec<char>)
    ensures
        r@ == spec_numeral2(n as int),
{
    if n < 10 {
        let mut r: Vec<char> = Vec::new();
        r.push('0');
        push_digits(n, &mut r);
        if n == 0 {
            r.push('0');
            proof {
                assert(r@ =~= spec_numeral2(0));
            }
        } else {
            proof {
                assert(r@ =~= seq!['0'] + spec_numeral(n as int));
            }
        }
        r
    } else {
        numeral_chars(n)
    }
}

/// Appends the characters of a string slice.
pub fn push_str_chars(out: &mut Vec<char>, s: &str)
    ensures
        final(out)@ == old(out)@ + s@,
{
    let mut c = chars_of(s);
    out.append(&mut c);
}

// ---------------------------------------------------------------------------
// Back to `String`
// ---------------------------------------------------------------------------

/// Relies on `String: FromIterator<char>`: collecting yields the characters
/// in order.
#[verifier::external_body]
pub fn string_from_chars(v: &Vec<char>) -> (s: String)
    ensures
        s@ == v@,
{
    v.iter().collect()
}

} // verus!
