//! Text as sequences of characters: the string operations that the rest of
//! the crate is built from, each with an exact meaning over `Seq<char>`.
use vstd::prelude::*;
use vstd::string::*;
use vstd::utf8::*;

verus! {

/// `String::push` appends one character.
pub assume_specification[ String::push ](s: &mut String, c: char)
    ensures
        final(s)@ == old(s)@.push(c),
;

/// `String::push_str` appends a string slice.
pub assume_specification[ String::push_str ](s: &mut String, t: &str)
    ensures
        final(s)@ == old(s)@ + t@,
;

/// Whether two strings hold the same characters.
pub fn same(a: &str, b: &str) -> (r: bool)
    ensures
        r == (a@ == b@),
{
    let x = a.as_bytes();
    let y = b.as_bytes();
    proof {
        encode_utf8_decode_utf8(a@);
        encode_utf8_decode_utf8(b@);
    }
    if x.len() != y.len() {
        return false;
    }
    let mut i: usize = 0;
    while i < x.len()
        invariant
            i <= x.len(),
            x@.len() == y@.len(),
            x@ == a.spec_bytes(),
            y@ == b.spec_bytes(),
            forall|j: int| 0 <= j < i ==> x@[j] == y@[j],
        decreases x.len() - i,
    {
        if x[i] != y[i] {
            return false;
        }
        i = i + 1;
    }
    assert(x@ =~= y@);
    true
}

/// The characters of a string.
pub fn chars(s: &str) -> (r: Vec<char>)
    ensures
        r@ == s@,
{
    let mut out: Vec<char> = Vec::new();
    for c in it: s.chars()
        invariant
            out@ == it.seq().take(it.index()),
            it.seq() == s@,
    {
        out.push(c);
    }
    out
}

/// The string of the characters `from..to`.
pub fn slice(v: &[char], from: usize, to: usize) -> (r: String)
    requires
        from <= to <= v@.len(),
    ensures
        r@ == v@.subrange(from as int, to as int),
{
    let mut out = String::new();
    let mut i = from;
    while i < to
        invariant
            from <= i <= to <= v@.len(),
            out@ == v@.subrange(from as int, i as int),
        decreases to - i,
    {
        out.push(v[i]);
        i = i + 1;
    }
    out
}

/// The string of all characters.
pub fn string_of(v: &[char]) -> (r: String)
    ensures
        r@ == v@,
{
    slice(v, 0, v.len())
}

/// Concatenation of two strings.
pub fn cat2(a: &str, b: &str) -> (r: String)
    ensures
        r@ == a@ + b@,
{
    let mut out = a.to_owned();
    out.push_str(b);
    out
}

/// Concatenation of three strings.
pub fn cat3(a: &str, b: &str, c: &str) -> (r: String)
    ensures
        r@ == a@ + b@ + c@,
{
    let mut out = cat2(a, b);
    out.push_str(c);
    out
}

/// Concatenation of four strings.
pub fn cat4(a: &str, b: &str, c: &str, d: &str) -> (r: String)
    ensures
        r@ == a@ + b@ + c@ + d@,
{
    let mut out = cat3(a, b, c);
    out.push_str(d);
    out
}

/// Concatenation of five strings.
pub fn cat5(a: &str, b: &str, c: &str, d: &str, e: &str) -> (r: String)
    ensures
        r@ == a@ + b@ + c@ + d@ + e@,
{
    let mut out = cat4(a, b, c, d);
    out.push_str(e);
    out
}

/// The decimal digit for a value below ten.
pub open spec fn digit(d: nat) -> char {
    (48 + d) as char
}

/// The decimal numeral of `n`.
pub open spec fn dec(n: nat) -> Seq<char>
    decreases n,
{
    if n < 10 {
        seq![digit(n)]
    } else {
        dec(n / 10).push(digit(n % 10))
    }
}

/// A decimal digit as a character.
fn digit_char(d: u64) -> (c: char)
    requires
        d < 10,
    ensures
        c == digit(d as nat),
{
    (48 + d as u8) as char
}

/// The decimal numeral of an unsigned integer.
pub fn dec_u64(n: u64) -> (r: String)
    ensures
        r@ == dec(n as nat),
    decreases n,
{
    if n < 10 {
        let mut out = String::new();
        out.push(digit_char(n));
        assert(out@ =~= dec(n as nat));
        out
    } else {
        let mut out = dec_u64(n / 10);
        out.push(digit_char(n % 10));
        out
    }
}

/// The decimal numeral of an unsigned integer of 128 bits.
pub fn dec_u128(n: u128) -> (r: String)
    ensures
        r@ == dec(n as nat),
    decreases n,
{
    if n <= u64::MAX as u128 {
        dec_u64(n as u64)
    } else {
        let mut out = dec_u128(n / 10);
        out.push(digit_char((n % 10) as u64));
        out
    }
}

/// The decimal numeral of a signed integer.
pub open spec fn dec_signed(n: int) -> Seq<char> {
    if n < 0 {
        "-"@ + dec((-n) as nat)
    } else {
        dec(n as nat)
    }
}

/// The decimal numeral of a signed integer of 64 bits.
pub fn dec_i64(n: i64) -> (r: String)
    ensures
        r@ == dec_signed(n as int),
{
    if n < 0 {
        let magnitude: u128 = (-(n as i128)) as u128;
        cat2("-", dec_u128(magnitude).as_str())
    } else {
        dec_u64(n as u64)
    }
}

/// The value of a sequence of decimal digits.
pub open spec fn value(s: Seq<char>) -> nat
    decreases s.len(),
{
    if s.len() == 0 {
        0
    } else {
        value(s.drop_last()) * 10 + (s.last() as nat - 48) as nat
    }
}

/// Whether every character is a decimal digit.
pub open spec fn all_digits(s: Seq<char>) -> bool {
    forall|i: int| 0 <= i < s.len() ==> '0' <= #[trigger] s[i] <= '9'
}

/// The unsigned number that a numeral spells: digits, with an optional plus
/// sign in front, within 64 bits.
pub open spec fn number(s: Seq<char>) -> Option<u64> {
    let t = if s.len() > 0 && s[0] == '+' {
        s.skip(1)
    } else {
        s
    };
    if t.len() > 0 && all_digits(t) && value(t) <= u64::MAX {
        Some(value(t) as u64)
    } else {
        None
    }
}

/// A longer numeral is worth at least as much as its front part.
proof fn value_of_front(s: Seq<char>, n: int)
    requires
        0 <= n <= s.len(),
    ensures
        value(s.take(n)) <= value(s),
    decreases s.len() - n,
{
    if n < s.len() {
        value_of_front(s, n + 1);
        assert(s.take(n + 1).drop_last() =~= s.take(n));
    } else {
        assert(s.take(n) =~= s);
    }
}

/// Reads an unsigned number.
pub fn parse_u64(s: &str) -> (r: Option<u64>)
    ensures
        r == number(s@),
{
    let v = chars(s);
    let start: usize = if v.len() > 0 && v[0] == '+' {
        1
    } else {
        0
    };
    let ghost t = if s@.len() > 0 && s@[0] == '+' {
        s@.skip(1)
    } else {
        s@
    };
    assert(t =~= v@.skip(start as int));
    if start == v.len() {
        return None;
    }
    let mut n: u64 = 0;
    let mut i = start;
    while i < v.len()
        invariant
            start <= i <= v.len(),
            t == v@.skip(start as int),
            t.len() == v.len() - start,
            t.len() > 0,
            number(s@) == (if all_digits(t) && value(t) <= u64::MAX {
                Some(value(t) as u64)
            } else {
                None
            }),
            forall|j: int| 0 <= j < i - start ==> '0' <= #[trigger] t[j] <= '9',
            n == value(t.take(i - start)),
        decreases v.len() - i,
    {
        let c = v[i];
        let ghost k = i - start;
        assert(t[k] == c);
        if c < '0' || c > '9' {
            return None;
        }
        assert(t.take(k + 1).drop_last() =~= t.take(k));
        assert(t.take(k + 1).last() == c);
        proof {
            value_of_front(t, k + 1);
        }
        let d: u64 = (c as u32 - 48) as u64;
        assert(value(t.take(k + 1)) == n * 10 + d);
        if n > (u64::MAX - d) / 10 {
            assert(value(t) > u64::MAX) by (nonlinear_arith)
                requires
                    value(t) >= n * 10 + d,
                    n > (u64::MAX - d) / 10,
                    d < 10,
            ;
            return None;
        }
        n = n * 10 + d;
        i = i + 1;
    }
    assert(t.take(t.len() as int) =~= t);
    Some(n)
}

/// White space: the characters with the Unicode property `White_Space`.
pub open spec fn white(c: char) -> bool {
    ||| '\u{9}' <= c <= '\u{d}'
    ||| c == ' '
    ||| c == '\u{85}'
    ||| c == '\u{a0}'
    ||| c == '\u{1680}'
    ||| '\u{2000}' <= c <= '\u{200a}'
    ||| c == '\u{2028}'
    ||| c == '\u{2029}'
    ||| c == '\u{202f}'
    ||| c == '\u{205f}'
    ||| c == '\u{3000}'
}

/// Whether a character is white space.
pub fn is_white(c: char) -> (r: bool)
    ensures
        r == white(c),
{
    ('\u{9}' <= c && c <= '\u{d}') || c == ' ' || c == '\u{85}' || c == '\u{a0}' || c == '\u{1680}'
        || ('\u{2000}' <= c && c <= '\u{200a}') || c == '\u{2028}' || c == '\u{2029}' || c
        == '\u{202f}' || c == '\u{205f}' || c == '\u{3000}'
}

/// The text without leading white space.
pub open spec fn trim_start(s: Seq<char>) -> Seq<char>
    decreases s.len(),
{
    if s.len() > 0 && white(s[0]) {
        trim_start(s.skip(1))
    } else {
        s
    }
}

/// The text without trailing white space.
pub open spec fn trim_end(s: Seq<char>) -> Seq<char>
    decreases s.len(),
{
    if s.len() > 0 && white(s.last()) {
        trim_end(s.drop_last())
    } else {
        s
    }
}

/// The text without white space at either end.
pub open spec fn trim(s: Seq<char>) -> Seq<char> {
    trim_end(trim_start(s))
}

/// A text without leading white space is its end.
pub proof fn trim_start_is_suffix(s: Seq<char>)
    ensures
        trim_start(s).len() <= s.len(),
        trim_start(s) == s.skip(s.len() - trim_start(s).len()),
    decreases s.len(),
{
    if s.len() > 0 && white(s[0]) {
        trim_start_is_suffix(s.skip(1));
        let n = trim_start(s).len();
        assert(s.skip(1).skip(s.len() - 1 - n) =~= s.skip(s.len() - n));
    } else {
        assert(s.skip(0) =~= s);
    }
}

/// White space in front of a text does not count.
pub proof fn trim_drops_front(c: char, s: Seq<char>)
    requires
        white(c),
    ensures
        trim(seq![c] + s) == trim(s),
{
    assert((seq![c] + s).skip(1) =~= s);
}

/// What is left of a text with white space behind it.
proof fn trim_start_of_push(s: Seq<char>, c: char)
    requires
        white(c),
    ensures
        trim_start(s.push(c)) == if trim_start(s).len() == 0 {
            Seq::empty()
        } else {
            trim_start(s).push(c)
        },
    decreases s.len(),
{
    if s.len() == 0 {
        assert(s.push(c).skip(1) =~= s);
        assert(s =~= Seq::empty());
    } else {
        assert(s.push(c)[0] == s[0]);
        if white(s[0]) {
            assert(s.push(c).skip(1) =~= s.skip(1).push(c));
            trim_start_of_push(s.skip(1), c);
        }
    }
}

/// White space behind a text does not count.
pub proof fn trim_drops_behind(s: Seq<char>, c: char)
    requires
        white(c),
    ensures
        trim(s.push(c)) == trim(s),
{
    trim_start_of_push(s, c);
    let t = trim_start(s);
    if t.len() > 0 {
        assert(t.push(c).drop_last() =~= t);
    }
}

/// Whether a text is not empty and has no white space around it.
pub open spec fn tight(s: Seq<char>) -> bool {
    s.len() > 0 && !white(s[0]) && !white(s.last())
}

/// What is left of a text at its end.
proof fn trim_end_is_prefix(s: Seq<char>)
    ensures
        trim_end(s).len() <= s.len(),
        trim_end(s) == s.take(trim_end(s).len() as int),
        trim_end(s).len() > 0 ==> !white(trim_end(s).last()),
    decreases s.len(),
{
    if s.len() > 0 && white(s.last()) {
        trim_end_is_prefix(s.drop_last());
        let n = trim_end(s).len() as int;
        assert(s.drop_last().take(n) =~= s.take(n));
    } else {
        assert(s.take(s.len() as int) =~= s);
    }
}

/// A text without leading white space does not begin with any.
proof fn trim_start_is_bare(s: Seq<char>)
    ensures
        trim_start(s).len() > 0 ==> !white(trim_start(s)[0]),
    decreases s.len(),
{
    if s.len() > 0 && white(s[0]) {
        trim_start_is_bare(s.skip(1));
    }
}

/// A trimmed text is empty or has no white space around it, and trimming such a text
/// changes nothing.
pub proof fn trimmed_is_tight(s: Seq<char>)
    ensures
        trim(s).len() > 0 ==> tight(trim(s)),
        tight(s) ==> trim(s) == s,
        trim(trim(s)) == trim(s),
{
    trim_start_is_bare(s);
    trim_end_is_prefix(trim_start(s));
}

/// A text without a separator is one piece.
proof fn split_of_one(s: Seq<char>, c: char)
    requires
        forall|i: int| 0 <= i < s.len() ==> s[i] != c,
    ensures
        split(s, c) == seq![s],
    decreases s.len(),
{
    if s.len() > 0 {
        split_of_one(s.drop_last(), c);
        assert(s.drop_last().push(s.last()) =~= s);
        assert(split(s, c) =~= seq![s]);
    } else {
        assert(s =~= Seq::empty());
    }
}

/// A text with one separator is two pieces.
pub proof fn split_in_two(a: Seq<char>, c: char, b: Seq<char>)
    requires
        forall|i: int| 0 <= i < a.len() ==> a[i] != c,
        forall|i: int| 0 <= i < b.len() ==> b[i] != c,
    ensures
        split(a.push(c) + b, c) == seq![a, b],
    decreases b.len(),
{
    let s = a.push(c) + b;
    if b.len() == 0 {
        assert(s.drop_last() =~= a);
        split_of_one(a, c);
        assert(b =~= Seq::empty());
        assert(split(s, c) =~= seq![a, b]);
    } else {
        assert(s.drop_last() =~= a.push(c) + b.drop_last());
        split_in_two(a, c, b.drop_last());
        assert(s.last() == b[b.len() - 1]);
        assert(b.drop_last().push(b.last()) =~= b);
        assert(split(s, c) =~= seq![a, b]);
    }
}

/// Joined texts begin with the first.
pub proof fn join_from_front(parts: Seq<Seq<char>>, sep: Seq<char>)
    requires
        parts.len() > 1,
    ensures
        join(parts, sep) == parts[0] + sep + join(parts.skip(1), sep),
    decreases parts.len(),
{
    let front = parts.drop_last();
    let rest = parts.skip(1);
    assert(rest.last() == parts.last());
    if parts.len() == 2 {
        assert(join(front, sep) == parts[0]);
        assert(join(rest, sep) == parts[1]);
    } else {
        join_from_front(front, sep);
        assert(front.skip(1) =~= rest.drop_last());
        assert(join(parts, sep) =~= parts[0] + sep + join(rest, sep));
    }
}

/// Where the leading white space ends.
fn skip_white(v: &[char]) -> (n: usize)
    ensures
        n <= v@.len(),
        trim_start(v@) == v@.skip(n as int),
{
    let mut i: usize = 0;
    assert(v@.skip(0) =~= v@);
    while i < v.len() && is_white(v[i])
        invariant
            i <= v@.len(),
            trim_start(v@) == trim_start(v@.skip(i as int)),
        decreases v.len() - i,
    {
        assert(v@.skip(i as int).skip(1) =~= v@.skip(i + 1));
        i = i + 1;
    }
    i
}

/// Where the trailing white space after position `from` begins.
fn skip_white_back(v: &[char], from: usize) -> (n: usize)
    requires
        from <= v@.len(),
    ensures
        from <= n <= v@.len(),
        trim_end(v@.skip(from as int)) == v@.subrange(from as int, n as int),
{
    let mut i: usize = v.len();
    assert(v@.skip(from as int) =~= v@.subrange(from as int, i as int));
    while i > from && is_white(v[i - 1])
        invariant
            from <= i <= v@.len(),
            trim_end(v@.skip(from as int)) == trim_end(v@.subrange(from as int, i as int)),
        decreases i,
    {
        assert(v@.subrange(from as int, i as int).drop_last() =~= v@.subrange(
            from as int,
            i - 1,
        ));
        i = i - 1;
    }
    i
}

/// Removes leading white space.
pub fn trimmed_start(s: &str) -> (r: String)
    ensures
        r@ == trim_start(s@),
{
    let v = chars(s);
    let n = skip_white(&v);
    slice(&v, n, v.len())
}

/// Removes trailing white space.
pub fn trimmed_end(s: &str) -> (r: String)
    ensures
        r@ == trim_end(s@),
{
    let v = chars(s);
    assert(v@.skip(0) =~= v@);
    let n = skip_white_back(&v, 0);
    slice(&v, 0, n)
}

/// Removes white space at both ends.
pub fn trimmed(s: &str) -> (r: String)
    ensures
        r@ == trim(s@),
{
    let v = chars(s);
    let a = skip_white(&v);
    let b = skip_white_back(&v, a);
    slice(&v, a, b)
}

/// Whether `p` stands in `s` at position `i`.
pub open spec fn stands_at(s: Seq<char>, p: Seq<char>, i: int) -> bool {
    0 <= i && i + p.len() <= s.len() && s.subrange(i, i + p.len()) == p
}

/// Whether `p` stands somewhere in `s`.
pub open spec fn contains(s: Seq<char>, p: Seq<char>) -> bool {
    exists|i: int| stands_at(s, p, i)
}

/// Whether `p` stands in `v` at position `i`.
pub fn is_at(v: &[char], p: &[char], i: usize) -> (r: bool)
    ensures
        r == stands_at(v@, p@, i as int),
{
    if i > v.len() || p.len() > v.len() - i {
        return false;
    }
    let mut k: usize = 0;
    while k < p.len()
        invariant
            i + p@.len() <= v.len(),
            v.len() == v@.len(),
            k <= p@.len(),
            forall|j: int| 0 <= j < k ==> v@[i + j] == p@[j],
        decreases p.len() - k,
    {
        if v[i + k] != p[k] {
            assert(v@.subrange(i as int, i + p@.len())[k as int] != p@[k as int]);
            return false;
        }
        k = k + 1;
    }
    assert(v@.subrange(i as int, i + p@.len()) =~= p@);
    true
}

/// The first position from `from` on at which `p` stands in `s`.
pub open spec fn find(s: Seq<char>, p: Seq<char>, from: int) -> Option<int>
    decreases s.len() - from + 1,
{
    if from + p.len() > s.len() {
        None
    } else if stands_at(s, p, from) {
        Some(from)
    } else {
        find(s, p, from + 1)
    }
}

/// `find` gives the first occurrence, and none only where there is none.
pub proof fn find_is_first(s: Seq<char>, p: Seq<char>, from: int)
    requires
        0 <= from,
    ensures
        match find(s, p, from) {
            Some(i) => from <= i && stands_at(s, p, i) && forall|j: int|
                from <= j < i ==> !stands_at(s, p, j),
            None => forall|j: int| from <= j ==> !stands_at(s, p, j),
        },
    decreases s.len() - from + 1,
{
    if from + p.len() <= s.len() && !stands_at(s, p, from) {
        find_is_first(s, p, from + 1);
    }
}

/// The first position at which `p` stands in `v`, from `from` on.
pub fn find_from(v: &[char], p: &[char], from: usize) -> (r: Option<usize>)
    ensures
        match r {
            Some(i) => find(v@, p@, from as int) == Some(i as int) && i + p@.len() <= v@.len(),
            None => find(v@, p@, from as int) is None,
        },
{
    if from > v.len() || p.len() > v.len() - from {
        return None;
    }
    let last = v.len() - p.len();
    let mut i = from;
    while i <= last
        invariant
            from <= i <= last + 1,
            last == v@.len() - p@.len(),
            find(v@, p@, from as int) == find(v@, p@, i as int),
        decreases last + 1 - i,
    {
        if is_at(v, p, i) {
            return Some(i);
        }
        if i == last {
            assert(find(v@, p@, i + 1) is None);
            return None;
        }
        i = i + 1;
    }
    None
}

/// Whether `p` stands somewhere in `s`.
pub fn has(s: &str, p: &str) -> (r: bool)
    ensures
        r == contains(s@, p@),
{
    let v = chars(s);
    let q = chars(p);
    proof {
        find_is_first(s@, p@, 0);
    }
    match find_from(&v, &q, 0) {
        Some(i) => {
            assert(stands_at(s@, p@, i as int));
            true
        },
        None => {
            assert forall|i: int| !stands_at(s@, p@, i) by {
                assert(i < 0 || !stands_at(v@, q@, i));
            }
            false
        },
    }
}

/// Whether `s` begins with `p`.
pub open spec fn begins(s: Seq<char>, p: Seq<char>) -> bool {
    p.len() <= s.len() && s.take(p.len() as int) == p
}

/// Whether `s` ends with `p`.
pub open spec fn ends(s: Seq<char>, p: Seq<char>) -> bool {
    p.len() <= s.len() && s.skip(s.len() - p.len()) == p
}

/// Whether `s` begins with `p`.
pub fn starts_with(s: &str, p: &str) -> (r: bool)
    ensures
        r == begins(s@, p@),
{
    let v = chars(s);
    let q = chars(p);
    is_at(&v, &q, 0)
}

/// Whether `s` ends with `p`.
pub fn ends_with(s: &str, p: &str) -> (r: bool)
    ensures
        r == ends(s@, p@),
{
    let v = chars(s);
    let q = chars(p);
    if q.len() > v.len() {
        return false;
    }
    is_at(&v, &q, v.len() - q.len())
}

/// The rest of `s` behind the prefix `p`.
pub open spec fn without_prefix(s: Seq<char>, p: Seq<char>) -> Option<Seq<char>> {
    if begins(s, p) {
        Some(s.skip(p.len() as int))
    } else {
        None
    }
}

/// The front of `s` before the suffix `p`.
pub open spec fn without_suffix(s: Seq<char>, p: Seq<char>) -> Option<Seq<char>> {
    if ends(s, p) {
        Some(s.take(s.len() - p.len()))
    } else {
        None
    }
}

/// Removes a prefix, if it is there.
pub fn strip_prefix(s: &str, p: &str) -> (r: Option<String>)
    ensures
        r.deep_view() == without_prefix(s@, p@),
{
    let v = chars(s);
    let q = chars(p);
    if is_at(&v, &q, 0) {
        Some(slice(&v, q.len(), v.len()))
    } else {
        None
    }
}

/// Removes a suffix, if it is there.
pub fn strip_suffix(s: &str, p: &str) -> (r: Option<String>)
    ensures
        r.deep_view() == without_suffix(s@, p@),
{
    let v = chars(s);
    let q = chars(p);
    if q.len() <= v.len() && is_at(&v, &q, v.len() - q.len()) {
        Some(slice(&v, 0, v.len() - q.len()))
    } else {
        None
    }
}

/// The pieces of `s` between the separators `c`.
pub open spec fn split(s: Seq<char>, c: char) -> Seq<Seq<char>>
    decreases s.len(),
{
    if s.len() == 0 {
        seq![Seq::empty()]
    } else {
        let front = split(s.drop_last(), c);
        if s.last() == c {
            front.push(Seq::empty())
        } else {
            front.update(front.len() - 1, front.last().push(s.last()))
        }
    }
}

/// A split has at least one piece.
pub proof fn split_is_nonempty(s: Seq<char>, c: char)
    ensures
        split(s, c).len() >= 1,
    decreases s.len(),
{
    if s.len() > 0 {
        split_is_nonempty(s.drop_last(), c);
    }
}

/// Splits at every separator.
pub fn split_on(s: &str, c: char) -> (r: Vec<String>)
    ensures
        r.deep_view() == split(s@, c),
        r@.len() >= 1,
{
    let v = chars(s);
    let mut out: Vec<String> = Vec::new();
    let mut cur = String::new();
    let mut i: usize = 0;
    assert(out.deep_view().push(cur@) =~= split(v@.take(0), c));
    while i < v.len()
        invariant
            i <= v@.len(),
            v@ == s@,
            out.deep_view().push(cur@) == split(v@.take(i as int), c),
        decreases v.len() - i,
    {
        let ghost now = v@.take(i + 1);
        let ghost before = out.deep_view().push(cur@);
        assert(now.drop_last() =~= v@.take(i as int));
        assert(before.last() == cur@);
        if v[i] == c {
            out.push(cur);
            assert(out.deep_view() =~= before);
            cur = String::new();
        } else {
            cur.push(v[i]);
            assert(out.deep_view().push(cur@) =~= before.update(
                before.len() - 1,
                before.last().push(v@[i as int]),
            ));
        }
        i = i + 1;
    }
    assert(v@.take(v@.len() as int) =~= s@);
    let ghost all = out.deep_view().push(cur@);
    out.push(cur);
    assert(out.deep_view() =~= all);
    out
}

/// A line without the carriage return that its line feed had before it.
pub open spec fn without_cr(s: Seq<char>) -> Seq<char> {
    if s.len() > 0 && s.last() == '\r' {
        s.drop_last()
    } else {
        s
    }
}

/// The lines of a text: every line feed ends one, with a carriage return before
/// it left out; an empty end is no line.
pub open spec fn lines(s: Seq<char>) -> Seq<Seq<char>> {
    let pieces = split(s, '\n');
    let ended = pieces.drop_last().map_values(|p: Seq<char>| without_cr(p));
    if pieces.last().len() == 0 {
        ended
    } else {
        ended.push(pieces.last())
    }
}

/// Removes a carriage return from the end.
fn strip_cr(s: &str) -> (r: String)
    ensures
        r@ == without_cr(s@),
{
    let v = chars(s);
    if v.len() > 0 && v[v.len() - 1] == '\r' {
        slice(&v, 0, v.len() - 1)
    } else {
        string_of(&v)
    }
}

/// Splits a text into its lines.
pub fn split_lines(s: &str) -> (r: Vec<String>)
    ensures
        r.deep_view() == lines(s@),
{
    let pieces = split_on(s, '\n');
    let ghost p = pieces.deep_view();
    let mut out: Vec<String> = Vec::new();
    let last: usize = pieces.len() - 1;
    let mut i: usize = 0;
    let ghost ended = p.drop_last().map_values(|p: Seq<char>| without_cr(p));
    assert(ended.len() == last);
    while i < last
        invariant
            i <= last < pieces@.len(),
            p == pieces.deep_view(),
            last == p.len() - 1,
            ended == p.drop_last().map_values(|p: Seq<char>| without_cr(p)),
            out.deep_view() == ended.take(i as int),
        decreases last - i,
    {
        let line = strip_cr(&pieces[i]);
        assert(ended[i as int] == line@);
        let ghost before = out.deep_view();
        out.push(line);
        assert(out.deep_view() =~= before.push(ended[i as int]));
        assert(out.deep_view() =~= ended.take(i + 1));
        i = i + 1;
    }
    assert(ended.take(last as int) =~= ended);
    if !pieces[last].as_str().is_empty() {
        let ghost before = out.deep_view();
        out.push(pieces[last].clone());
        assert(out.deep_view() =~= before.push(p.last()));
    }
    out
}

/// The words of a text: the runs between white space.
pub open spec fn words(s: Seq<char>) -> Seq<Seq<char>>
    decreases s.len(),
{
    if s.len() == 0 {
        Seq::empty()
    } else {
        let front = words(s.drop_last());
        if white(s.last()) {
            front
        } else if s.len() == 1 || white(s[s.len() - 2]) {
            front.push(seq![s.last()])
        } else {
            front.update(front.len() - 1, front.last().push(s.last()))
        }
    }
}

/// Splits a text into its words.
pub fn split_words(s: &str) -> (r: Vec<String>)
    ensures
        r.deep_view() == words(s@),
{
    let v = chars(s);
    let mut out: Vec<String> = Vec::new();
    let mut cur = String::new();
    let mut open = false;
    let mut i: usize = 0;
    assert(out.deep_view() =~= words(v@.take(0)));
    while i < v.len()
        invariant
            i <= v@.len(),
            v@ == s@,
            open == (i > 0 && !white(v@[i - 1])),
            words(v@.take(i as int)) == (if open {
                out.deep_view().push(cur@)
            } else {
                out.deep_view()
            }),
            !open ==> cur@.len() == 0,
        decreases v.len() - i,
    {
        let ghost now = v@.take(i + 1);
        let ghost before = words(v@.take(i as int));
        let ghost done = out.deep_view();
        let ghost run = cur@;
        assert(now.drop_last() =~= v@.take(i as int));
        assert(now.last() == v@[i as int]);
        assert(i > 0 ==> now[now.len() - 2] == v@[i - 1]);
        if is_white(v[i]) {
            if open {
                out.push(cur);
                assert(out.deep_view() =~= done.push(run));
                cur = String::new();
                open = false;
            }
        } else {
            cur.push(v[i]);
            if open {
                assert(out.deep_view().push(cur@) =~= before.update(
                    before.len() - 1,
                    before.last().push(v@[i as int]),
                ));
            } else {
                assert(cur@ =~= seq![v@[i as int]]);
                open = true;
            }
        }
        i = i + 1;
    }
    assert(v@.take(v@.len() as int) =~= s@);
    if open {
        let ghost all = out.deep_view().push(cur@);
        out.push(cur);
        assert(out.deep_view() =~= all);
    }
    out
}

/// The pieces with the separator between them.
pub open spec fn join(parts: Seq<Seq<char>>, sep: Seq<char>) -> Seq<char>
    decreases parts.len(),
{
    if parts.len() == 0 {
        Seq::empty()
    } else if parts.len() == 1 {
        parts[0]
    } else {
        join(parts.drop_last(), sep) + sep + parts.last()
    }
}

/// Joins the pieces with a separator.
pub fn joined(parts: &[String], sep: &str) -> (r: String)
    ensures
        r@ == join(parts.deep_view(), sep@),
{
    let mut out = String::new();
    let ghost p = parts.deep_view();
    let mut i: usize = 0;
    assert(p.take(0) =~= Seq::empty());
    while i < parts.len()
        invariant
            i <= parts@.len(),
            p == parts.deep_view(),
            p.len() == parts@.len(),
            out@ == join(p.take(i as int), sep@),
        decreases parts.len() - i,
    {
        assert(p.take(i + 1).drop_last() =~= p.take(i as int));
        assert(p.take(i + 1).last() == parts@[i as int]@);
        if i > 0 {
            out.push_str(sep);
        } else {
            assert(out@ =~= Seq::empty());
        }
        out.push_str(parts[i].as_str());
        assert(i == 0 ==> out@ =~= parts@[0]@);
        i = i + 1;
    }
    assert(p.take(p.len() as int) =~= p);
    out
}

/// The text with the first occurrence of `from` replaced by `to`.
pub open spec fn replace_first(s: Seq<char>, from: Seq<char>, to: Seq<char>) -> Seq<char> {
    match find(s, from, 0) {
        Some(i) => s.take(i) + to + s.skip(i + from.len()),
        None => s,
    }
}

/// Replaces the first occurrence of `from` by `to`.
pub fn replaced_first(s: &str, from: &str, to: &str) -> (r: String)
    ensures
        r@ == replace_first(s@, from@, to@),
{
    let v = chars(s);
    let f = chars(from);
    match find_from(&v, &f, 0) {
        Some(i) => {
            assert(i + f.len() <= v.len());
            let mut out = slice(&v, 0, i);
            out.push_str(to);
            let rest = slice(&v, i + f.len(), v.len());
            out.push_str(rest.as_str());
            out
        },
        None => string_of(&v),
    }
}

/// What stands before and behind the first occurrence of `p`.
pub open spec fn cut(s: Seq<char>, p: Seq<char>) -> Option<(Seq<char>, Seq<char>)> {
    match find(s, p, 0) {
        Some(i) => Some((s.take(i), s.skip(i + p.len()))),
        None => None,
    }
}

/// Splits a text in two at the first occurrence of `p`.
pub fn split_once(s: &str, p: &str) -> (r: Option<(String, String)>)
    ensures
        r.deep_view() == cut(s@, p@),
{
    let v = chars(s);
    let q = chars(p);
    match find_from(&v, &q, 0) {
        Some(i) => {
            assert(i + q.len() <= v.len());
            Some((slice(&v, 0, i), slice(&v, i + q.len(), v.len())))
        },
        None => None,
    }
}

/// An ASCII capital as a small letter; any other character as it is.
pub open spec fn lower_char(c: char) -> char {
    if 'A' <= c <= 'Z' {
        (c as u32 + 32) as char
    } else {
        c
    }
}

/// The text in ASCII small letters.
pub open spec fn lower(s: Seq<char>) -> Seq<char> {
    s.map_values(|c: char| lower_char(c))
}

/// One character in ASCII small letters.
fn lower_of(c: char) -> (r: char)
    ensures
        r == lower_char(c),
{
    if 'A' <= c && c <= 'Z' {
        (c as u8 + 32) as char
    } else {
        c
    }
}

/// Turns ASCII capitals into small letters.
pub fn to_lower(s: &str) -> (r: String)
    ensures
        r@ == lower(s@),
{
    let v = chars(s);
    let mut out = String::new();
    let mut i: usize = 0;
    while i < v.len()
        invariant
            i <= v@.len(),
            v@ == s@,
            out@ == lower(s@).take(i as int),
        decreases v.len() - i,
    {
        out.push(lower_of(v[i]));
        assert(out@ =~= lower(s@).take(i + 1));
        i = i + 1;
    }
    assert(lower(s@).take(v@.len() as int) =~= lower(s@));
    out
}

/// Where a text stands in a list of distinct texts, if it does.
pub fn position(list: &Vec<String>, s: &str) -> (r: Option<usize>)
    ensures
        match r {
            Some(i) => i < list@.len() && list.deep_view()[i as int] == s@ && forall|j: int|
                0 <= j < i ==> list.deep_view()[j] != s@,
            None => !list.deep_view().contains(s@),
        },
{
    let mut i: usize = 0;
    while i < list.len()
        invariant
            i <= list@.len(),
            forall|j: int| 0 <= j < i ==> list.deep_view()[j] != s@,
        decreases list.len() - i,
    {
        assert(list.deep_view()[i as int] == list@[i as int]@);
        if same(list[i].as_str(), s) {
            return Some(i);
        }
        i = i + 1;
    }
    None
}

/// Whether a text stands in a list.
pub fn listed(list: &Vec<String>, s: &str) -> (r: bool)
    ensures
        r == list.deep_view().contains(s@),
{
    match position(list, s) {
        Some(i) => {
            assert(list.deep_view()[i as int] == s@);
            true
        },
        None => false,
    }
}

/// The bytes that a character takes up in UTF-8.
pub open spec fn width(c: char) -> nat {
    if (c as u32) < 0x80 {
        1
    } else if (c as u32) < 0x800 {
        2
    } else if (c as u32) < 0x10000 {
        3
    } else {
        4
    }
}

/// The bytes that a text takes up in UTF-8.
pub open spec fn bytes(s: Seq<char>) -> nat
    decreases s.len(),
{
    if s.len() == 0 {
        0
    } else {
        bytes(s.drop_last()) + width(s.last())
    }
}

/// The bytes of a text, counted from its front.
proof fn bytes_from_front(s: Seq<char>)
    requires
        s.len() > 0,
    ensures
        bytes(s) == width(s[0]) + bytes(s.drop_first()),
    decreases s.len(),
{
    if s.len() == 1 {
        assert(s.drop_last() =~= Seq::empty());
        assert(s.drop_first() =~= Seq::empty());
    } else {
        bytes_from_front(s.drop_last());
        assert(s.drop_last().drop_first() =~= s.drop_first().drop_last());
    }
}

/// `bytes` is the length of the UTF-8 encoding.
pub proof fn bytes_is_utf8_length(s: Seq<char>)
    ensures
        bytes(s) == encode_utf8(s).len(),
    decreases s.len(),
{
    if s.len() > 0 {
        bytes_from_front(s);
        bytes_is_utf8_length(s.drop_first());
        char_is_scalar(s[0]);
        assert(encode_scalar(s[0] as u32).len() == width(s[0]));
    }
}

/// The length of a text in bytes.
pub fn byte_len(s: &str) -> (r: usize)
    ensures
        r == bytes(s@),
{
    proof {
        bytes_is_utf8_length(s@);
    }
    s.as_bytes().len()
}

/// The bytes that a character takes up in UTF-8.
fn char_width(c: char) -> (r: usize)
    ensures
        r == width(c),
{
    let n = c as u32;
    if n < 0x80 {
        1
    } else if n < 0x800 {
        2
    } else if n < 0x10000 {
        3
    } else {
        4
    }
}

/// The longest front part of a text that fits in `max` bytes.
pub open spec fn fitting(s: Seq<char>, max: nat) -> Seq<char>
    decreases s.len(),
{
    if s.len() == 0 || bytes(s) <= max {
        s
    } else {
        fitting(s.drop_last(), max)
    }
}

/// The text within `max` bytes, with an ellipsis where something was cut off.
pub open spec fn shortened(s: Seq<char>, max: nat) -> Seq<char> {
    if bytes(s) <= max {
        s
    } else {
        fitting(s, max).push('…')
    }
}

/// What fits is a front part of the text, fits, and is the longest that does.
pub proof fn fitting_is_longest(s: Seq<char>, max: nat)
    ensures
        fitting(s, max).is_prefix_of(s),
        bytes(fitting(s, max)) <= max,
        forall|n: int|
            fitting(s, max).len() < n <= s.len() ==> bytes(#[trigger] s.take(n)) > max,
    decreases s.len(),
{
    if s.len() == 0 || bytes(s) <= max {
    } else {
        fitting_is_longest(s.drop_last(), max);
        assert forall|n: int| fitting(s, max).len() < n <= s.len() implies bytes(
            #[trigger] s.take(n),
        ) > max by {
            if n == s.len() {
                assert(s.take(n) =~= s);
            } else {
                assert(s.take(n) =~= s.drop_last().take(n));
            }
        }
    }
}

/// Shortens a text to at most `max` bytes and an ellipsis.
pub fn truncate(s: &str, max: usize) -> (r: String)
    ensures
        r@ == shortened(s@, max as nat),
{
    let mut total = byte_len(s);
    if total <= max {
        return s.to_owned();
    }
    let v = chars(s);
    let mut n: usize = v.len();
    assert(v@.take(n as int) =~= s@);
    while n > 0 && total > max
        invariant
            n <= v@.len(),
            total == bytes(v@.take(n as int)),
            fitting(s@, max as nat) == fitting(v@.take(n as int), max as nat),
        decreases n,
    {
        assert(v@.take(n as int).drop_last() =~= v@.take(n - 1));
        assert(v@.take(n as int).last() == v@[n - 1]);
        total = total - char_width(v[n - 1]);
        n = n - 1;
    }
    let mut out = slice(&v, 0, n);
    out.push('…');
    out
}

/// A borrowed optional text.
pub fn borrowed(s: &Option<String>) -> (r: Option<&str>)
    ensures
        r.deep_view() == s.deep_view(),
{
    match s {
        Some(t) => Some(t.as_str()),
        None => None,
    }
}

/// Whether an optional text is the given one.
pub fn is_text(s: &Option<String>, t: &str) -> (r: bool)
    ensures
        r == (s.deep_view() == Some(t@)),
{
    match s {
        Some(u) => same(u.as_str(), t),
        None => false,
    }
}

/// A copy of an optional text.
pub fn copied(s: &Option<String>) -> (r: Option<String>)
    ensures
        r.deep_view() == s.deep_view(),
{
    match s {
        Some(t) => Some(t.clone()),
        None => None,
    }
}

/// Adds a text at the end of a list.
pub fn push(list: &mut Vec<String>, s: String)
    ensures
        final(list).deep_view() == old(list).deep_view().push(s@),
{
    list.push(s);
    assert(list.deep_view() =~= old(list).deep_view().push(s@));
}

/// An owned copy of an optional text.
pub fn owned(s: Option<&str>) -> (r: Option<String>)
    ensures
        r.deep_view() == s.deep_view(),
{
    match s {
        Some(t) => Some(t.to_owned()),
        None => None,
    }
}

} // verus!
