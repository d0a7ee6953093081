//! Reading the text of hardware-monitor files: trimming, and numbers in
//! decimal and hexadecimal.

use vstd::prelude::*;

verus! {

/// Unicode's white space: what a file may carry around its value.
pub open spec fn is_blank(c: char) -> bool {
    let u = c as u32;
    ||| 0x09 <= u <= 0x0d
    ||| u == 0x20
    ||| u == 0x85
    ||| u == 0xa0
    ||| u == 0x1680
    ||| 0x2000 <= u <= 0x200a
    ||| u == 0x2028
    ||| u == 0x2029
    ||| u == 0x202f
    ||| u == 0x205f
    ||| u == 0x3000
}

/// How many white-space characters `s` begins with.
pub open spec fn leading_blanks(s: Seq<char>) -> nat
    decreases s.len(),
{
    if s.len() > 0 && is_blank(s[0]) {
        1 + leading_blanks(s.drop_first())
    } else {
        0
    }
}

/// How many white-space characters `s` ends with.
pub open spec fn trailing_blanks(s: Seq<char>) -> nat
    decreases s.len(),
{
    if s.len() > 0 && is_blank(s.last()) {
        1 + trailing_blanks(s.drop_last())
    } else {
        0
    }
}

/// `s` without the white space at its two ends.
pub open spec fn trimmed(s: Seq<char>) -> Seq<char> {
    if leading_blanks(s) == s.len() {
        Seq::empty()
    } else {
        s.subrange(leading_blanks(s) as int, s.len() - trailing_blanks(s))
    }
}

/// The value of `c` as a digit in base `radix`, for bases up to 16. Letters
/// count in both cases.
pub open spec fn digit(c: char, radix: nat) -> Option<nat> {
    let u = c as u32;
    let v: nat = if 0x30 <= u <= 0x39 {
        (u - 0x30) as nat
    } else if 0x61 <= u <= 0x66 {
        (u - 0x61 + 10) as nat
    } else if 0x41 <= u <= 0x46 {
        (u - 0x41 + 10) as nat
    } else {
        16
    };
    if v < radix {
        Some(v)
    } else {
        None
    }
}

/// Every character of `s` is a digit in base `radix`.
pub open spec fn all_digits(s: Seq<char>, radix: nat) -> bool {
    forall|i: int| 0 <= i < s.len() ==> digit(#[trigger] s[i], radix) is Some
}

/// The number that the digits `s` spell in base `radix`, most significant first.
pub open spec fn digits_value(s: Seq<char>, radix: nat) -> nat
    decreases s.len(),
{
    if s.len() == 0 {
        0
    } else {
        digits_value(s.drop_last(), radix) * radix + digit(s.last(), radix).unwrap()
    }
}

/// The number that `s` denotes in base `radix`: an optional `+`, then one
/// digit or more, and nothing else.
pub open spec fn number(s: Seq<char>, radix: nat) -> Option<nat> {
    let body = if s.len() > 0 && s[0] == '+' {
        s.drop_first()
    } else {
        s
    };
    if body.len() > 0 && all_digits(body, radix) {
        Some(digits_value(body, radix))
    } else {
        None
    }
}

/// `number`, for numbers up to `limit` only.
pub open spec fn number_within(s: Seq<char>, radix: nat, limit: nat) -> Option<nat> {
    match number(s, radix) {
        Some(n) => if n <= limit {
            Some(n)
        } else {
            None
        },
        None => None,
    }
}

/// The characters of `s`, one by one.
pub fn chars_of(s: &str) -> (v: Vec<char>)
    ensures
        v@ == s@,
{
    let mut v: Vec<char> = Vec::new();
    for c in it: s.chars()
        invariant
            v@ == it.seq().take(it.index()),
    {
        v.push(c);
    }
    v
}

/// Whether two texts are the same, character by character.
pub fn same_text(a: &str, b: &str) -> (r: bool)
    ensures
        r == (a@ == b@),
{
    let x = chars_of(a);
    let y = chars_of(b);
    if x.len() != y.len() {
        return false;
    }
    let mut i: usize = 0;
    while i < x.len()
        invariant
            x@ == a@,
            y@ == b@,
            x.len() == y.len(),
            i <= x.len(),
            forall|j: int| 0 <= j < i ==> x@[j] == y@[j],
        decreases x.len() - i,
    {
        if x[i] != y[i] {
            return false;
        }
        i += 1;
    }
    assert(x@ =~= y@);
    true
}

/// Whether `c` is white space.
pub fn blank(c: char) -> (r: bool)
    ensures
        r == is_blank(c),
{
    let u: u32 = c as u32;
    (0x09 <= u && u <= 0x0d) || u == 0x20 || u == 0x85 || u == 0xa0 || u == 0x1680 || (0x2000 <= u
        && u <= 0x200a) || u == 0x2028 || u == 0x2029 || u == 0x202f || u == 0x205f || u == 0x3000
}

proof fn lemma_leading_blanks(s: Seq<char>, a: int)
    requires
        0 <= a <= s.len(),
        forall|i: int| 0 <= i < a ==> is_blank(#[trigger] s[i]),
        a < s.len() ==> !is_blank(s[a]),
    ensures
        leading_blanks(s) == a,
    decreases a,
{
    if a > 0 {
        let rest = s.drop_first();
        assert forall|i: int| 0 <= i < a - 1 implies is_blank(#[trigger] rest[i]) by {
            assert(rest[i] == s[i + 1]);
        }
        if a - 1 < rest.len() {
            assert(rest[a - 1] == s[a]);
        }
        assert(is_blank(s[0]));
        lemma_leading_blanks(rest, a - 1);
    }
}

proof fn lemma_trailing_blanks(s: Seq<char>, b: int)
    requires
        0 <= b <= s.len(),
        forall|i: int| b <= i < s.len() ==> is_blank(#[trigger] s[i]),
        b > 0 ==> !is_blank(s[b - 1]),
    ensures
        trailing_blanks(s) == s.len() - b,
    decreases s.len() - b,
{
    if b < s.len() {
        let rest = s.drop_last();
        assert forall|i: int| b <= i < rest.len() implies is_blank(#[trigger] rest[i]) by {
            assert(rest[i] == s[i]);
        }
        if b > 0 {
            assert(rest[b - 1] == s[b - 1]);
        }
        assert(is_blank(s.last()));
        lemma_trailing_blanks(rest, b);
    }
}

/// `s` without the white space at its two ends.
pub fn trim(s: &str) -> (r: &str)
    ensures
        r@ == trimmed(s@),
{
    let v = chars_of(s);
    let n = v.len();
    let mut a: usize = 0;
    while a < n && blank(v[a])
        invariant
            n == v.len(),
            a <= n,
            forall|i: int| 0 <= i < a ==> is_blank(#[trigger] v@[i]),
        decreases n - a,
    {
        a += 1;
    }
    proof {
        lemma_leading_blanks(v@, a as int);
    }
    if a == n {
        return s.substring_char(0, 0);
    }
    let mut b: usize = n;
    while b > a && blank(v[b - 1])
        invariant
            n == v.len(),
            a <= b <= n,
            forall|i: int| b <= i < n ==> is_blank(#[trigger] v@[i]),
        decreases b,
    {
        b -= 1;
    }
    proof {
        lemma_trailing_blanks(v@, b as int);
    }
    s.substring_char(a, b)
}

/// The value of `c` as a digit in base `radix`.
pub fn digit_of(c: char, radix: u32) -> (r: Option<u32>)
    requires
        radix <= 16,
    ensures
        r matches Some(v) ==> digit(c, radix as nat) == Some(v as nat),
        r is None ==> digit(c, radix as nat) is None,
{
    let u: u32 = c as u32;
    let v: u32 = if 0x30 <= u && u <= 0x39 {
        u - 0x30
    } else if 0x61 <= u && u <= 0x66 {
        u - 0x61 + 10
    } else if 0x41 <= u && u <= 0x46 {
        u - 0x41 + 10
    } else {
        16
    };
    if v < radix {
        Some(v)
    } else {
        None
    }
}

/// Digits that follow never make a number smaller.
proof fn lemma_digits_grow(s: Seq<char>, k: int, radix: nat)
    requires
        0 <= k <= s.len(),
        all_digits(s, radix),
        radix >= 1,
    ensures
        digits_value(s.take(k), radix) <= digits_value(s, radix),
    decreases s.len() - k,
{
    if k == s.len() {
        assert(s.take(k) =~= s);
    } else {
        let front = s.drop_last();
        assert(front.take(k) =~= s.take(k));
        assert forall|i: int| 0 <= i < front.len() implies digit(#[trigger] front[i], radix) is Some by {
            assert(front[i] == s[i]);
        }
        lemma_digits_grow(front, k, radix);
        let x = digits_value(front, radix);
        assert(x * radix >= x) by (nonlinear_arith)
            requires
                radix >= 1,
                x >= 0,
        ;
    }
}

/// One digit more would leave the limit behind.
proof fn lemma_step_exceeds(acc: int, radix: int, d: int, limit: int)
    by (nonlinear_arith)
    requires
        radix >= 1,
        0 <= d <= limit,
        acc > (limit - d) / radix,
    ensures
        acc * radix + d > limit,
{
}

/// One digit more stays within the limit.
proof fn lemma_step_fits(acc: int, radix: int, d: int, limit: int)
    by (nonlinear_arith)
    requires
        radix >= 1,
        0 <= d <= limit,
        0 <= acc <= (limit - d) / radix,
    ensures
        0 <= acc * radix + d <= limit,
{
}

/// Reads a number in base `radix` that is at most `limit`: an optional `+`,
/// then digits only. Anything else, and any larger number, gives `None`.
pub fn parse_number(s: &str, radix: u32, limit: u64) -> (r: Option<u64>)
    requires
        1 <= radix <= 16,
    ensures
        number_within(s@, radix as nat, limit as nat) matches Some(n) ==> r == Some(n as u64),
        number_within(s@, radix as nat, limit as nat) is None ==> r is None,
{
    let v = chars_of(s);
    let n = v.len();
    let start: usize = if n > 0 && v[0] == '+' {
        1
    } else {
        0
    };
    let ghost body = if s@.len() > 0 && s@[0] == '+' {
        s@.drop_first()
    } else {
        s@
    };
    assert(body =~= v@.skip(start as int));
    if start == n {
        return None;
    }
    let mut acc: u64 = 0;
    let mut i: usize = start;
    while i < n
        invariant
            n == v.len(),
            start <= i <= n,
            body == v@.skip(start as int),
            body == if s@.len() > 0 && s@[0] == '+' {
                s@.drop_first()
            } else {
                s@
            },
            1 <= radix <= 16,
            all_digits(body.take(i - start), radix as nat),
            acc == digits_value(body.take(i - start), radix as nat),
            acc <= limit,
        decreases n - i,
    {
        let ghost k = i - start;
        let ghost next = body.take(k + 1);
        assert(body[k] == v@[i as int]);
        assert(next.drop_last() =~= body.take(k));
        assert(next.last() == body[k]);
        match digit_of(v[i], radix) {
            None => {
                assert(!all_digits(body, radix as nat));
                return None;
            },
            Some(d) => {
                assert forall|j: int| 0 <= j < next.len() implies digit(
                    #[trigger] next[j],
                    radix as nat,
                ) is Some by {
                    if j < k {
                        assert(body.take(k)[j] == next[j]);
                    }
                }
                if d as u64 > limit || acc > (limit - d as u64) / (radix as u64) {
                    proof {
                        if all_digits(body, radix as nat) {
                            lemma_digits_grow(body, k + 1, radix as nat);
                            if d as u64 <= limit {
                                lemma_step_exceeds(acc as int, radix as int, d as int, limit as int);
                            } else {
                                assert(acc * radix >= 0) by (nonlinear_arith)
                                    requires
                                        acc >= 0,
                                        radix >= 1,
                                ;
                            }
                        }
                    }
                    return None;
                }
                proof {
                    lemma_step_fits(acc as int, radix as int, d as int, limit as int);
                }
                acc = acc * (radix as u64) + d as u64;
            },
        }
        i += 1;
    }
    assert(body.take(n - start) =~= body);
    Some(acc)
}

/// Reads an unsigned decimal number, as the kernel writes the values of
/// sensor and PWM files.
pub fn read_usize(s: &str) -> (r: Option<usize>)
    ensures
        number_within(s@, 10, usize::MAX as nat) matches Some(n) ==> r == Some(n as usize),
        number_within(s@, 10, usize::MAX as nat) is None ==> r is None,
{
    match parse_number(s, 10, usize::MAX as u64) {
        Some(n) => Some(n as usize),
        None => None,
    }
}

/// `String::push` of the standard library appends one character to the end
/// of the string and leaves what was there.
pub assume_specification[ String::push ](s: &mut String, ch: char)
    ensures
        final(s)@ == old(s)@.push(ch),
;

/// The character that stands for a digit below ten.
pub open spec fn digit_char(d: nat) -> char {
    ((0x30 + d) as u8) as char
}

/// A number in decimal: no sign, no leading zero but for zero itself.
pub open spec fn decimal(n: nat) -> Seq<char>
    decreases n,
{
    if n < 10 {
        seq![digit_char(n)]
    } else {
        decimal(n / 10).push(digit_char(n % 10))
    }
}

/// The decimal form of a number is read back as that number.
pub proof fn lemma_decimal_reads_back(n: nat)
    ensures
        decimal(n).len() > 0,
        all_digits(decimal(n), 10),
        digits_value(decimal(n), 10) == n,
        number(decimal(n), 10) == Some(n),
    decreases n,
{
    let text = decimal(n);
    if n < 10 {
        assert(digit(digit_char(n), 10) == Some(n));
        assert(text.drop_last() =~= Seq::<char>::empty());
        assert(digits_value(text.drop_last(), 10) == 0);
    } else {
        lemma_decimal_reads_back(n / 10);
        let front = decimal(n / 10);
        assert(digit(digit_char(n % 10), 10) == Some(n % 10));
        assert(text.drop_last() =~= front);
        assert forall|i: int| 0 <= i < text.len() implies digit(#[trigger] text[i], 10) is Some by {
            if i < front.len() {
                assert(text[i] == front[i]);
            }
        }
        assert(text[0] == front[0]);
    }
    assert(digit(text[0], 10) is Some);
    assert(text[0] != '+');
}

/// Appends `s` to `out`.
pub fn append(out: &mut String, s: &str)
    ensures
        final(out)@ == old(out)@ + s@,
{
    let v = chars_of(s);
    let mut i: usize = 0;
    assert(v@.take(0) =~= Seq::<char>::empty());
    while i < v.len()
        invariant
            i <= v.len(),
            v@ == s@,
            out@ == old(out)@ + v@.take(i as int),
        decreases v.len() - i,
    {
        assert(v@.take(i + 1) =~= v@.take(i as int).push(v@[i as int]));
        out.push(v[i]);
        i += 1;
    }
    assert(v@.take(i as int) =~= v@);
}

/// Appends the decimal form of `n` to `out`.
pub fn append_decimal(out: &mut String, n: usize)
    ensures
        final(out)@ == old(out)@ + decimal(n as nat),
    decreases n,
{
    if n >= 10 {
        append_decimal(out, n / 10);
    }
    let d: u8 = (n % 10) as u8;
    out.push((0x30 + d) as char);
    assert(out@ =~= old(out)@ + decimal(n as nat));
}

/// The decimal form of `n`, as the kernel expects the values that are
/// written to its files.
pub fn decimal_text(n: usize) -> (r: String)
    ensures
        r@ == decimal(n as nat),
{
    let mut out = String::new();
    append_decimal(&mut out, n);
    assert(out@ =~= decimal(n as nat));
    out
}

/// `s` begins with `prefix`.
pub open spec fn has_prefix(s: Seq<char>, prefix: Seq<char>) -> bool {
    prefix.len() <= s.len() && s.take(prefix.len() as int) == prefix
}

/// `needle` stands somewhere in `s`.
pub open spec fn has_part(s: Seq<char>, needle: Seq<char>) -> bool {
    exists|i: int| 0 <= i <= s.len() && #[trigger] has_prefix(s.skip(i), needle)
}

/// The number of a device or revision file: `0x`, then hexadecimal digits,
/// with white space around the whole.
pub open spec fn id_value(text: Seq<char>) -> Option<u16> {
    let t = trimmed(text);
    if has_prefix(t, "0x"@) {
        match number_within(t.skip(2), 16, 0xffff) {
            Some(n) => Some(n as u16),
            None => None,
        }
    } else {
        None
    }
}

/// Whether `v` holds `word` from position `at` on.
fn holds_at(v: &Vec<char>, at: usize, word: &Vec<char>) -> (r: bool)
    requires
        at <= v.len(),
    ensures
        r == has_prefix(v@.skip(at as int), word@),
{
    let ghost rest = v@.skip(at as int);
    if word.len() > v.len() - at {
        return false;
    }
    let mut i: usize = 0;
    while i < word.len()
        invariant
            i <= word.len(),
            at <= v.len(),
            word.len() <= v.len() - at,
            rest == v@.skip(at as int),
            forall|j: int| 0 <= j < i ==> rest[j] == word@[j],
        decreases word.len() - i,
    {
        assert(rest[i as int] == v@[at + i]);
        if v[at + i] != word[i] {
            assert(rest.take(word.len() as int)[i as int] != word@[i as int]);
            return false;
        }
        i += 1;
    }
    assert(rest.take(word.len() as int) =~= word@);
    true
}

/// Whether `s` begins with `prefix`.
pub fn starts_with(s: &str, prefix: &str) -> (r: bool)
    ensures
        r == has_prefix(s@, prefix@),
{
    let v = chars_of(s);
    let w = chars_of(prefix);
    assert(v@.skip(0) =~= v@);
    holds_at(&v, 0, &w)
}

/// Whether `needle` stands somewhere in `s`.
pub fn contains(s: &str, needle: &str) -> (r: bool)
    ensures
        r == has_part(s@, needle@),
{
    let v = chars_of(s);
    let w = chars_of(needle);
    let mut i: usize = 0;
    while i < v.len()
        invariant
            i <= v.len(),
            v@ == s@,
            w@ == needle@,
            forall|j: int| 0 <= j < i ==> !has_prefix(#[trigger] v@.skip(j), w@),
        decreases v.len() - i,
    {
        if holds_at(&v, i, &w) {
            return true;
        }
        i += 1;
    }
    holds_at(&v, i, &w)
}

/// Reads the number of a device or revision file.
pub fn read_u16(content: &str) -> (r: Option<u16>)
    ensures
        r == id_value(content@),
{
    let t = trim(content);
    if !starts_with(t, "0x") {
        return None;
    }
    proof {
        reveal_strlit("0x");
    }
    let n = t.unicode_len();
    match parse_number(t.substring_char(2, n), 16, 0xffff) {
        Some(v) => Some(v as u16),
        None => None,
    }
}

/// Whether a directory entry with this name is a hardware-monitor
/// directory: its name begins with `hwmon`.
pub fn is_hwmon(name: &str) -> (r: bool)
    ensures
        r == has_prefix(name@, "hwmon"@),
{
    starts_with(name, "hwmon")
}

/// Among the names of the entries of a directory, in the order in which
/// the directory lists them, the first that is a hardware-monitor
/// directory: the least index whose name begins with `hwmon`.
pub fn first_hwmon(names: &Vec<String>) -> (r: Option<usize>)
    ensures
        r matches Some(k) ==> k < names@.len() && has_prefix(names@[k as int]@, "hwmon"@)
            && forall|i: int| 0 <= i < k ==> !has_prefix(#[trigger] names@[i]@, "hwmon"@),
        r is None ==> forall|i: int|
            0 <= i < names@.len() ==> !has_prefix(#[trigger] names@[i]@, "hwmon"@),
{
    let mut i: usize = 0;
    while i < names.len()
        invariant
            i <= names.len(),
            forall|j: int| 0 <= j < i ==> !has_prefix(#[trigger] names@[j]@, "hwmon"@),
        decreases names.len() - i,
    {
        if is_hwmon(names[i].as_str()) {
            return Some(i);
        }
        i += 1;
    }
    None
}

} // verus!
