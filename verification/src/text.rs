//! Text as sequences of characters: the few string operations the rest of the crate needs, each
//! with a contract over the characters themselves.
use vstd::prelude::*;

verus! {

broadcast use vstd::string::group_string_axioms;

/// `String::push` of std: the character is added at the end of the string.
pub assume_specification[ String::push ](s: &mut String, ch: char)
    ensures
        final(s)@ == old(s)@.push(ch),
;

/// The characters of `s`, in order.
pub fn to_chars(s: &str) -> (chars: Vec<char>)
    ensures
        chars@ == s@,
{
    let mut chars: Vec<char> = Vec::new();
    for c in it: s.chars()
        invariant
            it.seq() == s@,
            chars@ == it.seq().take(it.index() as int),
    {
        proof {
            assert(it.seq().take(it.index() as int + 1) =~= it.seq().take(it.index() as int).push(c));
        }
        chars.push(c);
    }
    assert(chars@ =~= s@);
    chars
}

/// The string made of the characters of `chars` from `from` up to `to`.
pub fn from_char_range(chars: &Vec<char>, from: usize, to: usize) -> (s: String)
    requires
        from <= to <= chars@.len(),
    ensures
        s@ == chars@.subrange(from as int, to as int),
{
    let mut s = String::new();
    let mut i: usize = from;
    while i < to
        invariant
            from <= i <= to <= chars@.len(),
            s@ == chars@.subrange(from as int, i as int),
        decreases to - i,
    {
        s.push(chars[i]);
        i += 1;
        assert(s@ =~= chars@.subrange(from as int, i as int));
    }
    s
}

/// The characters that Unicode gives the property White_Space.
pub open spec fn is_white_space(c: char) -> bool {
    let n = c as u32;
    ||| 0x9 <= n <= 0xd
    ||| n == 0x20
    ||| n == 0x85
    ||| n == 0xa0
    ||| n == 0x1680
    ||| 0x2000 <= n <= 0x200a
    ||| n == 0x2028
    ||| n == 0x2029
    ||| n == 0x202f
    ||| n == 0x205f
    ||| n == 0x3000
}

pub fn white_space(c: char) -> (b: bool)
    ensures
        b == is_white_space(c),
{
    let n: u32 = c as u32;
    (0x9 <= n && n <= 0xd) || n == 0x20 || n == 0x85 || n == 0xa0 || n == 0x1680 || (0x2000 <= n
        && n <= 0x200a) || n == 0x2028 || n == 0x2029 || n == 0x202f || n == 0x205f || n == 0x3000
}

/// `s` without its leading white space.
pub open spec fn trimmed_start(s: Seq<char>) -> Seq<char>
    decreases s.len(),
{
    if s.len() > 0 && is_white_space(s[0]) {
        trimmed_start(s.drop_first())
    } else {
        s
    }
}

/// `s` without its trailing white space.
pub open spec fn trimmed_end(s: Seq<char>) -> Seq<char>
    decreases s.len(),
{
    if s.len() > 0 && is_white_space(s.last()) {
        trimmed_end(s.drop_last())
    } else {
        s
    }
}

/// `s` without white space at either end.
pub open spec fn trimmed(s: Seq<char>) -> Seq<char> {
    trimmed_end(trimmed_start(s))
}

pub fn trim(s: &str) -> (r: String)
    ensures
        r@ == trimmed(s@),
{
    let chars = to_chars(s);
    let mut from: usize = 0;
    assert(chars@.skip(0) =~= s@);
    while from < chars.len() && white_space(chars[from])
        invariant
            from <= chars@.len(),
            trimmed_start(s@) == trimmed_start(chars@.skip(from as int)),
            chars@ == s@,
        decreases chars@.len() - from,
    {
        proof {
            assert(chars@.skip(from as int).drop_first() =~= chars@.skip(from as int + 1));
        }
        from += 1;
    }
    let mut to: usize = chars.len();
    assert(chars@.skip(from as int) =~= chars@.subrange(from as int, to as int));
    while to > from && white_space(chars[to - 1])
        invariant
            from <= to <= chars@.len(),
            trimmed(s@) == trimmed_end(chars@.subrange(from as int, to as int)),
        decreases to,
    {
        proof {
            assert(chars@.subrange(from as int, to as int).drop_last() =~= chars@.subrange(
                from as int,
                to as int - 1,
            ));
        }
        to -= 1;
    }
    from_char_range(&chars, from, to)
}

pub proof fn lemma_trimmed_is_itself(s: Seq<char>)
    requires
        s.len() > 0,
        !is_white_space(s[0]),
        !is_white_space(s.last()),
    ensures
        trimmed(s) == s,
{
}

/// What has nothing left when it is trimmed holds nothing but white space.
pub proof fn lemma_trimmed_to_nothing(s: Seq<char>)
    requires
        trimmed(s).len() == 0,
    ensures
        forall|i: int| 0 <= i < s.len() ==> is_white_space(#[trigger] s[i]),
    decreases s.len(),
{
    if s.len() > 0 {
        if is_white_space(s[0]) {
            let rest = s.drop_first();
            lemma_trimmed_to_nothing(rest);
            assert forall|i: int| 0 <= i < s.len() implies is_white_space(#[trigger] s[i]) by {
                if i > 0 {
                    assert(rest[i - 1] == s[i]);
                }
            }
        } else {
            lemma_trimmed_end_keeps_start(s);
        }
    }
}

proof fn lemma_trimmed_end_keeps_start(s: Seq<char>)
    requires
        s.len() > 0,
        !is_white_space(s[0]),
    ensures
        trimmed_end(s).len() > 0,
    decreases s.len(),
{
    if is_white_space(s.last()) {
        lemma_trimmed_end_keeps_start(s.drop_last());
    }
}

/// The decimal digit of `d`.
pub open spec fn digit_char(d: int) -> char {
    (48 + d) as char
}

pub open spec fn is_digit(c: char) -> bool {
    '0' <= c <= '9'
}

/// `n` in decimal, without leading zeros.
pub open spec fn decimal(n: nat) -> Seq<char>
    decreases n,
{
    if n < 10 {
        seq![digit_char(n as int)]
    } else {
        decimal(n / 10).push(digit_char((n % 10) as int))
    }
}

/// `i` in decimal, with a minus sign where it is negative.
pub open spec fn decimal_int(i: int) -> Seq<char> {
    if i < 0 {
        seq!['-'] + decimal((-i) as nat)
    } else {
        decimal(i as nat)
    }
}

/// `n` in decimal, filled up with zeros on the left to `width` characters.
pub open spec fn padded(n: nat, width: nat) -> Seq<char> {
    if decimal(n).len() < width {
        Seq::new((width - decimal(n).len()) as nat, |i: int| '0') + decimal(n)
    } else {
        decimal(n)
    }
}

fn digit(d: u8) -> (c: char)
    requires
        d < 10,
    ensures
        c == digit_char(d as int),
        is_digit(c),
{
    (48u8 + d) as char
}

/// Adds `n` in decimal to the end of `s`.
pub fn push_decimal(s: &mut String, n: u64)
    ensures
        final(s)@ == old(s)@ + decimal(n as nat),
    decreases n,
{
    if n >= 10 {
        push_decimal(s, n / 10);
    }
    s.push(digit((n % 10) as u8));
    assert(s@ =~= old(s)@ + decimal(n as nat));
}

/// Adds a wide `n` in decimal to the end of `s`.
pub fn push_decimal_wide(s: &mut String, n: u128)
    ensures
        final(s)@ == old(s)@ + decimal(n as nat),
    decreases n,
{
    if n >= 10 {
        push_decimal_wide(s, n / 10);
    }
    s.push(digit((n % 10) as u8));
    assert(s@ =~= old(s)@ + decimal(n as nat));
}

pub fn decimal_of(n: u64) -> (s: String)
    ensures
        s@ == decimal(n as nat),
{
    let mut s = String::new();
    push_decimal(&mut s, n);
    assert(s@ =~= decimal(n as nat));
    s
}

pub fn decimal_of_int(i: i64) -> (s: String)
    ensures
        s@ == decimal_int(i as int),
{
    if i >= 0 {
        decimal_of(i as u64)
    } else {
        let mut s = String::new();
        s.push('-');
        let magnitude: u64 = if i == i64::MIN {
            0x8000_0000_0000_0000
        } else {
            (-i) as u64
        };
        push_decimal(&mut s, magnitude);
        assert(s@ =~= decimal_int(i as int));
        s
    }
}

/// Adds `n` in decimal to the end of `s`, filled up with zeros to `width` characters.
pub fn push_padded(s: &mut String, n: u64, width: usize)
    ensures
        final(s)@ == old(s)@ + padded(n as nat, width as nat),
{
    let digits = to_chars(&decimal_of(n));
    let mut filled: usize = digits.len();
    let ghost zeros = Seq::<char>::empty();
    let ghost start = s@;
    while filled < width
        invariant
            digits@.len() <= filled,
            filled <= width || filled == digits@.len(),
            zeros.len() == filled - digits@.len(),
            forall|i: int| 0 <= i < zeros.len() ==> zeros[i] == '0',
            s@ == start + zeros,
        decreases width - filled,
    {
        s.push('0');
        proof {
            let before = zeros;
            zeros = zeros.push('0');
            assert(start + zeros =~= (start + before).push('0'));
        }
        filled += 1;
    }
    let mut i: usize = 0;
    let ghost zero_count = zeros.len();
    while i < digits.len()
        invariant
            i <= digits@.len(),
            s@ == start + zeros + digits@.take(i as int),
        decreases digits@.len() - i,
    {
        s.push(digits[i]);
        i += 1;
        assert(start + zeros + digits@.take(i as int) =~= (start + zeros + digits@.take(
            i as int - 1,
        )).push(digits@[i as int - 1]));
    }
    assert(s@ =~= start + padded(n as nat, width as nat));
}

pub fn all_digit_chars(chars: &Vec<char>, from: usize, to: usize) -> (b: bool)
    requires
        from <= to <= chars@.len(),
    ensures
        b == all_digits(chars@.subrange(from as int, to as int)),
{
    let mut i: usize = from;
    while i < to
        invariant
            from <= i <= to <= chars@.len(),
            forall|k: int| from <= k < i ==> is_digit(#[trigger] chars@[k]),
        decreases to - i,
    {
        if !('0' <= chars[i] && chars[i] <= '9') {
            assert(!is_digit(chars@.subrange(from as int, to as int)[i - from]));
            return false;
        }
        i += 1;
    }
    assert forall|k: int| 0 <= k < to - from implies is_digit(
        #[trigger] chars@.subrange(from as int, to as int)[k],
    ) by {
        assert(chars@.subrange(from as int, to as int)[k] == chars@[from + k]);
    }
    true
}

pub open spec fn all_digits(s: Seq<char>) -> bool {
    forall|i: int| 0 <= i < s.len() ==> is_digit(#[trigger] s[i])
}

/// The number that the decimal digits of `s` write.
pub open spec fn digits_value(s: Seq<char>) -> nat
    decreases s.len(),
{
    if s.len() == 0 {
        0
    } else {
        (digits_value(s.drop_last()) * 10 + (s.last() as int - 48)) as nat
    }
}

/// `s` read as decimal digits, where it holds at least one digit, nothing else, and no more than
/// `max`.
pub open spec fn digits_at_most(s: Seq<char>, max: int) -> Option<int> {
    if s.len() > 0 && all_digits(s) && digits_value(s) <= max {
        Some(digits_value(s) as int)
    } else {
        None
    }
}

pub proof fn lemma_digits_value_step(s: Seq<char>, c: char)
    requires
        is_digit(c),
    ensures
        digits_value(s.push(c)) == digits_value(s) * 10 + (c as int - 48),
{
    assert(s.push(c).drop_last() =~= s);
}

pub proof fn lemma_digits_value_grows(s: Seq<char>, n: int)
    requires
        0 <= n <= s.len(),
        all_digits(s),
    ensures
        digits_value(s.take(n)) <= digits_value(s),
    decreases s.len() - n,
{
    if n < s.len() {
        assert(s.take(n + 1) =~= s.take(n).push(s[n]));
        lemma_digits_value_step(s.take(n), s[n]);
        lemma_digits_value_grows(s, n + 1);
    } else {
        assert(s.take(n) =~= s);
    }
}

/// Reads the characters from `from` up to `to` as decimal digits.
pub fn parse_digits(chars: &Vec<char>, from: usize, to: usize, max: u64) -> (n: Option<u64>)
    requires
        from <= to <= chars@.len(),
    ensures
        match n {
            Some(n) => digits_at_most(chars@.subrange(from as int, to as int), max as int) == Some(
                n as int,
            ),
            None => digits_at_most(chars@.subrange(from as int, to as int), max as int) is None,
        },
{
    let ghost s = chars@.subrange(from as int, to as int);
    if from == to || !all_digit_chars(chars, from, to) {
        return None;
    }
    let mut value: u64 = 0;
    let mut i: usize = from;
    while i < to
        invariant
            from <= i <= to <= chars@.len(),
            s == chars@.subrange(from as int, to as int),
            all_digits(s),
            s.len() > 0,
            value == digits_value(s.take(i - from)),
            value <= max,
        decreases to - i,
    {
        let c: char = chars[i];
        proof {
            assert(c == s[i - from]);
            assert(s.take(i - from + 1) =~= s.take(i - from).push(c));
            lemma_digits_value_step(s.take(i - from), c);
            lemma_digits_value_grows(s, i - from + 1);
        }
        let d: u64 = (c as u32 - 48) as u64;
        if value > max / 10 || (value == max / 10 && d > max % 10) {
            return None;
        }
        value = value * 10 + d;
        i += 1;
    }
    assert(s.take(to - from) =~= s);
    Some(value)
}

pub proof fn lemma_decimal_digits(n: nat)
    ensures
        decimal(n).len() > 0,
        all_digits(decimal(n)),
        digits_value(decimal(n)) == n,
    decreases n,
{
    if n < 10 {
        assert(decimal(n).drop_last() =~= Seq::<char>::empty());
        assert(digits_value(decimal(n).drop_last()) == 0);
    } else {
        lemma_decimal_digits(n / 10);
        lemma_digits_value_step(decimal(n / 10), digit_char((n % 10) as int));
    }
}

pub proof fn lemma_zeros_value(zeros: Seq<char>, s: Seq<char>)
    requires
        forall|i: int| 0 <= i < zeros.len() ==> zeros[i] == '0',
        all_digits(s),
    ensures
        all_digits(zeros + s),
        digits_value(zeros + s) == digits_value(s),
    decreases zeros.len() + s.len(),
{
    if s.len() > 0 {
        lemma_zeros_value(zeros, s.drop_last());
        assert((zeros + s).drop_last() =~= zeros + s.drop_last());
    } else if zeros.len() > 0 {
        lemma_zeros_value(zeros.drop_last(), s);
        assert((zeros + s).drop_last() =~= zeros.drop_last() + s);
    }
}

pub proof fn lemma_padded_digits(n: nat, width: nat)
    ensures
        padded(n, width).len() > 0,
        padded(n, width).len() >= width,
        all_digits(padded(n, width)),
        digits_value(padded(n, width)) == n,
{
    lemma_decimal_digits(n);
    if decimal(n).len() < width {
        lemma_zeros_value(
            Seq::new((width - decimal(n).len()) as nat, |i: int| '0'),
            decimal(n),
        );
    }
}

/// The parts of `s` between the characters `sep`: one more than there are such characters.
pub open spec fn split_on(s: Seq<char>, sep: char) -> Seq<Seq<char>>
    decreases s.len(),
{
    if s.len() == 0 {
        seq![Seq::empty()]
    } else {
        let parts = split_on(s.drop_last(), sep);
        if s.last() == sep {
            parts.push(Seq::empty())
        } else {
            parts.drop_last().push(parts.last().push(s.last()))
        }
    }
}

/// The contents of strings, one by one.
pub open spec fn views(v: Seq<String>) -> Seq<Seq<char>> {
    v.map_values(|s: String| s@)
}

pub fn split(s: &str, sep: char) -> (parts: Vec<String>)
    ensures
        views(parts@) == split_on(s@, sep),
        parts@.len() > 0,
{
    let chars = to_chars(s);
    let mut parts: Vec<String> = Vec::new();
    let mut current = String::new();
    let mut i: usize = 0;
    assert(views(parts@).push(current@) =~= split_on(chars@.take(0), sep));
    while i < chars.len()
        invariant
            i <= chars@.len(),
            views(parts@).push(current@) == split_on(chars@.take(i as int), sep),
        decreases chars@.len() - i,
    {
        let c: char = chars[i];
        let ghost before = views(parts@);
        proof {
            assert(chars@.take(i as int + 1).drop_last() =~= chars@.take(i as int));
            assert(before.push(current@).drop_last() =~= before);
        }
        if c == sep {
            parts.push(current);
            current = String::new();
            assert(views(parts@).push(current@) =~= split_on(chars@.take(i as int + 1), sep));
        } else {
            current.push(c);
            assert(views(parts@).push(current@) =~= split_on(chars@.take(i as int + 1), sep));
        }
        i += 1;
    }
    assert(chars@.take(i as int) =~= s@);
    let ghost before = views(parts@).push(current@);
    parts.push(current);
    assert(views(parts@) =~= before);
    parts
}

pub proof fn lemma_split_len(s: Seq<char>, sep: char)
    ensures
        split_on(s, sep).len() > 0,
    decreases s.len(),
{
    if s.len() > 0 {
        lemma_split_len(s.drop_last(), sep);
    }
}

/// Text without the separator is a single part.
pub proof fn lemma_split_plain(s: Seq<char>, sep: char)
    requires
        !s.contains(sep),
    ensures
        split_on(s, sep) == seq![s],
    decreases s.len(),
{
    if s.len() > 0 {
        assert(s.last() == s[s.len() - 1]);
        assert forall|i: int| 0 <= i < s.len() - 1 implies s.drop_last()[i] != sep by {
            assert(s.drop_last()[i] == s[i]);
        }
        lemma_split_plain(s.drop_last(), sep);
        assert(s.drop_last().push(s.last()) =~= s);
        assert(split_on(s, sep) =~= seq![s]);
    } else {
        assert(s =~= Seq::<char>::empty());
    }
}

/// Text, a separator, and text without the separator: the last part is that text.
pub proof fn lemma_split_last(head: Seq<char>, sep: char, tail: Seq<char>)
    requires
        !tail.contains(sep),
    ensures
        split_on(head.push(sep) + tail, sep) == split_on(head, sep).push(tail),
    decreases tail.len(),
{
    let s = head.push(sep) + tail;
    if tail.len() == 0 {
        assert(s.drop_last() =~= head);
        assert(tail =~= Seq::<char>::empty());
    } else {
        assert(tail.last() == tail[tail.len() - 1]);
        assert forall|i: int| 0 <= i < tail.len() - 1 implies tail.drop_last()[i] != sep by {
            assert(tail.drop_last()[i] == tail[i]);
        }
        lemma_split_last(head, sep, tail.drop_last());
        assert(s.drop_last() =~= head.push(sep) + tail.drop_last());
        let parts = split_on(s.drop_last(), sep);
        assert(parts.last().push(s.last()) =~= tail);
        assert(parts.drop_last() =~= split_on(head, sep));
        assert(split_on(s, sep) =~= split_on(head, sep).push(tail));
    }
}

/// The place of the first `c` in `s`; the length of `s` where there is none.
pub open spec fn first_index(s: Seq<char>, c: char) -> int
    decreases s.len(),
{
    if s.len() == 0 || s[0] == c {
        0
    } else {
        1 + first_index(s.drop_first(), c)
    }
}

pub proof fn lemma_first_index(s: Seq<char>, c: char)
    ensures
        0 <= first_index(s, c) <= s.len(),
        forall|i: int| 0 <= i < first_index(s, c) ==> s[i] != c,
        first_index(s, c) < s.len() ==> s[first_index(s, c)] == c,
        first_index(s, c) < s.len() <==> s.contains(c),
    decreases s.len(),
{
    if s.len() > 0 && s[0] != c {
        lemma_first_index(s.drop_first(), c);
        assert forall|i: int| 0 <= i < first_index(s, c) implies s[i] != c by {
            if i > 0 {
                assert(s[i] == s.drop_first()[i - 1]);
            }
        }
        if s.contains(c) {
            let k = choose|k: int| 0 <= k < s.len() && s[k] == c;
            assert(s.drop_first()[k - 1] == c);
        }
    }
}

/// The place described by what stands before it is the first one.
pub proof fn lemma_first_index_unique(s: Seq<char>, c: char, n: int)
    requires
        0 <= n <= s.len(),
        forall|i: int| 0 <= i < n ==> s[i] != c,
        n < s.len() ==> s[n] == c,
    ensures
        first_index(s, c) == n,
{
    lemma_first_index(s, c);
}

pub fn find_char(chars: &Vec<char>, c: char) -> (n: usize)
    ensures
        n == first_index(chars@, c),
        n <= chars@.len(),
{
    let mut n: usize = 0;
    while n < chars.len() && chars[n] != c
        invariant
            n <= chars@.len(),
            forall|i: int| 0 <= i < n ==> chars@[i] != c,
        decreases chars@.len() - n,
    {
        n += 1;
    }
    proof {
        lemma_first_index_unique(chars@, c, n as int);
    }
    n
}

/// `s` without `suffix` at its end, where it ends so.
pub open spec fn without_suffix(s: Seq<char>, suffix: Seq<char>) -> Seq<char> {
    if ends_with(s, suffix) {
        s.take(s.len() - suffix.len())
    } else {
        s
    }
}

pub open spec fn ends_with(s: Seq<char>, suffix: Seq<char>) -> bool {
    s.len() >= suffix.len() && s.skip(s.len() - suffix.len()) == suffix
}

pub open spec fn starts_with(s: Seq<char>, prefix: Seq<char>) -> bool {
    s.len() >= prefix.len() && s.take(prefix.len() as int) == prefix
}

/// `p` stands in `s` at `i`.
pub open spec fn stands_at(s: Seq<char>, p: Seq<char>, i: int) -> bool {
    0 <= i && i + p.len() <= s.len() && s.subrange(i, i + p.len()) == p
}

/// `p` stands somewhere in `s`.
pub open spec fn contains_text(s: Seq<char>, p: Seq<char>) -> bool {
    exists|i: int| stands_at(s, p, i)
}

pub fn matches_at(s: &Vec<char>, p: &Vec<char>, i: usize) -> (b: bool)
    ensures
        b == stands_at(s@, p@, i as int),
{
    if s.len() < p.len() || s.len() - p.len() < i {
        return false;
    }
    let mut k: usize = 0;
    while k < p.len()
        invariant
            k <= p@.len(),
            i + p.len() <= s.len(),
            forall|j: int| 0 <= j < k ==> s@[i + j] == p@[j],
        decreases p@.len() - k,
    {
        if s[i + k] != p[k] {
            assert(s@.subrange(i as int, i + p@.len())[k as int] != p@[k as int]);
            return false;
        }
        k += 1;
    }
    assert(s@.subrange(i as int, i + p@.len()) =~= p@);
    true
}

pub fn has_suffix(s: &str, suffix: &str) -> (b: bool)
    ensures
        b == ends_with(s@, suffix@),
{
    let s = to_chars(s);
    let p = to_chars(suffix);
    if s.len() < p.len() {
        return false;
    }
    assert(s@.skip(s@.len() - p@.len()) =~= s@.subrange(
        s@.len() - p@.len(),
        s@.len() - p@.len() + p@.len(),
    ));
    matches_at(&s, &p, s.len() - p.len())
}

pub fn has_prefix(s: &str, prefix: &str) -> (b: bool)
    ensures
        b == starts_with(s@, prefix@),
{
    let s = to_chars(s);
    let p = to_chars(prefix);
    if s.len() < p.len() {
        return false;
    }
    assert(s@.take(p@.len() as int) =~= s@.subrange(0, 0int + p@.len()));
    matches_at(&s, &p, 0)
}

pub fn strip_suffix(s: &str, suffix: &str) -> (r: String)
    ensures
        r@ == without_suffix(s@, suffix@),
{
    if has_suffix(s, suffix) {
        let chars = to_chars(s);
        let n: usize = chars.len() - to_chars(suffix).len();
        from_char_range(&chars, 0, n)
    } else {
        s.to_owned()
    }
}

pub fn contains(s: &str, p: &str) -> (b: bool)
    ensures
        b == contains_text(s@, p@),
{
    let x = to_chars(s);
    let y = to_chars(p);
    let mut i: usize = 0;
    while i < x.len()
        invariant
            x@ == s@,
            y@ == p@,
            i <= x@.len(),
            forall|k: int| 0 <= k < i ==> !#[trigger] stands_at(x@, y@, k),
        decreases x@.len() - i,
    {
        if matches_at(&x, &y, i) {
            return true;
        }
        i += 1;
    }
    if matches_at(&x, &y, i) {
        return true;
    }
    assert(forall|k: int| k > i ==> !#[trigger] stands_at(x@, y@, k));
    false
}

/// An upper-case ASCII letter in lower case; any other character as it is.
pub open spec fn lower(c: char) -> char {
    if 'A' <= c <= 'Z' {
        (c as int + 32) as char
    } else {
        c
    }
}

pub fn ascii_lower(c: char) -> (r: char)
    ensures
        r == lower(c),
{
    if 'A' <= c && c <= 'Z' {
        (c as u8 + 32u8) as char
    } else {
        c
    }
}

/// `s` with its ASCII letters in lower case.
pub open spec fn lowered(s: Seq<char>) -> Seq<char> {
    s.map_values(|c: char| lower(c))
}

pub fn to_lower(s: &str) -> (r: String)
    ensures
        r@ == lowered(s@),
{
    let chars = to_chars(s);
    let mut r = String::new();
    let mut i: usize = 0;
    while i < chars.len()
        invariant
            i <= chars@.len(),
            chars@ == s@,
            r@ == lowered(s@).take(i as int),
        decreases chars@.len() - i,
    {
        r.push(ascii_lower(chars[i]));
        i += 1;
        assert(r@ =~= lowered(s@).take(i as int));
    }
    assert(r@ =~= lowered(s@));
    r
}

/// Whether the two texts are the same.
pub fn same(a: &str, b: &str) -> (r: bool)
    ensures
        r == (a@ == b@),
{
    let x = to_chars(a);
    let y = to_chars(b);
    if x.len() != y.len() {
        return false;
    }
    let mut i: usize = 0;
    while i < x.len()
        invariant
            x@ == a@,
            y@ == b@,
            i <= x@.len() == y@.len(),
            forall|k: int| 0 <= k < i ==> x@[k] == y@[k],
        decreases x@.len() - i,
    {
        if x[i] != y[i] {
            return false;
        }
        i += 1;
    }
    assert(x@ =~= y@);
    true
}

/// The content of an optional string.
pub open spec fn opt_view(o: Option<String>) -> Option<Seq<char>> {
    match o {
        Some(s) => Some(s@),
        None => None,
    }
}

pub fn copy_opt(o: &Option<String>) -> (r: Option<String>)
    ensures
        r == *o,
{
    match o {
        Some(s) => Some(s.clone()),
        None => None,
    }
}

pub fn contains_char(chars: &Vec<char>, c: char) -> (b: bool)
    ensures
        b == chars@.contains(c),
{
    let mut i: usize = 0;
    while i < chars.len()
        invariant
            i <= chars@.len(),
            forall|k: int| 0 <= k < i ==> chars@[k] != c,
        decreases chars@.len() - i,
    {
        if chars[i] == c {
            return true;
        }
        i += 1;
    }
    false
}

/// The first place from `i` on where `p` stands in `s`.
pub open spec fn find_from(s: Seq<char>, p: Seq<char>, i: int) -> Option<int>
    decreases s.len() + 1 - i,
{
    if i < 0 || i + p.len() > s.len() {
        None
    } else if stands_at(s, p, i) {
        Some(i)
    } else {
        find_from(s, p, i + 1)
    }
}

/// The first place where `p` stands in `s`.
pub open spec fn first_place(s: Seq<char>, p: Seq<char>) -> Option<int> {
    find_from(s, p, 0)
}

/// The last place up to `i` where `p` stands in `s`.
pub open spec fn find_back(s: Seq<char>, p: Seq<char>, i: int) -> Option<int>
    decreases i + 1,
{
    if i < 0 {
        None
    } else if stands_at(s, p, i) {
        Some(i)
    } else {
        find_back(s, p, i - 1)
    }
}

/// The last place where `p` stands in `s`.
pub open spec fn last_place(s: Seq<char>, p: Seq<char>) -> Option<int> {
    find_back(s, p, s.len() - p.len())
}

pub fn find_first(s: &Vec<char>, p: &Vec<char>) -> (place: Option<usize>)
    ensures
        match place {
            Some(i) => first_place(s@, p@) == Some(i as int) && i + p.len() <= s.len(),
            None => first_place(s@, p@) is None,
        },
{
    if s.len() < p.len() {
        return None;
    }
    let last: usize = s.len() - p.len();
    let mut i: usize = 0;
    while i <= last
        invariant
            last + p@.len() == s@.len(),
            i <= last + 1,
            first_place(s@, p@) == find_from(s@, p@, i as int),
        decreases last + 1 - i,
    {
        if matches_at(s, p, i) {
            return Some(i);
        }
        if i == last {
            assert(find_from(s@, p@, i + 1) is None);
            return None;
        }
        i += 1;
    }
    None
}

pub fn find_last(s: &Vec<char>, p: &Vec<char>) -> (place: Option<usize>)
    ensures
        match place {
            Some(i) => last_place(s@, p@) == Some(i as int) && i + p.len() <= s.len(),
            None => last_place(s@, p@) is None,
        },
{
    if s.len() < p.len() {
        return None;
    }
    let mut i: usize = s.len() - p.len();
    loop
        invariant
            i + p@.len() <= s@.len(),
            last_place(s@, p@) == find_back(s@, p@, i as int),
        decreases i,
    {
        if matches_at(s, p, i) {
            return Some(i);
        }
        if i == 0 {
            assert(find_back(s@, p@, -1) is None);
            return None;
        }
        i -= 1;
    }
}

/// The two texts are the same but for the case of ASCII letters.
pub open spec fn same_but_case(a: Seq<char>, b: Seq<char>) -> bool {
    lowered(a) == lowered(b)
}

pub fn same_ignoring_case(a: &str, b: &str) -> (r: bool)
    ensures
        r == same_but_case(a@, b@),
{
    same(&to_lower(a), &to_lower(b))
}

/// A decimal number as it is commonly written: digits, perhaps behind a plus sign.
pub open spec fn number_at_most(s: Seq<char>, max: int) -> Option<int> {
    if s.len() > 0 && s[0] == '+' {
        digits_at_most(s.skip(1), max)
    } else {
        digits_at_most(s, max)
    }
}

pub fn parse_number(s: &str, max: u64) -> (n: Option<u64>)
    ensures
        match n {
            Some(n) => number_at_most(s@, max as int) == Some(n as int),
            None => number_at_most(s@, max as int) is None,
        },
{
    let chars = to_chars(s);
    assert(chars@.subrange(0, chars@.len() as int) =~= s@);
    if chars.len() > 0 && chars[0] == '+' {
        assert(chars@.subrange(1, chars@.len() as int) =~= s@.skip(1));
        parse_digits(&chars, 1, chars.len(), max)
    } else {
        parse_digits(&chars, 0, chars.len(), max)
    }
}

pub open spec fn without_return(line: Seq<char>) -> Seq<char> {
    if line.len() > 0 && line.last() == '\r' {
        line.drop_last()
    } else {
        line
    }
}

/// The lines of `s`: a line ends with a line feed, perhaps behind a carriage return, and the last
/// one may end with the text.
pub open spec fn lines_of(s: Seq<char>) -> Seq<Seq<char>> {
    let parts = split_on(s, '\n');
    let ended = Seq::new(
        (parts.len() - 1) as nat,
        |i: int| without_return(parts[i]),
    );
    if parts.last().len() == 0 {
        ended
    } else {
        ended.push(parts.last())
    }
}

fn strip_return(line: String) -> (r: String)
    ensures
        r@ == without_return(line@),
{
    let chars = to_chars(&line);
    if chars.len() > 0 && chars[chars.len() - 1] == '\r' {
        let r = from_char_range(&chars, 0, chars.len() - 1);
        assert(r@ =~= line@.drop_last());
        r
    } else {
        line
    }
}

pub fn lines(s: &str) -> (lines: Vec<String>)
    ensures
        views(lines@) == lines_of(s@),
{
    let mut parts = split(s, '\n');
    let ghost all = split_on(s@, '\n');
    assert(all.len() == parts@.len());
    assert(all.last() == parts@.last()@);
    let mut lines: Vec<String> = Vec::new();
    let last = parts.pop();
    let mut i: usize = 0;
    while i < parts.len()
        invariant
            i <= parts@.len(),
            all.len() == parts@.len() + 1,
            forall|k: int| 0 <= k < parts@.len() ==> #[trigger] parts@[k]@ == all[k],
            views(lines@) == Seq::new(i as nat, |k: int| without_return(all[k])),
        decreases parts@.len() - i,
    {
        let ghost before = views(lines@);
        let line = strip_return(parts[i].clone());
        let ghost added = line@;
        lines.push(line);
        assert(views(lines@) =~= before.push(added));
        i += 1;
        assert(views(lines@) =~= Seq::new(i as nat, |k: int| without_return(all[k])));
    }
    if let Some(last) = last {
        if !last.as_str().is_empty() {
            let ghost before = views(lines@);
            let ghost added = last@;
            lines.push(last);
            assert(views(lines@) =~= before.push(added));
        }
    }
    assert(views(lines@) =~= lines_of(s@));
    lines
}

/// The parts that are not empty.
pub open spec fn filled(parts: Seq<Seq<char>>) -> Seq<Seq<char>>
    decreases parts.len(),
{
    if parts.len() == 0 {
        Seq::empty()
    } else if parts.last().len() == 0 {
        filled(parts.drop_last())
    } else {
        filled(parts.drop_last()).push(parts.last())
    }
}

/// The words of `s`: what stands between white space.
pub open spec fn words_of(s: Seq<char>) -> Seq<Seq<char>> {
    filled(split_on(s.map_values(|c: char| if is_white_space(c) { ' ' } else { c }), ' '))
}

pub fn words(s: &str) -> (words: Vec<String>)
    ensures
        views(words@) == words_of(s@),
{
    let chars = to_chars(s);
    let ghost spaced_view = s@.map_values(|c: char| if is_white_space(c) { ' ' } else { c });
    let mut spaced = String::new();
    let mut i: usize = 0;
    while i < chars.len()
        invariant
            i <= chars@.len(),
            chars@ == s@,
            spaced_view == s@.map_values(|c: char| if is_white_space(c) { ' ' } else { c }),
            spaced@ == spaced_view.take(i as int),
        decreases chars@.len() - i,
    {
        spaced.push(if white_space(chars[i]) { ' ' } else { chars[i] });
        i += 1;
        assert(spaced@ =~= spaced_view.take(i as int));
    }
    assert(spaced@ =~= spaced_view);
    let parts = split(&spaced, ' ');
    let ghost all = views(parts@);
    let mut words: Vec<String> = Vec::new();
    let mut k: usize = 0;
    assert(views(words@) =~= filled(all.take(0)));
    while k < parts.len()
        invariant
            k <= parts@.len(),
            all == views(parts@),
            views(words@) == filled(all.take(k as int)),
        decreases parts@.len() - k,
    {
        let ghost before = views(words@);
        let part = parts[k].clone();
        proof {
            assert(all.take(k as int + 1).drop_last() =~= all.take(k as int));
            assert(all.take(k as int + 1).last() == part@);
        }
        if !part.as_str().is_empty() {
            let ghost added = part@;
            words.push(part);
            assert(views(words@) =~= before.push(added));
        }
        k += 1;
    }
    assert(all.take(k as int) =~= all);
    words
}

/// Whether `v` holds the text `s`.
pub fn list_contains(v: &Vec<String>, s: &str) -> (b: bool)
    ensures
        b == views(v@).contains(s@),
{
    let mut i: usize = 0;
    while i < v.len()
        invariant
            i <= v@.len(),
            forall|k: int| 0 <= k < i ==> views(v@)[k] != s@,
        decreases v@.len() - i,
    {
        assert(views(v@)[i as int] == v@[i as int]@);
        if same(&v[i], s) {
            return true;
        }
        i += 1;
    }
    false
}

/// `a` stands before `b` in the order of their characters, or is the same.
pub open spec fn in_order(a: Seq<char>, b: Seq<char>) -> bool
    decreases a.len(),
{
    if a.len() == 0 {
        true
    } else if b.len() == 0 {
        false
    } else if a[0] != b[0] {
        a[0] < b[0]
    } else {
        in_order(a.drop_first(), b.drop_first())
    }
}

pub fn ordered(a: &str, b: &str) -> (r: bool)
    ensures
        r == in_order(a@, b@),
{
    let x = to_chars(a);
    let y = to_chars(b);
    let mut i: usize = 0;
    assert(x@.skip(0) =~= a@ && y@.skip(0) =~= b@);
    while i < x.len() && i < y.len() && x[i] == y[i]
        invariant
            i <= x@.len(),
            i <= y@.len(),
            in_order(a@, b@) == in_order(x@.skip(i as int), y@.skip(i as int)),
        decreases x@.len() - i,
    {
        assert(x@.skip(i as int).drop_first() =~= x@.skip(i as int + 1));
        assert(y@.skip(i as int).drop_first() =~= y@.skip(i as int + 1));
        i += 1;
    }
    if i == x.len() {
        true
    } else if i == y.len() {
        false
    } else {
        x[i] < y[i]
    }
}

pub proof fn lemma_order_total(a: Seq<char>, b: Seq<char>)
    ensures
        in_order(a, b) || in_order(b, a),
    decreases a.len(),
{
    if a.len() > 0 && b.len() > 0 && a[0] == b[0] {
        lemma_order_total(a.drop_first(), b.drop_first());
    }
}

pub proof fn lemma_order_transitive(a: Seq<char>, b: Seq<char>, c: Seq<char>)
    requires
        in_order(a, b),
        in_order(b, c),
    ensures
        in_order(a, c),
    decreases a.len(),
{
    if a.len() > 0 && b.len() > 0 && c.len() > 0 && a[0] == b[0] && b[0] == c[0] {
        lemma_order_transitive(a.drop_first(), b.drop_first(), c.drop_first());
    }
}

/// `s` from its place `i` on, with `t` for every `p` that is met from left to right.
pub open spec fn replaced_from(s: Seq<char>, p: Seq<char>, t: Seq<char>, i: int) -> Seq<char>
    decreases s.len() - i,
{
    if i >= s.len() || i < 0 {
        Seq::empty()
    } else if p.len() > 0 && stands_at(s, p, i) {
        t + replaced_from(s, p, t, i + p.len())
    } else {
        seq![s[i]] + replaced_from(s, p, t, i + 1)
    }
}

/// `s` with `t` in place of every `p`.
pub open spec fn replaced(s: Seq<char>, p: Seq<char>, t: Seq<char>) -> Seq<char> {
    replaced_from(s, p, t, 0)
}

/// `s` with `t` in place of every `p`.
pub fn replace(s: &str, p: &str, t: &str) -> (r: String)
    ensures
        r@ == replaced(s@, p@, t@),
{
    let chars = to_chars(s);
    let pattern = to_chars(p);
    let mut r = String::new();
    let mut i: usize = 0;
    assert(r@ + replaced(s@, p@, t@) =~= replaced(s@, p@, t@));
    while i < chars.len()
        invariant
            i <= chars@.len(),
            chars@ == s@,
            pattern@ == p@,
            r@ + replaced_from(s@, p@, t@, i as int) == replaced(s@, p@, t@),
        decreases chars@.len() - i,
    {
        let ghost before = r@;
        if pattern.len() > 0 && matches_at(&chars, &pattern, i) {
            r.append(t);
            proof {
                let rest = replaced_from(s@, p@, t@, i + p@.len());
                assert(before + (t@ + rest) =~= (before + t@) + rest);
            }
            i += pattern.len();
        } else {
            r.push(chars[i]);
            proof {
                let rest = replaced_from(s@, p@, t@, i + 1);
                assert(before + (seq![s@[i as int]] + rest) =~= before.push(s@[i as int]) + rest);
            }
            i += 1;
        }
    }
    assert(r@ + Seq::<char>::empty() =~= r@);
    r
}

/// Where `p` does not occur, nothing is replaced.
pub proof fn lemma_nothing_to_replace(s: Seq<char>, p: Seq<char>, t: Seq<char>, i: int)
    requires
        0 <= i <= s.len(),
        !contains_text(s, p),
    ensures
        replaced_from(s, p, t, i) == s.skip(i),
    decreases s.len() - i,
{
    if i < s.len() {
        lemma_nothing_to_replace(s, p, t, i + 1);
        assert(s.skip(i) =~= seq![s[i]] + s.skip(i + 1));
    } else {
        assert(s.skip(i) =~= Seq::<char>::empty());
    }
}

/// Characters are Unicode scalar values.
pub proof fn lemma_char_is_scalar(c: char)
    ensures
        0 <= c as int <= 0x10ffff,
        !(0xd800 <= c as int <= 0xdfff),
        c as u32 as int == c as int,
        (c as int) as char == c,
{
}

/// A character in UTF-16.
pub open spec fn utf16_units(c: char) -> Seq<u16> {
    let n = c as int;
    if n < 0x10000 {
        seq![n as u16]
    } else {
        seq![
            (0xd800 + (n - 0x10000) / 0x400) as u16,
            (0xdc00 + (n - 0x10000) % 0x400) as u16,
        ]
    }
}

/// A text in UTF-16.
pub open spec fn utf16_of(s: Seq<char>) -> Seq<u16>
    decreases s.len(),
{
    if s.len() == 0 {
        Seq::empty()
    } else {
        utf16_of(s.drop_last()) + utf16_units(s.last())
    }
}

pub fn encode_utf16(s: &str) -> (units: Vec<u16>)
    ensures
        units@ == utf16_of(s@),
{
    let chars = to_chars(s);
    let mut units: Vec<u16> = Vec::new();
    let mut i: usize = 0;
    assert(s@.take(0) =~= Seq::<char>::empty());
    while i < chars.len()
        invariant
            i <= chars@.len(),
            chars@ == s@,
            units@ == utf16_of(s@.take(i as int)),
        decreases chars@.len() - i,
    {
        let ghost before = units@;
        assert(s@.take(i as int + 1).drop_last() =~= s@.take(i as int));
        let c: char = chars[i];
        let n: u32 = c as u32;
        proof {
            lemma_char_is_scalar(c);
        }
        if n < 0x10000 {
            units.push(n as u16);
            assert(units@ =~= before + utf16_units(s@[i as int]));
        } else {
            units.push((0xd800 + (n - 0x10000) / 0x400) as u16);
            units.push((0xdc00 + (n - 0x10000) % 0x400) as u16);
            assert(units@ =~= before + utf16_units(s@[i as int]));
        }
        i += 1;
    }
    assert(s@.take(i as int) =~= s@);
    units
}

/// A text in UTF-16 with a zero behind it.
pub fn wide(s: &str) -> (units: Vec<u16>)
    ensures
        units@ == utf16_of(s@).push(0),
{
    let mut units = encode_utf16(s);
    units.push(0);
    units
}

/// The first half of a pair of UTF-16 units.
pub open spec fn is_high(unit: u16) -> bool {
    0xd800 <= unit < 0xdc00
}

/// The second half of a pair of UTF-16 units.
pub open spec fn is_low(unit: u16) -> bool {
    0xdc00 <= unit < 0xe000
}

/// The text that UTF-16 units write; a half without its other half is a replacement character.
pub open spec fn utf16_text(units: Seq<u16>) -> Seq<char>
    decreases units.len(),
{
    if units.len() == 0 {
        Seq::empty()
    } else if is_high(units[0]) && units.len() > 1 && is_low(units[1]) {
        seq![(0x10000 + (units[0] - 0xd800) * 0x400 + (units[1] - 0xdc00)) as char] + utf16_text(
            units.skip(2),
        )
    } else if is_high(units[0]) || is_low(units[0]) {
        seq!['\u{fffd}'] + utf16_text(units.skip(1))
    } else {
        seq![units[0] as char] + utf16_text(units.skip(1))
    }
}

/// The number of a Unicode scalar value: any up to 0x10ffff that is no half of a UTF-16 pair.
pub open spec fn is_scalar(n: u32) -> bool {
    n < 0xd800 || 0xe000 <= n <= 0x10ffff
}

/// `char::from_u32` gives the character with that number, where there is one.
pub assume_specification[ char::from_u32 ](n: u32) -> (c: Option<char>)
    ensures
        c is Some <==> is_scalar(n),
        c matches Some(c) ==> c as u32 == n,
;

fn scalar(n: u32) -> (c: char)
    requires
        is_scalar(n),
    ensures
        c as u32 == n,
{
    match char::from_u32(n) {
        Some(c) => c,
        None => '\u{fffd}',
    }
}

/// The text that the first `end` UTF-16 units write.
pub fn decode_utf16(units: &Vec<u16>, end: usize) -> (s: String)
    requires
        end <= units@.len(),
    ensures
        s@ == utf16_text(units@.take(end as int)),
{
    let ghost all = units@.take(end as int);
    let mut s = String::new();
    let mut i: usize = 0;
    assert(all.skip(0) =~= all);
    assert(s@ + utf16_text(all) =~= utf16_text(all));
    while i < end
        invariant
            i <= end <= units@.len(),
            all == units@.take(end as int),
            s@ + utf16_text(all.skip(i as int)) == utf16_text(all),
        decreases end - i,
    {
        let ghost before = s@;
        let ghost rest = all.skip(i as int);
        let first: u16 = units[i];
        assert(rest[0] == first);
        let high = 0xd800 <= first && first < 0xdc00;
        if high && i + 1 < end && 0xdc00 <= units[i + 1] && units[i + 1] < 0xe000 {
            let second: u16 = units[i + 1];
            assert(rest[1] == second);
            let n: u32 = 0x10000 + (first as u32 - 0xd800) * 0x400 + (second as u32 - 0xdc00);
            let c: char = scalar(n);
            s.push(c);
            proof {
                let tail = utf16_text(all.skip(i as int + 2));
                assert(rest.skip(2) =~= all.skip(i as int + 2));
                assert(before + (seq![c] + tail) =~= before.push(c) + tail);
            }
            i += 2;
        } else {
            let lone = 0xd800 <= first && first < 0xe000;
            let c: char = if lone {
                '\u{fffd}'
            } else {
                scalar(first as u32)
            };
            s.push(c);
            proof {
                let tail = utf16_text(all.skip(i as int + 1));
                assert(rest.skip(1) =~= all.skip(i as int + 1));
                assert(before + (seq![c] + tail) =~= before.push(c) + tail);
            }
            i += 1;
        }
    }
    assert(all.skip(i as int) =~= Seq::<u16>::empty());
    assert(s@ + Seq::<char>::empty() =~= s@);
    s
}

/// What UTF-16 writes, it reads back.
pub proof fn law_utf16_round_trip(s: Seq<char>)
    ensures
        utf16_text(utf16_of(s)) == s,
    decreases s.len(),
{
    lemma_utf16_append(s, Seq::empty());
    assert(utf16_of(s) + Seq::<u16>::empty() =~= utf16_of(s));
    assert(s + Seq::<char>::empty() =~= s);
}

proof fn lemma_utf16_append(s: Seq<char>, rest: Seq<u16>)
    ensures
        utf16_text(utf16_of(s) + rest) == s + utf16_text(rest),
    decreases s.len(),
{
    if s.len() == 0 {
        assert(utf16_of(s) + rest =~= rest);
        assert(s + utf16_text(rest) =~= utf16_text(rest));
    } else {
        let front = s.drop_last();
        let last = s.last();
        let units = utf16_units(last);
        lemma_char_is_scalar(last);
        lemma_utf16_append(front, units + rest);
        assert(utf16_of(s) + rest =~= utf16_of(front) + (units + rest));
        let all = units + rest;
        if (last as int) < 0x10000 {
            assert(all.skip(1) =~= rest);
            assert(all[0] == units[0]);
            assert(utf16_text(all) =~= seq![last] + utf16_text(rest));
        } else {
            assert(all.skip(2) =~= rest);
            assert(all[0] == units[0] && all[1] == units[1]);
            assert(utf16_text(all) =~= seq![last] + utf16_text(rest));
        }
        assert(s + utf16_text(rest) =~= front + (seq![last] + utf16_text(rest)));
    }
}

/// A number that is written out reads back as that number, so no two numbers are written alike.
pub proof fn law_written_numbers_read_back(n: nat, max: int)
    ensures
        all_digits(decimal(n)),
        n <= max ==> number_at_most(decimal(n), max) == Some(n as int),
        n > max ==> number_at_most(decimal(n), max) is None,
        n <= max ==> number_at_most(seq!['+'] + decimal(n), max) == Some(n as int),
        decimal(n).len() > 1 ==> decimal(n)[0] != '0',
        forall|m: nat| #[trigger] decimal(m) == decimal(n) ==> m == n,
        n > 0 ==> decimal_int(-n) == seq!['-'] + decimal(n),
        decimal_int(n as int) == decimal(n),
{
    lemma_decimal_digits(n);
    lemma_no_leading_zero(n);
    assert(is_digit(decimal(n)[0]));
    assert((seq!['+'] + decimal(n)).skip(1) =~= decimal(n));
    assert forall|m: nat| #[trigger] decimal(m) == decimal(n) implies m == n by {
        lemma_decimal_digits(m);
    }
}

proof fn lemma_no_leading_zero(n: nat)
    ensures
        decimal(n).len() > 0,
        n > 0 ==> decimal(n)[0] != '0',
        decimal(n).len() > 1 ==> n > 0,
    decreases n,
{
    if n >= 10 {
        lemma_no_leading_zero(n / 10);
    }
}

/// Filling up with zeros changes the width and not the number.
pub proof fn law_padding_keeps_the_number(n: nat, width: nat)
    ensures
        padded(n, width).len() >= width,
        digits_value(padded(n, width)) == n,
        decimal(n).len() >= width ==> padded(n, width) == decimal(n),
        decimal(n).len() < width ==> padded(n, width).len() == width && padded(n, width)[0] == '0',
{
    lemma_padded_digits(n, width);
}

/// What trimming takes away is white space at the two ends, and all of it.
pub proof fn law_trimming_takes_the_white_space_around(s: Seq<char>)
    ensures
        exists|from: int, to: int|
            {
                &&& 0 <= from <= to <= s.len()
                &&& trimmed(s) == #[trigger] s.subrange(from, to)
                &&& forall|i: int| 0 <= i < from ==> is_white_space(#[trigger] s[i])
                &&& forall|i: int| to <= i < s.len() ==> is_white_space(#[trigger] s[i])
            },
        trimmed(s).len() > 0 ==> !is_white_space(trimmed(s)[0]) && !is_white_space(
            trimmed(s).last(),
        ),
        trimmed(trimmed(s)) == trimmed(s),
{
    let from = lemma_trimmed_start(s);
    let rest = s.skip(from);
    let to = lemma_trimmed_end(rest);
    assert(rest.take(to) =~= s.subrange(from, from + to));
    assert forall|i: int| from + to <= i < s.len() implies is_white_space(#[trigger] s[i]) by {
        assert(rest[i - from] == s[i]);
    }
    assert(trimmed(s) == s.subrange(from, from + to));
    if to > 0 {
        assert(rest[0] == s[from]);
        lemma_trimmed_is_itself(trimmed(s));
    } else {
        assert(trimmed(s) =~= Seq::<char>::empty());
    }
}

proof fn lemma_trimmed_start(s: Seq<char>) -> (n: int)
    ensures
        0 <= n <= s.len(),
        trimmed_start(s) == s.skip(n),
        forall|i: int| 0 <= i < n ==> is_white_space(#[trigger] s[i]),
        n < s.len() ==> !is_white_space(s[n]),
    decreases s.len(),
{
    if s.len() > 0 && is_white_space(s[0]) {
        let rest = s.drop_first();
        let n = lemma_trimmed_start(rest);
        assert(rest.skip(n) =~= s.skip(n + 1));
        assert forall|i: int| 0 <= i < n + 1 implies is_white_space(#[trigger] s[i]) by {
            if i > 0 {
                assert(rest[i - 1] == s[i]);
            }
        }
        n + 1
    } else {
        assert(s.skip(0) =~= s);
        0
    }
}

proof fn lemma_trimmed_end(s: Seq<char>) -> (n: int)
    ensures
        0 <= n <= s.len(),
        trimmed_end(s) == s.take(n),
        forall|i: int| n <= i < s.len() ==> is_white_space(#[trigger] s[i]),
        n > 0 ==> !is_white_space(s[n - 1]),
    decreases s.len(),
{
    if s.len() > 0 && is_white_space(s.last()) {
        let rest = s.drop_last();
        let n = lemma_trimmed_end(rest);
        assert(rest.take(n) =~= s.take(n));
        assert forall|i: int| n <= i < s.len() implies is_white_space(#[trigger] s[i]) by {
            if i < rest.len() {
                assert(rest[i] == s[i]);
            }
        }
        n
    } else {
        assert(s.take(s.len() as int) =~= s);
        s.len() as int
    }
}

/// The parts with `sep` between them.
pub open spec fn joined_with(parts: Seq<Seq<char>>, sep: char) -> Seq<char>
    decreases parts.len(),
{
    if parts.len() == 0 {
        Seq::empty()
    } else if parts.len() == 1 {
        parts[0]
    } else {
        joined_with(parts.drop_last(), sep).push(sep) + parts.last()
    }
}

/// Splitting is undone by joining, and no part holds the separator.
pub proof fn law_split_parts_join(s: Seq<char>, sep: char)
    ensures
        split_on(s, sep).len() > 0,
        joined_with(split_on(s, sep), sep) == s,
        forall|i: int|
            0 <= i < split_on(s, sep).len() ==> !(#[trigger] split_on(s, sep)[i]).contains(sep),
    decreases s.len(),
{
    let parts = split_on(s, sep);
    if s.len() > 0 {
        let head = s.drop_last();
        let before = split_on(head, sep);
        law_split_parts_join(head, sep);
        assert(s =~= head.push(s.last()));
        if s.last() == sep {
            assert(parts.drop_last() =~= before);
            assert(joined_with(parts, sep) =~= s);
            assert forall|i: int| 0 <= i < parts.len() implies !(#[trigger] parts[i]).contains(
                sep,
            ) by {
                if i < before.len() {
                    assert(parts[i] == before[i]);
                }
            }
        } else {
            assert(parts.drop_last() =~= before.drop_last());
            assert(parts.last() =~= before.last().push(s.last()));
            if before.len() > 1 {
                assert(joined_with(parts, sep) =~= joined_with(before, sep).push(s.last()));
            }
            assert(joined_with(parts, sep) =~= s);
            assert forall|i: int| 0 <= i < parts.len() implies !(#[trigger] parts[i]).contains(
                sep,
            ) by {
                if i < before.len() - 1 {
                    assert(parts[i] == before[i]);
                } else {
                    let last = before[before.len() - 1];
                    assert(!last.contains(sep));
                    assert forall|k: int| 0 <= k < parts[i].len() implies parts[i][k] != sep by {
                        if k < last.len() {
                            assert(last[k] == parts[i][k]);
                            assert(last[k] != sep);
                        }
                    }
                }
            }
        }
    }
}

/// A place that is found is one where the text stands, and there is none before it, or behind it
/// where the last one is looked for. Where none is found, the text stands nowhere.
pub proof fn law_places_are_the_first_and_the_last(s: Seq<char>, p: Seq<char>)
    ensures
        match first_place(s, p) {
            Some(i) => stands_at(s, p, i) && forall|k: int| 0 <= k < i ==> !#[trigger] stands_at(s, p, k),
            None => !contains_text(s, p),
        },
        match last_place(s, p) {
            Some(i) => stands_at(s, p, i) && forall|k: int| k > i ==> !#[trigger] stands_at(s, p, k),
            None => !contains_text(s, p),
        },
{
    lemma_find_from(s, p, 0);
    lemma_find_back(s, p, s.len() - p.len());
}

proof fn lemma_find_from(s: Seq<char>, p: Seq<char>, i: int)
    requires
        0 <= i,
    ensures
        match find_from(s, p, i) {
            Some(n) => i <= n && stands_at(s, p, n) && forall|k: int|
                i <= k < n ==> !#[trigger] stands_at(s, p, k),
            None => forall|k: int| i <= k ==> !#[trigger] stands_at(s, p, k),
        },
    decreases s.len() + 1 - i,
{
    if i + p.len() <= s.len() && !stands_at(s, p, i) {
        lemma_find_from(s, p, i + 1);
    }
}

proof fn lemma_find_back(s: Seq<char>, p: Seq<char>, i: int)
    ensures
        match find_back(s, p, i) {
            Some(n) => n <= i && stands_at(s, p, n) && forall|k: int|
                n < k <= i ==> !#[trigger] stands_at(s, p, k),
            None => forall|k: int| k <= i ==> !#[trigger] stands_at(s, p, k),
        },
    decreases i + 1,
{
    if i >= 0 && !stands_at(s, p, i) {
        lemma_find_back(s, p, i - 1);
    }
}

/// Lower case keeps every character but the upper-case ASCII letters, and settles. Texts that differ
/// in the case of such letters only are the same but for case.
pub proof fn law_lower_case_settles(s: Seq<char>)
    ensures
        lowered(s).len() == s.len(),
        lowered(lowered(s)) == lowered(s),
        same_but_case(s, lowered(s)),
        forall|i: int|
            0 <= i < s.len() && !('A' <= s[i] <= 'Z') ==> #[trigger] lowered(s)[i] == s[i],
        forall|i: int| 0 <= i < s.len() ==> !('A' <= #[trigger] lowered(s)[i] <= 'Z'),
        lower('A') == 'a',
        lower('Z') == 'z',
{
    assert(lowered(lowered(s)) =~= lowered(s));
}

/// The order of texts is one: what comes before the other way round too is the same.
pub proof fn law_order_is_strict(a: Seq<char>, b: Seq<char>)
    requires
        in_order(a, b),
        in_order(b, a),
    ensures
        a == b,
    decreases a.len(),
{
    if a.len() > 0 && b.len() > 0 {
        law_order_is_strict(a.drop_first(), b.drop_first());
        assert(a =~= seq![a[0]] + a.drop_first());
        assert(b =~= seq![b[0]] + b.drop_first());
    } else {
        assert(a =~= b);
    }
}

/// A word has no white space in it, and something else.
pub proof fn law_words_hold_no_white_space(s: Seq<char>)
    ensures
        forall|i: int, k: int|
            0 <= i < words_of(s).len() && 0 <= k < words_of(s)[i].len() ==> !is_white_space(
                #[trigger] words_of(s)[i][k],
            ),
        forall|i: int| 0 <= i < words_of(s).len() ==> (#[trigger] words_of(s)[i]).len() > 0,
{
    let spaced = s.map_values(|c: char| if is_white_space(c) { ' ' } else { c });
    law_split_parts_join(spaced, ' ');
    let parts = split_on(spaced, ' ');
    assert forall|c: char| #[trigger] spaced.contains(c) && is_white_space(c) implies c == ' ' by {
        let k = choose|k: int| 0 <= k < spaced.len() && spaced[k] == c;
        assert(spaced[k] == if is_white_space(s[k]) {
            ' '
        } else {
            s[k]
        });
    }
    lemma_parts_come_from(spaced, ' ');
    lemma_filled(parts);
    assert forall|i: int, k: int|
        0 <= i < words_of(s).len() && 0 <= k < words_of(s)[i].len() implies !is_white_space(
        #[trigger] words_of(s)[i][k],
    ) by {
        let word = words_of(s)[i];
        assert(parts.contains(word));
        let j = choose|j: int| 0 <= j < parts.len() && parts[j] == word;
        assert(!parts[j].contains(' '));
        assert(spaced.contains(parts[j][k]));
        assert(parts[j].contains(parts[j][k]));
    }
}

proof fn lemma_parts_come_from(s: Seq<char>, sep: char)
    ensures
        forall|i: int, k: int|
            0 <= i < split_on(s, sep).len() && 0 <= k < split_on(s, sep)[i].len() ==> s.contains(
                #[trigger] split_on(s, sep)[i][k],
            ),
    decreases s.len(),
{
    if s.len() > 0 {
        let head = s.drop_last();
        let before = split_on(head, sep);
        let parts = split_on(s, sep);
        lemma_parts_come_from(head, sep);
        lemma_split_len(head, sep);
        assert forall|c: char| #[trigger] head.contains(c) implies s.contains(c) by {
            let n = choose|n: int| 0 <= n < head.len() && head[n] == c;
            assert(s[n] == c);
        }
        assert forall|i: int, k: int|
            0 <= i < parts.len() && 0 <= k < parts[i].len() implies s.contains(
            #[trigger] parts[i][k],
        ) by {
            if i < before.len() && k < before[i].len() {
                assert(parts[i][k] == before[i][k]);
                assert(head.contains(before[i][k]));
            } else {
                assert(s[s.len() - 1] == parts[i][k]);
            }
        }
    }
}

proof fn lemma_filled(parts: Seq<Seq<char>>)
    ensures
        forall|i: int|
            0 <= i < filled(parts).len() ==> (#[trigger] filled(parts)[i]).len() > 0
                && parts.contains(filled(parts)[i]),
    decreases parts.len(),
{
    if parts.len() > 0 {
        let head = parts.drop_last();
        lemma_filled(head);
        assert forall|i: int| 0 <= i < filled(parts).len() implies (
        #[trigger] filled(parts)[i]).len() > 0 && parts.contains(filled(parts)[i]) by {
            if i < filled(head).len() {
                assert(filled(parts)[i] == filled(head)[i]);
                let k = choose|k: int| 0 <= k < head.len() && head[k] == filled(head)[i];
                assert(parts[k] == head[k]);
            } else {
                assert(parts[parts.len() - 1] == filled(parts)[i]);
            }
        }
    }
}

proof fn lemma_replaced_from_rest(s: Seq<char>, p: Seq<char>, t: Seq<char>, i: int, n: int)
    requires
        0 <= n <= i <= s.len(),
    ensures
        replaced_from(s, p, t, i) == replaced_from(s.skip(n), p, t, i - n),
    decreases s.len() - i,
{
    if i < s.len() {
        let rest = s.skip(n);
        if i + p.len() <= s.len() {
            assert(s.subrange(i, i + p.len()) =~= rest.subrange(i - n, i - n + p.len()));
        }
        if p.len() > 0 && stands_at(s, p, i) {
            lemma_replaced_from_rest(s, p, t, (i + p.len()) as int, n);
        } else {
            lemma_replaced_from_rest(s, p, t, i + 1, n);
        }
    }
}

proof fn lemma_replaced_up_to(s: Seq<char>, p: Seq<char>, t: Seq<char>, i: int, k: int)
    requires
        0 <= i <= k < s.len(),
        forall|j: int| i <= j < k ==> !#[trigger] stands_at(s, p, j),
    ensures
        replaced_from(s, p, t, i) == s.subrange(i, k) + replaced_from(s, p, t, k),
    decreases k - i,
{
    if i < k {
        lemma_replaced_up_to(s, p, t, i + 1, k);
        assert(!stands_at(s, p, i));
        assert(s.subrange(i, k) =~= seq![s[i]] + s.subrange(i + 1, k));
        assert(replaced_from(s, p, t, i) =~= s.subrange(i, k) + replaced_from(s, p, t, k));
    } else {
        assert(s.subrange(i, k) =~= Seq::<char>::empty());
        assert(replaced_from(s, p, t, i) =~= s.subrange(i, k) + replaced_from(s, p, t, k));
    }
}

/// The first place of a pattern is replaced, what stands before it is kept, and with what stands
/// behind it the same goes on.
pub proof fn law_the_first_place_is_replaced(
    s: Seq<char>,
    p: Seq<char>,
    t: Seq<char>,
    k: int,
)
    requires
        p.len() > 0,
        stands_at(s, p, k),
        forall|j: int| 0 <= j < k ==> !#[trigger] stands_at(s, p, j),
    ensures
        replaced(s, p, t) == s.take(k) + t + replaced(s.skip(k + p.len()), p, t),
{
    lemma_replaced_up_to(s, p, t, 0, k);
    lemma_replaced_from_rest(s, p, t, (k + p.len()) as int, (k + p.len()) as int);
    assert(s.subrange(0, k) =~= s.take(k));
    assert(replaced(s, p, t) =~= s.take(k) + t + replaced(s.skip(k + p.len()), p, t));
}

/// A pattern in place of itself changes nothing, and neither does a pattern that does not occur.
pub proof fn law_replacing_by_the_same_keeps(s: Seq<char>, p: Seq<char>, t: Seq<char>)
    ensures
        replaced(s, p, p) == s,
        !contains_text(s, p) ==> replaced(s, p, t) == s,
{
    lemma_replacing_by_the_same(s, p, 0);
    assert(s.skip(0) =~= s);
    if !contains_text(s, p) {
        lemma_nothing_to_replace(s, p, t, 0);
    }
}

proof fn lemma_replacing_by_the_same(s: Seq<char>, p: Seq<char>, i: int)
    requires
        0 <= i <= s.len(),
    ensures
        replaced_from(s, p, p, i) == s.skip(i),
    decreases s.len() - i,
{
    if i < s.len() {
        if p.len() > 0 && stands_at(s, p, i) {
            lemma_replacing_by_the_same(s, p, (i + p.len()) as int);
            assert(s.skip(i) =~= s.subrange(i, i + p.len()) + s.skip(i + p.len()));
        } else {
            lemma_replacing_by_the_same(s, p, i + 1);
            assert(s.skip(i) =~= seq![s[i]] + s.skip(i + 1));
        }
    } else {
        assert(s.skip(i) =~= Seq::<char>::empty());
    }
}

} // verus!
