//! Plain text building blocks: decimal rendering of integers and joining of
//! string pieces with a separator.
use vstd::prelude::*;

verus! {

/// The character of a decimal digit `d` (`0 <= d < 10`).
pub open spec fn digit_char(d: int) -> char {
    if d == 0 { '0' }
    else if d == 1 { '1' }
    else if d == 2 { '2' }
    else if d == 3 { '3' }
    else if d == 4 { '4' }
    else if d == 5 { '5' }
    else if d == 6 { '6' }
    else if d == 7 { '7' }
    else if d == 8 { '8' }
    else { '9' }
}

/// The decimal digits of a natural number, most significant first, without
/// leading zeros (zero itself is `"0"`).
pub open spec fn nat_decimal(n: nat) -> Seq<char>
    decreases n,
{
    if n < 10 {
        seq![digit_char(n as int)]
    } else {
        nat_decimal(n / 10).push(digit_char((n % 10) as int))
    }
}

/// The decimal rendering of an integer as Rust's `Display` for integers writes it.
pub open spec fn int_decimal(n: int) -> Seq<char> {
    if n < 0 {
        seq!['-'] + nat_decimal((-n) as nat)
    } else {
        nat_decimal(n as nat)
    }
}

/// Pieces joined with a separator between consecutive pieces.
pub open spec fn join_seq(pieces: Seq<Seq<char>>, sep: Seq<char>) -> Seq<char>
    decreases pieces.len(),
{
    if pieces.len() == 0 {
        Seq::empty()
    } else if pieces.len() == 1 {
        pieces[0]
    } else {
        join_seq(pieces.drop_last(), sep) + sep + pieces.last()
    }
}

/// The views of a vector of strings.
pub open spec fn string_views(v: Seq<String>) -> Seq<Seq<char>> {
    v.map_values(|s: String| s@)
}

fn push_digit(s: &mut String, d: u64)
    requires
        d < 10,
    ensures
        final(s)@ == old(s)@.push(digit_char(d as int)),
{
    proof {
        reveal_strlit("0");
        reveal_strlit("1");
        reveal_strlit("2");
        reveal_strlit("3");
        reveal_strlit("4");
        reveal_strlit("5");
        reveal_strlit("6");
        reveal_strlit("7");
        reveal_strlit("8");
        reveal_strlit("9");
    }
    if d == 0 {
        s.append("0");
    } else if d == 1 {
        s.append("1");
    } else if d == 2 {
        s.append("2");
    } else if d == 3 {
        s.append("3");
    } else if d == 4 {
        s.append("4");
    } else if d == 5 {
        s.append("5");
    } else if d == 6 {
        s.append("6");
    } else if d == 7 {
        s.append("7");
    } else if d == 8 {
        s.append("8");
    } else {
        s.append("9");
    }
}

/// Appends the decimal digits of `n` to `s`.
fn push_nat_decimal(s: &mut String, n: u64)
    ensures
        final(s)@ == old(s)@ + nat_decimal(n as nat),
    decreases n,
{
    if n < 10 {
        push_digit(s, n);
    } else {
        push_nat_decimal(s, n / 10);
        push_digit(s, n % 10);
        assert(nat_decimal(n as nat) == nat_decimal((n / 10) as nat).push(digit_char((n % 10) as int)));
    }
}

/// Renders an integer in decimal, as `i64`'s `Display` writes it.
pub fn format_i64(n: i64) -> (s: String)
    ensures
        s@ == int_decimal(n as int),
{
    let mut s = String::new();
    if n < 0 {
        proof { reveal_strlit("-"); }
        s.append("-");
        let m: u64 = ((-(n + 1)) as u64) + 1;
        push_nat_decimal(&mut s, m);
    } else {
        push_nat_decimal(&mut s, n as u64);
    }
    assert(s@ =~= int_decimal(n as int));
    s
}

/// Joins the strings with `sep` between consecutive ones.
pub fn join_strings(parts: &Vec<String>, sep: &str) -> (s: String)
    ensures
        s@ == join_seq(string_views(parts@), sep@),
{
    let mut s = String::new();
    let ghost views = string_views(parts@);
    let mut i: usize = 0;
    while i < parts.len()
        invariant
            i <= parts.len(),
            views == string_views(parts@),
            s@ == join_seq(views.take(i as int), sep@),
        decreases parts.len() - i,
    {
        if i > 0 {
            s.append(sep);
        }
        s.append(parts[i].as_str());
        assert(views.take(i + 1).drop_last() =~= views.take(i as int));
        assert(views[i as int] == parts@[i as int]@);
        i = i + 1;
    }
    assert(views.take(parts.len() as int) =~= views);
    s
}

/// Whether two strings hold the same characters.
pub fn str_eq(a: &str, b: &str) -> (eq: bool)
    ensures
        eq == (a@ == b@),
{
    let n = a.unicode_len();
    if n != b.unicode_len() {
        return false;
    }
    let mut i: usize = 0;
    while i < n
        invariant
            n == a@.len(),
            n == b@.len(),
            i <= n,
            forall|j: int| 0 <= j < i ==> a@[j] == b@[j],
        decreases n - i,
    {
        if a.get_char(i) != b.get_char(i) {
            return false;
        }
        i = i + 1;
    }
    assert(a@ =~= b@);
    true
}

/// Ten to the power `k`.
pub open spec fn pow10(k: nat) -> int
    decreases k,
{
    if k == 0 { 1 } else { 10 * pow10((k - 1) as nat) }
}

/// The number of decimal places of the integer part of an amount: the
/// number of digits of `n`, and 1 for any `n` below 10 (negatives included).
pub open spec fn spec_places(n: int) -> int
    decreases n,
{
    if n < 10 { 1 } else { 1 + spec_places(n / 10) }
}

/// Counts the decimal places of `n` by dividing by ten while it is at least
/// ten.
pub fn integer_places(n: i64) -> (places: i64)
    ensures
        places == spec_places(n as int),
        1 <= places <= 19,
{
    proof {
        reveal_with_fuel(pow10, 20);
        assert(pow10(19) == 10000000000000000000);
        lemma_places_le(n as int, 19);
    }
    let mut ipart = n;
    let mut places: i64 = 1;
    while ipart >= 10
        invariant
            spec_places(n as int) == places - 1 + spec_places(ipart as int),
            spec_places(n as int) <= 19,
            1 <= places,
        decreases ipart,
    {
        proof { lemma_places_pos(ipart as int / 10); }
        places = places + 1;
        ipart = ipart / 10;
    }
    places
}

proof fn lemma_places_pos(n: int)
    ensures
        spec_places(n) >= 1,
    decreases n,
{
    if n >= 10 {
        lemma_places_pos(n / 10);
    }
}

proof fn lemma_places_le(n: int, k: nat)
    requires
        k >= 1,
        n < pow10(k),
    ensures
        spec_places(n) <= k,
    decreases k,
{
    if n >= 10 {
        if k == 1 {
            reveal_with_fuel(pow10, 2);
            assert(pow10(1) == 10);
        } else {
            let k1 = (k - 1) as nat;
            assert(pow10(k) == 10 * pow10(k1));
            vstd::arithmetic::div_mod::lemma_fundamental_div_mod(n, 10);
            assert(n / 10 < pow10(k1)) by (nonlinear_arith)
                requires n == 10 * (n / 10) + n % 10, 0 <= n % 10, n < 10 * pow10(k1);
            lemma_places_le(n / 10, k1);
        }
    }
}

/// For a positive integer part, the count of places brackets it between
/// powers of ten: `10^(places - 1) <= n < 10^places`.
pub proof fn law_places_bracket(n: int)
    requires
        n >= 1,
    ensures
        pow10((spec_places(n) - 1) as nat) <= n < pow10(spec_places(n) as nat),
    decreases n,
{
    if n >= 10 {
        law_places_bracket(n / 10);
        let p = spec_places(n / 10);
        lemma_places_pos(n / 10);
        assert(spec_places(n) == 1 + p);
        assert(pow10(p as nat) == 10 * pow10((p - 1) as nat));
        assert(pow10((p + 1) as nat) == 10 * pow10(p as nat));
        vstd::arithmetic::div_mod::lemma_fundamental_div_mod(n, 10);
        assert(0 <= n % 10 < 10);
        assert(pow10((p - 1) as nat) <= n / 10 < pow10(p as nat));
        assert(10 * pow10((p - 1) as nat) <= n < 10 * pow10(p as nat)) by (nonlinear_arith)
            requires
                pow10((p - 1) as nat) <= n / 10,
                n / 10 < pow10(p as nat),
                n == 10 * (n / 10) + n % 10,
                0 <= n % 10 < 10;
    } else {
        reveal_with_fuel(pow10, 2);
        assert(pow10(0) == 1);
        assert(pow10(1) == 10);
    }
}

/// The pieces of `s` between occurrences of `sep`, as `str::split` with a
/// one-character pattern yields them: an empty text gives one empty piece,
/// and consecutive separators give empty pieces.
pub open spec fn split_seq(s: Seq<char>, sep: char) -> Seq<Seq<char>>
    decreases s.len(),
{
    if s.len() == 0 {
        seq![Seq::empty()]
    } else {
        let rest = split_seq(s.drop_last(), sep);
        if s.last() == sep {
            rest.push(Seq::empty())
        } else {
            rest.update(rest.len() - 1, rest.last().push(s.last()))
        }
    }
}

proof fn lemma_split_nonempty(s: Seq<char>, sep: char)
    ensures
        split_seq(s, sep).len() >= 1,
    decreases s.len(),
{
    if s.len() > 0 {
        lemma_split_nonempty(s.drop_last(), sep);
    }
}

/// Splits `s` at every occurrence of `sep`.
pub fn split_fields(s: &str, sep: char) -> (fields: Vec<String>)
    ensures
        string_views(fields@) == split_seq(s@, sep),
{
    let n = s.unicode_len();
    let mut fields: Vec<String> = Vec::new();
    let mut start: usize = 0;
    let mut i: usize = 0;
    assert(s@.take(0) =~= Seq::<char>::empty());
    assert(string_views(fields@).push(s@.subrange(0, 0)) =~= split_seq(s@.take(0), sep));
    while i < n
        invariant
            n == s@.len(),
            start <= i <= n,
            string_views(fields@).push(s@.subrange(start as int, i as int)) == split_seq(s@.take(i as int), sep),
        decreases n - i,
    {
        let c = s.get_char(i);
        proof {
            lemma_split_nonempty(s@.take(i as int), sep);
            assert(s@.take(i + 1).drop_last() =~= s@.take(i as int));
        }
        if c == sep {
            let piece = s.substring_char(start, i);
            fields.push(piece.to_owned());
            start = i + 1;
            assert(s@.subrange(start as int, (i + 1) as int) =~= Seq::<char>::empty());
            assert(string_views(fields@).push(s@.subrange(start as int, (i + 1) as int)) =~= split_seq(s@.take(i + 1), sep));
        } else {
            assert(s@.subrange(start as int, (i + 1) as int) =~= s@.subrange(start as int, i as int).push(c));
            assert(string_views(fields@).push(s@.subrange(start as int, (i + 1) as int)) =~= split_seq(s@.take(i + 1), sep));
        }
        i = i + 1;
    }
    let last = s.substring_char(start, n);
    fields.push(last.to_owned());
    assert(s@.take(n as int) =~= s@);
    assert(string_views(fields@) =~= split_seq(s@, sep));
    fields
}

/// The field at `index` of `s` split at `sep`, or `None` when there are
/// fewer fields.
pub fn field_at(s: &str, sep: char, index: usize) -> (f: Option<String>)
    ensures
        match f {
            Some(v) => index < split_seq(s@, sep).len() && v@ == split_seq(s@, sep)[index as int],
            None => index >= split_seq(s@, sep).len(),
        },
{
    let fields = split_fields(s, sep);
    if index < fields.len() {
        Some(fields[index].clone())
    } else {
        None
    }
}

/// Whether every character is an ASCII digit.
pub open spec fn all_digits(d: Seq<char>) -> bool {
    forall|i: int| 0 <= i < d.len() ==> '0' <= #[trigger] d[i] <= '9'
}

/// The value of a string of decimal digits.
pub open spec fn digits_value(d: Seq<char>) -> int
    decreases d.len(),
{
    if d.len() == 0 {
        0
    } else {
        10 * digits_value(d.drop_last()) + (d.last() as int - '0' as int)
    }
}

/// The signed integer that `i64`'s `FromStr` reads from `s`: an optional
/// `+` or `-`, then one or more ASCII digits, with the value in range;
/// `None` for any other text.
pub open spec fn spec_parse_int(s: Seq<char>, min: int, max: int) -> Option<int> {
    if s.len() == 0 {
        None
    } else {
        let neg = s[0] == '-';
        let d = if s[0] == '-' || s[0] == '+' { s.subrange(1, s.len() as int) } else { s };
        if d.len() == 0 || !all_digits(d) {
            None
        } else {
            let v = if neg { -digits_value(d) } else { digits_value(d) };
            if min <= v <= max { Some(v) } else { None }
        }
    }
}

proof fn lemma_digits_value_nonneg(d: Seq<char>)
    requires
        all_digits(d),
    ensures
        digits_value(d) >= 0,
    decreases d.len(),
{
    if d.len() > 0 {
        lemma_digits_value_nonneg(d.drop_last());
    }
}

proof fn lemma_digits_value_monotone(d: Seq<char>, k: int)
    requires
        all_digits(d),
        0 <= k <= d.len(),
    ensures
        digits_value(d.take(k)) <= digits_value(d),
    decreases d.len() - k,
{
    if k < d.len() {
        lemma_digits_value_monotone(d, k + 1);
        assert(d.take(k + 1).drop_last() =~= d.take(k));
        lemma_digits_value_nonneg(d.take(k));
        assert(digits_value(d.take(k + 1)) == 10 * digits_value(d.take(k)) + (d[k] as int - '0' as int));
    } else {
        assert(d.take(k) =~= d);
    }
}

/// Parses a signed decimal integer as `i64`'s `FromStr` does.
pub fn parse_i64(s: &str) -> (v: Option<i64>)
    ensures
        match v {
            Some(x) => spec_parse_int(s@, i64::MIN as int, i64::MAX as int) == Some(x as int),
            None => spec_parse_int(s@, i64::MIN as int, i64::MAX as int) is None,
        },
{
    let n = s.unicode_len();
    if n == 0 {
        return None;
    }
    let first = s.get_char(0);
    let neg = first == '-';
    let start: usize = if first == '-' || first == '+' { 1 } else { 0 };
    let ghost d = if first == '-' || first == '+' { s@.subrange(1, s@.len() as int) } else { s@ };
    assert(d =~= s@.subrange(start as int, n as int));
    if start == n {
        return None;
    }
    // magnitude accumulated in i128, so that i64::MIN's magnitude fits
    let mut acc: i128 = 0;
    let mut i: usize = start;
    let limit: i128 = 9223372036854775808;
    while i < n
        invariant
            n == s@.len(),
            n > 0,
            s@[0] == first,
            neg == (first == '-'),
            start == (if first == '-' || first == '+' { 1usize } else { 0usize }),
            d == (if first == '-' || first == '+' { s@.subrange(1, s@.len() as int) } else { s@ }),
            start <= i <= n,
            d =~= s@.subrange(start as int, n as int),
            limit == 9223372036854775808,
            all_digits(d.take(i - start)),
            acc == digits_value(d.take(i - start)),
            0 <= acc <= limit,
        decreases n - i,
    {
        let c = s.get_char(i);
        assert(d[i - start] == c);
        assert(d.take(i - start + 1).drop_last() =~= d.take(i - start));
        if !('0' <= c && c <= '9') {
            assert(!all_digits(d));
            assert(s@[0] == first);
            assert(d.len() > 0);
            assert(spec_parse_int(s@, i64::MIN as int, i64::MAX as int) is None);
            return None;
        }
        let digit = (c as u32 - '0' as u32) as i128;
        acc = acc * 10 + digit;
        assert(acc == digits_value(d.take(i - start + 1)));
        if acc > limit {
            proof {
                lemma_digits_value_monotone_prefix(d, i - start + 1);
                assert(s@[0] == first);
            }
            assert(spec_parse_int(s@, i64::MIN as int, i64::MAX as int) is None);
            return None;
        }
        i = i + 1;
    }
    assert(d.take(n - start) =~= d);
    if neg {
        Some((-acc) as i64)
    } else if acc <= 9223372036854775807 {
        Some(acc as i64)
    } else {
        None
    }
}

proof fn lemma_digits_value_monotone_prefix(d: Seq<char>, k: int)
    requires
        0 <= k <= d.len(),
        all_digits(d.take(k)),
    ensures
        all_digits(d) ==> digits_value(d.take(k)) <= digits_value(d),
{
    if all_digits(d) {
        lemma_digits_value_monotone(d, k);
    }
}

/// Parses a signed decimal integer as `i32`'s `FromStr` does.
pub fn parse_i32(s: &str) -> (v: Option<i32>)
    ensures
        match v {
            Some(x) => spec_parse_int(s@, i32::MIN as int, i32::MAX as int) == Some(x as int),
            None => spec_parse_int(s@, i32::MIN as int, i32::MAX as int) is None,
        },
{
    match parse_i64(s) {
        Some(x) => {
            if i32::MIN as i64 <= x && x <= i32::MAX as i64 {
                Some(x as i32)
            } else {
                None
            }
        },
        None => None,
    }
}

proof fn lemma_digit_char(k: int)
    requires
        0 <= k < 10,
    ensures
        '0' <= digit_char(k) <= '9',
        digit_char(k) as int - '0' as int == k,
{
}

proof fn lemma_nat_decimal_digits(m: nat)
    ensures
        nat_decimal(m).len() >= 1,
        all_digits(nat_decimal(m)),
        digits_value(nat_decimal(m)) == m,
    decreases m,
{
    if m >= 10 {
        lemma_nat_decimal_digits(m / 10);
        lemma_digit_char((m % 10) as int);
        let prev = nat_decimal(m / 10);
        let s = nat_decimal(m);
        assert(s == prev.push(digit_char((m % 10) as int)));
        assert(s.drop_last() =~= prev);
        assert(s.last() == digit_char((m % 10) as int));
        assert(digits_value(s) == 10 * digits_value(prev) + (s.last() as int - '0' as int));
        assert(digits_value(s) == 10 * (m / 10) + m % 10);
        assert(m == 10 * (m / 10) + m % 10);
        assert forall|i: int| 0 <= i < s.len() implies '0' <= #[trigger] s[i] <= '9' by {
            if i < prev.len() {
                assert(s[i] == prev[i]);
            }
        }
    } else {
        lemma_digit_char(m as int);
        let s = nat_decimal(m);
        assert(s.drop_last() =~= Seq::<char>::empty());
        assert(digits_value(s.drop_last()) == 0);
        assert(s.last() == digit_char(m as int));
        assert(digits_value(s) == 10 * digits_value(s.drop_last()) + (s.last() as int - '0' as int));
    }
}

/// Reading back what `format_i64` writes gives the number written: every
/// `i64` survives rendering in decimal and parsing.
pub proof fn law_parse_reads_back_format(n: i64)
    ensures
        spec_parse_int(int_decimal(n as int), i64::MIN as int, i64::MAX as int) == Some(n as int),
{
    let s = int_decimal(n as int);
    if n < 0 {
        let m = (-(n as int)) as nat;
        lemma_nat_decimal_digits(m);
        assert(s[0] == '-');
        assert(s.subrange(1, s.len() as int) =~= nat_decimal(m));
    } else {
        let m = n as nat;
        lemma_nat_decimal_digits(m);
        assert(s == nat_decimal(m));
        assert('0' <= s[0] <= '9');
    }
}

} // verus!
