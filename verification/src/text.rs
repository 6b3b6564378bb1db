//! Character-level text helpers: whitespace trimming, line search, joining and padding.
use vstd::prelude::*;
use vstd::string::*;

verus! {

/// A character with the Unicode `White_Space` property, the set that
/// `char::is_whitespace` and `str::trim` use.
pub open spec fn is_ws(c: char) -> bool {
    let u = c as u32;
    ||| 0x9 <= u <= 0xD
    ||| u == 0x20
    ||| u == 0x85
    ||| u == 0xA0
    ||| u == 0x1680
    ||| 0x2000 <= u <= 0x200A
    ||| u == 0x2028
    ||| u == 0x2029
    ||| u == 0x202F
    ||| u == 0x205F
    ||| u == 0x3000
}

/// Executable test for `is_ws`.
pub fn is_whitespace(c: char) -> (b: bool)
    ensures
        b == is_ws(c),
{
    let u = c as u32;
    (0x9 <= u && u <= 0xD) || u == 0x20 || u == 0x85 || u == 0xA0 || u == 0x1680 || (0x2000 <= u
        && u <= 0x200A) || u == 0x2028 || u == 0x2029 || u == 0x202F || u == 0x205F || u == 0x3000
}

/// `s` without its leading whitespace.
pub open spec fn trim_start(s: Seq<char>) -> Seq<char>
    decreases s.len(),
{
    if s.len() > 0 && is_ws(s[0]) {
        trim_start(s.drop_first())
    } else {
        s
    }
}

/// `s` without its trailing whitespace.
pub open spec fn trim_end(s: Seq<char>) -> Seq<char>
    decreases s.len(),
{
    if s.len() > 0 && is_ws(s.last()) {
        trim_end(s.drop_last())
    } else {
        s
    }
}

/// `s` without leading and trailing whitespace, as `str::trim` gives it.
pub open spec fn trim(s: Seq<char>) -> Seq<char> {
    trim_end(trim_start(s))
}

/// `s` holds nothing but whitespace (it may be empty).
pub open spec fn is_blank(s: Seq<char>) -> bool {
    trim(s).len() == 0
}

/// Index of the first non-whitespace character of `s` (or its length).
fn first_non_ws(s: &str) -> (a: usize)
    ensures
        a <= s@.len(),
        trim_start(s@) == s@.subrange(a as int, s@.len() as int),
{
    let n = s.unicode_len();
    let mut a: usize = 0;
    assert(s@.subrange(0, n as int) =~= s@);
    while a < n
        invariant
            n == s@.len(),
            a <= n,
            trim_start(s@) == trim_start(s@.subrange(a as int, n as int)),
        ensures
            a <= n,
            trim_start(s@) == trim_start(s@.subrange(a as int, n as int)),
            a == n || !is_ws(s@[a as int]),
        decreases n - a,
    {
        let c = s.get_char(a);
        if !is_whitespace(c) {
            break;
        }
        assert(s@.subrange(a as int, n as int).drop_first() =~= s@.subrange(a + 1, n as int));
        a = a + 1;
    }
    assert(trim_start(s@.subrange(a as int, n as int)) == s@.subrange(a as int, n as int));
    a
}

/// Index just past the last non-whitespace character of `s[from..]` (at least `from`).
fn last_non_ws(s: &str, from: usize) -> (b: usize)
    requires
        from <= s@.len(),
    ensures
        from <= b <= s@.len(),
        trim_end(s@.subrange(from as int, s@.len() as int)) == s@.subrange(from as int, b as int),
{
    let n = s.unicode_len();
    let mut b: usize = n;
    while b > from
        invariant
            n == s@.len(),
            from <= b <= n,
            trim_end(s@.subrange(from as int, n as int)) == trim_end(
                s@.subrange(from as int, b as int),
            ),
        ensures
            from <= b <= n,
            trim_end(s@.subrange(from as int, n as int)) == trim_end(
                s@.subrange(from as int, b as int),
            ),
            b == from || !is_ws(s@[b - 1]),
        decreases b,
    {
        let c = s.get_char(b - 1);
        if !is_whitespace(c) {
            break;
        }
        assert(s@.subrange(from as int, b as int).drop_last() =~= s@.subrange(
            from as int,
            b - 1,
        ));
        b = b - 1;
    }
    assert(trim_end(s@.subrange(from as int, b as int)) == s@.subrange(from as int, b as int));
    b
}

/// `str::trim`, giving an owned string.
pub fn trim_str(s: &str) -> (r: String)
    ensures
        r@ == trim(s@),
{
    let a = first_non_ws(s);
    let b = last_non_ws(s, a);
    let t = s.substring_char(a, b);
    String::from_str(t)
}

/// `str::trim_end`, giving an owned string.
pub fn trim_end_str(s: &str) -> (r: String)
    ensures
        r@ == trim_end(s@),
{
    let b = last_non_ws(s, 0);
    assert(s@.subrange(0, s@.len() as int) =~= s@);
    let t = s.substring_char(0, b);
    String::from_str(t)
}

/// Whether `s.trim().is_empty()`.
pub fn blank(s: &str) -> (b: bool)
    ensures
        b == is_blank(s@),
{
    let t = trim_str(s);
    t.as_str().unicode_len() == 0
}

} // verus!

verus! {

/// `s` begins with `prefix`.
pub open spec fn has_prefix(s: Seq<char>, prefix: Seq<char>) -> bool {
    prefix.len() <= s.len() && s.subrange(0, prefix.len() as int) == prefix
}

/// `str::starts_with` for a string prefix.
pub fn starts_with(s: &str, prefix: &str) -> (b: bool)
    ensures
        b == has_prefix(s@, prefix@),
{
    let n = s.unicode_len();
    let m = prefix.unicode_len();
    if m > n {
        return false;
    }
    let mut i: usize = 0;
    while i < m
        invariant
            n == s@.len(),
            m == prefix@.len(),
            m <= n,
            i <= m,
            forall|j: int| 0 <= j < i ==> s@[j] == prefix@[j],
        decreases m - i,
    {
        if s.get_char(i) != prefix.get_char(i) {
            assert(s@.subrange(0, m as int)[i as int] != prefix@[i as int]);
            return false;
        }
        i = i + 1;
    }
    assert(s@.subrange(0, m as int) =~= prefix@);
    true
}

/// `a` followed by `b`, as a new string.
pub fn concat(a: &str, b: &str) -> (r: String)
    ensures
        r@ == a@ + b@,
{
    let s = String::from_str(a);
    s.concat(b)
}

/// The decimal digit for `d` (which is below ten).
pub open spec fn digit_char(d: nat) -> char {
    if d == 0 {
        '0'
    } else if d == 1 {
        '1'
    } else if d == 2 {
        '2'
    } else if d == 3 {
        '3'
    } else if d == 4 {
        '4'
    } else if d == 5 {
        '5'
    } else if d == 6 {
        '6'
    } else if d == 7 {
        '7'
    } else if d == 8 {
        '8'
    } else {
        '9'
    }
}

/// The decimal text of `n`, as `usize`'s `Display` writes it.
pub open spec fn decimal(n: nat) -> Seq<char>
    decreases n,
{
    if n < 10 {
        seq![digit_char(n)]
    } else {
        decimal(n / 10).push(digit_char(n % 10))
    }
}

fn digit_str(d: usize) -> (s: &'static str)
    requires
        d < 10,
    ensures
        s@ == seq![digit_char(d as nat)],
{
    if d == 0 {
        proof { reveal_strlit("0"); }
        "0"
    } else if d == 1 {
        proof { reveal_strlit("1"); }
        "1"
    } else if d == 2 {
        proof { reveal_strlit("2"); }
        "2"
    } else if d == 3 {
        proof { reveal_strlit("3"); }
        "3"
    } else if d == 4 {
        proof { reveal_strlit("4"); }
        "4"
    } else if d == 5 {
        proof { reveal_strlit("5"); }
        "5"
    } else if d == 6 {
        proof { reveal_strlit("6"); }
        "6"
    } else if d == 7 {
        proof { reveal_strlit("7"); }
        "7"
    } else if d == 8 {
        proof { reveal_strlit("8"); }
        "8"
    } else {
        proof { reveal_strlit("9"); }
        "9"
    }
}

/// The decimal text of `n`.
pub fn usize_to_decimal(n: usize) -> (s: String)
    ensures
        s@ == decimal(n as nat),
    decreases n,
{
    if n < 10 {
        String::from_str(digit_str(n))
    } else {
        let head = usize_to_decimal(n / 10);
        let tail = digit_str(n % 10);
        let r = head.concat(tail);
        assert(r@ =~= decimal(n as nat));
        r
    }
}

/// Whether `c` is one of the ASCII digits.
pub open spec fn is_digit(c: char) -> bool {
    c == '0' || c == '1' || c == '2' || c == '3' || c == '4' || c == '5' || c == '6' || c
        == '7' || c == '8' || c == '9'
}

/// The value of the digit `c`.
pub open spec fn digit_value(c: char) -> nat {
    if c == '1' {
        1
    } else if c == '2' {
        2
    } else if c == '3' {
        3
    } else if c == '4' {
        4
    } else if c == '5' {
        5
    } else if c == '6' {
        6
    } else if c == '7' {
        7
    } else if c == '8' {
        8
    } else if c == '9' {
        9
    } else {
        0
    }
}

/// The number that the digits of `s` write.
pub open spec fn digits_value(s: Seq<char>) -> nat
    decreases s.len(),
{
    if s.len() == 0 {
        0
    } else {
        digits_value(s.drop_last()) * 10 + digit_value(s.last())
    }
}

/// Digits only, at least one, and no leading zero but in `0` itself: the texts that
/// `decimal` writes.
pub open spec fn canonical_digits(s: Seq<char>) -> bool {
    &&& s.len() > 0
    &&& forall|i: int| 0 <= i < s.len() ==> is_digit(#[trigger] s[i])
    &&& (s.len() == 1 || s[0] != '0')
}

/// Whether `s` is the decimal text of some number.
pub open spec fn is_decimal_of_some(s: Seq<char>) -> bool {
    exists|n: nat| s == decimal(n)
}

/// `decimal(n)` is made of digits, with no leading zero.
pub proof fn lemma_decimal_canonical(n: nat)
    ensures
        canonical_digits(decimal(n)),
        n >= 1 ==> decimal(n)[0] != '0',
    decreases n,
{
    if n >= 10 {
        lemma_decimal_canonical(n / 10);
        let p = decimal(n / 10);
        let d = decimal(n);
        assert(d =~= p.push(digit_char(n % 10)));
        assert forall|i: int| 0 <= i < d.len() implies is_digit(#[trigger] d[i]) by {
            if i < p.len() {
                assert(d[i] == p[i]);
            }
        }
    }
}

proof fn lemma_value_positive(s: Seq<char>)
    requires
        s.len() > 0,
        forall|i: int| 0 <= i < s.len() ==> is_digit(#[trigger] s[i]),
        s[0] != '0',
    ensures
        digits_value(s) >= 1,
    decreases s.len(),
{
    if s.len() > 1 {
        let p = s.drop_last();
        assert forall|i: int| 0 <= i < p.len() implies is_digit(#[trigger] p[i]) by {
            assert(p[i] == s[i]);
        }
        lemma_value_positive(p);
    }
}

/// Every text of digits with no leading zero is the decimal text of its value.
pub proof fn lemma_canonical_is_decimal(s: Seq<char>)
    requires
        canonical_digits(s),
    ensures
        s == decimal(digits_value(s)),
    decreases s.len(),
{
    let v = digits_value(s);
    let c = s.last();
    assert(is_digit(s[s.len() - 1]));
    if s.len() == 1 {
        assert(s =~= seq![digit_char(v)]);
    } else {
        let p = s.drop_last();
        assert forall|i: int| 0 <= i < p.len() implies is_digit(#[trigger] p[i]) by {
            assert(p[i] == s[i]);
        }
        assert(p[0] == s[0]);
        lemma_canonical_is_decimal(p);
        lemma_value_positive(p);
        let pv = digits_value(p);
        let d = digit_value(c);
        assert(v == pv * 10 + d);
        assert(d < 10);
        assert((pv * 10 + d) / 10 == pv && (pv * 10 + d) % 10 == d) by (nonlinear_arith)
            requires
                d < 10,
        ;
        assert(v >= 10);
        assert(s =~= p.push(c));
    }
}

/// Whether `s` holds digits only, at least one, and no leading zero but in `0` itself.
pub fn is_decimal_text(s: &str) -> (b: bool)
    ensures
        b == is_decimal_of_some(s@),
{
    let n = s.unicode_len();
    let mut ok = n > 0;
    let mut i: usize = 0;
    while i < n && ok
        invariant
            n == s@.len(),
            i <= n,
            ok == (n > 0 && forall|j: int| 0 <= j < i ==> is_digit(#[trigger] s@[j])),
        decreases n - i,
    {
        let c = s.get_char(i);
        if !(c == '0' || c == '1' || c == '2' || c == '3' || c == '4' || c == '5' || c == '6'
            || c == '7' || c == '8' || c == '9') {
            ok = false;
        }
        i = i + 1;
    }
    if ok && n > 1 && s.get_char(0) == '0' {
        ok = false;
    }
    proof {
        if ok {
            assert(canonical_digits(s@));
            lemma_canonical_is_decimal(s@);
        } else if is_decimal_of_some(s@) {
            let m = choose|m: nat| s@ == decimal(m);
            lemma_decimal_canonical(m);
            if n > 0 && !(n > 1 && s@[0] == '0') {
                let k = choose|j: int| 0 <= j < i && !is_digit(#[trigger] s@[j]);
                assert(is_digit(s@[k]));
            }
        }
    }
    ok
}

/// The value that `decimal(n)` writes is `n`.
pub proof fn lemma_decimal_value(n: nat)
    ensures
        digits_value(decimal(n)) == n,
    decreases n,
{
    if n < 10 {
        let d = decimal(n);
        assert(d.drop_last() =~= Seq::<char>::empty());
        assert(digits_value(d.drop_last()) == 0);
        assert(d.last() == digit_char(n));
        assert(digit_value(digit_char(n)) == n);
        assert(digits_value(d) == digits_value(d.drop_last()) * 10 + digit_value(d.last()));
    } else {
        lemma_decimal_value(n / 10);
        let d = decimal(n);
        assert(d.drop_last() =~= decimal(n / 10));
        assert(d.last() == digit_char(n % 10));
        assert(digit_value(digit_char(n % 10)) == n % 10);
        assert(digits_value(d) == digits_value(decimal(n / 10)) * 10 + digit_value(d.last()));
        assert(n == (n / 10) * 10 + n % 10);
    }
}

/// Two numbers with the same decimal text are equal.
pub proof fn lemma_decimal_injective(a: nat, b: nat)
    requires
        decimal(a) == decimal(b),
    ensures
        a == b,
{
    lemma_decimal_value(a);
    lemma_decimal_value(b);
}

/// `name`, a dash and the decimal text of `index`.
pub open spec fn indexed_name(name: Seq<char>, index: nat) -> Seq<char> {
    name + "-"@ + decimal(index)
}

/// Whether `key` is `name`, a dash and some index.
pub open spec fn is_indexed(key: Seq<char>, name: Seq<char>) -> bool {
    exists|i: nat| key == #[trigger] indexed_name(name, i)
}

/// Different indices give different names.
pub proof fn lemma_indexed_name_injective(name: Seq<char>, a: nat, b: nat)
    requires
        indexed_name(name, a) == indexed_name(name, b),
    ensures
        a == b,
{
    reveal_strlit("-");
    let k = indexed_name(name, a);
    let start = name.len() + 1;
    assert(decimal(a) =~= k.subrange(start as int, k.len() as int));
    assert(decimal(b) =~= k.subrange(start as int, k.len() as int));
    lemma_decimal_injective(a, b);
}

/// Whether `key` is `name`, a dash and the decimal text of some index.
pub fn is_indexed_name(key: &str, name: &str) -> (b: bool)
    ensures
        b == is_indexed(key@, name@),
{
    let mut prefix = String::from_str(name);
    proof { reveal_strlit("-"); }
    prefix.append("-");
    let ghost p = prefix@;
    assert(p == name@ + "-"@);
    if !starts_with(key, prefix.as_str()) {
        proof {
            if is_indexed(key@, name@) {
                let i = choose|i: nat| key@ == #[trigger] indexed_name(name@, i);
                assert(key@.subrange(0, p.len() as int) =~= p);
            }
        }
        return false;
    }
    let plen = prefix.unicode_len();
    let klen = key.unicode_len();
    let rest = key.substring_char(plen, klen);
    let b = is_decimal_text(rest);
    proof {
        assert(key@ =~= p + rest@);
        if b {
            let i = choose|i: nat| rest@ == decimal(i);
            assert(key@ == indexed_name(name@, i));
        } else if is_indexed(key@, name@) {
            let i = choose|i: nat| key@ == #[trigger] indexed_name(name@, i);
            assert(rest@ =~= key@.subrange(p.len() as int, key@.len() as int));
            assert(decimal(i) =~= key@.subrange(p.len() as int, key@.len() as int));
            assert(is_decimal_of_some(rest@));
        }
    }
    b
}

/// Whether some string of `v` holds the text `s`.
pub fn contains_str(v: &Vec<String>, s: &str) -> (b: bool)
    ensures
        b == views(v@).contains(s@),
{
    let mut i: usize = 0;
    while i < v.len()
        invariant
            i <= v@.len(),
            forall|j: int| 0 <= j < i ==> v@[j]@ != s@,
        decreases v@.len() - i,
    {
        if str_eq(v[i].as_str(), s) {
            assert(views(v@)[i as int] == s@);
            return true;
        }
        i = i + 1;
    }
    proof {
        if views(v@).contains(s@) {
            let k = choose|k: int| 0 <= k < views(v@).len() && views(v@)[k] == s@;
            assert(v@[k]@ == s@);
        }
    }
    false
}

/// The parts joined with `sep` between each two of them.
pub open spec fn join_seqs(parts: Seq<Seq<char>>, sep: Seq<char>) -> Seq<char>
    decreases parts.len(),
{
    if parts.len() == 0 {
        seq![]
    } else if parts.len() == 1 {
        parts[0]
    } else {
        join_seqs(parts.drop_last(), sep) + sep + parts.last()
    }
}

/// The views of a vector of strings.
pub open spec fn views(v: Seq<String>) -> Seq<Seq<char>> {
    v.map_values(|s: String| s@)
}

/// `parts.join(sep)`.
pub fn join(parts: &Vec<String>, sep: &str) -> (r: String)
    ensures
        r@ == join_seqs(views(parts@), sep@),
{
    let mut r = String::new();
    let n = parts.len();
    let mut i: usize = 0;
    while i < n
        invariant
            n == parts@.len(),
            i <= n,
            r@ == join_seqs(views(parts@).take(i as int), sep@),
        decreases n - i,
    {
        let ghost before = views(parts@).take(i as int);
        let ghost after = views(parts@).take(i + 1);
        assert(after.drop_last() =~= before);
        if i == 0 {
            r.append(parts[i].as_str());
            assert(r@ =~= join_seqs(after, sep@));
        } else {
            r.append(sep);
            r.append(parts[i].as_str());
        }
        i = i + 1;
    }
    assert(views(parts@).take(n as int) =~= views(parts@));
    r
}

/// `s` followed by spaces up to `width` characters, as `format!("{:<width$}", s)` writes it.
pub open spec fn pad_right(s: Seq<char>, width: nat) -> Seq<char> {
    if s.len() >= width {
        s
    } else {
        s + Seq::new((width - s.len()) as nat, |i: int| ' ')
    }
}

/// `n` copies of `c`.
pub open spec fn repeat_char(c: char, n: nat) -> Seq<char> {
    Seq::new(n, |i: int| c)
}

/// Appends `n` spaces to `s`.
pub fn push_spaces(s: &mut String, n: usize)
    ensures
        final(s)@ == old(s)@ + repeat_char(' ', n as nat),
{
    let mut i: usize = 0;
    proof { reveal_strlit(" "); }
    while i < n
        invariant
            i <= n,
            s@ == old(s)@ + repeat_char(' ', i as nat),
        decreases n - i,
    {
        proof { reveal_strlit(" "); }
        s.append(" ");
        assert(s@ =~= old(s)@ + repeat_char(' ', (i + 1) as nat));
        i = i + 1;
    }
}

/// Appends `n` dashes to `s`.
pub fn push_dashes(s: &mut String, n: usize)
    ensures
        final(s)@ == old(s)@ + repeat_char('-', n as nat),
{
    let mut i: usize = 0;
    proof { reveal_strlit("-"); }
    while i < n
        invariant
            i <= n,
            s@ == old(s)@ + repeat_char('-', i as nat),
        decreases n - i,
    {
        proof { reveal_strlit("-"); }
        s.append("-");
        assert(s@ =~= old(s)@ + repeat_char('-', (i + 1) as nat));
        i = i + 1;
    }
}

/// Appends `t` padded with spaces to `width` characters.
pub fn push_padded(s: &mut String, t: &str, width: usize)
    ensures
        final(s)@ == old(s)@ + pad_right(t@, width as nat),
{
    s.append(t);
    let n = t.unicode_len();
    if n < width {
        push_spaces(s, width - n);
        assert(repeat_char(' ', (width - n) as nat) =~= Seq::new(
            (width - t@.len()) as nat,
            |i: int| ' ',
        ));
    }
}

} // verus!

verus! {

/// Whether two strings hold the same text.
pub fn str_eq(a: &str, b: &str) -> (r: bool)
    ensures
        r == (a@ == b@),
{
    let n = a.unicode_len();
    if n != b.unicode_len() {
        return false;
    }
    let mut i: usize = 0;
    while i < n
        invariant
            n == a@.len(),
            n == b@.len(),
            i <= n,
            forall|j: int| 0 <= j < i ==> a@[j] == b@[j],
        decreases n - i,
    {
        if a.get_char(i) != b.get_char(i) {
            return false;
        }
        i = i + 1;
    }
    assert(a@ =~= b@);
    true
}

} // verus!

verus! {

/// Position of the last newline of `s`, or -1 when there is none.
pub open spec fn last_newline(s: Seq<char>) -> int
    decreases s.len(),
{
    if s.len() == 0 {
        -1
    } else if s.last() == '\n' {
        s.len() - 1
    } else {
        last_newline(s.drop_last())
    }
}

/// A line as `str::lines` gives it: a line ended by a newline loses a final `\r`.
pub open spec fn strip_cr(line: Seq<char>, ended: bool) -> Seq<char> {
    if ended && line.len() > 0 && line.last() == '\r' {
        line.drop_last()
    } else {
        line
    }
}

/// The last line of `s` that is not blank (`ended`: `s` was followed by a newline).
pub open spec fn last_nonblank_line_from(s: Seq<char>, ended: bool) -> Option<Seq<char>>
    decreases s.len(),
{
    let k = last_newline(s);
    let line = strip_cr(s.subrange(k + 1, s.len() as int), ended);
    if !is_blank(line) {
        Some(line)
    } else if k < 0 {
        None
    } else {
        proof {
            lemma_last_newline_bounds(s);
        }
        last_nonblank_line_from(s.subrange(0, k), true)
    }
}

/// The last non-blank line of `s`, as `s.lines().rev().find(|l| !l.trim().is_empty())`
/// finds it.
pub open spec fn last_nonblank_line(s: Seq<char>) -> Option<Seq<char>> {
    last_nonblank_line_from(s, false)
}

/// The last newline lies in `s`, and it is a newline.
pub proof fn lemma_last_newline_bounds(s: Seq<char>)
    ensures
        -1 <= last_newline(s) < s.len(),
        last_newline(s) >= 0 ==> s[last_newline(s)] == '\n',
    decreases s.len(),
{
    if s.len() > 0 && s.last() != '\n' {
        lemma_last_newline_bounds(s.drop_last());
    }
}

/// The last non-blank line of `s`.
pub fn last_line_not_blank(s: &str) -> (r: Option<String>)
    ensures
        opt_seq(r) == last_nonblank_line(s@),
{
    let n = s.unicode_len();
    let mut end: usize = n;
    let mut ended = false;
    assert(s@.subrange(0, n as int) =~= s@);
    loop
        invariant
            n == s@.len(),
            end <= n,
            last_nonblank_line(s@) == last_nonblank_line_from(s@.subrange(0, end as int), ended),
        decreases end,
    {
        let ghost t = s@.subrange(0, end as int);
        let mut k: usize = end;
        while k > 0 && s.get_char(k - 1) != '\n'
            invariant
                n == s@.len(),
                k <= end <= n,
                t == s@.subrange(0, end as int),
                last_newline(t) == last_newline(s@.subrange(0, k as int)),
            decreases k,
        {
            assert(s@.subrange(0, k as int).drop_last() =~= s@.subrange(0, k - 1));
            k = k - 1;
        }
        assert(last_newline(t) == k - 1) by {
            if k > 0 {
                assert(s@.subrange(0, k as int).last() == '\n');
            }
        }
        let mut stop = end;
        if ended && stop > k && s.get_char(stop - 1) == '\r' {
            stop = stop - 1;
        }
        let line = String::from_str(s.substring_char(k, stop));
        assert(line@ =~= strip_cr(t.subrange(k as int, t.len() as int), ended));
        if !blank(line.as_str()) {
            return Some(line);
        }
        if k == 0 {
            return None;
        }
        assert(t.subrange(0, k - 1) =~= s@.subrange(0, k - 1));
        end = k - 1;
        ended = true;
    }
}

/// The text of an optional string.
pub open spec fn opt_seq(o: Option<String>) -> Option<Seq<char>> {
    match o {
        Some(s) => Some(s@),
        None => None,
    }
}

} // verus!
