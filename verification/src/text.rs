//! Text as sequences of characters: prefix and substring tests, trimming,
//! lexicographic order and decimal numerals.
//!
//! Every contract here speaks of the view of a string, a `Seq<char>`.

use vstd::prelude::*;
use vstd::string::*;

verus! {

/// `pat` stands in `s` at offset `at`.
pub open spec fn occurs_at(s: Seq<char>, at: int, pat: Seq<char>) -> bool {
    &&& 0 <= at
    &&& at + pat.len() <= s.len()
    &&& s.subrange(at, at + pat.len()) == pat
}

/// `s` begins with `pat`.
pub open spec fn begins_with(s: Seq<char>, pat: Seq<char>) -> bool {
    occurs_at(s, 0, pat)
}

/// `s` ends with `pat`.
pub open spec fn ends_with(s: Seq<char>, pat: Seq<char>) -> bool {
    occurs_at(s, s.len() - pat.len(), pat)
}

/// `pat` stands somewhere in `s`.
pub open spec fn has_substring(s: Seq<char>, pat: Seq<char>) -> bool {
    exists|at: int| occurs_at(s, at, pat)
}

/// `s` without every leading repetition of `pat`. An empty `pat` removes nothing.
pub open spec fn strip_prefix_all(s: Seq<char>, pat: Seq<char>) -> Seq<char>
    decreases s.len(),
{
    if pat.len() > 0 && begins_with(s, pat) {
        strip_prefix_all(s.skip(pat.len() as int), pat)
    } else {
        s
    }
}

/// `s` without every trailing repetition of `pat`. An empty `pat` removes nothing.
pub open spec fn strip_suffix_all(s: Seq<char>, pat: Seq<char>) -> Seq<char>
    decreases s.len(),
{
    if pat.len() > 0 && ends_with(s, pat) {
        strip_suffix_all(s.take(s.len() - pat.len()), pat)
    } else {
        s
    }
}

/// `s` without its longest prefix made of characters of `set`.
pub open spec fn strip_leading(s: Seq<char>, set: Seq<char>) -> Seq<char>
    decreases s.len(),
{
    if s.len() > 0 && set.contains(s[0]) {
        strip_leading(s.skip(1), set)
    } else {
        s
    }
}

/// Strict lexicographic order by code point, the order of `str`.
pub open spec fn text_lt(a: Seq<char>, b: Seq<char>) -> bool
    decreases a.len(),
{
    if b.len() == 0 {
        false
    } else if a.len() == 0 {
        true
    } else if a[0] != b[0] {
        (a[0] as int) < (b[0] as int)
    } else {
        text_lt(a.skip(1), b.skip(1))
    }
}

/// No text comes before itself.
pub proof fn lemma_text_lt_irreflexive(a: Seq<char>)
    ensures
        !text_lt(a, a),
    decreases a.len(),
{
    if a.len() > 0 {
        lemma_text_lt_irreflexive(a.skip(1));
    }
}

/// The order of texts is transitive.
pub proof fn lemma_text_lt_transitive(a: Seq<char>, b: Seq<char>, c: Seq<char>)
    requires
        text_lt(a, b),
        text_lt(b, c),
    ensures
        text_lt(a, c),
    decreases a.len(),
{
    if a.len() > 0 && b.len() > 0 && c.len() > 0 {
        if a[0] == b[0] && b[0] == c[0] {
            lemma_text_lt_transitive(a.skip(1), b.skip(1), c.skip(1));
        }
    }
}

/// Of two different texts one comes before the other.
pub proof fn lemma_text_lt_total(a: Seq<char>, b: Seq<char>)
    ensures
        text_lt(a, b) || a == b || text_lt(b, a),
    decreases a.len(),
{
    if a.len() == 0 || b.len() == 0 {
        if a.len() == 0 && b.len() == 0 {
            assert(a =~= b);
        }
    } else if a[0] == b[0] {
        lemma_text_lt_total(a.skip(1), b.skip(1));
        if a.skip(1) == b.skip(1) {
            assert(a =~= seq![a[0]] + a.skip(1));
            assert(b =~= seq![b[0]] + b.skip(1));
        }
    }
}

/// The views of a sequence of strings.
pub open spec fn views(s: Seq<String>) -> Seq<Seq<char>> {
    Seq::new(s.len(), |i: int| s[i]@)
}

/// The views of a sequence of string pairs.
pub open spec fn pair_views(s: Seq<(String, String)>) -> Seq<(Seq<char>, Seq<char>)> {
    Seq::new(s.len(), |i: int| (s[i].0@, s[i].1@))
}

/// The decimal digit `d` as a character.
pub open spec fn digit_char(d: int) -> char {
    if d == 0 {
        '0'
    } else if d == 1 {
        '1'
    } else if d == 2 {
        '2'
    } else if d == 3 {
        '3'
    } else if d == 4 {
        '4'
    } else if d == 5 {
        '5'
    } else if d == 6 {
        '6'
    } else if d == 7 {
        '7'
    } else if d == 8 {
        '8'
    } else {
        '9'
    }
}

/// The value of a decimal digit character, or 10 for any other character.
pub open spec fn digit_value(c: char) -> int {
    if c == '0' {
        0
    } else if c == '1' {
        1
    } else if c == '2' {
        2
    } else if c == '3' {
        3
    } else if c == '4' {
        4
    } else if c == '5' {
        5
    } else if c == '6' {
        6
    } else if c == '7' {
        7
    } else if c == '8' {
        8
    } else if c == '9' {
        9
    } else {
        10
    }
}

/// `width - 1`, or 0 where `width` is 0.
pub open spec fn less_one(width: nat) -> nat {
    if width > 0 {
        (width - 1) as nat
    } else {
        0
    }
}

/// The decimal numeral of `n`, padded on the left with zeros to at least `width` digits.
pub open spec fn digits(n: nat, width: nat) -> Seq<char>
    decreases n, width,
{
    if n < 10 && width <= 1 {
        seq![digit_char(n as int)]
    } else {
        digits(n / 10, less_one(width)) + seq![digit_char((n % 10) as int)]
    }
}

/// Every character of `s` is a decimal digit.
pub open spec fn all_digits(s: Seq<char>) -> bool {
    forall|i: int| 0 <= i < s.len() ==> digit_value(#[trigger] s[i]) < 10
}

/// The number that a run of decimal digits denotes.
pub open spec fn numeral_value(s: Seq<char>) -> nat
    decreases s.len(),
{
    if s.len() == 0 {
        0
    } else {
        (numeral_value(s.drop_last()) * 10 + digit_value(s.last())) as nat
    }
}

/// What a decimal numeral denotes as a `u32`: an optional `+`, then at least one
/// digit, the whole no larger than `u32::MAX`.
pub open spec fn parse_u32_spec(s: Seq<char>) -> Option<u32> {
    let body = if s.len() > 0 && s[0] == '+' {
        s.skip(1)
    } else {
        s
    };
    if body.len() > 0 && all_digits(body) && numeral_value(body) <= u32::MAX {
        Some(numeral_value(body) as u32)
    } else {
        None
    }
}

/// The characters of `s`, in order.
pub fn chars_of(s: &str) -> (r: Vec<char>)
    ensures
        r@ == s@,
{
    let mut out: Vec<char> = Vec::new();
    for c in it: s.chars()
        invariant
            out@ == it.seq().take(it.index() as int),
            it.seq() == s@,
    {
        out.push(c);
    }
    out
}

/// Whether two pieces of text hold the same characters.
pub fn same_text(a: &str, b: &str) -> (r: bool)
    ensures
        r == (a@ == b@),
{
    a.to_owned() == b.to_owned()
}

/// Whether `items` holds a string equal to `needle`.
pub fn contains_string(items: &Vec<String>, needle: &str) -> (r: bool)
    ensures
        r == views(items@).contains(needle@),
{
    let wanted = needle.to_owned();
    let mut i: usize = 0;
    while i < items.len()
        invariant
            i <= items.len(),
            wanted@ == needle@,
            forall|k: int| 0 <= k < i ==> views(items@)[k] != needle@,
        decreases items.len() - i,
    {
        if items[i] == wanted {
            assert(views(items@)[i as int] == needle@);
            return true;
        }
        i += 1;
    }
    false
}

fn chars_occur_at(s: &Vec<char>, at: usize, pat: &Vec<char>) -> (r: bool)
    ensures
        r == occurs_at(s@, at as int, pat@),
{
    if at > s.len() || pat.len() > s.len() - at {
        return false;
    }
    let mut i: usize = 0;
    while i < pat.len()
        invariant
            i <= pat.len(),
            at + pat.len() <= s.len(),
            forall|k: int| 0 <= k < i ==> s[at + k] == pat[k],
        decreases pat.len() - i,
    {
        if s[at + i] != pat[i] {
            assert(s@.subrange(at as int, at + pat.len())[i as int] != pat@[i as int]);
            return false;
        }
        i += 1;
    }
    assert(s@.subrange(at as int, at + pat.len()) =~= pat@);
    true
}

/// Whether `s` begins with `pat`.
pub fn starts_with(s: &str, pat: &str) -> (r: bool)
    ensures
        r == begins_with(s@, pat@),
{
    let sv = chars_of(s);
    let pv = chars_of(pat);
    chars_occur_at(&sv, 0, &pv)
}

/// Whether `s` ends with `pat`.
pub fn ends_with_text(s: &str, pat: &str) -> (r: bool)
    ensures
        r == ends_with(s@, pat@),
{
    let sv = chars_of(s);
    let pv = chars_of(pat);
    if pv.len() > sv.len() {
        return false;
    }
    chars_occur_at(&sv, sv.len() - pv.len(), &pv)
}

/// Whether `pat` stands somewhere in `s`. The empty text stands in every text.
pub fn contains_text(s: &str, pat: &str) -> (r: bool)
    ensures
        r == has_substring(s@, pat@),
{
    let sv = chars_of(s);
    let pv = chars_of(pat);
    if pv.len() > sv.len() {
        return false;
    }
    let last: usize = sv.len() - pv.len();
    let mut at: usize = 0;
    loop
        invariant
            at <= last,
            last == sv.len() - pv.len(),
            sv@ == s@,
            pv@ == pat@,
            forall|k: int| 0 <= k < at ==> !occurs_at(s@, k, pat@),
        decreases last - at,
    {
        if chars_occur_at(&sv, at, &pv) {
            return true;
        }
        if at == last {
            return false;
        }
        at += 1;
    }
}

/// `s` with every leading repetition of `pat` removed.
pub fn trim_start_matches(s: &str, pat: &str) -> (r: String)
    ensures
        r@ == strip_prefix_all(s@, pat@),
{
    let sv = chars_of(s);
    let pv = chars_of(pat);
    let mut from: usize = 0;
    assert(s@.skip(0) =~= s@);
    if pv.len() > 0 {
        while chars_occur_at(&sv, from, &pv)
            invariant
                from <= sv.len(),
                pv.len() > 0,
                sv@ == s@,
                pv@ == pat@,
                strip_prefix_all(s@, pat@) == strip_prefix_all(s@.skip(from as int), pat@),
            decreases sv.len() - from,
        {
            proof {
                let rest = s@.skip(from as int);
                assert(rest.subrange(0, pat@.len() as int) =~= s@.subrange(
                    from as int,
                    from + pat@.len(),
                ));
                assert(rest.skip(pat@.len() as int) =~= s@.skip(from + pat@.len()));
            }
            from += pv.len();
        }
        proof {
            let rest = s@.skip(from as int);
            if from + pat@.len() <= s@.len() {
                assert(rest.subrange(0, pat@.len() as int) =~= s@.subrange(
                    from as int,
                    from + pat@.len(),
                ));
            }
        }
    }
    let r = s.substring_char(from, sv.len()).to_owned();
    assert(r@ =~= s@.skip(from as int));
    r
}

/// `s` with every trailing repetition of `pat` removed.
pub fn trim_end_matches(s: &str, pat: &str) -> (r: String)
    ensures
        r@ == strip_suffix_all(s@, pat@),
{
    let sv = chars_of(s);
    let pv = chars_of(pat);
    let mut to: usize = sv.len();
    assert(s@.take(s@.len() as int) =~= s@);
    if pv.len() > 0 {
        while to >= pv.len() && chars_occur_at(&sv, to - pv.len(), &pv)
            invariant
                to <= sv.len(),
                pv.len() > 0,
                sv@ == s@,
                pv@ == pat@,
                strip_suffix_all(s@, pat@) == strip_suffix_all(s@.take(to as int), pat@),
            decreases to,
        {
            proof {
                let head = s@.take(to as int);
                assert(head.subrange(to - pat@.len(), to as int) =~= s@.subrange(
                    to - pat@.len(),
                    to as int,
                ));
                assert(head.take(to - pat@.len()) =~= s@.take(to - pat@.len()));
            }
            to -= pv.len();
        }
        proof {
            let head = s@.take(to as int);
            if to >= pat@.len() {
                assert(head.subrange(to - pat@.len(), to as int) =~= s@.subrange(
                    to - pat@.len(),
                    to as int,
                ));
            }
        }
    }
    let r = s.substring_char(0, to).to_owned();
    assert(r@ =~= s@.take(to as int));
    r
}

fn chars_contain(set: &Vec<char>, c: char) -> (r: bool)
    ensures
        r == set@.contains(c),
{
    let mut i: usize = 0;
    while i < set.len()
        invariant
            i <= set.len(),
            forall|k: int| 0 <= k < i ==> set[k] != c,
        decreases set.len() - i,
    {
        if set[i] == c {
            return true;
        }
        i += 1;
    }
    false
}

/// `s` with its longest prefix made of characters of `set` removed.
pub fn trim_start_chars(s: &str, set: &str) -> (r: String)
    ensures
        r@ == strip_leading(s@, set@),
{
    let sv = chars_of(s);
    let cv = chars_of(set);
    let mut from: usize = 0;
    assert(s@.skip(0) =~= s@);
    while from < sv.len() && chars_contain(&cv, sv[from])
        invariant
            from <= sv.len(),
            sv@ == s@,
            cv@ == set@,
            strip_leading(s@, set@) == strip_leading(s@.skip(from as int), set@),
        decreases sv.len() - from,
    {
        proof {
            assert(s@.skip(from as int).skip(1) =~= s@.skip(from + 1));
        }
        from += 1;
    }
    let r = s.substring_char(from, sv.len()).to_owned();
    assert(r@ =~= s@.skip(from as int));
    r
}

/// Whether `a` comes strictly before `b` in lexicographic order by code point.
pub fn text_before(a: &str, b: &str) -> (r: bool)
    ensures
        r == text_lt(a@, b@),
{
    let av = chars_of(a);
    let bv = chars_of(b);
    let mut i: usize = 0;
    assert(a@.skip(0) =~= a@);
    assert(b@.skip(0) =~= b@);
    while i < av.len() && i < bv.len()
        invariant
            i <= av.len(),
            i <= bv.len(),
            av@ == a@,
            bv@ == b@,
            text_lt(a@, b@) == text_lt(a@.skip(i as int), b@.skip(i as int)),
        decreases av.len() - i,
    {
        if av[i] != bv[i] {
            let before = av[i] < bv[i];
            proof {
                let x = a@.skip(i as int);
                let y = b@.skip(i as int);
                assert(x.len() > 0 && y.len() > 0);
                assert(x[0] == av@[i as int]);
                assert(y[0] == bv@[i as int]);
                assert(before == ((x[0] as int) < (y[0] as int)));
            }
            return before;
        }
        proof {
            assert(a@.skip(i as int)[0] == b@.skip(i as int)[0]);
        }
        proof {
            assert(a@.skip(i as int).skip(1) =~= a@.skip(i + 1));
            assert(b@.skip(i as int).skip(1) =~= b@.skip(i + 1));
        }
        i += 1;
    }
    i < bv.len()
}

fn digit_text(d: u32) -> (r: &'static str)
    requires
        d < 10,
    ensures
        r@ == seq![digit_char(d as int)],
{
    proof {
        reveal_strlit("0");
        reveal_strlit("1");
        reveal_strlit("2");
        reveal_strlit("3");
        reveal_strlit("4");
        reveal_strlit("5");
        reveal_strlit("6");
        reveal_strlit("7");
        reveal_strlit("8");
        reveal_strlit("9");
    }
    let r = if d == 0 {
        "0"
    } else if d == 1 {
        "1"
    } else if d == 2 {
        "2"
    } else if d == 3 {
        "3"
    } else if d == 4 {
        "4"
    } else if d == 5 {
        "5"
    } else if d == 6 {
        "6"
    } else if d == 7 {
        "7"
    } else if d == 8 {
        "8"
    } else {
        "9"
    };
    assert(r@ =~= seq![digit_char(d as int)]);
    r
}

fn push_decimal(out: &mut String, n: u32)
    ensures
        final(out)@ == old(out)@ + digits(n as nat, 1),
    decreases n,
{
    if n < 10 {
        out.append(digit_text(n));
    } else {
        push_decimal(out, n / 10);
        out.append(digit_text(n % 10));
        proof {
            lemma_digits_width((n / 10) as nat);
        }
        assert(final(out)@ =~= old(out)@ + digits(n as nat, 1));
    }
}

/// Below two digits of width, padding changes nothing.
pub proof fn lemma_digits_width(n: nat)
    ensures
        digits(n, 0) == digits(n, 1),
    decreases n,
{
    if n >= 10 {
        lemma_digits_width(n / 10);
    }
}

/// The decimal numeral of `n`.
pub fn decimal_string(n: u32) -> (r: String)
    ensures
        r@ == digits(n as nat, 1),
{
    let mut out = String::new();
    push_decimal(&mut out, n);
    out
}

fn digit_of(c: char) -> (r: u32)
    ensures
        r == digit_value(c),
{
    if c == '0' {
        0
    } else if c == '1' {
        1
    } else if c == '2' {
        2
    } else if c == '3' {
        3
    } else if c == '4' {
        4
    } else if c == '5' {
        5
    } else if c == '6' {
        6
    } else if c == '7' {
        7
    } else if c == '8' {
        8
    } else if c == '9' {
        9
    } else {
        10
    }
}

/// A run of digits denotes at least what any of its prefixes denotes.
pub proof fn lemma_numeral_value_grows(s: Seq<char>, k: int)
    requires
        0 <= k <= s.len(),
    ensures
        numeral_value(s.take(k)) <= numeral_value(s),
    decreases s.len(),
{
    if k == s.len() {
        assert(s.take(k) =~= s);
    } else {
        assert(s.drop_last().take(k) =~= s.take(k));
        lemma_numeral_value_grows(s.drop_last(), k);
    }
}

/// Reads a decimal numeral: an optional `+`, then digits.
pub fn parse_u32(s: &str) -> (r: Option<u32>)
    ensures
        r == parse_u32_spec(s@),
{
    let sv = chars_of(s);
    let start: usize = if sv.len() > 0 && sv[0] == '+' {
        1
    } else {
        0
    };
    let ghost body = if s@.len() > 0 && s@[0] == '+' {
        s@.skip(1)
    } else {
        s@
    };
    proof {
        assert(s@.skip(0) =~= s@);
        assert(body.take(0) =~= Seq::<char>::empty());
    }
    if start == sv.len() {
        return None;
    }
    let mut acc: u64 = 0;
    let mut i: usize = start;
    while i < sv.len()
        invariant
            start <= i <= sv.len(),
            sv@ == s@,
            body == s@.skip(start as int),
            body == if s@.len() > 0 && s@[0] == '+' {
                s@.skip(1)
            } else {
                s@
            },
            all_digits(body.take(i - start)),
            acc == numeral_value(body.take(i - start)),
            acc <= u32::MAX,
        decreases sv.len() - i,
    {
        let d = digit_of(sv[i]);
        proof {
            assert(body.take(i - start + 1).drop_last() =~= body.take(i - start));
            assert(body.take(i - start + 1).last() == sv@[i as int]);
            assert(body[i - start] == sv@[i as int]);
            assert(numeral_value(body.take(i - start + 1)) == acc * 10 + digit_value(
                sv@[i as int],
            ));
        }
        if d >= 10 {
            assert(!all_digits(body)) by {
                assert(digit_value(body[i - start]) >= 10);
            }
            return None;
        }
        let next: u64 = acc * 10 + d as u64;
        if next > u32::MAX as u64 {
            proof {
                lemma_numeral_value_grows(body, i - start + 1);
            }
            return None;
        }
        proof {
            assert forall|k: int| 0 <= k < i - start + 1 implies digit_value(
                #[trigger] body.take(i - start + 1)[k],
            ) < 10 by {
                if k < i - start {
                    assert(body.take(i - start)[k] == body.take(i - start + 1)[k]);
                }
            }
        }
        acc = next;
        i += 1;
    }
    assert(body.take(i - start) =~= body);
    Some(acc as u32)
}

/// A padded numeral is made of digits and denotes its number.
pub proof fn lemma_digits_value(n: nat, width: nat)
    ensures
        digits(n, width).len() >= 1,
        digits(n, width).len() >= width,
        all_digits(digits(n, width)),
        numeral_value(digits(n, width)) == n,
        digits(n, width)[0] != '+',
        digits(n, width)[0] != '-',
    decreases n, width,
{
    if n < 10 && width <= 1 {
        let s = digits(n, width);
        assert(s.drop_last() =~= Seq::<char>::empty());
        assert(numeral_value(s.drop_last()) == 0);
    } else {
        let head = digits(n / 10, less_one(width));
        let s = digits(n, width);
        lemma_digits_value(n / 10, less_one(width));
        assert(s.drop_last() =~= head);
        assert(s.last() == digit_char((n % 10) as int));
        assert(s[0] == head[0]);
        assert forall|i: int| 0 <= i < s.len() implies digit_value(#[trigger] s[i]) < 10 by {
            if i < head.len() {
                assert(s[i] == head[i]);
            }
        }
    }
}

/// Reading the decimal numeral of a number gives the number back.
pub proof fn lemma_parse_decimal(n: u32)
    ensures
        parse_u32_spec(digits(n as nat, 1)) == Some(n),
{
    lemma_digits_value(n as nat, 1);
}

} // verus!
