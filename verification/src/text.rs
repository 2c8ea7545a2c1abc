//! Text as sequences of characters: searching, trimming, joining and decimal numbers.

use vstd::prelude::*;

verus! {

/// `String::push` appends the character `c` to the end of the string.
pub assume_specification[ String::push ](s: &mut String, c: char)
    ensures
        final(s)@ == old(s)@.push(c),
;

// ── Searching ────────────────────────────────────────────────────

/// `pat` stands in `text` at position `i`.
pub open spec fn occurs_at(text: Seq<char>, pat: Seq<char>, i: int) -> bool {
    0 <= i && i + pat.len() <= text.len() && text.subrange(i, i + pat.len()) == pat
}

/// `pat` stands somewhere in `text`.
pub open spec fn contains_text(text: Seq<char>, pat: Seq<char>) -> bool {
    exists|i: int| occurs_at(text, pat, i)
}

/// `text` begins with `pat`.
pub open spec fn begins_with(text: Seq<char>, pat: Seq<char>) -> bool {
    occurs_at(text, pat, 0)
}

/// The first position, from `from` on, at which `pat` stands in `text` and ends at or before `end`.
pub open spec fn find_in(text: Seq<char>, pat: Seq<char>, from: int, end: int) -> Option<int>
    decreases end - from + 1,
{
    if from < 0 || from + pat.len() > end {
        None
    } else if occurs_at(text, pat, from) {
        Some(from)
    } else {
        find_in(text, pat, from + 1, end)
    }
}

/// The last position at which `pat` stands in `text` and ends at or before `end`.
pub open spec fn rfind_in(text: Seq<char>, pat: Seq<char>, end: int) -> Option<int>
    decreases end,
{
    if end < pat.len() || end <= 0 {
        None
    } else if occurs_at(text, pat, end - pat.len()) {
        Some(end - pat.len())
    } else {
        rfind_in(text, pat, end - 1)
    }
}

/// What `find_in` finds is the first occurrence in the window; it finds nothing only where there
/// is none.
pub proof fn lemma_find_in(text: Seq<char>, pat: Seq<char>, from: int, end: int)
    requires
        0 <= from,
    ensures
        match find_in(text, pat, from, end) {
            Some(i) => {
                &&& from <= i
                &&& i + pat.len() <= end
                &&& occurs_at(text, pat, i)
                &&& forall|j: int| from <= j < i ==> !occurs_at(text, pat, j)
            },
            None => forall|j: int|
                from <= j && j + pat.len() <= end ==> !occurs_at(text, pat, j),
        },
    decreases end - from + 1,
{
    if from + pat.len() <= end && !occurs_at(text, pat, from) {
        lemma_find_in(text, pat, from + 1, end);
    }
}

/// An occurrence before which there is none is what `find_in` finds.
pub proof fn lemma_find_in_is(text: Seq<char>, pat: Seq<char>, from: int, end: int, at: int)
    requires
        0 <= from <= at,
        at + pat.len() <= end,
        occurs_at(text, pat, at),
        forall|j: int| from <= j < at ==> !occurs_at(text, pat, j),
    ensures
        find_in(text, pat, from, end) == Some(at),
{
    lemma_find_in(text, pat, from, end);
}

/// The characters of `s`, in order.
pub fn chars_of(s: &str) -> (v: Vec<char>)
    ensures
        v@ == s@,
{
    let mut v: Vec<char> = Vec::new();
    for c in it: s.chars()
        invariant
            v@ == it.seq().take(it.index()),
            it.seq() == s@,
    {
        v.push(c);
        assert(it.seq().take(it.index() + 1) == it.seq().take(it.index()).push(c));
    }
    assert(s@.take(s@.len() as int) == s@);
    v
}

/// The text made of the characters `from..to` of `v`.
pub fn string_of(v: &Vec<char>, from: usize, to: usize) -> (s: String)
    requires
        from <= to <= v.len(),
    ensures
        s@ == v@.subrange(from as int, to as int),
{
    let mut s = String::new();
    let mut i: usize = from;
    while i < to
        invariant
            from <= i <= to <= v.len(),
            s@ == v@.subrange(from as int, i as int),
        decreases to - i,
    {
        s.push(v[i]);
        i += 1;
        assert(v@.subrange(from as int, i as int) == v@.subrange(from as int, i - 1).push(
            v@[i - 1],
        ));
    }
    s
}

/// Whether the two texts are the same.
pub fn same_text(a: &str, b: &str) -> (r: bool)
    ensures
        r == (a@ == b@),
{
    a.to_owned() == b.to_owned()
}

/// Whether `pat` stands in `text` at position `i`.
pub fn matches_at(text: &Vec<char>, pat: &Vec<char>, i: usize) -> (r: bool)
    requires
        i + pat.len() <= text.len(),
    ensures
        r == occurs_at(text@, pat@, i as int),
{
    let mut k: usize = 0;
    while k < pat.len()
        invariant
            k <= pat.len(),
            i + pat.len() <= text.len(),
            forall|j: int| 0 <= j < k ==> text@[i + j] == pat@[j],
        decreases pat.len() - k,
    {
        if text[i + k] != pat[k] {
            assert(text@.subrange(i as int, i + pat@.len())[k as int] == text@[i + k]);
            return false;
        }
        k += 1;
    }
    assert(text@.subrange(i as int, i + pat@.len()) =~= pat@);
    true
}

/// The first occurrence of `pat` in `text` that starts at or after `from` and ends at or before
/// `end`.
pub fn find(text: &Vec<char>, pat: &str, from: usize, end: usize) -> (r: Option<usize>)
    requires
        from <= end <= text.len(),
    ensures
        match r {
            Some(i) => find_in(text@, pat@, from as int, end as int) == Some(i as int),
            None => find_in(text@, pat@, from as int, end as int) is None,
        },
        r matches Some(i) ==> from <= i && i + pat@.len() <= end && occurs_at(
            text@,
            pat@,
            i as int,
        ),
{
    let p = chars_of(pat);
    let mut i: usize = from;
    while p.len() <= end - i
        invariant
            from <= i <= end <= text.len(),
            p@ == pat@,
            find_in(text@, pat@, from as int, end as int) == find_in(
                text@,
                pat@,
                i as int,
                end as int,
            ),
        decreases end - i,
    {
        if matches_at(text, &p, i) {
            return Some(i);
        }
        assert(i < end) by {
            if i == end {
                assert(text@.subrange(i as int, i as int) =~= pat@);
            }
        }
        i += 1;
    }
    None
}

/// The last occurrence of `pat` in `text` that ends at or before `end`.
pub fn rfind(text: &Vec<char>, pat: &str, end: usize) -> (r: Option<usize>)
    requires
        end <= text.len(),
    ensures
        match r {
            Some(i) => rfind_in(text@, pat@, end as int) == Some(i as int),
            None => rfind_in(text@, pat@, end as int) is None,
        },
        r matches Some(i) ==> i + pat@.len() <= end && occurs_at(text@, pat@, i as int),
{
    let p = chars_of(pat);
    let mut e: usize = end;
    while e > 0 && p.len() <= e
        invariant
            e <= end <= text.len(),
            p@ == pat@,
            rfind_in(text@, pat@, end as int) == rfind_in(text@, pat@, e as int),
        decreases e,
    {
        if matches_at(text, &p, e - p.len()) {
            return Some(e - p.len());
        }
        e -= 1;
    }
    None
}

/// Whether `pat` stands somewhere in `text`.
pub fn contains(text: &Vec<char>, pat: &str) -> (r: bool)
    ensures
        r == contains_text(text@, pat@),
{
    let found = find(text, pat, 0, text.len());
    proof {
        lemma_find_in(text@, pat@, 0, text@.len() as int);
        if contains_text(text@, pat@) {
            let i = choose|i: int| occurs_at(text@, pat@, i);
            assert(occurs_at(text@, pat@, i));
        }
    }
    found.is_some()
}

/// Whether `text` begins with `pat`.
pub fn starts_with(text: &Vec<char>, pat: &str) -> (r: bool)
    ensures
        r == begins_with(text@, pat@),
{
    let p = chars_of(pat);
    p.len() <= text.len() && matches_at(text, &p, 0)
}

// ── Trimming ─────────────────────────────────────────────────────

/// The characters with the Unicode property `White_Space`.
pub open spec fn is_white(c: char) -> bool {
    ||| '\u{9}' <= c <= '\u{d}'
    ||| c == ' '
    ||| c == '\u{85}'
    ||| c == '\u{a0}'
    ||| c == '\u{1680}'
    ||| '\u{2000}' <= c <= '\u{200a}'
    ||| c == '\u{2028}'
    ||| c == '\u{2029}'
    ||| c == '\u{202f}'
    ||| c == '\u{205f}'
    ||| c == '\u{3000}'
}

/// `s` without its leading white space.
pub open spec fn trim_front(s: Seq<char>) -> Seq<char>
    decreases s.len(),
{
    if s.len() > 0 && is_white(s[0]) {
        trim_front(s.drop_first())
    } else {
        s
    }
}

/// `s` without its trailing white space.
pub open spec fn trim_back(s: Seq<char>) -> Seq<char>
    decreases s.len(),
{
    if s.len() > 0 && is_white(s.last()) {
        trim_back(s.drop_last())
    } else {
        s
    }
}

/// `s` without leading and trailing white space.
pub open spec fn trimmed(s: Seq<char>) -> Seq<char> {
    trim_back(trim_front(s))
}

proof fn lemma_trim_front_holds(s: Seq<char>, c: char)
    ensures
        trim_front(s).contains(c) ==> s.contains(c),
    decreases s.len(),
{
    if s.len() > 0 && is_white(s[0]) {
        lemma_trim_front_holds(s.drop_first(), c);
        if s.drop_first().contains(c) {
            let i = choose|i: int| 0 <= i < s.drop_first().len() && s.drop_first()[i] == c;
            assert(s[i + 1] == c);
        }
    }
}

proof fn lemma_trim_back_holds(s: Seq<char>, c: char)
    ensures
        trim_back(s).contains(c) ==> s.contains(c),
    decreases s.len(),
{
    if s.len() > 0 && is_white(s.last()) {
        lemma_trim_back_holds(s.drop_last(), c);
        if s.drop_last().contains(c) {
            let i = choose|i: int| 0 <= i < s.drop_last().len() && s.drop_last()[i] == c;
            assert(s[i] == c);
        }
    }
}

/// Trimming adds no character.
pub proof fn lemma_trimmed_holds(s: Seq<char>, c: char)
    ensures
        trimmed(s).contains(c) ==> s.contains(c),
{
    lemma_trim_front_holds(s, c);
    lemma_trim_back_holds(trim_front(s), c);
}

/// Whether `c` has the Unicode property `White_Space`.
pub fn white(c: char) -> (r: bool)
    ensures
        r == is_white(c),
{
    ('\u{9}' <= c && c <= '\u{d}') || c == ' ' || c == '\u{85}' || c == '\u{a0}' || c == '\u{1680}'
        || ('\u{2000}' <= c && c <= '\u{200a}') || c == '\u{2028}' || c == '\u{2029}' || c
        == '\u{202f}' || c == '\u{205f}' || c == '\u{3000}'
}

/// The characters `from..to` of `v`, without white space at either end.
pub fn trim_of(v: &Vec<char>, from: usize, to: usize) -> (s: String)
    requires
        from <= to <= v.len(),
    ensures
        s@ == trimmed(v@.subrange(from as int, to as int)),
{
    let ghost all = v@.subrange(from as int, to as int);
    let mut a: usize = from;
    while a < to && white(v[a])
        invariant
            from <= a <= to <= v.len(),
            trim_front(all) == trim_front(v@.subrange(a as int, to as int)),
        decreases to - a,
    {
        assert(v@.subrange(a as int, to as int).drop_first() =~= v@.subrange(a + 1, to as int));
        a += 1;
    }
    let ghost rest = v@.subrange(a as int, to as int);
    assert(trim_front(all) == rest);
    let mut b: usize = to;
    while a < b && white(v[b - 1])
        invariant
            a <= b <= to <= v.len(),
            trim_back(rest) == trim_back(v@.subrange(a as int, b as int)),
        decreases b,
    {
        assert(v@.subrange(a as int, b as int).drop_last() =~= v@.subrange(a as int, b - 1));
        b -= 1;
    }
    string_of(v, a, b)
}

/// `s` without leading and trailing white space.
pub fn trim(s: &str) -> (r: String)
    ensures
        r@ == trimmed(s@),
{
    let v = chars_of(s);
    assert(v@.subrange(0, v@.len() as int) =~= s@);
    trim_of(&v, 0, v.len())
}

// ── Joining ──────────────────────────────────────────────────────

/// The texts of a list of strings.
pub open spec fn texts(lines: Seq<String>) -> Seq<Seq<char>> {
    Seq::new(lines.len(), |i: int| lines[i]@)
}

/// The parts one after the other, with `sep` between two neighbours.
pub open spec fn joined(parts: Seq<Seq<char>>, sep: Seq<char>) -> Seq<char>
    decreases parts.len(),
{
    if parts.len() == 0 {
        Seq::empty()
    } else if parts.len() == 1 {
        parts[0]
    } else {
        joined(parts.drop_last(), sep) + sep + parts.last()
    }
}

/// The lines one after the other, with `sep` between two neighbours.
pub fn join(lines: &Vec<String>, sep: &str) -> (r: String)
    ensures
        r@ == joined(texts(lines@), sep@),
{
    let mut r = String::new();
    let mut i: usize = 0;
    while i < lines.len()
        invariant
            i <= lines.len(),
            r@ == joined(texts(lines@).take(i as int), sep@),
        decreases lines.len() - i,
    {
        if i > 0 {
            r.append(sep);
        }
        r.append(lines[i].as_str());
        i += 1;
        assert(texts(lines@).take(i as int).drop_last() =~= texts(lines@).take(i - 1));
    }
    assert(texts(lines@).take(i as int) =~= texts(lines@));
    r
}

// ── Decimal numbers ──────────────────────────────────────────────

/// `c` is one of `0` to `9`.
pub open spec fn is_digit(c: char) -> bool {
    '0' <= c <= '9'
}

/// Every character of `s` is a decimal digit.
pub open spec fn all_digits(s: Seq<char>) -> bool {
    forall|i: int| 0 <= i < s.len() ==> is_digit(#[trigger] s[i])
}

/// The number that the digits of `s` write in base ten.
pub open spec fn digits_value(s: Seq<char>) -> nat
    decreases s.len(),
{
    if s.len() == 0 {
        0
    } else {
        10 * digits_value(s.drop_last()) + (s.last() as nat - '0' as nat) as nat
    }
}

/// `n` in base ten, without leading zeros.
pub open spec fn decimal_text(n: nat) -> Seq<char>
    decreases n,
{
    if n < 10 {
        seq![(48 + n) as char]
    } else {
        decimal_text(n / 10).push((48 + n % 10) as char)
    }
}

/// `s` without one leading plus sign.
pub open spec fn without_plus(s: Seq<char>) -> Seq<char> {
    if s.len() > 0 && s[0] == '+' {
        s.drop_first()
    } else {
        s
    }
}

/// The number that `s` writes: an optional plus sign and at least one decimal digit, up to `max`.
pub open spec fn parsed_decimal(s: Seq<char>, max: nat) -> Option<nat> {
    let digits = without_plus(s);
    if digits.len() > 0 && all_digits(digits) && digits_value(digits) <= max {
        Some(digits_value(digits))
    } else {
        None
    }
}

proof fn lemma_digits_value_grows(s: Seq<char>, k: int)
    requires
        0 <= k <= s.len(),
    ensures
        digits_value(s.take(k)) <= digits_value(s),
    decreases s.len(),
{
    if k == s.len() {
        assert(s.take(k) =~= s);
    } else {
        lemma_digits_value_grows(s.drop_last(), k);
        assert(s.drop_last().take(k) =~= s.take(k));
    }
}

/// Writing a number in base ten and reading it back gives the number.
pub proof fn lemma_decimal_round_trip(n: nat, max: nat)
    requires
        n <= max,
    ensures
        all_digits(decimal_text(n)),
        decimal_text(n).len() > 0,
        digits_value(decimal_text(n)) == n,
        parsed_decimal(decimal_text(n), max) == Some(n),
    decreases n,
{
    let s = decimal_text(n);
    if n < 10 {
        assert(s.drop_last() =~= Seq::<char>::empty());
        assert(digits_value(s.drop_last()) == 0);
    } else {
        lemma_decimal_round_trip(n / 10, max);
        assert(s.drop_last() =~= decimal_text(n / 10));
        assert forall|i: int| 0 <= i < s.len() implies is_digit(#[trigger] s[i]) by {
            if i < s.len() - 1 {
                assert(s[i] == decimal_text(n / 10)[i]);
            }
        }
    }
    assert(is_digit(s[0]));
    assert(without_plus(s) == s);
}

/// The number that `s` writes, if it is at most `max`.
pub fn parse_decimal(s: &str, max: u64) -> (r: Option<u64>)
    ensures
        match r {
            Some(n) => parsed_decimal(s@, max as nat) == Some(n as nat),
            None => parsed_decimal(s@, max as nat) is None,
        },
{
    let v = chars_of(s);
    let mut start: usize = 0;
    if v.len() > 0 && v[0] == '+' {
        start = 1;
    }
    let ghost digits = without_plus(s@);
    assert(digits =~= v@.skip(start as int));
    if v.len() == start {
        return None;
    }
    let mut value: u128 = 0;
    let mut i: usize = start;
    while i < v.len()
        invariant
            start <= i <= v.len(),
            v@ == s@,
            digits == without_plus(s@),
            digits == v@.skip(start as int),
            forall|j: int| 0 <= j < i - start ==> is_digit(#[trigger] digits[j]),
            value == digits_value(digits.take(i - start)),
            value <= max,
        decreases v.len() - i,
    {
        let c = v[i];
        assert(digits[i - start] == c);
        if !('0' <= c && c <= '9') {
            return None;
        }
        proof {
            let next = digits.take(i - start + 1);
            assert(next.drop_last() =~= digits.take(i - start));
            assert(next.last() == c);
        }
        value = 10 * value + (c as u32 - '0' as u32) as u128;
        i += 1;
        if value > max as u128 {
            proof {
                lemma_digits_value_grows(digits, i - start);
            }
            return None;
        }
    }
    assert(digits.take(i - start) =~= digits);
    Some(value as u64)
}

/// `n` in base ten.
pub fn decimal(n: u64) -> (s: String)
    ensures
        s@ == decimal_text(n as nat),
    decreases n,
{
    let mut s = if n < 10 {
        String::new()
    } else {
        decimal(n / 10)
    };
    s.push((48 + (n % 10) as u8) as char);
    s
}

// ── Laws ─────────────────────────────────────────────────────────

/// A text stands at a position exactly where cutting the whole at that position gives the text with
/// what surrounds it.
pub proof fn occurrence_cuts_the_text(text: Seq<char>, pat: Seq<char>, i: int)
    ensures
        occurs_at(text, pat, i) <==> 0 <= i <= text.len() && exists|rest: Seq<char>|
            text == #[trigger] (text.take(i) + pat + rest),
{
    if occurs_at(text, pat, i) {
        let rest = text.skip(i + pat.len());
        assert forall|k: int| 0 <= k < pat.len() implies pat[k] == text[i + k] by {
            assert(text.subrange(i, i + pat.len())[k] == text[i + k]);
        }
        assert(text =~= text.take(i) + pat + rest);
    }
    if 0 <= i <= text.len() && exists|rest: Seq<char>|
        text == #[trigger] (text.take(i) + pat + rest) {
        let rest = choose|rest: Seq<char>| text == #[trigger] (text.take(i) + pat + rest);
        let whole = text.take(i) + pat + rest;
        assert(whole.subrange(i, i + pat.len()) =~= pat);
    }
}

/// A text is contained exactly where the whole is that text with something before and after it.
pub proof fn contained_text_is_a_part(text: Seq<char>, pat: Seq<char>)
    ensures
        contains_text(text, pat) <==> exists|before: Seq<char>, after: Seq<char>|
            text == #[trigger] (before + pat + after),
{
    if contains_text(text, pat) {
        let i = choose|i: int| occurs_at(text, pat, i);
        occurrence_cuts_the_text(text, pat, i);
        let rest = choose|rest: Seq<char>| text == #[trigger] (text.take(i) + pat + rest);
        assert(text == text.take(i) + pat + rest);
    }
    if exists|before: Seq<char>, after: Seq<char>| text == #[trigger] (before + pat + after) {
        let (before, after) = choose|before: Seq<char>, after: Seq<char>|
            text == #[trigger] (before + pat + after);
        let i = before.len() as int;
        assert(text.subrange(i, i + pat.len()) =~= pat);
        assert(occurs_at(text, pat, i));
    }
}

/// A text begins with another exactly where it is that one with something after it.
pub proof fn beginning_is_a_part(text: Seq<char>, pat: Seq<char>)
    ensures
        begins_with(text, pat) <==> exists|after: Seq<char>| text == #[trigger] (pat + after),
{
    if begins_with(text, pat) {
        let after = text.skip(pat.len() as int);
        assert forall|k: int| 0 <= k < pat.len() implies pat[k] == text[k] by {
            assert(text.subrange(0, pat.len() as int)[k] == text[k]);
        }
        assert(text =~= pat + after);
    }
    if exists|after: Seq<char>| text == #[trigger] (pat + after) {
        let after = choose|after: Seq<char>| text == #[trigger] (pat + after);
        assert(text.subrange(0, pat.len() as int) =~= pat);
    }
}

/// What is found from the back is the last occurrence in the window, and nothing is found only
/// where there is none.
pub proof fn last_occurrence_is_found(text: Seq<char>, pat: Seq<char>, end: int)
    ensures
        match rfind_in(text, pat, end) {
            Some(i) => 0 <= i && i + pat.len() <= end && occurs_at(text, pat, i) && (forall|j: int|
                i < j && j + pat.len() <= end ==> !occurs_at(text, pat, j)),
            None => forall|j: int|
                0 <= j && 0 < j + pat.len() <= end ==> !occurs_at(text, pat, j),
        },
    decreases end,
{
    if end >= pat.len() && end > 0 && !occurs_at(text, pat, end - pat.len()) {
        last_occurrence_is_found(text, pat, end - 1);
    }
}

/// Every character is white space.
pub open spec fn all_white(s: Seq<char>) -> bool {
    forall|i: int| 0 <= i < s.len() ==> is_white(#[trigger] s[i])
}

/// Trimming takes the white space off both ends and nothing else: what is left begins and ends with
/// other characters.
pub proof fn trimming_takes_off_white_space(before: Seq<char>, core: Seq<char>, after: Seq<char>)
    requires
        all_white(before),
        all_white(after),
        core.len() > 0 ==> !is_white(core[0]) && !is_white(core.last()),
    ensures
        trimmed(before + core + after) == core,
    decreases before.len() + after.len(),
{
    let s = before + core + after;
    if before.len() > 0 {
        assert(s[0] == before[0]);
        assert(s.drop_first() =~= before.drop_first() + core + after);
        assert(all_white(before.drop_first())) by {
            assert forall|i: int| 0 <= i < before.drop_first().len() implies is_white(
                #[trigger] before.drop_first()[i],
            ) by {
                assert(before.drop_first()[i] == before[i + 1]);
            }
        }
        trimming_takes_off_white_space(before.drop_first(), core, after);
    } else if core.len() == 0 {
        assert(s =~= after);
        if after.len() > 0 {
            assert(s.drop_first() =~= Seq::<char>::empty() + core + after.drop_first());
            assert(all_white(after.drop_first())) by {
                assert forall|i: int| 0 <= i < after.drop_first().len() implies is_white(
                    #[trigger] after.drop_first()[i],
                ) by {
                    assert(after.drop_first()[i] == after[i + 1]);
                }
            }
            trimming_takes_off_white_space(Seq::empty(), core, after.drop_first());
        } else {
            assert(s =~= core);
        }
    } else {
        assert(s[0] == core[0]);
        assert(trim_front(s) == s);
        if after.len() > 0 {
            assert(s.last() == after.last());
            assert(s.drop_last() =~= before + core + after.drop_last());
            assert(all_white(after.drop_last())) by {
                assert forall|i: int| 0 <= i < after.drop_last().len() implies is_white(
                    #[trigger] after.drop_last()[i],
                ) by {
                    assert(after.drop_last()[i] == after[i]);
                }
            }
            trimming_takes_off_white_space(before, core, after.drop_last());
            assert(s.drop_last()[0] == core[0]);
            assert(trim_front(s.drop_last()) == s.drop_last());
        } else {
            assert(s =~= core);
        }
    }
}

/// Trimming leaves something exactly where a text has a character that is not white space.
pub proof fn blank_texts_trim_to_nothing(s: Seq<char>)
    ensures
        trimmed(s).len() == 0 <==> all_white(s),
{
    if all_white(s) {
        trimming_takes_off_white_space(s, Seq::empty(), Seq::empty());
        assert(s =~= s + Seq::<char>::empty() + Seq::<char>::empty());
    } else {
        lemma_trim_front_keeps(s);
        lemma_trim_back_keeps(trim_front(s));
    }
}

proof fn lemma_trim_front_keeps(s: Seq<char>)
    requires
        !all_white(s),
    ensures
        !all_white(trim_front(s)),
    decreases s.len(),
{
    if s.len() > 0 && is_white(s[0]) {
        let i = choose|i: int| 0 <= i < s.len() && !is_white(#[trigger] s[i]);
        assert(s.drop_first()[i - 1] == s[i]);
        lemma_trim_front_keeps(s.drop_first());
    }
}

proof fn lemma_trim_back_keeps(s: Seq<char>)
    requires
        !all_white(s),
    ensures
        !all_white(trim_back(s)),
    decreases s.len(),
{
    if s.len() > 0 && is_white(s.last()) {
        let i = choose|i: int| 0 <= i < s.len() && !is_white(#[trigger] s[i]);
        assert(s.drop_last()[i] == s[i]);
        lemma_trim_back_keeps(s.drop_last());
    }
}

/// Joining puts the separator between two parts and nothing around them.
pub proof fn joining_separates_the_parts(a: Seq<Seq<char>>, part: Seq<char>, sep: Seq<char>)
    ensures
        joined(Seq::empty(), sep).len() == 0,
        joined(seq![part], sep) == part,
        a.len() > 0 ==> joined(a.push(part), sep) == joined(a, sep) + sep + part,
{
    assert(a.push(part).drop_last() =~= a);
}

/// A number is read digit by digit, leading zeros and all, with or without a plus sign; it is read
/// exactly where there is a digit, nothing but digits, and no more than the limit.
pub proof fn numbers_are_read_digit_by_digit(digits: Seq<char>, c: char, max: nat)
    requires
        forall|i: int| 0 <= i < digits.len() ==> '0' <= #[trigger] digits[i] <= '9',
        '0' <= c <= '9',
    ensures
        parsed_decimal(digits.push(c), max) == {
            let front = if digits.len() == 0 {
                Some(0nat)
            } else {
                parsed_decimal(digits, max)
            };
            match front {
                Some(n) => if 10 * n + (c as int - '0' as int) <= max {
                    Some((10 * n + (c as int - '0' as int)) as nat)
                } else {
                    None
                },
                None => None,
            }
        },
        parsed_decimal(seq!['+'] + digits.push(c), max) == parsed_decimal(digits.push(c), max),
{
    let s = digits.push(c);
    assert(s.drop_last() =~= digits);
    assert forall|i: int| 0 <= i < s.len() implies is_digit(#[trigger] s[i]) by {
        if i < digits.len() {
            assert(s[i] == digits[i]);
        }
    }
    assert(is_digit(s[0]));
    assert((seq!['+'] + s).drop_first() =~= s);
    if digits.len() > 0 {
        assert(is_digit(digits[0]));
        assert(all_digits(digits));
    }
}

/// Nothing else is read as a number: neither an empty text or a lone plus sign, nor a text with any
/// character that is no digit behind such a sign.
pub proof fn only_digits_are_read(s: Seq<char>, max: nat, i: int)
    ensures
        s.len() == 0 ==> parsed_decimal(s, max) is None,
        s == seq!['+'] ==> parsed_decimal(s, max) is None,
        0 <= i < s.len() && !('0' <= s[i] <= '9') && !(i == 0 && s[i] == '+') ==> parsed_decimal(
            s,
            max,
        ) is None,
{
    if 0 <= i < s.len() && !('0' <= s[i] <= '9') && !(i == 0 && s[i] == '+') {
        let d = without_plus(s);
        if s[0] == '+' {
            assert(d[i - 1] == s[i]);
        } else {
            assert(d[i] == s[i]);
        }
        assert(!all_digits(d));
    }
}

/// A number is written with the digits that it has: the last is its remainder by ten, before it
/// stands the tenth of it where that is not zero.
pub proof fn numbers_are_written_digit_by_digit(n: nat)
    ensures
        decimal_text(n).len() > 0,
        decimal_text(n).last() as int == '0' as int + n % 10,
        decimal_text(n).drop_last() == (if n < 10 {
            Seq::empty()
        } else {
            decimal_text(n / 10)
        }),
{
    if n < 10 {
        assert(decimal_text(n).drop_last() =~= Seq::<char>::empty());
    } else {
        assert(decimal_text(n).drop_last() =~= decimal_text(n / 10));
    }
}

/// The twenty-five characters of white space, by their numbers.
pub proof fn white_space_by_its_numbers(c: char)
    ensures
        is_white(c) <==> {
            let n = c as int;
            9 <= n <= 13 || n == 32 || n == 133 || n == 160 || n == 5_760 || 8_192 <= n <= 8_202
                || n == 8_232 || n == 8_233 || n == 8_239 || n == 8_287 || n == 12_288
        },
{
}

/// The texts of lines are those of the lines, one by one.
pub proof fn texts_are_those_of_the_lines(lines: Seq<String>, i: int)
    ensures
        texts(lines).len() == lines.len(),
        0 <= i < lines.len() ==> texts(lines)[i] == lines[i]@,
{
}

} // verus!
