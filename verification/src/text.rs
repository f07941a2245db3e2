//! Text helpers: comparison, trimming, searching and number formatting.
//!
//! Every helper is stated over the characters of the text, so the contracts of the
//! modules above can speak of exact messages and exact matches.

use vstd::prelude::*;
use vstd::string::*;

verus! {

/// The digit `d` in upper-case base-16 notation.
pub open spec fn digit_char(d: int) -> char {
    if d < 10 {
        (d + '0' as int) as char
    } else {
        (d - 10 + 'A' as int) as char
    }
}

/// Decimal notation of `n`, without leading zeros.
pub open spec fn dec(n: nat) -> Seq<char>
    decreases n,
{
    if n < 10 {
        seq![digit_char(n as int)]
    } else {
        dec(n / 10).push(digit_char((n % 10) as int))
    }
}

/// Decimal notation of a signed number.
pub open spec fn dec_int(n: int) -> Seq<char> {
    if n < 0 {
        "-"@ + dec((-n) as nat)
    } else {
        dec(n as nat)
    }
}

/// Upper-case base-16 notation of `n`, padded with zeros to at least `width` digits.
pub open spec fn hex(n: nat, width: nat) -> Seq<char>
    decreases n, width,
{
    if n < 16 && width <= 1 {
        seq![digit_char(n as int)]
    } else if width <= 1 {
        hex(n / 16, 0).push(digit_char((n % 16) as int))
    } else {
        hex(n / 16, (width - 1) as nat).push(digit_char((n % 16) as int))
    }
}

/// Append one base-16 digit.
fn push_digit(out: &mut String, d: u64)
    requires
        d < 16,
    ensures
        final(out)@ == old(out)@.push(digit_char(d as int)),
{
    proof {
        reveal_strlit("0");
        reveal_strlit("1");
        reveal_strlit("2");
        reveal_strlit("3");
        reveal_strlit("4");
        reveal_strlit("5");
        reveal_strlit("6");
        reveal_strlit("7");
        reveal_strlit("8");
        reveal_strlit("9");
        reveal_strlit("A");
        reveal_strlit("B");
        reveal_strlit("C");
        reveal_strlit("D");
        reveal_strlit("E");
        reveal_strlit("F");
    }
    let digit: &str = match d {
        0 => "0",
        1 => "1",
        2 => "2",
        3 => "3",
        4 => "4",
        5 => "5",
        6 => "6",
        7 => "7",
        8 => "8",
        9 => "9",
        10 => "A",
        11 => "B",
        12 => "C",
        13 => "D",
        14 => "E",
        _ => "F",
    };
    assert(digit@ =~= seq![digit_char(d as int)]);
    out.append(digit);
}

/// Append the decimal notation of `n`.
pub(crate) fn push_dec(out: &mut String, n: u64)
    ensures
        final(out)@ == old(out)@ + dec(n as nat),
    decreases n,
{
    if n >= 10 {
        push_dec(out, n / 10);
    }
    push_digit(out, n % 10);
}

/// Append the decimal notation of a signed number.
pub(crate) fn push_dec_int(out: &mut String, n: i64)
    ensures
        final(out)@ == old(out)@ + dec_int(n as int),
{
    if n < 0 {
        out.append("-");
        let magnitude: u64 = (-(n as i128)) as u64;
        push_dec(out, magnitude);
    } else {
        push_dec(out, n as u64);
    }
}

/// Append `n` in upper-case base-16 notation with at least `width` digits.
pub(crate) fn push_hex(out: &mut String, n: u64, width: u64)
    ensures
        final(out)@ == old(out)@ + hex(n as nat, width as nat),
    decreases n, width,
{
    if n >= 16 || width > 1 {
        let rest: u64 = if width <= 1 { 0 } else { width - 1 };
        push_hex(out, n / 16, rest);
    }
    push_digit(out, n % 16);
}

/// Decimal notation of `n`, as used in messages and listings.
pub fn dec_text(n: u64) -> (res: String)
    ensures
        res@ == dec(n as nat),
{
    let mut out = String::new();
    push_dec(&mut out, n);
    out
}

/// The characters of a text, in order.
pub fn chars_of(s: &str) -> (res: Vec<char>)
    ensures
        res@ == s@,
{
    let mut out: Vec<char> = Vec::new();
    for c in it: s.chars()
        invariant
            out@ == s@.take(it.index()),
            it.seq() == s@,
    {
        out.push(c);
    }
    out
}

/// Whether two texts hold the same characters.
pub fn same_text(a: &str, b: &str) -> (res: bool)
    ensures
        res == (a@ == b@),
{
    a.to_owned() == b.to_owned()
}

/// The characters with the Unicode `White_Space` property.
pub open spec fn is_white_space(c: char) -> bool {
    let n = c as u32;
    ||| 0x09 <= n <= 0x0D
    ||| n == 0x20
    ||| n == 0x85
    ||| n == 0xA0
    ||| n == 0x1680
    ||| 0x2000 <= n <= 0x200A
    ||| n == 0x2028
    ||| n == 0x2029
    ||| n == 0x202F
    ||| n == 0x205F
    ||| n == 0x3000
}

/// Whether a character counts as white space.
pub(crate) fn white_space(c: char) -> (res: bool)
    ensures
        res == is_white_space(c),
{
    let n: u32 = c as u32;
    (0x09 <= n && n <= 0x0D) || n == 0x20 || n == 0x85 || n == 0xA0 || n == 0x1680 || (0x2000 <= n
        && n <= 0x200A) || n == 0x2028 || n == 0x2029 || n == 0x202F || n == 0x205F || n == 0x3000
}

/// `s` without the white space at its end.
pub open spec fn trim_end_of(s: Seq<char>) -> Seq<char>
    decreases s.len(),
{
    if s.len() > 0 && is_white_space(s.last()) {
        trim_end_of(s.drop_last())
    } else {
        s
    }
}

/// `s` without the white space at its start.
pub open spec fn trim_start_of(s: Seq<char>) -> Seq<char>
    decreases s.len(),
{
    if s.len() > 0 && is_white_space(s[0]) {
        trim_start_of(s.drop_first())
    } else {
        s
    }
}

/// `s` without the white space at either end.
pub open spec fn trimmed(s: Seq<char>) -> Seq<char> {
    trim_end_of(trim_start_of(s))
}

/// Text without the white space at either end.
pub fn trim(s: &str) -> (res: &str)
    ensures
        res@ == trimmed(s@),
{
    let chars: Vec<char> = chars_of(s);
    let mut from: usize = 0;
    assert(s@.skip(0) =~= s@);
    while from < chars.len() && white_space(chars[from])
        invariant
            from <= chars.len(),
            chars@ == s@,
            trim_start_of(s@) == trim_start_of(s@.skip(from as int)),
        decreases chars.len() - from,
    {
        assert(s@.skip(from as int).drop_first() =~= s@.skip(from + 1));
        from = from + 1;
    }
    let ghost rest = s@.skip(from as int);
    let mut to: usize = chars.len();
    assert(rest.take(to - from) =~= rest);
    while from < to && white_space(chars[to - 1])
        invariant
            from <= to <= chars.len(),
            chars@ == s@,
            rest == s@.skip(from as int),
            trim_end_of(rest) == trim_end_of(rest.take(to - from)),
        decreases to - from,
    {
        let ghost part = rest.take(to - from);
        assert(part.last() == s@[to - 1]);
        assert(part.drop_last() =~= rest.take(to - from - 1));
        to = to - 1;
    }
    let ghost part = rest.take(to - from);
    assert(part =~= s@.subrange(from as int, to as int));
    if from < to {
        assert(part.last() == s@[to - 1]);
    }
    s.substring_char(from, to)
}

/// Whether `needle` stands in `s` as consecutive characters.
pub open spec fn contains_text(s: Seq<char>, needle: Seq<char>) -> bool {
    exists|i: int| #[trigger] occurs_at(s, needle, i)
}

/// Whether `needle` stands in `s` from position `i` on.
pub open spec fn occurs_at(s: Seq<char>, needle: Seq<char>, i: int) -> bool {
    &&& 0 <= i
    &&& i + needle.len() <= s.len()
    &&& s.subrange(i, i + needle.len()) == needle
}

/// Whether `needle` stands in `s` from position `i` on.
fn matches_at(s: &Vec<char>, needle: &Vec<char>, i: usize) -> (res: bool)
    requires
        i + needle@.len() <= s@.len(),
    ensures
        res == occurs_at(s@, needle@, i as int),
{
    let end: usize = s.len();
    let mut k: usize = 0;
    while k < needle.len()
        invariant
            k <= needle@.len(),
            end == s@.len(),
            i + needle@.len() <= end,
            forall|j: int| 0 <= j < k ==> s@[i + j] == needle@[j],
        decreases needle@.len() - k,
    {
        if s[i + k] != needle[k] {
            assert(s@.subrange(i as int, i + needle@.len())[k as int] != needle@[k as int]);
            return false;
        }
        k = k + 1;
    }
    assert(s@.subrange(i as int, i + needle@.len()) =~= needle@);
    true
}

/// Whether `needle` stands in `s` as consecutive characters.
pub(crate) fn text_contains(s: &str, needle: &str) -> (res: bool)
    ensures
        res == contains_text(s@, needle@),
{
    let chars: Vec<char> = chars_of(s);
    let wanted: Vec<char> = chars_of(needle);
    if wanted.len() > chars.len() {
        return false;
    }
    let last: usize = chars.len() - wanted.len();
    let mut i: usize = 0;
    while i <= last
        invariant
            chars@ == s@,
            wanted@ == needle@,
            wanted@.len() <= chars@.len(),
            last == chars@.len() - wanted@.len(),
            i <= last + 1,
            forall|j: int| 0 <= j < i ==> !occurs_at(s@, needle@, j),
        decreases last + 1 - i,
    {
        if matches_at(&chars, &wanted, i) {
            return true;
        }
        if i == last {
            return false;
        }
        i = i + 1;
    }
    false
}

/// What follows the last dot of a dotted path; the whole text when it has no dot.
pub open spec fn last_segment(s: Seq<char>) -> Seq<char>
    decreases s.len(),
{
    if s.len() == 0 || s.last() == '.' {
        Seq::empty()
    } else {
        last_segment(s.drop_last()).push(s.last())
    }
}

/// Whether the last segment of the dotted path `s` is `name`.
pub(crate) fn last_segment_is(s: &str, name: &str) -> (res: bool)
    ensures
        res == (last_segment(s@) == name@),
{
    let chars: Vec<char> = chars_of(s);
    let mut from: usize = chars.len();
    assert(s@.take(from as int) =~= s@);
    assert(last_segment(s@) =~= last_segment(s@.take(from as int)) + s@.skip(from as int));
    while from > 0 && chars[from - 1] != '.'
        invariant
            from <= chars@.len(),
            chars@ == s@,
            last_segment(s@) == last_segment(s@.take(from as int)) + s@.skip(from as int),
        decreases from,
    {
        let ghost head = s@.take(from as int);
        assert(head.drop_last() =~= s@.take(from - 1));
        assert(last_segment(head) == last_segment(s@.take(from - 1)).push(s@[from - 1]));
        assert(last_segment(s@) =~= last_segment(s@.take(from - 1)) + s@.skip(from - 1));
        from = from - 1;
    }
    proof {
        let head = s@.take(from as int);
        if from > 0 {
            assert(head.last() == s@[from - 1]);
        }
        assert(last_segment(head) =~= Seq::<char>::empty());
        assert(last_segment(s@) =~= s@.subrange(from as int, s@.len() as int));
    }
    same_text(s.substring_char(from, chars.len()), name)
}

/// A text with `needle` anywhere in it contains `needle`, and there is no other way to contain
/// it.
pub proof fn law_contained_texts_stand_between_two_others(s: Seq<char>, needle: Seq<char>)
    ensures
        contains_text(s, needle) <==> exists|before: Seq<char>, after: Seq<char>|
            s == #[trigger] (before + needle + after),
{
    if contains_text(s, needle) {
        let i = choose|i: int| #[trigger] occurs_at(s, needle, i);
        let before = s.take(i);
        let after = s.skip(i + needle.len());
        assert(s =~= before + s.subrange(i, i + needle.len()) + after);
    }
    if exists|before: Seq<char>, after: Seq<char>| s == #[trigger] (before + needle + after) {
        let (before, after) = choose|before: Seq<char>, after: Seq<char>|
            s == #[trigger] (before + needle + after);
        let i = before.len() as int;
        assert(s.subrange(i, i + needle.len()) =~= needle);
        assert(occurs_at(s, needle, i));
    }
}

/// The last segment of a path is its end that holds no dot and has a dot or nothing before it.
pub proof fn law_last_segments_stand_behind_the_last_dot(path: Seq<char>, name: Seq<char>)
    ensures
        last_segment(path) == name <==> !name.contains('.') && (path == name || exists|prefix: Seq<char>|
            path == #[trigger] (prefix + seq!['.'] + name)),
{
    lemma_last_segment(path);
    let last = last_segment(path);
    if last == name && path != name {
        assert(path.skip(0) =~= path);
        let prefix = path.take(path.len() - last.len() - 1);
        assert(path =~= prefix + seq!['.'] + name);
    }
    if !name.contains('.') && path == name {
        if last.len() < path.len() {
            assert(path[path.len() - last.len() - 1] == '.');
            assert(path.contains('.'));
        }
        assert(last =~= path);
    }
    if !name.contains('.') && exists|prefix: Seq<char>| path == #[trigger] (prefix + seq!['.'] + name) {
        let prefix = choose|prefix: Seq<char>| path == #[trigger] (prefix + seq!['.'] + name);
        let dot = prefix.len() as int;
        assert(path[dot] == '.');
        let from = path.len() - last.len();
        if from <= dot {
            assert(last[dot - from] == '.');
            assert(last.contains('.'));
        } else if from > dot + 1 {
            assert(path[from - 1] == name[from - 1 - dot - 1]);
            assert(name.contains('.'));
        }
        assert(last =~= name);
    }
}

proof fn lemma_last_segment(s: Seq<char>)
    ensures
        ({
            let last = last_segment(s);
            &&& last.len() <= s.len()
            &&& last == s.skip(s.len() - last.len())
            &&& !last.contains('.')
            &&& last.len() < s.len() ==> s[s.len() - last.len() - 1] == '.'
        }),
    decreases s.len(),
{
    if s.len() > 0 && s.last() != '.' {
        let rest = s.drop_last();
        lemma_last_segment(rest);
        let last = last_segment(s);
        let before = last_segment(rest);
        assert(last =~= s.skip(s.len() - last.len()));
        if last.contains('.') {
            let k = choose|k: int| 0 <= k < last.len() && last[k] == '.';
            if k < before.len() {
                assert(before[k] == '.');
            }
        }
    } else {
        assert(last_segment(s) =~= s.skip(s.len() as int));
    }
}

/// White space is the blank and the control characters from tab to carriage return, the next-line
/// character, and the blanks and separators of Unicode; no letter, digit or punctuation mark is
/// white space.
pub proof fn law_white_space_is_blank(c: char)
    ensures
        is_white_space(c) <==> c == ' ' || '\t' <= c <= '\r' || c == '\u{85}' || c == '\u{A0}' || c
            == '\u{1680}' || '\u{2000}' <= c <= '\u{200A}' || c == '\u{2028}' || c == '\u{2029}' || c
            == '\u{202F}' || c == '\u{205F}' || c == '\u{3000}',
{
}

/// Whether a text holds nothing but white space.
pub open spec fn is_blank(s: Seq<char>) -> bool {
    forall|i: int| 0 <= i < s.len() ==> is_white_space(#[trigger] s[i])
}

/// Trimming takes white space off both ends and nothing else: what is left is a part of the
/// text without white space at its ends, and all that stood before and behind it is white
/// space.
pub proof fn law_trimming_drops_white_space_only(s: Seq<char>)
    ensures
        exists|before: Seq<char>, after: Seq<char>|
            s == #[trigger] (before + trimmed(s) + after) && is_blank(before) && is_blank(after),
        trimmed(s).len() > 0 ==> !is_white_space(trimmed(s)[0]) && !is_white_space(
            trimmed(s).last(),
        ),
{
    let middle = trim_start_of(s);
    let kept = trimmed(s);
    lemma_trim_start(s);
    lemma_trim_end(middle);
    let before = s.take(s.len() - middle.len());
    let after = middle.skip(kept.len() as int);
    assert(s =~= before + kept + after);
    if kept.len() > 0 {
        assert(kept[0] == middle[0]);
    }
}

proof fn lemma_trim_start(s: Seq<char>)
    ensures
        ({
            let kept = trim_start_of(s);
            &&& kept.len() <= s.len()
            &&& kept == s.skip(s.len() - kept.len())
            &&& kept.len() > 0 ==> !is_white_space(kept[0])
            &&& forall|i: int|
                0 <= i < s.len() - kept.len() ==> is_white_space(#[trigger] s[i])
        }),
    decreases s.len(),
{
    if s.len() > 0 && is_white_space(s[0]) {
        let rest = s.drop_first();
        lemma_trim_start(rest);
        let kept = trim_start_of(s);
        assert(kept =~= s.skip(s.len() - kept.len()));
        assert forall|i: int| 0 <= i < s.len() - kept.len() implies is_white_space(
            #[trigger] s[i],
        ) by {
            if i > 0 {
                assert(s[i] == rest[i - 1]);
            }
        }
    } else {
        assert(s =~= s.skip(0));
    }
}

proof fn lemma_trim_end(s: Seq<char>)
    ensures
        ({
            let kept = trim_end_of(s);
            &&& kept.len() <= s.len()
            &&& kept == s.take(kept.len() as int)
            &&& kept.len() > 0 ==> !is_white_space(kept.last())
            &&& forall|i: int| kept.len() <= i < s.len() ==> is_white_space(#[trigger] s[i])
        }),
    decreases s.len(),
{
    if s.len() > 0 && is_white_space(s.last()) {
        let rest = s.drop_last();
        lemma_trim_end(rest);
        let kept = trim_end_of(s);
        assert(kept =~= s.take(kept.len() as int));
        assert forall|i: int| kept.len() <= i < s.len() implies is_white_space(#[trigger] s[i]) by {
            if i < s.len() - 1 {
                assert(s[i] == rest[i]);
            }
        }
    } else {
        assert(s =~= s.take(s.len() as int));
    }
}

/// A text without white space at its ends is left as it is.
pub proof fn law_trimmed_texts_stay(s: Seq<char>)
    requires
        s.len() > 0 ==> !is_white_space(s[0]) && !is_white_space(s.last()),
    ensures
        trimmed(s) == s,
{
}

/// The notation of a negative number is a minus before that of its magnitude; every other
/// number has no sign.
pub proof fn law_only_negative_numbers_have_a_sign(n: nat)
    ensures
        dec_int(n as int) == dec(n),
        n > 0 ==> dec_int(-n) == seq!['-'] + dec(n),
        dec(n).len() > 0,
        '0' <= dec(n)[0] <= '9',
    decreases n,
{
    reveal_strlit("-");
    assert("-"@ =~= seq!['-']);
    if n >= 10 {
        law_only_negative_numbers_have_a_sign(n / 10);
    }
}

} // verus!
