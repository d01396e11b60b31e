//! Text as sequences of characters: trimming, case folding, word splitting,
//! decimal numbers and the order of names.

use vstd::prelude::*;

verus! {

/// Appends one character: `String::push` leaves the old text in place and adds
/// the character behind it.
pub assume_specification[ String::push ](s: &mut String, c: char)
    ensures
        final(s)@ == old(s)@.push(c),
;

/// The characters with Unicode's `White_Space` property.
pub open spec fn is_space(c: char) -> bool {
    let n = c as u32;
    ||| 0x9 <= n <= 0xd
    ||| n == 0x20
    ||| n == 0x85
    ||| n == 0xa0
    ||| n == 0x1680
    ||| 0x2000 <= n <= 0x200a
    ||| n == 0x2028
    ||| n == 0x2029
    ||| n == 0x202f
    ||| n == 0x205f
    ||| n == 0x3000
}

pub fn char_is_space(c: char) -> (b: bool)
    ensures
        b == is_space(c),
{
    let n: u32 = c as u32;
    (0x9 <= n && n <= 0xd) || n == 0x20 || n == 0x85 || n == 0xa0 || n == 0x1680 || (0x2000 <= n
        && n <= 0x200a) || n == 0x2028 || n == 0x2029 || n == 0x202f || n == 0x205f || n == 0x3000
}

/// `c` with an ASCII upper-case letter turned into its lower-case one.
pub open spec fn lower_char(c: char) -> char {
    if 'A' <= c <= 'Z' {
        (c as u32 + 32) as char
    } else {
        c
    }
}

/// `s` with every ASCII upper-case letter in lower case.
pub open spec fn lower(s: Seq<char>) -> Seq<char> {
    Seq::new(s.len(), |i: int| lower_char(s[i]))
}

/// `s` without its leading white space.
pub open spec fn trim_front(s: Seq<char>) -> Seq<char>
    decreases s.len(),
{
    if s.len() > 0 && is_space(s[0]) {
        trim_front(s.drop_first())
    } else {
        s
    }
}

/// `s` without its trailing white space.
pub open spec fn trim_back(s: Seq<char>) -> Seq<char>
    decreases s.len(),
{
    if s.len() > 0 && is_space(s.last()) {
        trim_back(s.drop_last())
    } else {
        s
    }
}

/// `s` without white space at either end.
pub open spec fn trimmed(s: Seq<char>) -> Seq<char> {
    trim_back(trim_front(s))
}

/// The text that option names are matched in: trimmed, in lower case.
pub open spec fn folded(s: Seq<char>) -> Seq<char> {
    lower(trimmed(s))
}

/// The characters of `s`, one by one.
pub fn chars_of(s: &str) -> (out: Vec<char>)
    ensures
        out@ == s@,
{
    let mut out: Vec<char> = Vec::new();
    for c in it: s.chars()
        invariant
            it.seq() == s@,
            out@ == s@.take(it.index()),
    {
        out.push(c);
        assert(out@ =~= s@.take(it.index() + 1));
    }
    assert(out@ =~= s@);
    out
}

/// The text that the characters from `from` up to `to` make.
pub fn text_of(chars: &Vec<char>, from: usize, to: usize) -> (out: String)
    requires
        from <= to <= chars@.len(),
    ensures
        out@ == chars@.subrange(from as int, to as int),
{
    let mut out = String::new();
    let mut i: usize = from;
    while i < to
        invariant
            from <= i <= to <= chars@.len(),
            out@ == chars@.subrange(from as int, i as int),
        decreases to - i,
    {
        out.push(chars[i]);
        i += 1;
        assert(out@ =~= chars@.subrange(from as int, i as int));
    }
    out
}

pub fn same_text(a: &str, b: &str) -> (same: bool)
    ensures
        same == (a@ == b@),
{
    let left = a.to_owned();
    let right = b.to_owned();
    left == right
}

pub fn to_lower(s: &str) -> (out: String)
    ensures
        out@ == lower(s@),
{
    let chars = chars_of(s);
    let mut out = String::new();
    let mut i: usize = 0;
    while i < chars.len()
        invariant
            i <= chars@.len(),
            chars@ == s@,
            out@ == lower(s@).take(i as int),
        decreases chars@.len() - i,
    {
        let c = chars[i];
        if 'A' <= c && c <= 'Z' {
            out.push(((c as u8) + 32) as char);
        } else {
            out.push(c);
        }
        i += 1;
        assert(out@ =~= lower(s@).take(i as int));
    }
    assert(out@ =~= lower(s@));
    out
}

/// Trimming from the front drops a run of white space and nothing else.
pub proof fn lemma_trim_front(s: Seq<char>, k: int)
    requires
        0 <= k <= s.len(),
        forall|i: int| 0 <= i < k ==> is_space(#[trigger] s[i]),
        k < s.len() ==> !is_space(s[k]),
    ensures
        trim_front(s) == s.skip(k),
    decreases s.len(),
{
    if k == 0 {
        assert(s.skip(0) =~= s);
    } else {
        let t = s.drop_first();
        assert(forall|i: int| 0 <= i < k - 1 ==> is_space(#[trigger] t[i])) by {
            assert forall|i: int| 0 <= i < k - 1 implies is_space(#[trigger] t[i]) by {
                assert(t[i] == s[i + 1]);
            }
        }
        lemma_trim_front(t, k - 1);
        assert(t.skip(k - 1) =~= s.skip(k));
    }
}

/// Trimming from the back drops a run of white space and nothing else.
pub proof fn lemma_trim_back(s: Seq<char>, k: int)
    requires
        0 <= k <= s.len(),
        forall|i: int| k <= i < s.len() ==> is_space(#[trigger] s[i]),
        k > 0 ==> !is_space(s[k - 1]),
    ensures
        trim_back(s) == s.take(k),
    decreases s.len(),
{
    if k == s.len() {
        assert(s.take(k) =~= s);
    } else {
        let t = s.drop_last();
        assert(is_space(s[s.len() - 1]));
        lemma_trim_back(t, k);
        assert(t.take(k) =~= s.take(k));
    }
}

/// `s` without white space at either end.
pub fn trim(s: &str) -> (out: String)
    ensures
        out@ == trimmed(s@),
{
    let chars = chars_of(s);
    let mut start: usize = 0;
    while start < chars.len() && char_is_space(chars[start])
        invariant
            start <= chars@.len(),
            forall|i: int| 0 <= i < start ==> is_space(#[trigger] chars@[i]),
        decreases chars@.len() - start,
    {
        start += 1;
    }
    let mut end: usize = chars.len();
    while start < end && char_is_space(chars[end - 1])
        invariant
            start <= end <= chars@.len(),
            start < chars@.len() ==> !is_space(chars@[start as int]),
            forall|i: int| end <= i < chars@.len() ==> is_space(#[trigger] chars@[i]),
        decreases end,
    {
        end -= 1;
    }
    proof {
        let front = chars@.skip(start as int);
        lemma_trim_front(chars@, start as int);
        assert forall|i: int| end - start <= i < front.len() implies is_space(
            #[trigger] front[i],
        ) by {
            assert(front[i] == chars@[i + start]);
        }
        lemma_trim_back(front, end - start);
        assert(front.take(end - start) =~= chars@.subrange(start as int, end as int));
    }
    text_of(&chars, start, end)
}

/// The text that option names are matched in: trimmed, in lower case.
pub fn fold(s: &str) -> (out: String)
    ensures
        out@ == folded(s@),
{
    let t = trim(s);
    to_lower(t.as_str())
}

/// How many characters stand before the first white space.
pub open spec fn word_len(s: Seq<char>) -> nat
    decreases s.len(),
{
    if s.len() > 0 && !is_space(s[0]) {
        1 + word_len(s.drop_first())
    } else {
        0
    }
}

pub proof fn lemma_word_len(s: Seq<char>, k: int)
    requires
        0 <= k <= s.len(),
        forall|i: int| 0 <= i < k ==> !is_space(#[trigger] s[i]),
        k < s.len() ==> is_space(s[k]),
    ensures
        word_len(s) == k,
    decreases s.len(),
{
    if k > 0 {
        let t = s.drop_first();
        assert forall|i: int| 0 <= i < k - 1 implies !is_space(#[trigger] t[i]) by {
            assert(t[i] == s[i + 1]);
        }
        lemma_word_len(t, k - 1);
    }
}

pub proof fn lemma_word_len_bound(s: Seq<char>)
    ensures
        word_len(s) <= s.len(),
        s.len() > 0 && !is_space(s[0]) ==> word_len(s) > 0,
    decreases s.len(),
{
    if s.len() > 0 && !is_space(s[0]) {
        lemma_word_len_bound(s.drop_first());
    }
}

pub proof fn lemma_trim_front_shape(s: Seq<char>)
    ensures
        trim_front(s).len() <= s.len(),
        trim_front(s).len() > 0 ==> !is_space(trim_front(s)[0]),
    decreases s.len(),
{
    if s.len() > 0 && is_space(s[0]) {
        lemma_trim_front_shape(s.drop_first());
    }
}

/// The maximal runs of `s` that hold no white space, in order.
pub open spec fn words(s: Seq<char>) -> Seq<Seq<char>>
    decreases s.len(),
    via words_decreases
{
    let t = trim_front(s);
    if t.len() == 0 {
        Seq::empty()
    } else {
        seq![t.take(word_len(t) as int)] + words(t.skip(word_len(t) as int))
    }
}

#[via_fn]
proof fn words_decreases(s: Seq<char>) {
    lemma_trim_front_shape(s);
    lemma_word_len_bound(trim_front(s));
}

/// The words of a list with one space between each two of them.
pub open spec fn spaced(list: Seq<Seq<char>>) -> Seq<char>
    decreases list.len(),
{
    if list.len() == 0 {
        Seq::empty()
    } else if list.len() == 1 {
        list[0]
    } else {
        spaced(list.drop_last()).push(' ') + list.last()
    }
}

/// The words of `s`, in order.
pub fn word_list(s: &str) -> (list: Vec<String>)
    ensures
        texts_view(list@) == words(s@),
{
    let chars = chars_of(s);
    let mut list: Vec<String> = Vec::new();
    let mut i: usize = 0;
    proof {
        assert(chars@.skip(0) =~= chars@);
        assert(texts_view(list@) + words(chars@) =~= words(chars@));
    }
    while i < chars.len()
        invariant
            i <= chars@.len(),
            chars@ == s@,
            words(s@) == texts_view(list@) + words(chars@.skip(i as int)),
        decreases chars@.len() - i,
    {
        let ghost from: Seq<char> = chars@.skip(i as int);
        let mut start: usize = i;
        while start < chars.len() && char_is_space(chars[start])
            invariant
                i <= start <= chars@.len(),
                forall|j: int| i <= j < start ==> is_space(#[trigger] chars@[j]),
            decreases chars@.len() - start,
        {
            start += 1;
        }
        proof {
            assert forall|j: int| 0 <= j < start - i implies is_space(#[trigger] from[j]) by {
                assert(from[j] == chars@[j + i]);
            }
            lemma_trim_front(from, start - i);
            assert(from.skip(start - i) =~= chars@.skip(start as int));
        }
        if start == chars.len() {
            proof {
                assert(chars@.skip(start as int).len() == 0);
                assert(words(from) =~= Seq::<Seq<char>>::empty());
                assert(trim_front(chars@.skip(start as int)).len() == 0);
                assert(words(chars@.skip(start as int)) =~= Seq::<Seq<char>>::empty());
            }
            i = start;
        } else {
            let ghost t: Seq<char> = chars@.skip(start as int);
            let mut end: usize = start;
            while end < chars.len() && !char_is_space(chars[end])
                invariant
                    start <= end <= chars@.len(),
                    forall|j: int| start <= j < end ==> !is_space(#[trigger] chars@[j]),
                decreases chars@.len() - end,
            {
                end += 1;
            }
            let word = text_of(&chars, start, end);
            proof {
                assert forall|j: int| 0 <= j < end - start implies !is_space(#[trigger] t[j]) by {
                    assert(t[j] == chars@[j + start]);
                }
                lemma_word_len(t, end - start);
                assert(t.take(end - start) =~= word@);
                assert(t.skip(end - start) =~= chars@.skip(end as int));
                let rest = words(chars@.skip(end as int));
                assert(words(from) == seq![word@] + rest);
                assert(texts_view(list@.push(word)) =~= texts_view(list@).push(word@));
                assert(texts_view(list@) + (seq![word@] + rest) =~= texts_view(list@).push(word@)
                    + rest);
            }
            list.push(word);
            i = end;
        }
    }
    proof {
        assert(chars@.skip(i as int).len() == 0);
        assert(words(chars@.skip(i as int)) =~= Seq::<Seq<char>>::empty());
        assert(texts_view(list@) + Seq::<Seq<char>>::empty() =~= texts_view(list@));
    }
    list
}

/// The words of `s`, each white space between them made one blank.
pub fn condense(s: &str) -> (out: String)
    ensures
        out@ == spaced(words(s@)),
{
    let list = word_list(s);
    let mut out = String::new();
    let ghost all = texts_view(list@);
    let mut i: usize = 0;
    assert(out@ =~= spaced(all.take(0)));
    while i < list.len()
        invariant
            i <= list@.len(),
            all == texts_view(list@),
            out@ == spaced(all.take(i as int)),
        decreases list@.len() - i,
    {
        proof {
            let more = all.take(i + 1);
            assert(more.drop_last() =~= all.take(i as int));
            assert(more.last() == list@[i as int]@);
        }
        if i > 0 {
            out.push(' ');
        }
        out.append(list[i].as_str());
        proof {
            if i == 0 {
                assert(out@ =~= list@[0]@);
            }
        }
        i += 1;
    }
    assert(all.take(i as int) =~= all);
    out
}

/// At most the first `limit` characters of `s`.
pub open spec fn clipped(s: Seq<char>, limit: nat) -> Seq<char> {
    if s.len() <= limit {
        s
    } else {
        s.take(limit as int)
    }
}

pub fn clip(s: &str, limit: usize) -> (out: String)
    ensures
        out@ == clipped(s@, limit as nat),
{
    let chars = chars_of(s);
    let end: usize = if chars.len() <= limit {
        chars.len()
    } else {
        limit
    };
    proof {
        assert(chars@.subrange(0, end as int) =~= clipped(s@, limit as nat));
    }
    text_of(&chars, 0, end)
}

/// The character of one decimal digit.
pub open spec fn digit_char(d: nat) -> char {
    ('0' as u32 + d) as char
}

/// `n` in decimal, without leading zeros.
pub open spec fn decimal(n: nat) -> Seq<char>
    decreases n,
{
    if n < 10 {
        seq![digit_char(n)]
    } else {
        decimal(n / 10).push(digit_char(n % 10))
    }
}

/// Writes `n` in decimal behind `out`.
pub fn push_decimal(out: &mut String, n: u64)
    ensures
        final(out)@ == old(out)@ + decimal(n as nat),
    decreases n,
{
    if n >= 10 {
        push_decimal(out, n / 10);
    }
    let d: u8 = (n % 10) as u8;
    out.push((48u8 + d) as char);
    proof {
        assert(out@ =~= old(out)@ + decimal(n as nat));
    }
}

/// `n` in decimal.
pub fn decimal_text(n: u64) -> (out: String)
    ensures
        out@ == decimal(n as nat),
{
    let mut out = String::new();
    push_decimal(&mut out, n);
    proof {
        assert(out@ =~= decimal(n as nat));
    }
    out
}

/// The order of names: by the first character in which they differ, a name
/// before its own continuations.
pub open spec fn name_le(a: Seq<char>, b: Seq<char>) -> bool
    decreases a.len(),
{
    if a.len() == 0 {
        true
    } else if b.len() == 0 {
        false
    } else if a[0] == b[0] {
        name_le(a.drop_first(), b.drop_first())
    } else {
        a[0] < b[0]
    }
}

/// Whether `a` stands at or before `b` in the order of names.
pub fn name_at_or_before(a: &str, b: &str) -> (le: bool)
    ensures
        le == name_le(a@, b@),
{
    let left = chars_of(a);
    let right = chars_of(b);
    let mut i: usize = 0;
    proof {
        assert(left@.skip(0) =~= left@);
        assert(right@.skip(0) =~= right@);
    }
    while i < left.len() && i < right.len() && left[i] == right[i]
        invariant
            i <= left@.len(),
            i <= right@.len(),
            left@ == a@,
            right@ == b@,
            name_le(a@, b@) == name_le(left@.skip(i as int), right@.skip(i as int)),
        decreases left@.len() - i,
    {
        proof {
            assert(left@.skip(i as int).drop_first() =~= left@.skip(i + 1));
            assert(right@.skip(i as int).drop_first() =~= right@.skip(i + 1));
        }
        i += 1;
    }
    if i == left.len() {
        true
    } else if i == right.len() {
        false
    } else {
        left[i] < right[i]
    }
}

pub proof fn lemma_name_le_reflexive(a: Seq<char>)
    ensures
        name_le(a, a),
    decreases a.len(),
{
    if a.len() > 0 {
        lemma_name_le_reflexive(a.drop_first());
    }
}

pub proof fn lemma_name_le_total(a: Seq<char>, b: Seq<char>)
    ensures
        name_le(a, b) || name_le(b, a),
    decreases a.len(),
{
    if a.len() > 0 && b.len() > 0 && a[0] == b[0] {
        lemma_name_le_total(a.drop_first(), b.drop_first());
    }
}

pub proof fn lemma_name_le_transitive(a: Seq<char>, b: Seq<char>, c: Seq<char>)
    requires
        name_le(a, b),
        name_le(b, c),
    ensures
        name_le(a, c),
    decreases a.len(),
{
    if a.len() > 0 && b.len() > 0 && c.len() > 0 && a[0] == b[0] && b[0] == c[0] {
        lemma_name_le_transitive(a.drop_first(), b.drop_first(), c.drop_first());
    }
}

pub proof fn lemma_name_le_antisymmetric(a: Seq<char>, b: Seq<char>)
    requires
        name_le(a, b),
        name_le(b, a),
    ensures
        a == b,
    decreases a.len(),
{
    if a.len() > 0 && b.len() > 0 {
        lemma_name_le_antisymmetric(a.drop_first(), b.drop_first());
        assert(a =~= seq![a[0]] + a.drop_first());
        assert(b =~= seq![b[0]] + b.drop_first());
    } else {
        assert(a =~= b);
    }
}

pub open spec fn is_digit(c: char) -> bool {
    '0' <= c <= '9'
}

pub open spec fn all_digits(s: Seq<char>) -> bool {
    forall|i: int| 0 <= i < s.len() ==> is_digit(#[trigger] s[i])
}

/// The number that decimal digits stand for.
pub open spec fn digits_value(s: Seq<char>) -> nat
    decreases s.len(),
{
    if s.len() == 0 {
        0
    } else {
        (digits_value(s.drop_last()) * 10 + (s.last() as u32 - '0' as u32)) as nat
    }
}

/// The digits of a number: a plus sign may stand before them.
pub open spec fn unsigned(s: Seq<char>) -> Seq<char> {
    if s.len() > 0 && s[0] == '+' {
        s.skip(1)
    } else {
        s
    }
}

/// The number below `2^32` that the text stands for, if it does.
pub open spec fn number32(s: Seq<char>) -> Option<u32> {
    let digits = unsigned(s);
    if digits.len() > 0 && all_digits(digits) && digits_value(digits) <= u32::MAX {
        Some(digits_value(digits) as u32)
    } else {
        None
    }
}

proof fn lemma_digits_grow(s: Seq<char>, i: int)
    requires
        all_digits(s),
        0 <= i <= s.len(),
    ensures
        digits_value(s.take(i)) <= digits_value(s),
    decreases s.len() - i,
{
    if i < s.len() {
        lemma_digits_grow(s, i + 1);
        assert(s.take(i + 1).drop_last() =~= s.take(i));
        assert(s.take(i + 1).last() == s[i]);
    } else {
        assert(s.take(i) =~= s);
    }
}

/// The number that the text stands for, if it is one that fits.
pub fn parse_u32(s: &str) -> (number: Option<u32>)
    ensures
        number == number32(s@),
{
    let chars = chars_of(s);
    let start: usize = if chars.len() > 0 && chars[0] == '+' {
        1
    } else {
        0
    };
    let ghost digits = unsigned(s@);
    assert(digits =~= chars@.skip(start as int));
    if start == chars.len() {
        return None;
    }
    let mut value: u64 = 0;
    let mut i: usize = start;
    assert(digits.take(0) =~= Seq::<char>::empty());
    while i < chars.len()
        invariant
            start <= i <= chars@.len(),
            digits == chars@.skip(start as int),
            digits == unsigned(s@),
            forall|j: int| start <= j < i ==> is_digit(#[trigger] chars@[j]),
            value == digits_value(digits.take(i - start)),
            value <= u32::MAX,
        decreases chars@.len() - i,
    {
        let c = chars[i];
        if !('0' <= c && c <= '9') {
            proof {
                assert(digits[i - start] == c);
                assert(!all_digits(digits));
            }
            return None;
        }
        value = value * 10 + ((c as u32 - '0' as u32) as u64);
        proof {
            assert(digits.take(i - start + 1).drop_last() =~= digits.take(i - start));
            assert(digits.take(i - start + 1).last() == c);
        }
        i += 1;
        if value > 0xffff_ffff {
            proof {
                if all_digits(digits) {
                    lemma_digits_grow(digits, i - start);
                }
            }
            return None;
        }
    }
    proof {
        assert(digits.take(i - start) =~= digits);
        assert forall|j: int| 0 <= j < digits.len() implies is_digit(#[trigger] digits[j]) by {
            assert(digits[j] == chars@[j + start]);
        }
    }
    Some(value as u32)
}

/// How many characters stand before the first `mark`.
pub open spec fn before_mark(s: Seq<char>, mark: char) -> nat
    decreases s.len(),
{
    if s.len() > 0 && s[0] != mark {
        1 + before_mark(s.drop_first(), mark)
    } else {
        0
    }
}

/// The pieces of `s` between the marks in it, one more than there are marks.
pub open spec fn pieces(s: Seq<char>, mark: char) -> Seq<Seq<char>>
    decreases s.len(),
    via pieces_decreases
{
    let k = before_mark(s, mark) as int;
    if k >= s.len() {
        seq![s]
    } else {
        seq![s.take(k)] + pieces(s.skip(k + 1), mark)
    }
}

#[via_fn]
proof fn pieces_decreases(s: Seq<char>, mark: char) {
}

pub proof fn lemma_before_mark(s: Seq<char>, mark: char, k: int)
    requires
        0 <= k <= s.len(),
        forall|i: int| 0 <= i < k ==> #[trigger] s[i] != mark,
        k < s.len() ==> s[k] == mark,
    ensures
        before_mark(s, mark) == k,
    decreases s.len(),
{
    if k > 0 {
        let t = s.drop_first();
        assert forall|i: int| 0 <= i < k - 1 implies #[trigger] t[i] != mark by {
            assert(t[i] == s[i + 1]);
        }
        lemma_before_mark(t, mark, k - 1);
    }
}

pub open spec fn texts_view(list: Seq<String>) -> Seq<Seq<char>> {
    Seq::new(list.len(), |i: int| list[i]@)
}

/// The pieces of `s` between the marks in it.
pub fn split(s: &str, mark: char) -> (list: Vec<String>)
    ensures
        texts_view(list@) == pieces(s@, mark),
        list@.len() >= 1,
{
    let chars = chars_of(s);
    let mut list: Vec<String> = Vec::new();
    let mut from: usize = 0;
    let mut i: usize = 0;
    proof {
        assert(chars@.skip(0) =~= chars@);
        assert(texts_view(list@) + pieces(s@, mark) =~= pieces(s@, mark));
    }
    while i < chars.len()
        invariant
            from <= i <= chars@.len(),
            chars@ == s@,
            forall|j: int| from <= j < i ==> #[trigger] chars@[j] != mark,
            pieces(s@, mark) == texts_view(list@) + pieces(chars@.skip(from as int), mark),
        decreases chars@.len() - i,
    {
        if chars[i] == mark {
            let piece = text_of(&chars, from, i);
            proof {
                let rest = chars@.skip(from as int);
                assert forall|j: int| 0 <= j < i - from implies #[trigger] rest[j] != mark by {
                    assert(rest[j] == chars@[j + from]);
                }
                lemma_before_mark(rest, mark, i - from);
                assert(rest.take(i - from) =~= piece@);
                assert(rest.skip(i - from + 1) =~= chars@.skip(i + 1));
                assert(texts_view(list@.push(piece)) =~= texts_view(list@).push(piece@));
                assert(texts_view(list@) + (seq![piece@] + pieces(chars@.skip(i + 1), mark))
                    =~= texts_view(list@).push(piece@) + pieces(chars@.skip(i + 1), mark));
            }
            list.push(piece);
            from = i + 1;
        }
        i += 1;
    }
    let piece = text_of(&chars, from, i);
    proof {
        let rest = chars@.skip(from as int);
        assert forall|j: int| 0 <= j < i - from implies #[trigger] rest[j] != mark by {
            assert(rest[j] == chars@[j + from]);
        }
        lemma_before_mark(rest, mark, i - from);
        assert(rest =~= piece@);
        assert(texts_view(list@.push(piece)) =~= texts_view(list@) + seq![piece@]);
    }
    list.push(piece);
    list
}

pub fn is_empty(s: &str) -> (empty: bool)
    ensures
        empty == (s@.len() == 0),
{
    chars_of(s).len() == 0
}

/// A number is read back from its decimal digits.
pub proof fn law_decimal_round_trip(n: nat)
    ensures
        all_digits(decimal(n)),
        decimal(n).len() > 0,
        digits_value(decimal(n)) == n,
    decreases n,
{
    if n >= 10 {
        law_decimal_round_trip(n / 10);
        let front = decimal(n / 10);
        let all = decimal(n);
        assert(all.drop_last() =~= front);
        assert(all.last() == digit_char(n % 10));
        assert forall|i: int| 0 <= i < all.len() implies is_digit(#[trigger] all[i]) by {
            if i < front.len() {
                assert(is_digit(front[i]));
            }
        }
    } else {
        let all = decimal(n);
        assert(all.drop_last() =~= Seq::<char>::empty());
        assert(digits_value(all.drop_last()) == 0);
        assert(all.last() == digit_char(n));
    }
}

/// The character of one hexadecimal digit.
pub open spec fn hex_char(d: nat) -> char {
    if d < 10 {
        ('0' as u32 + d) as char
    } else {
        ('A' as u32 + (d - 10)) as char
    }
}

/// `n` in hexadecimal with upper-case digits, without leading zeros.
pub open spec fn hexadecimal(n: nat) -> Seq<char>
    decreases n,
{
    if n < 16 {
        seq![hex_char(n)]
    } else {
        hexadecimal(n / 16).push(hex_char(n % 16))
    }
}

/// Writes `n` in hexadecimal behind `out`.
pub fn push_hexadecimal(out: &mut String, n: u64)
    ensures
        final(out)@ == old(out)@ + hexadecimal(n as nat),
    decreases n,
{
    if n >= 16 {
        push_hexadecimal(out, n / 16);
    }
    let d: u8 = (n % 16) as u8;
    let c: char = if d < 10 {
        (48u8 + d) as char
    } else {
        (55u8 + d) as char
    };
    out.push(c);
    proof {
        assert(out@ =~= old(out)@ + hexadecimal(n as nat));
    }
}

/// Whether `part` stands somewhere in `s`.
pub open spec fn holds_text(s: Seq<char>, part: Seq<char>) -> bool {
    exists|i: int|
        0 <= i <= s.len() - part.len() && #[trigger] s.subrange(i, i + part.len()) == part
}

pub fn contains(s: &str, part: &str) -> (found: bool)
    ensures
        found == holds_text(s@, part@),
{
    let chars = chars_of(s);
    let want = chars_of(part);
    if want.len() > chars.len() {
        return false;
    }
    let last: usize = chars.len() - want.len();
    let mut i: usize = 0;
    while i <= last
        invariant
            i <= last + 1,
            last == chars@.len() - want@.len(),
            last < usize::MAX || want@.len() == 0,
            chars@ == s@,
            want@ == part@,
            chars@.len() <= usize::MAX,
            forall|j: int| 0 <= j < i ==> #[trigger] s@.subrange(j, j + part@.len()) != part@,
        decreases last + 1 - i,
    {
        let mut k: usize = 0;
        while k < want.len() && chars[i + k] == want[k]
            invariant
                i <= last,
                last == chars@.len() - want@.len(),
                chars@.len() <= usize::MAX,
                k <= want@.len(),
                forall|j: int| 0 <= j < k ==> #[trigger] chars@[i + j] == want@[j],
            decreases want@.len() - k,
        {
            k += 1;
        }
        let ghost here = s@.subrange(i as int, i + part@.len());
        if k == want.len() {
            assert(here =~= part@) by {
                assert forall|j: int| 0 <= j < here.len() implies here[j] == part@[j] by {
                    assert(chars@[i + j] == want@[j]);
                }
            }
            return true;
        }
        assert(here[k as int] != part@[k as int]);
        if i == last {
            return false;
        }
        i += 1;
    }
    false
}

} // verus!
