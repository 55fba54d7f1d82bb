//! Text primitives: decimal numbers, padding, splitting, trimming, searching
//! and ordering, each stated over the character sequence of its input.

use vstd::prelude::*;

verus! {

/// `String::push` appends one character.
pub assume_specification[ String::push ](s: &mut String, c: char)
    ensures
        final(s)@ == old(s)@.push(c),
;

/// The text that `String::from_utf8_lossy` makes of bytes.
pub uninterp spec fn utf8_lossy(bytes: Seq<u8>) -> Seq<char>;

/// `String::from_utf8_lossy` turns bytes into text: valid UTF-8 becomes the
/// characters it encodes. What stands for invalid sequences is left to the
/// name `utf8_lossy`.
#[verifier::external_body]
pub(crate) fn lossy(bytes: &Vec<u8>) -> (text: String)
    ensures
        text@ == utf8_lossy(bytes@),
        vstd::utf8::valid_utf8(bytes@) ==> text@ == vstd::utf8::decode_utf8(bytes@),
{
    String::from_utf8_lossy(bytes).into_owned()
}

// ---------------------------------------------------------------------------
// Characters.
// ---------------------------------------------------------------------------

pub open spec fn ascii_digit(c: char) -> bool {
    '0' <= c <= '9'
}

pub open spec fn ascii_alphanumeric(c: char) -> bool {
    ascii_digit(c) || 'a' <= c <= 'z' || 'A' <= c <= 'Z'
}

/// The Unicode `White_Space` property.
pub open spec fn whitespace(c: char) -> bool {
    ||| '\u{9}' <= c <= '\u{d}'
    ||| c == ' '
    ||| c == '\u{85}'
    ||| c == '\u{a0}'
    ||| c == '\u{1680}'
    ||| '\u{2000}' <= c <= '\u{200a}'
    ||| c == '\u{2028}'
    ||| c == '\u{2029}'
    ||| c == '\u{202f}'
    ||| c == '\u{205f}'
    ||| c == '\u{3000}'
}

pub fn is_ascii_digit(c: char) -> (yes: bool)
    ensures
        yes == ascii_digit(c),
{
    '0' <= c && c <= '9'
}

pub fn is_ascii_alphanumeric(c: char) -> (yes: bool)
    ensures
        yes == ascii_alphanumeric(c),
{
    is_ascii_digit(c) || ('a' <= c && c <= 'z') || ('A' <= c && c <= 'Z')
}

pub fn is_whitespace(c: char) -> (yes: bool)
    ensures
        yes == whitespace(c),
{
    ('\u{9}' <= c && c <= '\u{d}') || c == ' ' || c == '\u{85}' || c == '\u{a0}' || c == '\u{1680}'
        || ('\u{2000}' <= c && c <= '\u{200a}') || c == '\u{2028}' || c == '\u{2029}' || c
        == '\u{202f}' || c == '\u{205f}' || c == '\u{3000}'
}

/// The characters of `text`, in order.
pub fn chars_of(text: &str) -> (chars: Vec<char>)
    ensures
        chars@ == text@,
{
    let mut chars: Vec<char> = Vec::new();
    for c in it: text.chars()
        invariant
            it.seq() == text@,
            chars@ == text@.take(it.index() as int),
    {
        proof {
            assert(text@.take(it.index() as int + 1) =~= text@.take(it.index() as int).push(
                text@[it.index() as int],
            ));
        }
        chars.push(c);
    }
    assert(text@.take(text@.len() as int) =~= text@);
    chars
}

/// The text made of `chars[from..to]`.
pub fn text_of(chars: &Vec<char>, from: usize, to: usize) -> (text: String)
    requires
        from <= to <= chars@.len(),
    ensures
        text@ == chars@.subrange(from as int, to as int),
{
    let mut text = String::new();
    let mut i: usize = from;
    while i < to
        invariant
            from <= i <= to <= chars@.len(),
            text@ == chars@.subrange(from as int, i as int),
        decreases to - i,
    {
        text.push(chars[i]);
        i += 1;
        assert(chars@.subrange(from as int, i as int) =~= chars@.subrange(
            from as int,
            i - 1,
        ).push(chars@[i - 1]));
    }
    text
}

/// Whether two texts hold the same characters.
pub fn same(a: &str, b: &str) -> (yes: bool)
    ensures
        yes == (a@ == b@),
{
    a.to_owned() == b.to_owned()
}

/// One text after another.
pub fn concat(a: &str, b: &str) -> (text: String)
    ensures
        text@ == a@ + b@,
{
    let mut text = a.to_owned();
    text.append(b);
    text
}

// ---------------------------------------------------------------------------
// Decimal numbers.
// ---------------------------------------------------------------------------

pub open spec fn digit(d: nat) -> char
    recommends
        d < 10,
{
    ('0' as u32 + d) as char
}

/// The decimal digits of `n`, most significant first, without leading zeros.
pub open spec fn digits(n: nat) -> Seq<char>
    decreases n,
{
    if n < 10 {
        seq![digit(n)]
    } else {
        digits(n / 10).push(digit(n % 10))
    }
}

/// The decimal text of a signed number.
pub open spec fn signed_digits(n: int) -> Seq<char> {
    if n < 0 {
        seq!['-'] + digits((-n) as nat)
    } else {
        digits(n as nat)
    }
}

/// `digits(n)` with zeros in front up to `width` characters.
pub open spec fn zero_padded(n: nat, width: nat) -> Seq<char> {
    filled('0', (width - digits(n).len()) as int) + digits(n)
}

/// `count` times the character `c`; nothing for a negative count.
pub open spec fn filled(c: char, count: int) -> Seq<char> {
    if count <= 0 {
        seq![]
    } else {
        Seq::new(count as nat, |i: int| c)
    }
}

/// `text` with spaces behind it up to `width` characters.
pub open spec fn left_aligned(text: Seq<char>, width: nat) -> Seq<char> {
    text + filled(' ', (width - text.len()) as int)
}

fn digit_of(d: u64) -> (c: char)
    requires
        d < 10,
    ensures
        c == digit(d as nat),
{
    match d {
        0 => '0',
        1 => '1',
        2 => '2',
        3 => '3',
        4 => '4',
        5 => '5',
        6 => '6',
        7 => '7',
        8 => '8',
        _ => '9',
    }
}

/// The decimal text of `n`.
pub fn decimal(n: u64) -> (text: String)
    ensures
        text@ == digits(n as nat),
    decreases n,
{
    if n < 10 {
        let mut text = String::new();
        text.push(digit_of(n));
        assert(text@ =~= seq![digit(n as nat)]);
        text
    } else {
        let mut text = decimal(n / 10);
        text.push(digit_of(n % 10));
        text
    }
}

/// The decimal text of a signed `n`.
pub fn signed_decimal(n: i64) -> (text: String)
    ensures
        text@ == signed_digits(n as int),
{
    if n < 0 {
        let mut text = String::new();
        text.push('-');
        assert(text@ =~= seq!['-']);
        let magnitude: u64 = if n == i64::MIN {
            0x8000_0000_0000_0000
        } else {
            (-n) as u64
        };
        text.append(decimal(magnitude).as_str());
        text
    } else {
        decimal(n as u64)
    }
}

/// A text of `count` equal characters.
fn fill(c: char, count: usize) -> (text: String)
    ensures
        text@ == filled(c, count as int),
{
    let mut text = String::new();
    let mut i: usize = 0;
    while i < count
        invariant
            i <= count,
            text@ == filled(c, i as int),
        decreases count - i,
    {
        text.push(c);
        i += 1;
        assert(text@ =~= filled(c, i as int));
    }
    text
}

/// The decimal text of `n`, zero-padded on the left to `width` characters.
pub fn zero_padded_decimal(n: u64, width: usize) -> (text: String)
    ensures
        text@ == zero_padded(n as nat, width as nat),
{
    let number = decimal(n);
    let length: usize = chars_of(number.as_str()).len();
    let mut text = if length < width {
        fill('0', width - length)
    } else {
        String::new()
    };
    assert(text@ =~= filled('0', width - digits(n as nat).len()));
    text.append(number.as_str());
    text
}

/// `text` padded with spaces on the right to `width` characters.
pub fn align_left(text: &str, width: usize) -> (padded: String)
    ensures
        padded@ == left_aligned(text@, width as nat),
{
    let length: usize = chars_of(text).len();
    let mut padded = text.to_owned();
    if length < width {
        padded.append(fill(' ', width - length).as_str());
    }
    assert(padded@ =~= left_aligned(text@, width as nat));
    padded
}

// ---------------------------------------------------------------------------
// Splitting, trimming, searching.
// ---------------------------------------------------------------------------

/// The pieces of `text` between its separators: one more piece than
/// separators, so the empty text has one empty piece.
pub open spec fn pieces(text: Seq<char>, separator: char) -> Seq<Seq<char>>
    decreases text.len(),
{
    if text.len() == 0 {
        seq![Seq::empty()]
    } else {
        let before = pieces(text.drop_last(), separator);
        if text.last() == separator {
            before.push(Seq::empty())
        } else {
            before.update(before.len() - 1, before.last().push(text.last()))
        }
    }
}

/// The views of a list of texts.
pub open spec fn views(texts: Seq<String>) -> Seq<Seq<char>> {
    texts.map_values(|text: String| text@)
}

/// The view of a text that may be missing.
pub open spec fn option_view(text: Option<String>) -> Option<Seq<char>> {
    match text {
        Some(text) => Some(text@),
        None => None,
    }
}

/// A copy of a list of texts.
pub fn copies(texts: &Vec<String>) -> (list: Vec<String>)
    ensures
        views(list@) == views(texts@),
{
    let mut list: Vec<String> = Vec::new();
    let mut i: usize = 0;
    while i < texts.len()
        invariant
            i <= texts@.len(),
            list@.len() == i,
            forall|k: int| 0 <= k < i ==> (#[trigger] list@[k])@ == texts@[k]@,
        decreases texts@.len() - i,
    {
        list.push(texts[i].clone());
        i += 1;
    }
    assert(views(list@) =~= views(texts@));
    list
}

/// Cuts `text` at every `separator`.
pub fn split(text: &str, separator: char) -> (parts: Vec<String>)
    ensures
        views(parts@) == pieces(text@, separator),
{
    let chars = chars_of(text);
    let mut parts: Vec<String> = Vec::new();
    let mut current = String::new();
    let mut i: usize = 0;
    while i < chars.len()
        invariant
            chars@ == text@,
            i <= chars@.len(),
            views(parts@).push(current@) == pieces(text@.take(i as int), separator),
        decreases chars@.len() - i,
    {
        let c = chars[i];
        let ghost before = pieces(text@.take(i as int), separator);
        proof {
            assert(text@.take(i + 1).drop_last() =~= text@.take(i as int));
        }
        if c == separator {
            let ghost done = parts@;
            let ghost last = current;
            parts.push(current);
            current = String::new();
            assert(views(parts@) =~= views(done).push(last@));
            assert(views(parts@).push(current@) =~= before.push(Seq::empty()));
        } else {
            let ghost last = current@;
            current.push(c);
            assert(views(parts@).push(current@) =~= before.update(
                before.len() - 1,
                before.last().push(c),
            ));
        }
        i += 1;
    }
    assert(text@.take(text@.len() as int) =~= text@);
    let ghost done = parts@;
    let ghost last = current;
    parts.push(current);
    assert(views(parts@) =~= views(done).push(last@));
    parts
}

/// The sets of characters that texts are trimmed of.
#[derive(Debug, Clone, Copy, PartialEq, Eq, Structural)]
pub enum CharSet {
    Whitespace,
    DotOrDash,
}

impl CharSet {
    pub open spec fn has(self, c: char) -> bool {
        match self {
            CharSet::Whitespace => whitespace(c),
            CharSet::DotOrDash => c == '.' || c == '-',
        }
    }

    pub fn contains(self, c: char) -> (yes: bool)
        ensures
            yes == self.has(c),
    {
        match self {
            CharSet::Whitespace => is_whitespace(c),
            CharSet::DotOrDash => c == '.' || c == '-',
        }
    }
}

/// `text` without the leading characters of `set`.
pub open spec fn trimmed_start(text: Seq<char>, set: CharSet) -> Seq<char>
    decreases text.len(),
{
    if text.len() > 0 && set.has(text[0]) {
        trimmed_start(text.drop_first(), set)
    } else {
        text
    }
}

/// `text` without the trailing characters of `set`.
pub open spec fn trimmed_end(text: Seq<char>, set: CharSet) -> Seq<char>
    decreases text.len(),
{
    if text.len() > 0 && set.has(text.last()) {
        trimmed_end(text.drop_last(), set)
    } else {
        text
    }
}

/// `text` without the leading and trailing characters of `set`.
pub open spec fn trimmed(text: Seq<char>, set: CharSet) -> Seq<char> {
    trimmed_end(trimmed_start(text, set), set)
}

/// Where the trimmed part of `chars[from..]` ends.
fn end_of_trimmed(chars: &Vec<char>, from: usize, set: CharSet) -> (to: usize)
    requires
        from <= chars@.len(),
    ensures
        from <= to <= chars@.len(),
        trimmed_end(chars@.skip(from as int), set) == chars@.subrange(from as int, to as int),
{
    let mut to: usize = chars.len();
    assert(chars@.skip(from as int) =~= chars@.subrange(from as int, to as int));
    while to > from && set.contains(chars[to - 1])
        invariant
            from <= to <= chars@.len(),
            trimmed_end(chars@.skip(from as int), set) == trimmed_end(
                chars@.subrange(from as int, to as int),
                set,
            ),
        decreases to,
    {
        assert(chars@.subrange(from as int, to as int).drop_last() =~= chars@.subrange(
            from as int,
            to - 1,
        ));
        to -= 1;
    }
    to
}

/// Removes leading and trailing characters of `set`.
pub fn trim(text: &str, set: CharSet) -> (inner: String)
    ensures
        inner@ == trimmed(text@, set),
{
    let chars = chars_of(text);
    let mut from: usize = 0;
    assert(chars@.skip(0) =~= text@);
    while from < chars.len() && set.contains(chars[from])
        invariant
            from <= chars@.len(),
            trimmed_start(text@, set) == trimmed_start(chars@.skip(from as int), set),
        decreases chars@.len() - from,
    {
        assert(chars@.skip(from as int).drop_first() =~= chars@.skip(from + 1));
        from += 1;
    }
    let to = end_of_trimmed(&chars, from, set);
    text_of(&chars, from, to)
}

/// Removes trailing characters of `set`.
pub fn trim_end(text: &str, set: CharSet) -> (inner: String)
    ensures
        inner@ == trimmed_end(text@, set),
{
    let chars = chars_of(text);
    assert(chars@.skip(0) =~= text@);
    let to = end_of_trimmed(&chars, 0, set);
    text_of(&chars, 0, to)
}

/// What follows the first occurrence of `marker` in `text`, if it occurs.
pub open spec fn after_first(text: Seq<char>, marker: Seq<char>) -> Option<Seq<char>>
    decreases text.len(),
{
    if marker.is_prefix_of(text) {
        Some(text.skip(marker.len() as int))
    } else if text.len() == 0 {
        None
    } else {
        after_first(text.drop_first(), marker)
    }
}

/// Whether `marker` stands at position `at` of `chars`.
fn stands_at(chars: &Vec<char>, marker: &Vec<char>, at: usize) -> (yes: bool)
    requires
        at <= chars@.len(),
    ensures
        yes == marker@.is_prefix_of(chars@.skip(at as int)),
{
    let total: usize = chars.len();
    if marker.len() > total - at {
        return false;
    }
    let mut i: usize = 0;
    while i < marker.len()
        invariant
            total == chars@.len(),
            at + marker@.len() <= total,
            i <= marker@.len(),
            forall|j: int| 0 <= j < i ==> marker@[j] == chars@[at + j],
        decreases marker@.len() - i,
    {
        if chars[at + i] != marker[i] {
            assert(chars@.skip(at as int).take(marker@.len() as int)[i as int] == chars@[at + i]);
            return false;
        }
        i += 1;
    }
    assert(marker@ =~= chars@.skip(at as int).take(marker@.len() as int));
    true
}

/// Finds the first occurrence of `marker` and hands back what follows it.
pub fn find_after(text: &str, marker: &str) -> (rest: Option<String>)
    ensures
        rest matches Some(found) ==> after_first(text@, marker@) == Some(found@),
        rest is None ==> after_first(text@, marker@) is None,
{
    let chars = chars_of(text);
    let wanted = chars_of(marker);
    let total: usize = chars.len();
    let mut at: usize = 0;
    assert(chars@.skip(0) =~= text@);
    loop
        invariant
            chars@ == text@,
            wanted@ == marker@,
            total == chars@.len(),
            at <= total,
            after_first(text@, marker@) == after_first(chars@.skip(at as int), marker@),
        decreases chars@.len() - at,
    {
        if stands_at(&chars, &wanted, at) {
            let from: usize = at + wanted.len();
            let found = text_of(&chars, from, total);
            assert(found@ =~= chars@.skip(at as int).skip(wanted@.len() as int));
            return Some(found);
        }
        if at == total {
            return None;
        }
        assert(chars@.skip(at as int).drop_first() =~= chars@.skip(at + 1));
        at += 1;
    }
}

/// The leading run of characters of `text` that are not whitespace.
pub open spec fn leading_word(text: Seq<char>) -> Seq<char>
    decreases text.len(),
{
    if text.len() > 0 && !whitespace(text[0]) {
        seq![text[0]] + leading_word(text.drop_first())
    } else {
        Seq::empty()
    }
}

/// The first whitespace-separated word of `text`; empty where there is none.
pub open spec fn first_word_of(text: Seq<char>) -> Seq<char> {
    leading_word(trimmed_start(text, CharSet::Whitespace))
}

/// The first whitespace-separated word of `text`; empty where there is none.
pub fn first_word(text: &str) -> (word: String)
    ensures
        word@ == first_word_of(text@),
{
    let chars = chars_of(text);
    let set = CharSet::Whitespace;
    let mut from: usize = 0;
    assert(chars@.skip(0) =~= text@);
    while from < chars.len() && set.contains(chars[from])
        invariant
            set == CharSet::Whitespace,
            from <= chars@.len(),
            trimmed_start(text@, set) == trimmed_start(chars@.skip(from as int), set),
        decreases chars@.len() - from,
    {
        assert(chars@.skip(from as int).drop_first() =~= chars@.skip(from + 1));
        from += 1;
    }
    let mut to: usize = from;
    while to < chars.len() && !is_whitespace(chars[to])
        invariant
            from <= to <= chars@.len(),
            leading_word(chars@.skip(from as int)) == chars@.subrange(from as int, to as int)
                + leading_word(chars@.skip(to as int)),
        decreases chars@.len() - to,
    {
        assert(chars@.skip(to as int).drop_first() =~= chars@.skip(to + 1));
        assert(chars@.subrange(from as int, to as int) + (seq![chars@[to as int]] + leading_word(
            chars@.skip(to + 1),
        )) =~= chars@.subrange(from as int, to + 1) + leading_word(chars@.skip(to + 1)));
        to += 1;
    }
    assert(leading_word(chars@.skip(to as int)) =~= Seq::empty());
    assert(chars@.subrange(from as int, to as int) + Seq::empty() =~= chars@.subrange(
        from as int,
        to as int,
    ));
    text_of(&chars, from, to)
}

// ---------------------------------------------------------------------------
// Order.
// ---------------------------------------------------------------------------

/// Whether `a` comes strictly before `b`, character by character.
pub open spec fn precedes(a: Seq<char>, b: Seq<char>) -> bool
    decreases a.len(),
{
    if b.len() == 0 {
        false
    } else if a.len() == 0 {
        true
    } else if a[0] != b[0] {
        a[0] < b[0]
    } else {
        precedes(a.drop_first(), b.drop_first())
    }
}

/// Whether `a` comes strictly before `b`.
pub fn comes_before(a: &str, b: &str) -> (yes: bool)
    ensures
        yes == precedes(a@, b@),
{
    let left = chars_of(a);
    let right = chars_of(b);
    let mut i: usize = 0;
    assert(left@.skip(0) =~= a@);
    assert(right@.skip(0) =~= b@);
    loop
        invariant
            i <= left@.len(),
            i <= right@.len(),
            precedes(a@, b@) == precedes(left@.skip(i as int), right@.skip(i as int)),
        decreases left@.len() - i,
    {
        if i == right.len() {
            return false;
        }
        if i == left.len() {
            return true;
        }
        if left[i] != right[i] {
            return left[i] < right[i];
        }
        assert(left@.skip(i as int).drop_first() =~= left@.skip(i + 1));
        assert(right@.skip(i as int).drop_first() =~= right@.skip(i + 1));
        i += 1;
    }
}

/// No text comes before itself.
pub proof fn order_is_irreflexive(a: Seq<char>)
    ensures
        !precedes(a, a),
    decreases a.len(),
{
    if a.len() > 0 {
        order_is_irreflexive(a.drop_first());
    }
}

/// What comes before a text comes before what follows that text.
pub proof fn order_is_transitive(a: Seq<char>, b: Seq<char>, c: Seq<char>)
    requires
        precedes(a, b),
        precedes(b, c),
    ensures
        precedes(a, c),
    decreases a.len(),
{
    if a.len() > 0 && a[0] == b[0] && b[0] == c[0] {
        order_is_transitive(a.drop_first(), b.drop_first(), c.drop_first());
    }
}

/// Of two different texts one comes before the other.
pub proof fn order_is_total(a: Seq<char>, b: Seq<char>)
    ensures
        precedes(a, b) || precedes(b, a) || a == b,
    decreases a.len(),
{
    if a.len() == 0 {
        assert(b.len() == 0 ==> a =~= b);
    } else if b.len() > 0 && a[0] == b[0] {
        order_is_total(a.drop_first(), b.drop_first());
        if a.drop_first() == b.drop_first() {
            assert(a =~= seq![a[0]] + a.drop_first());
            assert(b =~= seq![b[0]] + b.drop_first());
        }
    }
}

// ---------------------------------------------------------------------------
// Laws.
// ---------------------------------------------------------------------------

/// The ASCII letters and digits by their code points.
pub proof fn ascii_letters_and_digits(c: char, digit: bool, alphanumeric: bool)
    requires
        call_ensures(is_ascii_digit, (c,), digit),
        call_ensures(is_ascii_alphanumeric, (c,), alphanumeric),
    ensures
        digit <==> 0x30 <= c as u32 <= 0x39,
        alphanumeric <==> 0x30 <= c as u32 <= 0x39 || 0x41 <= c as u32 <= 0x5a || 0x61 <= c as u32
            <= 0x7a,
{
}

/// Unicode's white space by its code points.
pub proof fn white_space(c: char, yes: bool)
    requires
        call_ensures(is_whitespace, (c,), yes),
    ensures
        yes <==> {
            let point = c as u32;
            ||| 9 <= point <= 13
            ||| point == 32
            ||| point == 133
            ||| point == 160
            ||| point == 5760
            ||| 8192 <= point <= 8202
            ||| point == 8232
            ||| point == 8233
            ||| point == 8239
            ||| point == 8287
            ||| point == 12288
        },
{
}

/// The number that decimal digits stand for.
pub open spec fn value(numeral: Seq<char>) -> int
    decreases numeral.len(),
{
    if numeral.len() == 0 {
        0
    } else {
        10 * value(numeral.drop_last()) + (numeral.last() as int - 0x30)
    }
}

/// Whether a text holds decimal digits only, and at least one.
pub open spec fn numeric(text: Seq<char>) -> bool {
    text.len() > 0 && forall|i: int| 0 <= i < text.len() ==> '0' <= #[trigger] text[i] <= '9'
}

/// The digits of a number stand for it.
pub proof fn decimals_are_read_back(n: nat)
    ensures
        numeric(digits(n)),
        value(digits(n)) == n,
        n > 0 ==> digits(n)[0] != '0',
        n < 10 ==> digits(n).len() == 1,
    decreases n,
{
    if n < 10 {
        assert(digits(n).drop_last() =~= Seq::empty());
        assert(value(digits(n).drop_last()) == 0);
    } else {
        decimals_are_read_back(n / 10);
        assert(digits(n).drop_last() =~= digits(n / 10));
    }
}

/// Decimal text reads back as its number, and has no zero in front.
pub proof fn decimals_read_back(n: u64, text: String)
    requires
        call_ensures(decimal, (n,), text),
    ensures
        numeric(text@),
        value(text@) == n,
        text@.len() > 1 ==> text@[0] != '0',
{
    decimals_are_read_back(n as nat);
}

/// Signed decimal text reads back as its number: a minus sign and the
/// magnitude of a negative one.
pub proof fn signed_decimals_read_back(n: i64, text: String)
    requires
        call_ensures(signed_decimal, (n,), text),
    ensures
        n >= 0 ==> numeric(text@) && value(text@) == n,
        n < 0 ==> text@.len() > 1 && text@[0] == '-' && numeric(text@.skip(1)) && value(
            text@.skip(1),
        ) == -n,
{
    if n < 0 {
        decimals_are_read_back((-n) as nat);
        assert(text@.skip(1) =~= digits((-n) as nat));
    } else {
        decimals_are_read_back(n as nat);
    }
}

proof fn leading_zeros_add_nothing(count: int, numeral: Seq<char>)
    ensures
        value(filled('0', count) + numeral) == value(numeral),
    decreases numeral.len(), count,
{
    let padded = filled('0', count) + numeral;
    if numeral.len() > 0 {
        leading_zeros_add_nothing(count, numeral.drop_last());
        assert(padded.drop_last() =~= filled('0', count) + numeral.drop_last());
        assert(padded.last() == numeral.last());
    } else if count > 0 {
        leading_zeros_add_nothing(count - 1, numeral);
        assert(padded.drop_last() =~= filled('0', count - 1) + numeral);
        assert(padded.last() == '0');
    } else {
        assert(padded =~= numeral);
    }
}

/// Padded decimal text reads back as its number. It is as wide as asked for,
/// and wider only where the number's own digits are.
pub proof fn padded_decimals_read_back(n: u64, width: usize, text: String)
    requires
        call_ensures(zero_padded_decimal, (n, width), text),
    ensures
        numeric(text@),
        value(text@) == n,
        text@.len() >= width,
        text@.len() > width && text@.len() > 1 ==> text@[0] != '0',
{
    decimals_are_read_back(n as nat);
    let count = width - digits(n as nat).len();
    leading_zeros_add_nothing(count, digits(n as nat));
    if count <= 0 {
        assert(text@ =~= digits(n as nat));
    }
}

/// Aligned text is the text itself with spaces behind it, as wide as asked
/// for, and never cut.
pub proof fn aligned_text_is_kept(text: &str, width: usize, padded: String)
    requires
        call_ensures(align_left, (text, width), padded),
    ensures
        text@.len() <= padded@.len(),
        padded@.take(text@.len() as int) == text@,
        forall|i: int| text@.len() <= i < padded@.len() ==> #[trigger] padded@[i] == ' ',
        padded@.len() == if text@.len() < width {
            width as nat
        } else {
            text@.len()
        },
{
    assert(padded@.take(text@.len() as int) =~= text@);
}

/// Parts put together again, with a separator between each two of them.
pub open spec fn rejoined(parts: Seq<Seq<char>>, separator: char) -> Seq<char>
    decreases parts.len(),
{
    if parts.len() == 0 {
        Seq::empty()
    } else if parts.len() == 1 {
        parts[0]
    } else {
        rejoined(parts.drop_last(), separator).push(separator) + parts.last()
    }
}

/// The pieces of a text, put together again, are the text.
pub proof fn pieces_rejoin(text: Seq<char>, separator: char)
    ensures
        pieces(text, separator).len() > 0,
        rejoined(pieces(text, separator), separator) == text,
        forall|i: int|
            0 <= i < pieces(text, separator).len() ==> !(#[trigger] pieces(text, separator)[i]).contains(
                separator,
            ),
    decreases text.len(),
{
    let all = pieces(text, separator);
    if text.len() > 0 {
        let before = pieces(text.drop_last(), separator);
        pieces_rejoin(text.drop_last(), separator);
        assert(all.drop_last() =~= if text.last() == separator {
            before
        } else {
            before.drop_last()
        });
        assert(text =~= text.drop_last().push(text.last()));
        if text.last() == separator {
            assert(all.last() =~= Seq::empty());
            assert(rejoined(all, separator) =~= rejoined(before, separator).push(separator));
        } else if before.len() == 1 {
            assert(all[0] == before[0].push(text.last()));
        } else {
            let front = rejoined(before.drop_last(), separator).push(separator);
            assert(rejoined(all, separator) == front + before.last().push(text.last()));
            assert(front + before.last().push(text.last()) =~= (front + before.last()).push(
                text.last(),
            ));
        }
        assert forall|i: int| 0 <= i < all.len() implies !(#[trigger] all[i]).contains(
            separator,
        ) by {
            if i < before.len() {
                assert(!before[i].contains(separator));
            }
            if all[i].contains(separator) {
                let k = choose|k: int| 0 <= k < all[i].len() && all[i][k] == separator;
                if text.last() != separator && i == all.len() - 1 {
                    assert(k < before[i].len());
                    assert(before[i][k] == separator);
                }
            }
        }
    } else {
        assert(rejoined(all, separator) =~= text);
    }
}

/// Splitting loses nothing and leaves no separator: the parts, put together
/// again with the separator between them, are the text.
pub proof fn parts_rejoin(text: &str, separator: char, parts: Vec<String>)
    requires
        call_ensures(split, (text, separator), parts),
    ensures
        parts@.len() > 0,
        rejoined(views(parts@), separator) == text@,
        forall|i: int| 0 <= i < parts@.len() ==> !(#[trigger] parts@[i])@.contains(separator),
{
    pieces_rejoin(text@, separator);
    assert forall|i: int| 0 <= i < parts@.len() implies !(#[trigger] parts@[i])@.contains(
        separator,
    ) by {
        assert(pieces(text@, separator)[i] == parts@[i]@);
    }
}

/// The characters of the two sets that texts are trimmed of.
pub proof fn trimmed_sets(c: char, blank: bool, yes: bool)
    requires
        call_ensures(is_whitespace, (c,), blank),
        call_ensures(CharSet::contains, (CharSet::Whitespace, c), yes),
    ensures
        yes == blank,
        forall|ends: bool|
            call_ensures(CharSet::contains, (CharSet::DotOrDash, c), ends) ==> (ends <==> c == '.'
                || c == '-'),
{
}

proof fn the_start_is_trimmed(text: Seq<char>, set: CharSet) -> (from: int)
    ensures
        0 <= from <= text.len(),
        trimmed_start(text, set) == text.skip(from),
        forall|i: int| 0 <= i < from ==> set.has(#[trigger] text[i]),
        from < text.len() ==> !set.has(text[from]),
    decreases text.len(),
{
    if text.len() > 0 && set.has(text[0]) {
        let rest = text.drop_first();
        let from = the_start_is_trimmed(rest, set);
        assert(rest.skip(from) =~= text.skip(from + 1));
        assert forall|i: int| 0 <= i < from + 1 implies set.has(#[trigger] text[i]) by {
            if i > 0 {
                assert(rest[i - 1] == text[i]);
            }
        }
        from + 1
    } else {
        assert(text.skip(0) =~= text);
        0
    }
}

/// The end of a text is trimmed of all its characters of a set.
pub proof fn the_end_is_trimmed(text: Seq<char>, set: CharSet) -> (to: int)
    ensures
        0 <= to <= text.len(),
        trimmed_end(text, set) == text.take(to),
        forall|i: int| to <= i < text.len() ==> set.has(#[trigger] text[i]),
        to > 0 ==> !set.has(text[to - 1]),
    decreases text.len(),
{
    if text.len() > 0 && set.has(text.last()) {
        let rest = text.drop_last();
        let to = the_end_is_trimmed(rest, set);
        assert(rest.take(to) =~= text.take(to));
        assert forall|i: int| to <= i < text.len() implies set.has(#[trigger] text[i]) by {
            if i < rest.len() {
                assert(rest[i] == text[i]);
            }
        }
        to
    } else {
        assert(text.take(text.len() as int) =~= text);
        text.len() as int
    }
}

/// Trimming takes away characters of the set at both ends, all of them, and
/// nothing else.
pub proof fn trimming_is_exact(text: &str, set: CharSet, inner: String) -> (from: int)
    requires
        call_ensures(trim, (text, set), inner),
    ensures
        0 <= from,
        from + inner@.len() <= text@.len(),
        inner@ == text@.subrange(from, from + inner@.len()),
        forall|i: int|
            0 <= i < text@.len() && (i < from || from + inner@.len() <= i) ==> set.has(
                #[trigger] text@[i],
            ),
        inner@.len() > 0 ==> !set.has(inner@[0]) && !set.has(inner@.last()),
{
    let from = the_start_is_trimmed(text@, set);
    let rest = text@.skip(from);
    let to = the_end_is_trimmed(rest, set);
    assert(inner@ =~= text@.subrange(from, from + to));
    assert forall|i: int|
        0 <= i < text@.len() && (i < from || from + inner@.len() <= i) implies set.has(
        #[trigger] text@[i],
    ) by {
        if i >= from {
            assert(rest[i - from] == text@[i]);
        }
    }
    from
}

/// Trimming the end takes away trailing characters of the set, all of them,
/// and nothing else.
pub proof fn trimming_the_end_is_exact(text: &str, set: CharSet, inner: String)
    requires
        call_ensures(trim_end, (text, set), inner),
    ensures
        inner@.len() <= text@.len(),
        inner@ == text@.take(inner@.len() as int),
        forall|i: int| inner@.len() <= i < text@.len() ==> set.has(#[trigger] text@[i]),
        inner@.len() > 0 ==> !set.has(inner@.last()),
{
    let to = the_end_is_trimmed(text@, set);
}

proof fn first_occurrences_are_found(text: Seq<char>, marker: Seq<char>) -> (at: int)
    ensures
        match after_first(text, marker) {
            Some(rest) => {
                &&& 0 <= at <= text.len() - marker.len()
                &&& text.subrange(at, at + marker.len()) == marker
                &&& rest == text.skip(at + marker.len())
                &&& forall|j: int| 0 <= j < at ==> !marker.is_prefix_of(#[trigger] text.skip(j))
            },
            None => forall|j: int|
                0 <= j <= text.len() ==> !marker.is_prefix_of(#[trigger] text.skip(j)),
        },
    decreases text.len(),
{
    assert(text.skip(0) =~= text);
    if marker.is_prefix_of(text) {
        0
    } else if text.len() == 0 {
        0
    } else {
        let rest = text.drop_first();
        let at = first_occurrences_are_found(rest, marker);
        assert forall|j: int| 1 <= j <= text.len() implies #[trigger] text.skip(j) == rest.skip(
            j - 1,
        ) by {
            assert(text.skip(j) =~= rest.skip(j - 1));
        }
        if after_first(text, marker) is Some {
            assert(text.subrange(at + 1, at + 1 + marker.len()) =~= rest.subrange(
                at,
                at + marker.len(),
            ));
            assert(text.skip(at + 1 + marker.len()) =~= rest.skip(at + marker.len()));
        }
        at + 1
    }
}

/// What is found follows the first place where the marker stands; nothing is
/// found exactly where it stands nowhere.
pub proof fn markers_are_found_first(text: &str, marker: &str, rest: Option<String>) -> (at: int)
    requires
        call_ensures(find_after, (text, marker), rest),
    ensures
        match rest {
            Some(found) => {
                &&& 0 <= at <= text@.len() - marker@.len()
                &&& text@.subrange(at, at + marker@.len()) == marker@
                &&& found@ == text@.skip(at + marker@.len())
                &&& forall|j: int| 0 <= j < at ==> !marker@.is_prefix_of(#[trigger] text@.skip(j))
            },
            None => forall|j: int|
                0 <= j <= text@.len() ==> !marker@.is_prefix_of(#[trigger] text@.skip(j)),
        },
{
    first_occurrences_are_found(text@, marker@)
}

proof fn leading_words_are_exact(text: Seq<char>) -> (to: int)
    ensures
        0 <= to <= text.len(),
        leading_word(text) == text.take(to),
        forall|i: int| 0 <= i < to ==> !whitespace(#[trigger] text[i]),
        to < text.len() ==> whitespace(text[to]),
    decreases text.len(),
{
    if text.len() > 0 && !whitespace(text[0]) {
        let rest = text.drop_first();
        let to = leading_words_are_exact(rest);
        assert(text.take(to + 1) =~= seq![text[0]] + rest.take(to));
        assert forall|i: int| 0 <= i < to + 1 implies !whitespace(#[trigger] text[i]) by {
            if i > 0 {
                assert(rest[i - 1] == text[i]);
            }
        }
        to + 1
    } else {
        assert(text.take(0) =~= Seq::empty());
        0
    }
}

/// The first word is the first run of characters that are not white space: in
/// front of it there is white space only, behind it white space or nothing.
pub proof fn first_words_come_first(text: &str, word: String) -> (from: int)
    requires
        call_ensures(first_word, (text,), word),
    ensures
        0 <= from,
        from + word@.len() <= text@.len(),
        word@ == text@.subrange(from, from + word@.len()),
        forall|i: int| 0 <= i < from ==> whitespace(#[trigger] text@[i]),
        forall|i: int| 0 <= i < word@.len() ==> !whitespace(#[trigger] word@[i]),
        from + word@.len() < text@.len() ==> word@.len() > 0 && whitespace(
            text@[from + word@.len()],
        ),
{
    let from = the_start_is_trimmed(text@, CharSet::Whitespace);
    let rest = text@.skip(from);
    let to = leading_words_are_exact(rest);
    assert(word@ =~= text@.subrange(from, from + to));
    assert forall|i: int| 0 <= i < word@.len() implies !whitespace(#[trigger] word@[i]) by {
        assert(word@[i] == rest[i]);
    }
    from
}

/// Two texts are alike up to a place.
pub open spec fn alike_up_to(a: Seq<char>, b: Seq<char>, at: int) -> bool {
    &&& 0 <= at <= a.len()
    &&& at <= b.len()
    &&& forall|j: int| 0 <= j < at ==> #[trigger] a[j] == b[j]
}

proof fn order_is_decided_by_the_first_difference(a: Seq<char>, b: Seq<char>) -> (at: int)
    ensures
        alike_up_to(a, b, at),
        at < a.len() && at < b.len() ==> a[at] != b[at],
        precedes(a, b) <==> at < b.len() && (at == a.len() || a[at] < b[at]),
    decreases a.len(),
{
    if a.len() > 0 && b.len() > 0 && a[0] == b[0] {
        let at = order_is_decided_by_the_first_difference(a.drop_first(), b.drop_first());
        assert forall|j: int| 0 <= j < at + 1 implies #[trigger] a[j] == b[j] by {
            if j > 0 {
                assert(a.drop_first()[j - 1] == b.drop_first()[j - 1]);
            }
        }
        at + 1
    } else {
        0
    }
}

/// The order of texts is decided at the first place where they differ: by the
/// smaller character, or by being a proper beginning of the other.
pub proof fn the_first_difference_decides(a: &str, b: &str, yes: bool) -> (at: int)
    requires
        call_ensures(comes_before, (a, b), yes),
    ensures
        alike_up_to(a@, b@, at),
        at < a@.len() && at < b@.len() ==> a@[at] != b@[at],
        yes <==> at < b@.len() && (at == a@.len() || a@[at] < b@[at]),
{
    order_is_decided_by_the_first_difference(a@, b@)
}

/// A padded number stands for itself, and is as wide as asked for where its
/// own digits are no more.
pub proof fn padded_numbers_are_read_back(n: nat, width: nat)
    ensures
        zero_padded(n, width).len() >= width,
        numeric(zero_padded(n, width)),
        value(zero_padded(n, width)) == n,
        n < 100 && width == 2 ==> zero_padded(n, width).len() == 2,
        n < 10_000 && width == 4 ==> zero_padded(n, width).len() == 4,
{
    decimals_are_read_back(n);
    leading_zeros_add_nothing((width - digits(n).len()) as int, digits(n));
    reveal_with_fuel(digits, 5);
}

} // verus!
