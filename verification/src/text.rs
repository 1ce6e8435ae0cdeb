//! Text primitives: the string operations the rest of the library decides with,
//! each stated over the sequence of characters of its argument.
use vstd::prelude::*;
use vstd::string::*;

verus! {

/// `String::push` appends one character to the end of the string.
pub assume_specification[ String::push ](s: &mut String, c: char)
    ensures
        final(s)@ == old(s)@.push(c),
;

/// The ASCII lower-case form of a character; every other character is unchanged.
pub open spec fn lower_char(c: char) -> char {
    if 'A' <= c && c <= 'Z' {
        ((c as u8) + 32) as u8 as char
    } else {
        c
    }
}

/// The text with each ASCII capital replaced by its small letter.
pub open spec fn lowered(s: Seq<char>) -> Seq<char> {
    s.map_values(|c: char| lower_char(c))
}

/// `needle` stands in `s` starting at position `at`.
pub open spec fn occurs_at(s: Seq<char>, needle: Seq<char>, at: int) -> bool {
    &&& 0 <= at
    &&& at + needle.len() <= s.len()
    &&& s.subrange(at, at + needle.len()) == needle
}

/// `needle` stands somewhere in `s`.
pub open spec fn occurs_in(s: Seq<char>, needle: Seq<char>) -> bool {
    exists|at: int| occurs_at(s, needle, at)
}

/// The characters with the Unicode property White_Space.
pub open spec fn is_white_space(c: char) -> bool {
    let n = c as u32;
    ||| 0x9 <= n <= 0xd
    ||| n == 0x20
    ||| n == 0x85
    ||| n == 0xa0
    ||| n == 0x1680
    ||| 0x2000 <= n <= 0x200a
    ||| n == 0x2028
    ||| n == 0x2029
    ||| n == 0x202f
    ||| n == 0x205f
    ||| n == 0x3000
}

/// The text without its leading white space.
pub open spec fn trimmed_start(s: Seq<char>) -> Seq<char>
    decreases s.len(),
{
    if s.len() > 0 && is_white_space(s[0]) {
        trimmed_start(s.drop_first())
    } else {
        s
    }
}

/// The text without its trailing white space.
pub open spec fn trimmed_end(s: Seq<char>) -> Seq<char>
    decreases s.len(),
{
    if s.len() > 0 && is_white_space(s.last()) {
        trimmed_end(s.drop_last())
    } else {
        s
    }
}

/// The text without leading and trailing white space.
pub open spec fn trimmed(s: Seq<char>) -> Seq<char> {
    trimmed_end(trimmed_start(s))
}

/// Dictionary order by code point: `a` stands before `b` or is the same text.
pub open spec fn text_le(a: Seq<char>, b: Seq<char>) -> bool
    decreases a.len(),
{
    if a.len() == 0 {
        true
    } else if b.len() == 0 {
        false
    } else if a[0] == b[0] {
        text_le(a.drop_first(), b.drop_first())
    } else {
        a[0] < b[0]
    }
}

/// The digit character of a number below ten.
pub open spec fn digit(n: nat) -> char {
    (('0' as u8) + n) as u8 as char
}

/// The decimal numeral of `n`, without leading zeros.
pub open spec fn decimal(n: nat) -> Seq<char>
    decreases n,
{
    if n < 10 {
        seq![digit(n)]
    } else {
        decimal(n / 10).push(digit(n % 10))
    }
}

/// The decimal numeral of `n`, with a leading zero where it has one digit.
pub open spec fn decimal2(n: nat) -> Seq<char> {
    if n < 10 {
        seq!['0', digit(n)]
    } else {
        decimal(n)
    }
}

/// The texts one after another, `separator` between each two.
pub open spec fn joined(parts: Seq<Seq<char>>, separator: Seq<char>) -> Seq<char>
    decreases parts.len(),
{
    if parts.len() == 0 {
        Seq::empty()
    } else if parts.len() == 1 {
        parts[0]
    } else {
        joined(parts.drop_last(), separator) + separator + parts.last()
    }
}

/// The characters of a text.
pub fn chars_of(s: &str) -> (r: Vec<char>)
    ensures
        r@ == s@,
{
    let mut out: Vec<char> = Vec::new();
    for c in it: s.chars()
        invariant
            it.seq() == s@,
            out@ == s@.take(it.index() as int),
    {
        proof {
            assert(s@.take(it.index() as int + 1) =~= s@.take(it.index() as int).push(c));
        }
        out.push(c);
    }
    assert(s@.take(s@.len() as int) =~= s@);
    out
}

/// An owned copy of a text.
pub fn owned(s: &str) -> (r: String)
    ensures
        r@ == s@,
{
    s.to_owned()
}

/// Whether two texts have the same characters.
pub fn same_text(a: &str, b: &str) -> (r: bool)
    ensures
        r == (a@ == b@),
{
    let x: Vec<char> = chars_of(a);
    let y: Vec<char> = chars_of(b);
    if x.len() != y.len() {
        return false;
    }
    let mut i: usize = 0;
    while i < x.len()
        invariant
            i <= x.len(),
            x.len() == y.len(),
            x@ == a@,
            y@ == b@,
            x@.take(i as int) == y@.take(i as int),
        decreases x.len() - i,
    {
        if x[i] != y[i] {
            assert(a@[i as int] != b@[i as int]);
            return false;
        }
        assert(x@.take(i + 1) =~= x@.take(i as int).push(x[i as int]));
        assert(y@.take(i + 1) =~= y@.take(i as int).push(y[i as int]));
        i = i + 1;
    }
    assert(x@.take(i as int) =~= x@);
    assert(y@.take(i as int) =~= y@);
    true
}

/// Whether `needle` stands in the characters `s` at position `at`.
fn stands_at(s: &Vec<char>, needle: &Vec<char>, at: usize) -> (r: bool)
    requires
        at + needle.len() <= s.len(),
    ensures
        r == occurs_at(s@, needle@, at as int),
{
    let mut i: usize = 0;
    let ghost window = s@.subrange(at as int, at + needle.len());
    while i < needle.len()
        invariant
            i <= needle.len(),
            at + needle.len() <= s.len(),
            window == s@.subrange(at as int, at + needle.len()),
            forall|j: int| 0 <= j < i ==> window[j] == needle@[j],
        decreases needle.len() - i,
    {
        if s[at + i] != needle[i] {
            assert(window[i as int] == s@[at + i]);
            return false;
        }
        assert(window[i as int] == s@[at + i]);
        i = i + 1;
    }
    assert(window =~= needle@);
    true
}

/// Whether `s` begins with `prefix`.
pub fn begins_with(s: &str, prefix: &str) -> (r: bool)
    ensures
        r == prefix@.is_prefix_of(s@),
{
    let text: Vec<char> = chars_of(s);
    let head: Vec<char> = chars_of(prefix);
    if head.len() > text.len() {
        return false;
    }
    let r = stands_at(&text, &head, 0);
    assert(s@.subrange(0, head@.len() as int) == prefix@ <==> prefix@.is_prefix_of(s@));
    r
}

/// Whether `needle` stands somewhere in `s`.
pub fn contains_text(s: &str, needle: &str) -> (r: bool)
    ensures
        r == occurs_in(s@, needle@),
{
    let text: Vec<char> = chars_of(s);
    let word: Vec<char> = chars_of(needle);
    if word.len() > text.len() {
        return false;
    }
    let mut at: usize = 0;
    while at <= text.len() - word.len()
        invariant
            word.len() <= text.len(),
            at <= text.len() - word.len() + 1,
            text@ == s@,
            word@ == needle@,
            forall|k: int| 0 <= k < at ==> !occurs_at(s@, needle@, k),
        decreases text.len() + 1 - at,
    {
        if stands_at(&text, &word, at) {
            assert(occurs_at(s@, needle@, at as int));
            return true;
        }
        if at == text.len() - word.len() {
            return false;
        }
        at = at + 1;
    }
    false
}

/// The ASCII lower-case form of one character.
pub fn lower_one(c: char) -> (r: char)
    ensures
        r == lower_char(c),
{
    if 'A' <= c && c <= 'Z' {
        ((c as u8) + 32) as char
    } else {
        c
    }
}

/// The text with each ASCII capital replaced by its small letter.
pub fn lower(s: &str) -> (r: String)
    ensures
        r@ == lowered(s@),
{
    let mut out = String::new();
    for c in it: s.chars()
        invariant
            it.seq() == s@,
            out@ == lowered(s@).take(it.index() as int),
    {
        proof {
            assert(lowered(s@).take(it.index() as int + 1) =~= lowered(s@).take(
                it.index() as int,
            ).push(lower_char(c)));
        }
        out.push(lower_one(c));
    }
    assert(lowered(s@).take(s@.len() as int) =~= lowered(s@));
    out
}

/// The Unicode lower-case form of a text.
pub uninterp spec fn lowercase_of(s: Seq<char>) -> Seq<char>;

/// `str::to_lowercase` gives the Unicode lower-case form of a text, which depends on the text
/// alone. On ASCII text it changes the ASCII capitals and nothing else.
#[verifier::external_body]
pub(crate) fn lowercase(s: &str) -> (r: String)
    ensures
        r@ == lowercase_of(s@),
        (forall|i: int| 0 <= i < s@.len() ==> (#[trigger] s@[i]) < '\u{80}') ==> r@ == lowered(s@),
{
    s.to_lowercase()
}

/// Whether a character has the Unicode property White_Space.
pub fn white_space(c: char) -> (r: bool)
    ensures
        r == is_white_space(c),
{
    let n: u32 = c as u32;
    (0x9 <= n && n <= 0xd) || n == 0x20 || n == 0x85 || n == 0xa0 || n == 0x1680 || (0x2000 <= n
        && n <= 0x200a) || n == 0x2028 || n == 0x2029 || n == 0x202f || n == 0x205f || n == 0x3000
}

/// The text without leading and trailing white space.
pub fn trim(s: &str) -> (r: String)
    ensures
        r@ == trimmed(s@),
{
    let text: Vec<char> = chars_of(s);
    let mut from: usize = 0;
    assert(text@.subrange(0, text@.len() as int) =~= text@);
    while from < text.len() && white_space(text[from])
        invariant
            from <= text.len(),
            trimmed_start(text@) == trimmed_start(text@.subrange(from as int, text@.len() as int)),
        decreases text.len() - from,
    {
        assert(text@.subrange(from as int, text@.len() as int).drop_first() =~= text@.subrange(
            from + 1,
            text@.len() as int,
        ));
        from = from + 1;
    }
    let ghost rest = text@.subrange(from as int, text@.len() as int);
    assert(trimmed_start(text@) == rest);
    let mut to: usize = text.len();
    while from < to && white_space(text[to - 1])
        invariant
            from <= to <= text.len(),
            trimmed_end(rest) == trimmed_end(text@.subrange(from as int, to as int)),
        decreases to - from,
    {
        assert(text@.subrange(from as int, to as int).drop_last() =~= text@.subrange(
            from as int,
            to - 1,
        ));
        to = to - 1;
    }
    assert(trimmed_end(rest) == text@.subrange(from as int, to as int));
    piece(&text, from, to)
}

/// The characters from position `from` up to position `to`, as a text.
pub fn piece(chars: &Vec<char>, from: usize, to: usize) -> (r: String)
    requires
        from <= to <= chars.len(),
    ensures
        r@ == chars@.subrange(from as int, to as int),
{
    let mut out = String::new();
    let mut i: usize = from;
    while i < to
        invariant
            from <= i <= to <= chars.len(),
            out@ == chars@.subrange(from as int, i as int),
        decreases to - i,
    {
        out.push(chars[i]);
        assert(chars@.subrange(from as int, i + 1) =~= chars@.subrange(from as int, i as int).push(
            chars[i as int],
        ));
        i = i + 1;
    }
    out
}

/// Whether a text is nothing but white space.
pub fn is_blank(s: &str) -> (r: bool)
    ensures
        r == (trimmed(s@).len() == 0),
{
    let t: String = trim(s);
    t.as_str().is_empty()
}

/// Whether `a` stands before `b` in dictionary order or is the same text.
pub fn at_or_before(a: &str, b: &str) -> (r: bool)
    ensures
        r == text_le(a@, b@),
{
    let x: Vec<char> = chars_of(a);
    let y: Vec<char> = chars_of(b);
    let mut i: usize = 0;
    assert(x@.skip(0) =~= x@ && y@.skip(0) =~= y@);
    while i < x.len() && i < y.len()
        invariant
            i <= x.len(),
            i <= y.len(),
            x@ == a@,
            y@ == b@,
            text_le(x@, y@) == text_le(x@.skip(i as int), y@.skip(i as int)),
        decreases x.len() - i,
    {
        assert(x@.skip(i as int).drop_first() =~= x@.skip(i + 1));
        assert(y@.skip(i as int).drop_first() =~= y@.skip(i + 1));
        if x[i] != y[i] {
            return x[i] < y[i];
        }
        i = i + 1;
    }
    i == x.len()
}

/// Every text stands in order with itself.
pub proof fn text_le_reflexive(a: Seq<char>)
    ensures
        text_le(a, a),
    decreases a.len(),
{
    if a.len() > 0 {
        text_le_reflexive(a.drop_first());
    }
}

/// Of two texts one stands before the other, or they are the same.
pub proof fn text_le_total(a: Seq<char>, b: Seq<char>)
    ensures
        text_le(a, b) || text_le(b, a),
    decreases a.len(),
{
    if a.len() > 0 && b.len() > 0 && a[0] == b[0] {
        text_le_total(a.drop_first(), b.drop_first());
    }
}

/// Dictionary order is transitive.
pub proof fn text_le_transitive(a: Seq<char>, b: Seq<char>, c: Seq<char>)
    requires
        text_le(a, b),
        text_le(b, c),
    ensures
        text_le(a, c),
    decreases a.len(),
{
    if a.len() > 0 && b.len() > 0 && c.len() > 0 && a[0] == b[0] && b[0] == c[0] {
        text_le_transitive(a.drop_first(), b.drop_first(), c.drop_first());
    }
}

/// Two texts that stand before each other are the same text.
pub proof fn text_le_antisymmetric(a: Seq<char>, b: Seq<char>)
    requires
        text_le(a, b),
        text_le(b, a),
    ensures
        a == b,
    decreases a.len(),
{
    if a.len() > 0 && b.len() > 0 {
        text_le_antisymmetric(a.drop_first(), b.drop_first());
        assert(a =~= seq![a[0]] + a.drop_first());
        assert(b =~= seq![b[0]] + b.drop_first());
    }
}

proof fn trimmed_start_starts(s: Seq<char>)
    ensures
        trimmed_start(s).len() > 0 ==> !is_white_space(trimmed_start(s)[0]),
    decreases s.len(),
{
    if s.len() > 0 && is_white_space(s[0]) {
        trimmed_start_starts(s.drop_first());
    }
}

proof fn trimmed_end_ends(s: Seq<char>)
    ensures
        trimmed_end(s).len() > 0 ==> !is_white_space(trimmed_end(s).last()),
        trimmed_end(s).len() <= s.len(),
        trimmed_end(s) == s.take(trimmed_end(s).len() as int),
    decreases s.len(),
{
    if s.len() > 0 && is_white_space(s.last()) {
        trimmed_end_ends(s.drop_last());
        let n = trimmed_end(s).len() as int;
        assert(s.drop_last().take(n) =~= s.take(n));
    } else {
        assert(s.take(s.len() as int) =~= s);
    }
}

/// A trimmed text is not changed by trimming it again.
pub proof fn trimming_twice(s: Seq<char>)
    ensures
        trimmed(trimmed(s)) == trimmed(s),
{
    let a = trimmed_start(s);
    let b = trimmed_end(a);
    trimmed_start_starts(s);
    trimmed_end_ends(a);
    if b.len() > 0 {
        assert(b[0] == a[0]);
    }
}

/// The digit character of a number below ten.
fn digit_char(n: u64) -> (r: char)
    requires
        n < 10,
    ensures
        r == digit(n as nat),
{
    (48u8 + n as u8) as char
}

/// The decimal numeral of a number.
pub fn number(n: u64) -> (r: String)
    ensures
        r@ == decimal(n as nat),
    decreases n,
{
    if n < 10 {
        let mut out = String::new();
        out.push(digit_char(n));
        assert(out@ =~= seq![digit(n as nat)]);
        out
    } else {
        let mut out: String = number(n / 10);
        out.push(digit_char(n % 10));
        out
    }
}

/// The decimal numeral of a number, with at least two digits.
pub fn number2(n: u64) -> (r: String)
    ensures
        r@ == decimal2(n as nat),
{
    if n < 10 {
        let mut out = String::new();
        out.push('0');
        out.push(digit_char(n));
        assert(out@ =~= seq!['0', digit(n as nat)]);
        out
    } else {
        number(n)
    }
}

/// Two numbers with the same numeral are the same number.
pub proof fn decimal_is_injective(a: nat, b: nat)
    requires
        decimal(a) == decimal(b),
    ensures
        a == b,
    decreases a,
{
    decimal_not_empty(a);
    decimal_not_empty(b);
    if a < 10 {
        assert(decimal(a).len() == 1);
        assert(decimal(a)[0] == digit(a));
        if b < 10 {
            assert(decimal(b)[0] == digit(b));
        } else {
            decimal_not_empty(b / 10);
            assert(decimal(b).len() >= 2);
        }
    } else if b < 10 {
        decimal_not_empty(a / 10);
        assert(decimal(a).len() >= 2);
        assert(decimal(b).len() == 1);
    } else {
        assert(decimal(a).drop_last() =~= decimal(a / 10));
        assert(decimal(b).drop_last() =~= decimal(b / 10));
        assert(decimal(a).last() == digit(a % 10));
        assert(decimal(b).last() == digit(b % 10));
        decimal_is_injective(a / 10, b / 10);
    }
}

proof fn decimal_not_empty(n: nat)
    ensures
        decimal(n).len() >= 1,
{
}

/// The views of a list of texts.
pub open spec fn views(parts: Seq<String>) -> Seq<Seq<char>> {
    parts.map_values(|p: String| p@)
}

/// The texts one after another, `separator` between each two.
pub fn join(parts: &Vec<String>, separator: &str) -> (r: String)
    ensures
        r@ == joined(views(parts@), separator@),
{
    if parts.len() == 0 {
        return String::new();
    }
    let mut out: String = parts[0].clone();
    let mut i: usize = 1;
    assert(views(parts@).take(1) =~= seq![parts@[0]@]);
    while i < parts.len()
        invariant
            1 <= i <= parts.len(),
            out@ == joined(views(parts@).take(i as int), separator@),
        decreases parts.len() - i,
    {
        out.append(separator);
        out.append(parts[i].as_str());
        let ghost longer = views(parts@).take(i + 1);
        assert(longer.drop_last() =~= views(parts@).take(i as int));
        assert(longer.last() == parts@[i as int]@);
        i = i + 1;
    }
    assert(views(parts@).take(i as int) =~= views(parts@));
    out
}

/// Two texts, one after the other.
pub fn concat2(a: &str, b: &str) -> (r: String)
    ensures
        r@ == a@ + b@,
{
    let mut out: String = owned(a);
    out.append(b);
    out
}

/// Three texts, one after another.
pub fn concat3(a: &str, b: &str, c: &str) -> (r: String)
    ensures
        r@ == a@ + b@ + c@,
{
    let mut out: String = concat2(a, b);
    out.append(c);
    out
}

/// The number of bytes of a character in UTF-8.
pub open spec fn utf8_len(c: char) -> nat {
    let n = c as u32;
    if n < 0x80 {
        1
    } else if n < 0x800 {
        2
    } else if n < 0x10000 {
        3
    } else {
        4
    }
}

/// The number of bytes of a text in UTF-8.
pub open spec fn byte_len(s: Seq<char>) -> nat
    decreases s.len(),
{
    if s.len() == 0 {
        0
    } else {
        utf8_len(s[0]) + byte_len(s.drop_first())
    }
}

/// The front of a text that is `n` bytes long in UTF-8; none where the text is shorter or a
/// character stands across the border.
pub open spec fn byte_front(s: Seq<char>, n: nat) -> Option<Seq<char>>
    decreases s.len(),
{
    if n == 0 {
        Some(Seq::empty())
    } else if s.len() == 0 || utf8_len(s[0]) > n {
        None
    } else {
        match byte_front(s.drop_first(), (n - utf8_len(s[0])) as nat) {
            Some(rest) => Some(seq![s[0]] + rest),
            None => None,
        }
    }
}

fn utf8_size(c: char) -> (r: usize)
    ensures
        r == utf8_len(c),
        1 <= r <= 4,
{
    let n: u32 = c as u32;
    if n < 0x80 {
        1
    } else if n < 0x800 {
        2
    } else if n < 0x10000 {
        3
    } else {
        4
    }
}

/// The number of bytes of a text in UTF-8.
pub fn byte_size(s: &str) -> (r: usize)
    requires
        byte_len(s@) <= usize::MAX,
    ensures
        r == byte_len(s@),
{
    let chars: Vec<char> = chars_of(s);
    let mut n: usize = 0;
    let mut i: usize = 0;
    assert(chars@.skip(0) =~= chars@);
    while i < chars.len()
        invariant
            i <= chars.len(),
            byte_len(chars@) <= usize::MAX,
            byte_len(chars@) == n + byte_len(chars@.skip(i as int)),
        decreases chars.len() - i,
    {
        assert(chars@.skip(i as int).drop_first() =~= chars@.skip(i + 1));
        n = n + utf8_size(chars[i]);
        i = i + 1;
    }
    assert(chars@.skip(i as int) =~= Seq::<char>::empty());
    n
}

/// The first `n` bytes of a text, where they are whole characters.
pub fn front_bytes(s: &str, n: usize) -> (r: Option<String>)
    ensures
        r is Some <==> byte_front(s@, n as nat) is Some,
        r matches Some(front) ==> Some(front@) == byte_front(s@, n as nat),
{
    let chars: Vec<char> = chars_of(s);
    let mut left: usize = n;
    let mut i: usize = 0;
    proof {
        assert(chars@.skip(0) =~= chars@);
        assert(chars@.take(0) =~= Seq::<char>::empty());
    }
    while left > 0
        invariant
            i <= chars.len(),
            left <= n,
            chars@ == s@,
            byte_front(s@, n as nat) == match byte_front(chars@.skip(i as int), left as nat) {
                Some(rest) => Some(chars@.take(i as int) + rest),
                None => None,
            },
        decreases left,
    {
        if i >= chars.len() {
            return None;
        }
        let size: usize = utf8_size(chars[i]);
        if size > left {
            return None;
        }
        proof {
            assert(chars@.skip(i as int).drop_first() =~= chars@.skip(i + 1));
            let rest = byte_front(chars@.skip(i + 1), (left - size) as nat);
            if rest is Some {
                assert(chars@.take(i as int) + (seq![chars@[i as int]] + rest->0) =~= chars@.take(
                    i + 1,
                ) + rest->0);
            }
        }
        left = left - size;
        i = i + 1;
    }
    assert(chars@.take(i as int) + Seq::<char>::empty() =~= chars@.take(i as int));
    assert(chars@.subrange(0, i as int) =~= chars@.take(i as int));
    Some(piece(&chars, 0, i))
}

/// The text with every occurrence of one character replaced by another.
pub open spec fn replaced(s: Seq<char>, from: char, to: char) -> Seq<char> {
    s.map_values(
        |c: char|
            if c == from {
                to
            } else {
                c
            },
    )
}

/// The text with every occurrence of one character replaced by another.
pub fn replace_char(s: &str, from: char, to: char) -> (r: String)
    ensures
        r@ == replaced(s@, from, to),
{
    let mut out = String::new();
    for c in it: s.chars()
        invariant
            it.seq() == s@,
            out@ == replaced(s@, from, to).take(it.index() as int),
    {
        let ghost next = if c == from {
            to
        } else {
            c
        };
        proof {
            assert(replaced(s@, from, to).take(it.index() as int + 1) =~= replaced(
                s@,
                from,
                to,
            ).take(it.index() as int).push(next));
        }
        if c == from {
            out.push(to);
        } else {
            out.push(c);
        }
    }
    assert(replaced(s@, from, to).take(s@.len() as int) =~= replaced(s@, from, to));
    out
}

/// At most the first `n` characters of a text.
pub fn first_chars(s: &str, n: usize) -> (r: String)
    ensures
        r@ == crate::seqs::first_n(s@, n as nat),
{
    let chars: Vec<char> = chars_of(s);
    let end: usize = if chars.len() <= n {
        chars.len()
    } else {
        n
    };
    assert(chars@.subrange(0, end as int) =~= crate::seqs::first_n(s@, n as nat));
    piece(&chars, 0, end)
}

/// The decimal numeral of a signed number.
pub open spec fn signed_decimal(n: int) -> Seq<char> {
    if n < 0 {
        seq!['-'] + decimal((-n) as nat)
    } else {
        decimal(n as nat)
    }
}

/// The decimal numeral of a signed number.
pub fn signed_number(n: i32) -> (r: String)
    ensures
        r@ == signed_decimal(n as int),
{
    if n < 0 {
        let mut out = String::new();
        out.push('-');
        assert(out@ =~= seq!['-']);
        let size: u64 = (-(n as i64)) as u64;
        out.append(number(size).as_str());
        out
    } else {
        number(n as u64)
    }
}

} // verus!
