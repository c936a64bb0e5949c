//! Text as a sequence of characters: comparing, trimming, splitting and joining.

use vstd::prelude::*;

verus! {

/// The text of a `String` or `str`, character by character.
pub type Text = Seq<char>;

/// The model of a result whose error is a message.
pub open spec fn outcome_of<T: DeepView>(result: Result<T, String>) -> Result<T::V, Text> {
    match result {
        Ok(value) => Ok(value.deep_view()),
        Err(message) => Err(message@),
    }
}

/// `String::push` appends the given character to the end of the string.
pub assume_specification[ String::push ](s: &mut String, ch: char)
    ensures
        final(s)@ == old(s)@.push(ch),
;

/// The characters of `s`, in order.
pub fn characters(s: &str) -> (result: Vec<char>)
    ensures
        result@ == s@,
{
    let mut result: Vec<char> = Vec::new();
    for c in it: s.chars()
        invariant
            it.seq() == s@,
            result@ == s@.take(it.index() as int),
    {
        result.push(c);
        assert(s@.take(it.index() as int).push(c) =~= s@.take(it.index() + 1));
    }
    assert(s@.take(s@.len() as int) =~= s@);
    result
}

/// The string that holds the characters `chars[from..to]`.
pub fn string_of(chars: &Vec<char>, from: usize, to: usize) -> (result: String)
    requires
        from <= to <= chars@.len(),
    ensures
        result@ == chars@.subrange(from as int, to as int),
{
    let mut result = String::new();
    let mut i: usize = from;
    while i < to
        invariant
            from <= i <= to <= chars@.len(),
            result@ == chars@.subrange(from as int, i as int),
        decreases to - i,
    {
        result.push(chars[i]);
        assert(chars@.subrange(from as int, i as int).push(chars@[i as int]) =~= chars@.subrange(
            from as int,
            i + 1,
        ));
        i = i + 1;
    }
    result
}

/// Whether two strings hold the same text.
pub fn same_text(a: &str, b: &str) -> (result: bool)
    ensures
        result == (a@ == b@),
{
    a.to_owned() == b.to_owned()
}

/// Two texts put one after the other.
pub fn joined(a: &str, b: &str) -> (result: String)
    ensures
        result@ == a@ + b@,
{
    let mut result = a.to_owned();
    result.append(b);
    result
}

/// Three texts put one after the other.
pub fn framed(a: &str, b: &str, c: &str) -> (result: String)
    ensures
        result@ == a@ + b@ + c@,
{
    let mut result = a.to_owned();
    result.append(b);
    result.append(c);
    result
}

/// What `{:?}` prints of a text: the text in quotes, with escapes.
pub uninterp spec fn quoted_text(text: Seq<char>) -> Seq<char>;

/// Formats a text with `{:?}`, by `<str as core::fmt::Debug>::fmt`. The contract
/// claims that what is printed depends on the text alone.
#[verifier::external_body]
pub(crate) fn quoted(text: &str) -> (result: String)
    ensures
        result@ == quoted_text(text@),
{
    format!("{text:?}")
}

/// The characters that Unicode lists as white space.
pub open spec fn is_blank(c: char) -> bool {
    let code = c as u32;
    ||| 0x09 <= code <= 0x0d
    ||| code == 0x20
    ||| code == 0x85
    ||| code == 0xa0
    ||| code == 0x1680
    ||| 0x2000 <= code <= 0x200a
    ||| code == 0x2028
    ||| code == 0x2029
    ||| code == 0x202f
    ||| code == 0x205f
    ||| code == 0x3000
}

/// The characters of the general category `Cc`.
pub open spec fn is_control(c: char) -> bool {
    let code = c as u32;
    code <= 0x1f || 0x7f <= code <= 0x9f
}

/// Whether Unicode counts `c` as white space.
pub fn blank(c: char) -> (result: bool)
    ensures
        result == is_blank(c),
{
    let code: u32 = c as u32;
    (0x09 <= code && code <= 0x0d) || code == 0x20 || code == 0x85 || code == 0xa0 || code == 0x1680
        || (0x2000 <= code && code <= 0x200a) || code == 0x2028 || code == 0x2029 || code == 0x202f
        || code == 0x205f || code == 0x3000
}

/// Whether `c` is a control character.
pub fn control(c: char) -> (result: bool)
    ensures
        result == is_control(c),
{
    let code: u32 = c as u32;
    code <= 0x1f || (0x7f <= code && code <= 0x9f)
}

/// What is cut off the ends of a text.
pub enum Margin {
    Blanks,
    Dots,
}

impl Margin {
    /// Whether the margin holds `c`.
    pub open spec fn has(self, c: char) -> bool {
        match self {
            Margin::Blanks => is_blank(c),
            Margin::Dots => c == '.',
        }
    }

    fn covers(&self, c: char) -> (result: bool)
        ensures
            result == self.has(c),
    {
        match self {
            Margin::Blanks => blank(c),
            Margin::Dots => c == '.',
        }
    }
}

/// `s` from its first character outside the margin on.
pub open spec fn without_head(s: Text, margin: Margin) -> Text
    decreases s.len(),
{
    if s.len() > 0 && margin.has(s[0]) {
        without_head(s.drop_first(), margin)
    } else {
        s
    }
}

/// `s` up to and with its last character outside the margin.
pub open spec fn without_tail(s: Text, margin: Margin) -> Text
    decreases s.len(),
{
    if s.len() > 0 && margin.has(s.last()) {
        without_tail(s.drop_last(), margin)
    } else {
        s
    }
}

/// `s` with the margin cut off both ends.
pub open spec fn trimmed(s: Text, margin: Margin) -> Text {
    without_tail(without_head(s, margin), margin)
}

/// Cuts the margin off both ends of `s`.
pub fn trim(s: &str, margin: Margin) -> (result: String)
    ensures
        result@ == trimmed(s@, margin),
{
    let chars = characters(s);
    let mut from: usize = 0;
    assert(chars@.skip(0) =~= chars@);
    while from < chars.len() && margin.covers(chars[from])
        invariant
            from <= chars@.len(),
            without_head(chars@.skip(from as int), margin) == without_head(chars@, margin),
        decreases chars@.len() - from,
    {
        assert(chars@.skip(from as int).drop_first() =~= chars@.skip(from + 1));
        from = from + 1;
    }
    let ghost rest = chars@.skip(from as int);
    assert(rest == without_head(chars@, margin));
    let mut to: usize = chars.len();
    assert(chars@.subrange(from as int, to as int) =~= rest);
    while from < to && margin.covers(chars[to - 1])
        invariant
            from <= to <= chars@.len(),
            without_tail(chars@.subrange(from as int, to as int), margin) == without_tail(
                rest,
                margin,
            ),
        decreases to,
    {
        assert(chars@.subrange(from as int, to as int).drop_last() =~= chars@.subrange(
            from as int,
            to - 1,
        ));
        to = to - 1;
    }
    string_of(&chars, from, to)
}

/// An ASCII capital as its small letter; any other character as it is.
pub open spec fn small_letter(c: char) -> char {
    if 'A' <= c && c <= 'Z' {
        (c as u32 + 32) as char
    } else {
        c
    }
}

/// `s` with small letters in place of ASCII capitals.
pub open spec fn lowered(s: Text) -> Text {
    s.map_values(|c: char| small_letter(c))
}

/// Writes small letters for the ASCII capitals of `s`.
pub fn lowercase(s: &str) -> (result: String)
    ensures
        result@ == lowered(s@),
{
    let chars = characters(s);
    let mut result = String::new();
    for i in 0..chars.len()
        invariant
            chars@ == s@,
            result@ == lowered(s@.take(i as int)),
    {
        let c = chars[i];
        let small: char = if 'A' <= c && c <= 'Z' {
            ((c as u8) + 32) as char
        } else {
            c
        };
        result.push(small);
        assert(lowered(s@.take(i as int)).push(small) =~= lowered(s@.take(i + 1)));
    }
    assert(s@.take(s@.len() as int) =~= s@);
    result
}

/// The place of the first `c` in `s`, or the length of `s` where there is none.
pub open spec fn place_of(s: Text, c: char) -> nat
    decreases s.len(),
{
    if s.len() == 0 || s[0] == c {
        0
    } else {
        1 + place_of(s.drop_first(), c)
    }
}

/// The first `c` among the characters from `from` on.
pub fn find(chars: &Vec<char>, from: usize, c: char) -> (result: usize)
    requires
        from <= chars@.len(),
    ensures
        from <= result <= chars@.len(),
        result == from + place_of(chars@.skip(from as int), c),
{
    let mut i: usize = from;
    while i < chars.len() && chars[i] != c
        invariant
            from <= i <= chars@.len(),
            place_of(chars@.skip(from as int), c) == (i - from) + place_of(
                chars@.skip(i as int),
                c,
            ),
        decreases chars@.len() - i,
    {
        assert(chars@.skip(i as int).drop_first() =~= chars@.skip(i + 1));
        i = i + 1;
    }
    i
}

/// The first line of `s`, without its line ending.
pub open spec fn first_line(s: Text) -> Text {
    let end = place_of(s, '\n') as int;
    if 0 < end < s.len() && s[end - 1] == '\r' {
        s.take(end - 1)
    } else {
        s.take(end)
    }
}

/// What follows the first line of `s`.
pub open spec fn after_line(s: Text) -> Text {
    let end = place_of(s, '\n') as int;
    if end < s.len() {
        s.skip(end + 1)
    } else {
        Text::empty()
    }
}

/// Whether `a` comes before `b`: by the first characters that differ, a shorter
/// text before its continuations.
pub open spec fn precedes(a: Text, b: Text) -> bool
    decreases a.len(),
{
    if a.len() == 0 || b.len() == 0 {
        a.len() < b.len()
    } else if a[0] == b[0] {
        precedes(a.drop_first(), b.drop_first())
    } else {
        a[0] < b[0]
    }
}

/// Whether `a` comes before `b`.
pub fn before(a: &str, b: &str) -> (result: bool)
    ensures
        result == precedes(a@, b@),
{
    let a_chars = characters(a);
    let b_chars = characters(b);
    let mut i: usize = 0;
    assert(a@.skip(0) =~= a@ && b@.skip(0) =~= b@);
    while i < a_chars.len() && i < b_chars.len() && a_chars[i] == b_chars[i]
        invariant
            a_chars@ == a@,
            b_chars@ == b@,
            i <= a@.len(),
            i <= b@.len(),
            precedes(a@, b@) == precedes(a@.skip(i as int), b@.skip(i as int)),
        decreases a@.len() - i,
    {
        assert(a@.skip(i as int).drop_first() =~= a@.skip(i + 1));
        assert(b@.skip(i as int).drop_first() =~= b@.skip(i + 1));
        i = i + 1;
    }
    if i < a_chars.len() && i < b_chars.len() {
        a_chars[i] < b_chars[i]
    } else {
        a_chars.len() < b_chars.len()
    }
}

/// No text comes before itself.
pub proof fn precedes_irreflexive(a: Text)
    ensures
        !precedes(a, a),
    decreases a.len(),
{
    if a.len() > 0 {
        precedes_irreflexive(a.drop_first());
    }
}

/// The order of texts is transitive.
pub proof fn precedes_transitive(a: Text, b: Text, c: Text)
    requires
        precedes(a, b),
        precedes(b, c),
    ensures
        precedes(a, c),
    decreases a.len(),
{
    if a.len() > 0 && b.len() > 0 && c.len() > 0 && a[0] == b[0] && b[0] == c[0] {
        precedes_transitive(a.drop_first(), b.drop_first(), c.drop_first());
    }
}

/// Of two different texts one comes before the other.
pub proof fn precedes_total(a: Text, b: Text)
    ensures
        a == b || precedes(a, b) || precedes(b, a),
    decreases a.len(),
{
    if a.len() > 0 && b.len() > 0 {
        if a[0] == b[0] {
            precedes_total(a.drop_first(), b.drop_first());
            if a.drop_first() == b.drop_first() {
                assert(a =~= seq![a[0]] + a.drop_first());
                assert(b =~= seq![b[0]] + b.drop_first());
            }
        }
    } else if a.len() == b.len() {
        assert(a =~= b);
    }
}

/// The order of texts is that of their first difference: one of them ends there, or
/// the characters at that place decide.
pub proof fn first_difference_decides(a: Text, b: Text, n: int)
    requires
        0 <= n <= a.len(),
        n <= b.len(),
        a.take(n) == b.take(n),
        n < a.len() && n < b.len() ==> a[n] != b[n],
    ensures
        precedes(a, b) <==> n < b.len() && (n == a.len() || a[n] < b[n]),
    decreases n,
{
    if n > 0 {
        assert(a.take(n)[0] == a[0] && b.take(n)[0] == b[0]);
        assert(a.drop_first().take(n - 1) =~= a.take(n).drop_first());
        assert(b.drop_first().take(n - 1) =~= b.take(n).drop_first());
        first_difference_decides(a.drop_first(), b.drop_first(), n - 1);
    }
}

/// Writing small letters keeps every character in its place, and changes the ASCII
/// capitals alone, each by the distance of the two alphabets.
pub proof fn only_capitals_are_lowered(s: Text)
    ensures
        lowered(s).len() == s.len(),
        forall|i: int|
            0 <= i < s.len() ==> if 'A' <= #[trigger] s[i] && s[i] <= 'Z' {
                lowered(s)[i] as int - 'a' as int == s[i] as int - 'A' as int
            } else {
                lowered(s)[i] == s[i]
            },
        lowered(lowered(s)) == lowered(s),
{
    assert forall|i: int| 0 <= i < s.len() implies if 'A' <= #[trigger] s[i] && s[i] <= 'Z' {
        &&& lowered(s)[i] as int - 'a' as int == s[i] as int - 'A' as int
        &&& !('A' <= lowered(s)[i] && lowered(s)[i] <= 'Z')
    } else {
        lowered(s)[i] == s[i]
    } by {}
    assert(lowered(lowered(s)) =~= lowered(s));
}

/// The place of a character is that of its first occurrence.
pub proof fn place_is_the_first(s: Text, c: char)
    ensures
        place_of(s, c) <= s.len(),
        place_of(s, c) < s.len() ==> s[place_of(s, c) as int] == c,
        forall|i: int| 0 <= i < place_of(s, c) ==> #[trigger] s[i] != c,
    decreases s.len(),
{
    if s.len() > 0 && s[0] != c {
        let rest = s.drop_first();
        place_is_the_first(rest, c);
        assert forall|i: int| 0 <= i < place_of(s, c) implies #[trigger] s[i] != c by {
            if i > 0 {
                assert(rest[i - 1] == s[i]);
            }
        }
    }
}

/// A text is its first line, the line ending and what follows. The line ending is a
/// line feed, with the carriage return in front of it if there is one; it is missing
/// only where the text has no line feed.
pub proof fn line_and_rest_make_the_text(s: Text)
    ensures
        !first_line(s).contains('\n'),
        !s.contains('\n') ==> first_line(s) == s && after_line(s) == Text::empty(),
        s.contains('\n') ==> {
            ||| s == first_line(s) + seq!['\r', '\n'] + after_line(s)
            ||| s == first_line(s) + seq!['\n'] + after_line(s) && (first_line(s).len() > 0
                ==> first_line(s).last() != '\r')
        },
{
    let end = place_of(s, '\n') as int;
    place_is_the_first(s, '\n');
    assert forall|i: int| 0 <= i < first_line(s).len() implies first_line(s)[i] != '\n' by {
        assert(s[i] != '\n');
    }
    if end < s.len() {
        assert(s.contains(s[end]));
        if end > 0 && s[end - 1] == '\r' {
            assert(s =~= first_line(s) + seq!['\r', '\n'] + after_line(s));
        } else {
            assert(s =~= first_line(s) + seq!['\n'] + after_line(s));
            if end > 0 {
                assert(first_line(s).last() == s[end - 1]);
            }
        }
    } else {
        if s.contains('\n') {
            let i = choose|i: int| 0 <= i < s.len() && s[i] == '\n';
            assert(s[i] != '\n');
        }
        assert(s.take(end) =~= s);
    }
}

proof fn head_is_margin(s: Text, margin: Margin) -> (n: int)
    ensures
        0 <= n <= s.len(),
        without_head(s, margin) == s.skip(n),
        forall|i: int| 0 <= i < n ==> margin.has(#[trigger] s[i]),
        n < s.len() ==> !margin.has(s[n]),
    decreases s.len(),
{
    if s.len() > 0 && margin.has(s[0]) {
        let rest = s.drop_first();
        let n = head_is_margin(rest, margin);
        assert(rest.skip(n) =~= s.skip(n + 1));
        assert forall|i: int| 0 <= i < n + 1 implies margin.has(#[trigger] s[i]) by {
            if i > 0 {
                assert(rest[i - 1] == s[i]);
            }
        }
        n + 1
    } else {
        assert(s.skip(0) =~= s);
        0
    }
}

proof fn tail_is_margin(s: Text, margin: Margin) -> (n: int)
    ensures
        0 <= n <= s.len(),
        without_tail(s, margin) == s.take(n),
        forall|i: int| n <= i < s.len() ==> margin.has(#[trigger] s[i]),
        n > 0 ==> !margin.has(s[n - 1]),
    decreases s.len(),
{
    if s.len() > 0 && margin.has(s.last()) {
        let rest = s.drop_last();
        let n = tail_is_margin(rest, margin);
        assert(rest.take(n) =~= s.take(n));
        assert forall|i: int| n <= i < s.len() implies margin.has(#[trigger] s[i]) by {
            if i < rest.len() {
                assert(rest[i] == s[i]);
            }
        }
        n
    } else {
        assert(s.take(s.len() as int) =~= s);
        s.len() as int
    }
}

/// Trimming cuts off the margin and nothing else: what is cut off at either end
/// consists of margin, and what is left has none at its ends.
pub proof fn trimming_cuts_the_margin(s: Text, margin: Margin) -> (ends: (int, int))
    ensures
        0 <= ends.0 <= ends.1 <= s.len(),
        trimmed(s, margin) == s.subrange(ends.0, ends.1),
        forall|i: int| 0 <= i < ends.0 ==> margin.has(#[trigger] s[i]),
        forall|i: int| ends.1 <= i < s.len() ==> margin.has(#[trigger] s[i]),
        ends.0 < ends.1 ==> !margin.has(s[ends.0]) && !margin.has(s[ends.1 - 1]),
{
    let from = head_is_margin(s, margin);
    let rest = s.skip(from);
    let n = tail_is_margin(rest, margin);
    assert(rest.take(n) =~= s.subrange(from, from + n));
    assert forall|i: int| from + n <= i < s.len() implies margin.has(#[trigger] s[i]) by {
        assert(rest[i - from] == s[i]);
    }
    if n > 0 {
        assert(rest[n - 1] == s[from + n - 1]);
    }
    (from, from + n)
}

/// Whatever margin stands around a text that has none at its ends is cut off.
pub proof fn trimming_takes_all_margin(head: Text, core: Text, tail: Text, margin: Margin)
    requires
        forall|i: int| 0 <= i < head.len() ==> margin.has(#[trigger] head[i]),
        forall|i: int| 0 <= i < tail.len() ==> margin.has(#[trigger] tail[i]),
        core.len() > 0 ==> !margin.has(core[0]) && !margin.has(core.last()),
    ensures
        trimmed(head + core + tail, margin) == core,
{
    let s = head + core + tail;
    let ends = trimming_cuts_the_margin(s, margin);
    let a = head.len() as int;
    let b = (head.len() + core.len()) as int;
    assert(forall|i: int| 0 <= i < a ==> s[i] == head[i]);
    assert(forall|i: int| b <= i < s.len() ==> s[i] == tail[i - b]);
    if core.len() > 0 {
        assert(s[a] == core[0] && s[b - 1] == core.last());
        assert(ends.0 <= a);
        assert(ends.1 >= b);
        if ends.0 < a {
            assert(margin.has(head[ends.0]));
        }
        if ends.1 > b {
            assert(margin.has(tail[ends.1 - 1 - b]));
        }
        assert(s.subrange(a, b) =~= core);
    } else {
        if ends.0 < ends.1 {
            if ends.0 < a {
                assert(margin.has(head[ends.0]));
            } else {
                assert(margin.has(tail[ends.0 - b]));
            }
        }
        assert(s.subrange(ends.0, ends.1) =~= core);
    }
}

} // verus!
