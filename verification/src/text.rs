//! Text on which every other module builds: comparison, case, trimming,
//! padding, splitting and joining.
//!
//! A text is modelled by the sequence of its characters.
use vstd::prelude::*;

verus! {

broadcast use vstd::string::group_string_axioms;

/// `str`'s `==`: two texts are equal exactly when they hold the same
/// characters in the same order.
pub assume_specification[ <str as PartialEq>::eq ](s: &str, other: &str) -> (res: bool)
    ensures
        res == (s@ == other@),
;

/// `String::push`: the character is put behind the last one.
pub assume_specification[ String::push ](s: &mut String, c: char)
    ensures
        final(s)@ == old(s)@.push(c),
;

/// What `str::to_lowercase` makes of a text.
pub uninterp spec fn lowered(s: Seq<char>) -> Seq<char>;

/// `str::to_lowercase`. The result is a function of the characters alone. A
/// text of ASCII characters keeps its length: each of `A` to `Z` becomes its
/// small letter and everything else stays. Of other texts nothing more is
/// stated than the name.
#[verifier::external_body]
pub(crate) fn to_lowercase(s: &str) -> (r: String)
    ensures
        r@ == lowered(s@),
        ascii_only(s@) ==> r@ == ascii_lower(s@),
{
    s.to_lowercase()
}

/// All characters lie in the ASCII range.
pub open spec fn ascii_only(s: Seq<char>) -> bool {
    forall|i: int| 0 <= i < s.len() ==> (#[trigger] s[i] as u32) < 128
}

/// One character with `A` to `Z` mapped to the small letter.
pub open spec fn ascii_lower_char(c: char) -> char {
    if 'A' <= c && c <= 'Z' {
        ((c as u8) + 32) as char
    } else {
        c
    }
}

/// A text with `A` to `Z` mapped to small letters and the rest unchanged.
pub open spec fn ascii_lower(s: Seq<char>) -> Seq<char> {
    s.map_values(|c: char| ascii_lower_char(c))
}

/// True when the two texts hold the same characters.
pub fn same_text(a: &str, b: &str) -> (r: bool)
    ensures
        r == (a@ == b@),
{
    *a == *b
}

/// The characters of a text, one by one.
pub fn chars_of(s: &str) -> (r: Vec<char>)
    ensures
        r@ == s@,
{
    let mut out: Vec<char> = Vec::new();
    for c in it: s.chars()
        invariant
            it.seq() == s@,
            out@ == s@.take(it.index()),
    {
        assert(s@.take(it.index()).push(c) =~= s@.take(it.index() + 1));
        out.push(c);
    }
    assert(s@.take(s@.len() as int) =~= s@);
    out
}

/// `a` stands before `b` when texts are put in order: the first place where
/// they differ decides, by the code points there, and a text stands before
/// any longer one that starts with it.
pub open spec fn precedes(a: Seq<char>, b: Seq<char>) -> bool
    decreases a.len(),
{
    if b.len() == 0 {
        false
    } else if a.len() == 0 {
        true
    } else if a[0] != b[0] {
        a[0] < b[0]
    } else {
        precedes(a.drop_first(), b.drop_first())
    }
}

/// Of two different texts exactly one stands before the other, and none stands
/// before itself.
pub proof fn one_text_precedes(a: Seq<char>, b: Seq<char>)
    ensures
        a == b ==> !precedes(a, b),
        a != b ==> (precedes(a, b) <==> !precedes(b, a)),
    decreases a.len(),
{
    if a.len() == 0 && b.len() == 0 {
        assert(a =~= b);
    }
    if a.len() > 0 && b.len() > 0 && a[0] == b[0] {
        let x = a.drop_first();
        let y = b.drop_first();
        one_text_precedes(x, y);
        assert(a =~= seq![a[0]] + x);
        assert(b =~= seq![b[0]] + y);
    }
}

/// What stands before a text stands before all that the text stands before.
pub proof fn precedence_carries_on(a: Seq<char>, b: Seq<char>, c: Seq<char>)
    requires
        precedes(a, b),
        precedes(b, c),
    ensures
        precedes(a, c),
    decreases a.len(),
{
    if a.len() > 0 && a[0] == b[0] && b[0] == c[0] {
        precedence_carries_on(a.drop_first(), b.drop_first(), c.drop_first());
    }
}

/// Whether `a` stands before `b`.
pub fn text_precedes(a: &str, b: &str) -> (r: bool)
    ensures
        r == precedes(a@, b@),
{
    let x = chars_of(a);
    let y = chars_of(b);
    let mut i: usize = 0;
    assert(a@.skip(0) =~= a@ && b@.skip(0) =~= b@);
    while i < x.len() && i < y.len()
        invariant
            x@ == a@,
            y@ == b@,
            i <= x@.len(),
            i <= y@.len(),
            precedes(a@, b@) == precedes(a@.skip(i as int), b@.skip(i as int)),
        decreases x@.len() - i,
    {
        if x[i] != y[i] {
            return x[i] < y[i];
        }
        assert(a@.skip(i as int).drop_first() =~= a@.skip(i + 1));
        assert(b@.skip(i as int).drop_first() =~= b@.skip(i + 1));
        i += 1;
    }
    i < y.len()
}

/// The text made of the characters `chars[from..to]`.
pub fn text_range(chars: &Vec<char>, from: usize, to: usize) -> (r: String)
    requires
        from <= to <= chars@.len(),
    ensures
        r@ == chars@.subrange(from as int, to as int),
{
    let mut out = String::new();
    let mut i: usize = from;
    while i < to
        invariant
            from <= i <= to <= chars@.len(),
            out@ == chars@.subrange(from as int, i as int),
        decreases to - i,
    {
        out.push(chars[i]);
        assert(chars@.subrange(from as int, i as int).push(chars@[i as int]) =~= chars@.subrange(
            from as int,
            i + 1,
        ));
        i += 1;
    }
    out
}

/// The text made of the given characters.
pub fn text_of(chars: &Vec<char>) -> (r: String)
    ensures
        r@ == chars@,
{
    let r = text_range(chars, 0, chars.len());
    assert(chars@.subrange(0, chars@.len() as int) =~= chars@);
    r
}

/// Small letter of one ASCII capital; every other character is kept.
pub fn to_ascii_lower_char(c: char) -> (r: char)
    ensures
        r == ascii_lower_char(c),
{
    if 'A' <= c && c <= 'Z' {
        ((c as u8) + 32) as char
    } else {
        c
    }
}

/// The text with ASCII capitals mapped to small letters.
pub fn to_ascii_lower(s: &str) -> (r: String)
    ensures
        r@ == ascii_lower(s@),
{
    let chars = chars_of(s);
    let mut out = String::new();
    let mut i: usize = 0;
    while i < chars.len()
        invariant
            i <= chars@.len(),
            out@ == ascii_lower(chars@.take(i as int)),
        decreases chars@.len() - i,
    {
        out.push(to_ascii_lower_char(chars[i]));
        assert(ascii_lower(chars@.take(i as int)).push(ascii_lower_char(chars@[i as int]))
            =~= ascii_lower(chars@.take(i + 1)));
        i += 1;
    }
    assert(chars@.take(chars@.len() as int) =~= chars@);
    out
}

/// Comparison that takes ASCII capitals and small letters for equal.
pub fn same_ignoring_ascii_case(a: &str, b: &str) -> (r: bool)
    ensures
        r == (ascii_lower(a@) == ascii_lower(b@)),
{
    let x = to_ascii_lower(a);
    let y = to_ascii_lower(b);
    same_text(x.as_str(), y.as_str())
}

/// The characters with Unicode's `White_Space` property.
pub open spec fn white(c: char) -> bool {
    let n = c as u32;
    ||| 0x9 <= n <= 0xd
    ||| n == 0x20
    ||| n == 0x85
    ||| n == 0xa0
    ||| n == 0x1680
    ||| 0x2000 <= n <= 0x200a
    ||| n == 0x2028
    ||| n == 0x2029
    ||| n == 0x202f
    ||| n == 0x205f
    ||| n == 0x3000
}

/// True for the characters with Unicode's `White_Space` property.
pub fn is_white(c: char) -> (r: bool)
    ensures
        r == white(c),
{
    let n: u32 = c as u32;
    (0x9 <= n && n <= 0xd) || n == 0x20 || n == 0x85 || n == 0xa0 || n == 0x1680 || (0x2000 <= n
        && n <= 0x200a) || n == 0x2028 || n == 0x2029 || n == 0x202f || n == 0x205f || n == 0x3000
}

/// Nothing but white space, or nothing at all.
pub open spec fn blank(s: Seq<char>) -> bool {
    forall|i: int| 0 <= i < s.len() ==> white(#[trigger] s[i])
}

/// `t` is `s` without the white space at both ends.
pub open spec fn trimmed(s: Seq<char>) -> Seq<char>
    decreases s.len(),
{
    if s.len() == 0 {
        s
    } else if white(s.first()) {
        trimmed(s.drop_first())
    } else if white(s.last()) {
        trimmed(s.drop_last())
    } else {
        s
    }
}

/// A blank text trims to nothing.
pub proof fn blank_trims_to_nothing(s: Seq<char>)
    ensures
        blank(s) <==> trimmed(s).len() == 0,
    decreases s.len(),
{
    if s.len() == 0 {
    } else if white(s.first()) {
        blank_trims_to_nothing(s.drop_first());
        if blank(s) {
            assert forall|i: int| 0 <= i < s.drop_first().len() implies white(
                #[trigger] s.drop_first()[i],
            ) by {
                assert(s.drop_first()[i] == s[i + 1]);
            }
        }
        if blank(s.drop_first()) {
            assert forall|i: int| 0 <= i < s.len() implies white(#[trigger] s[i]) by {
                if i > 0 {
                    assert(s.drop_first()[i - 1] == s[i]);
                }
            }
        }
    } else {
        assert(!white(s[0]));
        if white(s.last()) {
            blank_trims_to_nothing(s.drop_last());
            assert(!white(s.drop_last()[0]));
        }
    }
}

/// The text without the white space at both ends.
pub fn trim(s: &str) -> (r: String)
    ensures
        r@ == trimmed(s@),
{
    let chars = chars_of(s);
    let mut from: usize = 0;
    let mut to: usize = chars.len();
    assert(chars@.subrange(0, chars@.len() as int) =~= chars@);
    while from < to && is_white(chars[from])
        invariant
            from <= to == chars@.len(),
            trimmed(chars@) == trimmed(chars@.subrange(from as int, to as int)),
        decreases to - from,
    {
        assert(chars@.subrange(from as int, to as int).drop_first() =~= chars@.subrange(
            from + 1,
            to as int,
        ));
        from += 1;
    }
    while from < to && is_white(chars[to - 1])
        invariant
            from <= to <= chars@.len(),
            from < to ==> !white(chars@[from as int]),
            trimmed(chars@) == trimmed(chars@.subrange(from as int, to as int)),
        decreases to - from,
    {
        assert(chars@.subrange(from as int, to as int).drop_last() =~= chars@.subrange(
            from as int,
            to - 1,
        ));
        to -= 1;
    }
    text_range(&chars, from, to)
}

/// True when a text holds nothing but white space.
pub fn is_blank(s: &str) -> (r: bool)
    ensures
        r == blank(s@),
{
    let chars = chars_of(s);
    let mut i: usize = 0;
    while i < chars.len()
        invariant
            i <= chars@.len(),
            chars@ == s@,
            blank(chars@.take(i as int)),
        decreases chars@.len() - i,
    {
        if !is_white(chars[i]) {
            return false;
        }
        assert(chars@.take(i + 1) =~= chars@.take(i as int).push(chars@[i as int]));
        i += 1;
    }
    assert(chars@.take(chars@.len() as int) =~= chars@);
    true
}

/// The parts one behind the other with `sep` between them.
pub open spec fn joined(parts: Seq<Seq<char>>, sep: Seq<char>) -> Seq<char>
    decreases parts.len(),
{
    if parts.len() == 0 {
        Seq::empty()
    } else if parts.len() == 1 {
        parts[0]
    } else {
        joined(parts.drop_last(), sep) + sep + parts.last()
    }
}

/// The parts one behind the other with `sep` between them.
pub fn join(parts: &Vec<String>, sep: &str) -> (r: String)
    ensures
        r@ == joined(parts@.map_values(|t: String| t@), sep@),
{
    let ghost all = parts@.map_values(|t: String| t@);
    let mut out = String::new();
    let mut i: usize = 0;
    while i < parts.len()
        invariant
            i <= parts@.len(),
            all == parts@.map_values(|t: String| t@),
            out@ == joined(all.take(i as int), sep@),
        decreases parts@.len() - i,
    {
        assert(all.take(i + 1).drop_last() =~= all.take(i as int));
        assert(all[i as int] == parts@[i as int]@);
        if i == 0 {
            out = parts[0].clone();
        } else {
            out.append(sep);
            out.append(parts[i].as_str());
        }
        i += 1;
    }
    assert(all.take(all.len() as int) =~= all);
    out
}

/// A text split at white space, seen from the left: the words that are
/// complete, and the one that is still open.
pub open spec fn words_so_far(s: Seq<char>) -> (Seq<Seq<char>>, Seq<char>)
    decreases s.len(),
{
    if s.len() == 0 {
        (Seq::empty(), Seq::empty())
    } else {
        let (done, open) = words_so_far(s.drop_last());
        if !white(s.last()) {
            (done, open.push(s.last()))
        } else if open.len() > 0 {
            (done.push(open), Seq::empty())
        } else {
            (done, open)
        }
    }
}

/// The longest runs of characters that are not white space, in order.
pub open spec fn words(s: Seq<char>) -> Seq<Seq<char>> {
    let (done, open) = words_so_far(s);
    if open.len() > 0 {
        done.push(open)
    } else {
        done
    }
}

/// No character is white space.
pub open spec fn solid(s: Seq<char>) -> bool {
    forall|i: int| 0 <= i < s.len() ==> !white(#[trigger] s[i])
}

/// A word is never empty and holds no white space.
pub proof fn words_hold_no_white_space(s: Seq<char>)
    ensures
        forall|i: int|
            0 <= i < words(s).len() ==> (#[trigger] words(s)[i]).len() > 0 && solid(words(s)[i]),
{
    lemma_words_so_far(s);
}

proof fn lemma_words_so_far(s: Seq<char>)
    ensures
        forall|i: int|
            0 <= i < words_so_far(s).0.len() ==> (#[trigger] words_so_far(s).0[i]).len() > 0
                && solid(words_so_far(s).0[i]),
        solid(words_so_far(s).1),
    decreases s.len(),
{
    if s.len() > 0 {
        lemma_words_so_far(s.drop_last());
        let (done, open) = words_so_far(s.drop_last());
        if !white(s.last()) {
            assert(solid(open.push(s.last())));
        }
    }
}

/// The longest runs of characters that are not white space, in order.
pub fn split_words(s: &str) -> (r: Vec<String>)
    ensures
        r@.map_values(|t: String| t@) == words(s@),
{
    let chars = chars_of(s);
    let mut done: Vec<String> = Vec::new();
    let mut open = String::new();
    let mut opened: bool = false;
    let mut i: usize = 0;
    assert(done@.map_values(|t: String| t@) =~= words_so_far(chars@.take(0)).0);
    while i < chars.len()
        invariant
            i <= chars@.len(),
            done@.map_values(|t: String| t@) == words_so_far(chars@.take(i as int)).0,
            open@ == words_so_far(chars@.take(i as int)).1,
            opened == (open@.len() > 0),
        decreases chars@.len() - i,
    {
        assert(chars@.take(i + 1).drop_last() =~= chars@.take(i as int));
        let c = chars[i];
        let ghost before = done@;
        if !is_white(c) {
            open.push(c);
            opened = true;
        } else if opened {
            let ghost word = open@;
            done.push(open);
            assert(done@.map_values(|t: String| t@) =~= before.map_values(|t: String| t@).push(
                word,
            ));
            open = String::new();
            opened = false;
        }
        i += 1;
    }
    assert(chars@.take(chars@.len() as int) =~= chars@);
    if opened {
        let ghost before = done@;
        let ghost word = open@;
        done.push(open);
        assert(done@.map_values(|t: String| t@) =~= before.map_values(|t: String| t@).push(word));
    }
    done
}

/// So many blanks.
pub open spec fn blanks(n: nat) -> Seq<char> {
    Seq::new(n, |i: int| ' ')
}

/// A text filled up with blanks behind it to a width, as far as it is shorter.
pub open spec fn padded_right(s: Seq<char>, width: nat) -> Seq<char> {
    if s.len() < width {
        s + blanks((width - s.len()) as nat)
    } else {
        s
    }
}

/// A text filled up with blanks before it to a width, as far as it is shorter.
pub open spec fn padded_left(s: Seq<char>, width: nat) -> Seq<char> {
    if s.len() < width {
        blanks((width - s.len()) as nat) + s
    } else {
        s
    }
}

fn blank_text(n: usize) -> (r: String)
    ensures
        r@ == blanks(n as nat),
{
    let mut out = String::new();
    let mut i: usize = 0;
    assert(out@ =~= blanks(0));
    while i < n
        invariant
            i <= n,
            out@ == blanks(i as nat),
        decreases n - i,
    {
        out.push(' ');
        assert(blanks(i as nat).push(' ') =~= blanks((i + 1) as nat));
        i += 1;
    }
    out
}

/// Fills a text up with blanks behind it.
pub fn pad_right(s: &str, width: usize) -> (r: String)
    ensures
        r@ == padded_right(s@, width as nat),
{
    let len: usize = chars_of(s).len();
    let mut out = s.to_string();
    if len < width {
        out.append(blank_text(width - len).as_str());
    }
    out
}

/// Fills a text up with blanks before it.
pub fn pad_left(s: &str, width: usize) -> (r: String)
    ensures
        r@ == padded_left(s@, width as nat),
{
    let len: usize = chars_of(s).len();
    if len < width {
        let mut out = blank_text(width - len);
        out.append(s);
        out
    } else {
        s.to_string()
    }
}

/// The position of the first `c`, or the length where there is none.
pub open spec fn first_of(s: Seq<char>, c: char) -> int
    decreases s.len(),
{
    if s.len() == 0 || s.first() == c {
        0
    } else {
        1 + first_of(s.drop_first(), c)
    }
}

/// The position of the first `c` is where it is.
pub proof fn first_is_found(s: Seq<char>, c: char)
    ensures
        0 <= first_of(s, c) <= s.len(),
        first_of(s, c) < s.len() ==> s[first_of(s, c)] == c,
        forall|i: int| 0 <= i < first_of(s, c) ==> #[trigger] s[i] != c,
    decreases s.len(),
{
    if s.len() > 0 && s.first() != c {
        first_is_found(s.drop_first(), c);
        assert forall|i: int| 0 <= i < first_of(s, c) implies #[trigger] s[i] != c by {
            if i > 0 {
                assert(s[i] == s.drop_first()[i - 1]);
            }
        }
    }
}

/// What stands before the first `c`, or everything where there is none.
pub open spec fn before_first(s: Seq<char>, c: char) -> Seq<char> {
    s.take(first_of(s, c))
}

/// What stands behind the first `c`, where there is one.
pub open spec fn behind_first(s: Seq<char>, c: char) -> Option<Seq<char>> {
    if first_of(s, c) < s.len() {
        Some(s.skip(first_of(s, c) + 1))
    } else {
        None
    }
}

proof fn lemma_first_of_is(s: Seq<char>, c: char, at: int)
    requires
        0 <= at <= s.len(),
        at < s.len() ==> s[at] == c,
        forall|i: int| 0 <= i < at ==> #[trigger] s[i] != c,
    ensures
        first_of(s, c) == at,
    decreases s.len(),
{
    if at > 0 {
        assert(s[0] != c);
        let rest = s.drop_first();
        assert forall|i: int| 0 <= i < at - 1 implies #[trigger] rest[i] != c by {
            assert(rest[i] == s[i + 1]);
        }
        lemma_first_of_is(rest, c, at - 1);
    }
}

/// Splits a text at the first `c`: what stands before it, and what stands
/// behind it where there is one.
pub fn split_first(s: &str, c: char) -> (r: (String, Option<String>))
    ensures
        r.0@ == before_first(s@, c),
        match behind_first(s@, c) {
            Some(rest) => r.1 is Some && r.1->0@ == rest,
            None => r.1 is None,
        },
{
    let chars = chars_of(s);
    let mut i: usize = 0;
    while i < chars.len()
        invariant
            i <= chars@.len(),
            chars@ == s@,
            forall|k: int| 0 <= k < i ==> #[trigger] chars@[k] != c,
        decreases chars@.len() - i,
    {
        if chars[i] == c {
            proof {
                lemma_first_of_is(s@, c, i as int);
            }
            let head = text_range(&chars, 0, i);
            let tail = text_range(&chars, i + 1, chars.len());
            assert(head@ =~= before_first(s@, c));
            assert(tail@ =~= s@.skip(i + 1));
            return (head, Some(tail));
        }
        i += 1;
    }
    proof {
        lemma_first_of_is(s@, c, i as int);
    }
    let whole = text_of(&chars);
    assert(whole@ =~= before_first(s@, c));
    (whole, None)
}

/// A text of at most so many characters: one that is longer loses what is
/// beyond and ends in an ellipsis.
pub open spec fn shortened(s: Seq<char>, most: nat) -> Seq<char> {
    if s.len() <= most {
        s
    } else {
        s.take(
            if most > 0 {
                most - 1
            } else {
                0
            },
        ).push('…')
    }
}

/// A text of at most so many characters: one that is longer loses what is
/// beyond and ends in an ellipsis.
pub fn truncate(value: &str, max_chars: usize) -> (r: String)
    ensures
        r@ == shortened(value@, max_chars as nat),
        max_chars > 0 ==> r@.len() <= max_chars,
{
    let chars = chars_of(value);
    if chars.len() <= max_chars {
        value.to_string()
    } else {
        let keep: usize = if max_chars > 0 {
            max_chars - 1
        } else {
            0
        };
        let mut out = text_range(&chars, 0, keep);
        assert(out@ =~= value@.take(keep as int));
        out.push('…');
        out
    }
}

/// Texts that are the same in lower case are equally long and differ, at any
/// place, by no more than the case of an ASCII letter.
pub proof fn lower_case_goes_by_ascii_letters(a: Seq<char>, b: Seq<char>)
    ensures
        ascii_lower(a) == ascii_lower(b) <==> a.len() == b.len() && forall|i: int|
            0 <= i < a.len() ==> {
                let x = #[trigger] a[i];
                let y = b[i];
                ||| x == y
                ||| ('A' <= x && x <= 'Z' && y as int == x as int + 32)
                ||| ('A' <= y && y <= 'Z' && x as int == y as int + 32)
            },
{
    assert forall|c: char| 'A' <= c && c <= 'Z' implies #[trigger] ascii_lower_char(c) as int
        == c as int + 32 by {
        assert(((c as u8) + 32) as char as int == c as int + 32);
    }
    if ascii_lower(a) == ascii_lower(b) {
        assert(ascii_lower(a).len() == a.len() && ascii_lower(b).len() == b.len());
        assert forall|i: int| 0 <= i < a.len() implies {
            let x = #[trigger] a[i];
            let y = b[i];
            ||| x == y
            ||| ('A' <= x && x <= 'Z' && y as int == x as int + 32)
            ||| ('A' <= y && y <= 'Z' && x as int == y as int + 32)
        } by {
            assert(ascii_lower(a)[i] == ascii_lower_char(a[i]));
            assert(ascii_lower(b)[i] == ascii_lower_char(b[i]));
            assert(ascii_lower_char(a[i]) as int == ascii_lower_char(b[i]) as int);
        }
    } else if a.len() == b.len() && forall|i: int|
        0 <= i < a.len() ==> {
            let x = #[trigger] a[i];
            let y = b[i];
            ||| x == y
            ||| ('A' <= x && x <= 'Z' && y as int == x as int + 32)
            ||| ('A' <= y && y <= 'Z' && x as int == y as int + 32)
        } {
        assert forall|i: int| 0 <= i < a.len() implies ascii_lower(a)[i] == ascii_lower(b)[i] by {
            let x = a[i];
            let y = b[i];
            assert(ascii_lower_char(x) as int == ascii_lower_char(y) as int);
        }
        assert(ascii_lower(a) =~= ascii_lower(b));
    }
}

/// White space parts the words before it from those behind it, and neither side
/// gains or loses any.
pub proof fn white_space_parts_words(a: Seq<char>, c: char, b: Seq<char>)
    requires
        white(c),
    ensures
        words(a.push(c) + b) == words(a) + words(b),
{
    lemma_words_behind(a, c, b);
    let (done, open) = words_so_far(b);
    if open.len() > 0 {
        assert(words(a) + done.push(open) =~= (words(a) + done).push(open));
    }
}

proof fn lemma_words_behind(a: Seq<char>, c: char, b: Seq<char>)
    requires
        white(c),
    ensures
        words_so_far(a.push(c) + b) == (words(a) + words_so_far(b).0, words_so_far(b).1),
    decreases b.len(),
{
    let whole = a.push(c) + b;
    if b.len() == 0 {
        assert(whole =~= a.push(c));
        assert(whole.drop_last() =~= a);
        assert(words(a) + Seq::<Seq<char>>::empty() =~= words(a));
        let (done, open) = words_so_far(a);
        if open.len() == 0 {
            assert(open =~= Seq::empty());
        }
    } else {
        lemma_words_behind(a, c, b.drop_last());
        assert(whole.drop_last() =~= a.push(c) + b.drop_last());
        assert(whole.last() == b.last());
        let (done, open) = words_so_far(b.drop_last());
        if white(b.last()) && open.len() > 0 {
            assert((words(a) + done).push(open) =~= words(a) + done.push(open));
        }
    }
}

/// A text without white space that is not empty is one word, and one of nothing
/// but white space has none.
pub proof fn solid_text_is_one_word(s: Seq<char>)
    ensures
        s.len() > 0 && solid(s) ==> words(s) == seq![s],
        blank(s) ==> words(s).len() == 0,
{
    lemma_solid_or_blank(s);
    if s.len() > 0 && solid(s) {
        assert(words(s) =~= seq![s]);
    }
}

proof fn lemma_solid_or_blank(s: Seq<char>)
    ensures
        solid(s) ==> words_so_far(s) == (Seq::<Seq<char>>::empty(), s),
        blank(s) ==> words_so_far(s).0.len() == 0 && words_so_far(s).1.len() == 0,
    decreases s.len(),
{
    if s.len() > 0 {
        let rest = s.drop_last();
        lemma_solid_or_blank(rest);
        assert(s[s.len() - 1] == s.last());
        if solid(s) {
            assert forall|i: int| 0 <= i < rest.len() implies !white(#[trigger] rest[i]) by {
                assert(rest[i] == s[i]);
            }
            assert(rest.push(s.last()) =~= s);
        }
        if blank(s) {
            assert forall|i: int| 0 <= i < rest.len() implies white(#[trigger] rest[i]) by {
                assert(rest[i] == s[i]);
            }
        }
    } else {
        assert(s =~= Seq::empty());
    }
}

/// Blanks, tabs and ends of lines are white space; letters, digits and the marks
/// of ASCII are not.
pub proof fn white_space_is_what_is_not_seen(c: char)
    ensures
        c == ' ' || c == '\t' || c == '\n' || c == '\r' ==> white(c),
        '!' <= c && c <= '~' ==> !white(c),
{
}

/// A joined list is what was joined before, the separator and the new part; the
/// parts stand in it in order, with nothing else between them.
pub proof fn joining_adds_up(a: Seq<Seq<char>>, b: Seq<Seq<char>>, sep: Seq<char>)
    ensures
        a.len() > 0 && b.len() > 0 ==> joined(a + b, sep) == joined(a, sep) + sep + joined(b, sep),
        b.len() == 0 ==> joined(a + b, sep) == joined(a, sep),
        a.len() == 0 ==> joined(a + b, sep) == joined(b, sep),
        a.len() == 1 ==> joined(a, sep) == a[0],
        a.len() == 0 ==> joined(a, sep).len() == 0,
    decreases b.len(),
{
    if b.len() == 0 {
        assert(a + b =~= a);
    } else if a.len() == 0 {
        assert(a + b =~= b);
    } else if b.len() == 1 {
        assert((a + b).drop_last() =~= a);
    } else {
        let rest = b.drop_last();
        joining_adds_up(a, rest, sep);
        assert((a + b).drop_last() =~= a + rest);
        assert((a + b).last() == b.last());
        assert(joined(a, sep) + sep + joined(rest, sep) + sep + b.last() =~= joined(a, sep) + sep + (
        joined(rest, sep) + sep + b.last()));
    }
}

/// Every part of a joined list stands in it.
pub proof fn every_part_is_joined(parts: Seq<Seq<char>>, sep: Seq<char>, i: int)
    requires
        0 <= i < parts.len(),
    ensures
        exists|a: Seq<char>, b: Seq<char>| joined(parts, sep) == #[trigger] (a + parts[i] + b),
{
    let front = parts.take(i);
    let one = seq![parts[i]];
    let back = parts.skip(i + 1);
    assert(parts =~= front + one + back);
    joining_adds_up(front + one, back, sep);
    joining_adds_up(front, one, sep);
    joining_adds_up(one, back, sep);
    let a = if i > 0 {
        joined(front, sep) + sep
    } else {
        Seq::empty()
    };
    let b = if back.len() > 0 {
        sep + joined(back, sep)
    } else {
        Seq::empty()
    };
    assert(joined(parts, sep) =~= a + parts[i] + b);
}

/// Trimming takes white space off both ends and nothing else: what is left
/// begins and ends with something that is seen.
pub proof fn trimming_takes_white_space_alone(s: Seq<char>)
    ensures
        trimmed(s).len() > 0 ==> !white(trimmed(s)[0]) && !white(trimmed(s)[trimmed(s).len() - 1]),
        exists|a: Seq<char>, b: Seq<char>|
            blank(a) && blank(b) && s == #[trigger] (a + trimmed(s) + b),
    decreases s.len(),
{
    if s.len() == 0 {
        assert(s =~= s + trimmed(s) + s);
        assert(blank(s));
    } else if white(s.first()) {
        let rest = s.drop_first();
        trimming_takes_white_space_alone(rest);
        let (a, b) = choose|a: Seq<char>, b: Seq<char>|
            blank(a) && blank(b) && rest == #[trigger] (a + trimmed(rest) + b);
        let more = seq![s.first()] + a;
        assert(blank(more)) by {
            assert forall|i: int| 0 <= i < more.len() implies white(#[trigger] more[i]) by {
                if i > 0 {
                    assert(more[i] == a[i - 1]);
                }
            }
        }
        assert(s =~= seq![s.first()] + rest);
        assert(more + trimmed(s) + b =~= seq![s.first()] + (a + trimmed(rest) + b));
        assert(s == more + trimmed(s) + b);
    } else if white(s.last()) {
        let rest = s.drop_last();
        trimming_takes_white_space_alone(rest);
        let (a, b) = choose|a: Seq<char>, b: Seq<char>|
            blank(a) && blank(b) && rest == #[trigger] (a + trimmed(rest) + b);
        let more = b.push(s.last());
        assert(blank(more)) by {
            assert forall|i: int| 0 <= i < more.len() implies white(#[trigger] more[i]) by {
                if i < b.len() {
                    assert(more[i] == b[i]);
                }
            }
        }
        assert(s =~= rest.push(s.last()));
        assert(a + trimmed(s) + more =~= (a + trimmed(rest) + b).push(s.last()));
        assert(s == a + trimmed(s) + more);
    } else {
        let none = Seq::<char>::empty();
        assert(blank(none));
        assert(s =~= none + trimmed(s) + none);
    }
}

/// A text that is split at a character is what stands before, the character and
/// what stands behind; it is split at the first place, or not at all where the
/// character does not occur.
pub proof fn splitting_keeps_everything(s: Seq<char>, c: char)
    ensures
        !before_first(s, c).contains(c),
        behind_first(s, c) is Some ==> s == before_first(s, c).push(c) + behind_first(s, c)->0,
        behind_first(s, c) is None ==> s == before_first(s, c),
{
    first_is_found(s, c);
    if behind_first(s, c) is Some {
        assert(s =~= before_first(s, c).push(c) + behind_first(s, c)->0);
    } else {
        assert(s =~= before_first(s, c));
    }
}

/// Padding brings a text to the width with blanks on one side and never cuts it.
pub proof fn padding_fills_to_the_width(s: Seq<char>, width: nat, i: int)
    ensures
        padded_right(s, width).len() == if s.len() < width {
            width
        } else {
            s.len()
        },
        padded_left(s, width).len() == padded_right(s, width).len(),
        padded_right(s, width).take(s.len() as int) == s,
        padded_left(s, width).skip(padded_left(s, width).len() - s.len()) == s,
        s.len() <= i < padded_right(s, width).len() ==> padded_right(s, width)[i] == ' ',
        0 <= i < padded_left(s, width).len() - s.len() ==> padded_left(s, width)[i] == ' ',
{
    assert(padded_right(s, width).take(s.len() as int) =~= s);
    assert(padded_left(s, width).skip(padded_left(s, width).len() - s.len()) =~= s);
}

/// A text that fits is shown whole; one that does not is cut to fit and ends in
/// an ellipsis behind its own beginning.
pub proof fn shortening_cuts_to_fit(s: Seq<char>, most: nat)
    requires
        most > 0,
    ensures
        s.len() <= most ==> shortened(s, most) == s,
        s.len() > most ==> shortened(s, most).len() == most && shortened(s, most)[most - 1] == '…'
            && shortened(s, most).take(most - 1) == s.take(most - 1),
{
    if s.len() > most {
        assert(shortened(s, most).take(most - 1) =~= s.take(most - 1));
    }
}

/// A text made of two parts and a character between them is split into the two
/// parts again, where the first does not hold the character.
pub proof fn splitting_finds_the_parts(a: Seq<char>, c: char, b: Seq<char>)
    requires
        !a.contains(c),
    ensures
        before_first(a.push(c) + b, c) == a,
        behind_first(a.push(c) + b, c) == Some(b),
        before_first(a, c) == a,
        behind_first(a, c) is None,
{
    let whole = a.push(c) + b;
    assert forall|i: int| 0 <= i < a.len() implies #[trigger] whole[i] != c by {
        assert(whole[i] == a[i]);
        assert(a.contains(a[i]));
    }
    assert(whole[a.len() as int] == c);
    lemma_first_of_is(whole, c, a.len() as int);
    assert(before_first(whole, c) =~= a);
    assert(whole.skip(a.len() as int + 1) =~= b);
    assert forall|i: int| 0 <= i < a.len() implies #[trigger] a[i] != c by {
        assert(a.contains(a[i]));
    }
    lemma_first_of_is(a, c, a.len() as int);
    assert(before_first(a, c) =~= a);
}

/// A text is in the ASCII range exactly where each of its characters is.
pub proof fn ascii_goes_character_by_character(s: Seq<char>, c: char)
    ensures
        ascii_only(Seq::empty()),
        ascii_only(s.push(c)) <==> ascii_only(s) && c as u32 <= 127,
{
    if ascii_only(s.push(c)) {
        assert(s.push(c)[s.len() as int] == c);
        assert forall|i: int| 0 <= i < s.len() implies (#[trigger] s[i] as u32) < 128 by {
            assert(s.push(c)[i] == s[i]);
        }
    }
}

} // verus!
