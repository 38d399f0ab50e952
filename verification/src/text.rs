//! Text as sequences of characters: trimming, searching, and decimal numbers.

use vstd::prelude::*;

verus! {

/// `String::push` appends one character to the end of the string.
pub assume_specification[ String::push ](s: &mut String, c: char)
    ensures
        final(s)@ == old(s)@.push(c),
;

/// Whether a character has the Unicode property `White_Space`.
pub open spec fn is_white_space(c: char) -> bool {
    ||| '\u{9}' <= c <= '\u{d}'
    ||| c == ' '
    ||| c == '\u{85}'
    ||| c == '\u{a0}'
    ||| c == '\u{1680}'
    ||| '\u{2000}' <= c <= '\u{200a}'
    ||| c == '\u{2028}'
    ||| c == '\u{2029}'
    ||| c == '\u{202f}'
    ||| c == '\u{205f}'
    ||| c == '\u{3000}'
}

/// Text without its leading white space.
pub open spec fn trim_front(s: Seq<char>) -> Seq<char>
    decreases s.len(),
{
    if s.len() > 0 && is_white_space(s[0]) {
        trim_front(s.subrange(1, s.len() as int))
    } else {
        s
    }
}

/// Text without its trailing white space.
pub open spec fn trim_back(s: Seq<char>) -> Seq<char>
    decreases s.len(),
{
    if s.len() > 0 && is_white_space(s.last()) {
        trim_back(s.drop_last())
    } else {
        s
    }
}

/// Text without its leading and trailing white space.
pub open spec fn trimmed(s: Seq<char>) -> Seq<char> {
    trim_back(trim_front(s))
}

/// Whether nothing but white space stands in the text.
pub open spec fn is_blank(s: Seq<char>) -> bool {
    forall|i: int| 0 <= i < s.len() ==> is_white_space(#[trigger] s[i])
}

/// Whether `needle` stands somewhere in `text` as one contiguous run.
pub open spec fn holds_text(text: Seq<char>, needle: Seq<char>) -> bool {
    exists|at: int| holds_text_at(text, needle, at)
}

/// Whether `needle` stands in `text` from position `at` on.
pub open spec fn holds_text_at(text: Seq<char>, needle: Seq<char>, at: int) -> bool {
    &&& 0 <= at
    &&& at + needle.len() <= text.len()
    &&& forall|k: int| 0 <= k < needle.len() ==> text[at + k] == #[trigger] needle[k]
}

/// Whether `text` begins with `start`.
pub open spec fn begins_with(text: Seq<char>, start: Seq<char>) -> bool {
    holds_text_at(text, start, 0)
}

/// Whether `text` ends with `end`.
pub open spec fn ends_with(text: Seq<char>, end: Seq<char>) -> bool {
    holds_text_at(text, end, text.len() - end.len())
}

/// The digit character of a number below ten.
pub open spec fn digit(n: nat) -> char {
    (n + 48) as char
}

/// A number in decimal notation, without leading zeros.
pub open spec fn decimal(n: nat) -> Seq<char>
    decreases n,
{
    if n < 10 {
        seq![digit(n)]
    } else {
        decimal(n / 10).push(digit(n % 10))
    }
}

/// Tells whether a character is white space.
pub fn white_space(c: char) -> (r: bool)
    ensures
        r == is_white_space(c),
{
    ('\u{9}' <= c && c <= '\u{d}') || c == ' ' || c == '\u{85}' || c == '\u{a0}' || c
        == '\u{1680}' || ('\u{2000}' <= c && c <= '\u{200a}') || c == '\u{2028}' || c == '\u{2029}'
        || c == '\u{202f}' || c == '\u{205f}' || c == '\u{3000}'
}

/// The characters of a text, one by one.
pub fn characters(s: &str) -> (r: Vec<char>)
    ensures
        r@ == s@,
{
    let mut out: Vec<char> = Vec::new();
    for c in it: s.chars()
        invariant
            it.seq() == s@,
            out@ == s@.take(it.index()),
    {
        out.push(c);
    }
    out
}

/// A string of the characters from position `from` up to `to`.
pub fn text_of(chars: &Vec<char>, from: usize, to: usize) -> (r: String)
    requires
        from <= to <= chars.len(),
    ensures
        r@ == chars@.subrange(from as int, to as int),
{
    let mut out = String::new();
    let mut i: usize = from;
    while i < to
        invariant
            from <= i <= to <= chars.len(),
            out@ == chars@.subrange(from as int, i as int),
        decreases to - i,
    {
        out.push(chars[i]);
        i = i + 1;
    }
    out
}

/// Tells whether two texts are the same.
pub fn same_text(a: &str, b: &str) -> (r: bool)
    ensures
        r == (a@ == b@),
{
    let x = a.as_bytes();
    let y = b.as_bytes();
    if x.len() != y.len() {
        return false;
    }
    let mut i: usize = 0;
    while i < x.len()
        invariant
            i <= x.len(),
            x.len() == y.len(),
            x@ == vstd::utf8::encode_utf8(a@),
            y@ == vstd::utf8::encode_utf8(b@),
            forall|k: int| 0 <= k < i ==> x@[k] == y@[k],
        decreases x.len() - i,
    {
        if x[i] != y[i] {
            return false;
        }
        i = i + 1;
    }
    proof {
        assert(x@ =~= y@);
        vstd::utf8::encode_utf8_decode_utf8(a@);
        vstd::utf8::encode_utf8_decode_utf8(b@);
    }
    true
}

/// Trimming leaves nothing exactly when the text is blank.
pub proof fn lemma_trimmed_empty(s: Seq<char>)
    ensures
        trimmed(s).len() == 0 <==> is_blank(s),
{
    lemma_trim_front_blank(s);
    lemma_trim_back_blank(trim_front(s));
}

proof fn lemma_trim_front_blank(s: Seq<char>)
    ensures
        is_blank(trim_front(s)) <==> is_blank(s),
    decreases s.len(),
{
    if s.len() > 0 && is_white_space(s[0]) {
        let rest = s.subrange(1, s.len() as int);
        lemma_trim_front_blank(rest);
        assert(is_blank(rest) ==> is_blank(s)) by {
            if is_blank(rest) {
                assert forall|i: int| 0 <= i < s.len() implies is_white_space(#[trigger] s[i]) by {
                    if i > 0 {
                        assert(rest[i - 1] == s[i]);
                    }
                }
            }
        }
    }
}

proof fn lemma_trim_back_blank(s: Seq<char>)
    ensures
        trim_back(s).len() == 0 <==> is_blank(s),
    decreases s.len(),
{
    if s.len() > 0 {
        if is_white_space(s.last()) {
            let rest = s.drop_last();
            lemma_trim_back_blank(rest);
            assert(is_blank(rest) ==> is_blank(s)) by {
                if is_blank(rest) {
                    assert forall|i: int| 0 <= i < s.len() implies is_white_space(
                        #[trigger] s[i],
                    ) by {
                        if i < rest.len() {
                            assert(rest[i] == s[i]);
                        }
                    }
                }
            }
        }
    }
}

/// Tells whether a text is empty once it is trimmed.
pub fn blank(s: &str) -> (r: bool)
    ensures
        r == is_blank(s@),
        r == (trimmed(s@).len() == 0),
{
    proof {
        lemma_trimmed_empty(s@);
    }
    let chars = characters(s);
    let mut i: usize = 0;
    while i < chars.len()
        invariant
            i <= chars.len(),
            chars@ == s@,
            is_blank(s@) == (trimmed(s@).len() == 0),
            forall|k: int| 0 <= k < i ==> is_white_space(#[trigger] s@[k]),
        decreases chars.len() - i,
    {
        if !white_space(chars[i]) {
            return false;
        }
        i = i + 1;
    }
    true
}

/// The text without its leading and trailing white space.
pub fn trim_text(s: &str) -> (r: String)
    ensures
        r@ == trimmed(s@),
{
    let chars = characters(s);
    let mut from: usize = 0;
    proof {
        assert(chars@.subrange(0, chars.len() as int) =~= chars@);
    }
    while from < chars.len() && white_space(chars[from])
        invariant
            from <= chars.len(),
            trim_front(chars@) == trim_front(chars@.subrange(from as int, chars.len() as int)),
        decreases chars.len() - from,
    {
        proof {
            let rest = chars@.subrange(from as int, chars.len() as int);
            assert(rest.subrange(1, rest.len() as int) =~= chars@.subrange(
                from + 1,
                chars.len() as int,
            ));
        }
        from = from + 1;
    }
    let mut to: usize = chars.len();
    while to > from && white_space(chars[to - 1])
        invariant
            from <= to <= chars.len(),
            trimmed(chars@) == trim_back(chars@.subrange(from as int, to as int)),
        decreases to,
    {
        proof {
            let rest = chars@.subrange(from as int, to as int);
            assert(rest.drop_last() =~= chars@.subrange(from as int, to - 1));
        }
        to = to - 1;
    }
    text_of(&chars, from, to)
}

/// Tells whether `needle` stands in `text` from position `at` on.
fn holds_at(text: &Vec<char>, needle: &Vec<char>, at: usize) -> (r: bool)
    requires
        at + needle.len() <= text.len(),
    ensures
        r == holds_text_at(text@, needle@, at as int),
{
    let mut k: usize = 0;
    while k < needle.len()
        invariant
            k <= needle.len(),
            at + needle.len() <= text.len(),
            forall|j: int| 0 <= j < k ==> text@[at + j] == #[trigger] needle@[j],
        decreases needle.len() - k,
    {
        if text[at + k] != needle[k] {
            assert(text@[at + k] != needle@[k as int]);
            return false;
        }
        k = k + 1;
    }
    true
}

/// Tells whether `needle` stands somewhere in `text`.
pub fn contains_text(text: &str, needle: &str) -> (r: bool)
    ensures
        r == holds_text(text@, needle@),
{
    let t = characters(text);
    let n = characters(needle);
    if n.len() > t.len() {
        return false;
    }
    let last: usize = t.len() - n.len();
    let mut at: usize = 0;
    loop
        invariant
            at <= last,
            last + n.len() == t.len(),
            t@ == text@,
            n@ == needle@,
            forall|j: int| 0 <= j < at ==> !holds_text_at(text@, needle@, j),
        decreases last - at,
    {
        if holds_at(&t, &n, at) {
            return true;
        }
        if at == last {
            return false;
        }
        at = at + 1;
    }
}

/// Tells whether `text` begins with `start`.
pub fn starts_with_text(text: &str, start: &str) -> (r: bool)
    ensures
        r == begins_with(text@, start@),
{
    let t = characters(text);
    let n = characters(start);
    n.len() <= t.len() && holds_at(&t, &n, 0)
}

/// Tells whether `text` ends with `end`.
pub fn ends_with_text(text: &str, end: &str) -> (r: bool)
    ensures
        r == ends_with(text@, end@),
{
    let t = characters(text);
    let n = characters(end);
    n.len() <= t.len() && holds_at(&t, &n, t.len() - n.len())
}

/// The digit character of a number below ten.
fn digit_char(n: u128) -> (r: char)
    requires
        n < 10,
    ensures
        r == digit(n as nat),
{
    (n as u8 + 48u8) as char
}

/// A number in decimal notation.
pub fn decimal_text(n: u128) -> (r: String)
    ensures
        r@ == decimal(n as nat),
    decreases n,
{
    if n < 10 {
        let mut out = String::new();
        out.push(digit_char(n));
        assert(out@ =~= seq![digit(n as nat)]);
        out
    } else {
        let mut out = decimal_text(n / 10);
        out.push(digit_char(n % 10));
        out
    }
}

/// The upper-case ASCII letters become lower-case; every other character stays.
pub open spec fn ascii_lower(c: char) -> char {
    if 'A' <= c <= 'Z' {
        ((c as u32) + 32) as char
    } else {
        c
    }
}

/// Lowers one ASCII letter.
pub fn lower_char(c: char) -> (r: char)
    ensures
        r == ascii_lower(c),
{
    if 'A' <= c && c <= 'Z' {
        (c as u8 + 32u8) as char
    } else {
        c
    }
}

/// Whether a character is an ASCII hexadecimal digit.
pub open spec fn is_hex_digit(c: char) -> bool {
    ||| '0' <= c <= '9'
    ||| 'a' <= c <= 'f'
    ||| 'A' <= c <= 'F'
}

/// Tells whether a character is an ASCII hexadecimal digit.
pub fn hex_digit(c: char) -> (r: bool)
    ensures
        r == is_hex_digit(c),
{
    ('0' <= c && c <= '9') || ('a' <= c && c <= 'f') || ('A' <= c && c <= 'F')
}

/// The length of a text in UTF-8 bytes.
pub fn byte_len(s: &str) -> (r: usize)
    ensures
        r as nat == vstd::utf8::encode_utf8(s@).len(),
{
    s.as_bytes().len()
}

/// Texts one after the other, with a line break between each and the next.
pub open spec fn lines(parts: Seq<Seq<char>>) -> Seq<char>
    decreases parts.len(),
{
    if parts.len() == 0 {
        seq![]
    } else if parts.len() == 1 {
        parts[0]
    } else {
        lines(parts.drop_last()) + "\n"@ + parts.last()
    }
}

/// Puts texts one after the other, with a line break between each and the next.
pub fn join_lines(parts: &Vec<String>) -> (r: String)
    ensures
        r@ == lines(parts.deep_view()),
{
    let ghost all = parts.deep_view();
    let mut out = String::new();
    let mut i: usize = 0;
    assert(out@ =~= lines(all.take(0)));
    while i < parts.len()
        invariant
            i <= parts.len(),
            all == parts.deep_view(),
            out@ == lines(all.take(i as int)),
        decreases parts.len() - i,
    {
        proof {
            assert(all.take(i + 1).drop_last() =~= all.take(i as int));
            assert(all.take(i + 1).last() == parts@[i as int]@);
        }
        if i > 0 {
            out.append("\n");
        }
        out.append(parts[i].as_str());
        i = i + 1;
        assert(out@ =~= lines(all.take(i as int)));
    }
    assert(all.take(i as int) =~= all);
    out
}

/// A number is written with its digits from the highest down: below ten it is one
/// digit, and from there on each further digit stands behind the others.
pub proof fn law_decimal_writes_digits(n: nat, d: nat)
    requires
        d < 10,
    ensures
        decimal(d).len() == 1,
        decimal(d)[0] as int == '0' as int + d,
        n > 0 ==> decimal(10 * n + d) == decimal(n) + decimal(d),
{
    if n > 0 {
        assert((10 * n + d) / 10 == n);
        assert((10 * n + d) % 10 == d);
        assert(decimal(10 * n + d) =~= decimal(n) + decimal(d));
    }
}

proof fn lemma_trim_front_is_suffix(s: Seq<char>)
    ensures
        ({
            let r = trim_front(s);
            &&& r.len() <= s.len()
            &&& r == s.skip(s.len() - r.len())
            &&& forall|i: int| 0 <= i < s.len() - r.len() ==> is_white_space(#[trigger] s[i])
            &&& r.len() > 0 ==> !is_white_space(r[0])
        }),
    decreases s.len(),
{
    if s.len() > 0 && is_white_space(s[0]) {
        let t = s.subrange(1, s.len() as int);
        lemma_trim_front_is_suffix(t);
        let r = trim_front(t);
        assert(r =~= s.skip(s.len() - r.len()));
        assert forall|i: int| 0 <= i < s.len() - r.len() implies is_white_space(
            #[trigger] s[i],
        ) by {
            if i > 0 {
                assert(t[i - 1] == s[i]);
            }
        }
    } else {
        assert(s.skip(0) =~= s);
    }
}

proof fn lemma_trim_back_is_prefix(s: Seq<char>)
    ensures
        ({
            let r = trim_back(s);
            &&& r.len() <= s.len()
            &&& r == s.take(r.len() as int)
            &&& forall|i: int| r.len() <= i < s.len() ==> is_white_space(#[trigger] s[i])
            &&& r.len() > 0 ==> !is_white_space(r.last())
        }),
    decreases s.len(),
{
    if s.len() > 0 && is_white_space(s.last()) {
        let t = s.drop_last();
        lemma_trim_back_is_prefix(t);
        let r = trim_back(t);
        assert(r =~= s.take(r.len() as int));
        assert forall|i: int| r.len() <= i < s.len() implies is_white_space(#[trigger] s[i]) by {
            if i < t.len() {
                assert(t[i] == s[i]);
            }
        }
    } else {
        assert(s.take(s.len() as int) =~= s);
    }
}

/// Trimming takes white space off both ends, all of it, and nothing else.
pub proof fn law_trimming_takes_white_space_off(s: Seq<char>)
    ensures
        ({
            let r = trimmed(s);
            &&& r.len() > 0 ==> !is_white_space(r[0]) && !is_white_space(r.last())
            &&& r.len() == 0 ==> forall|i: int|
                0 <= i < s.len() ==> is_white_space(#[trigger] s[i])
            &&& exists|from: int|
                {
                    &&& 0 <= from
                    &&& from + r.len() <= s.len()
                    &&& r == #[trigger] s.subrange(from, from + r.len())
                    &&& forall|i: int|
                        0 <= i < s.len() && !(from <= i < from + r.len()) ==> is_white_space(
                            #[trigger] s[i],
                        )
                }
        }),
{
    let f = trim_front(s);
    let r = trimmed(s);
    lemma_trim_front_is_suffix(s);
    lemma_trim_back_is_prefix(f);
    let from = s.len() - f.len();
    assert(r =~= s.subrange(from, from + r.len()));
    assert forall|i: int| 0 <= i < s.len() && !(from <= i < from + r.len()) implies is_white_space(
        #[trigger] s[i],
    ) by {
        if i >= from {
            assert(f[i - from] == s[i]);
        }
    }
    if r.len() > 0 {
        assert(r[0] == f[0]);
    }
}

/// A text holds what it was put together around, and begins and ends with its ends.
pub proof fn law_parts_are_held(a: Seq<char>, middle: Seq<char>, b: Seq<char>)
    ensures
        holds_text(a + middle + b, middle),
        begins_with(a + b, a),
        ends_with(a + b, b),
{
    assert(holds_text_at(a + middle + b, middle, a.len() as int));
}

/// What a text holds stands in it character by character.
pub proof fn law_held_text_stands_there(t: Seq<char>, needle: Seq<char>)
    ensures
        holds_text(t, needle) ==> exists|at: int|
            0 <= at && at + needle.len() <= t.len() && #[trigger] t.subrange(
                at,
                at + needle.len(),
            ) == needle,
        ends_with(t, needle) ==> needle.len() <= t.len() && t.skip(t.len() - needle.len())
            == needle,
        begins_with(t, needle) ==> needle.len() <= t.len() && t.take(needle.len() as int)
            == needle,
{
    if holds_text(t, needle) {
        let at = choose|at: int| holds_text_at(t, needle, at);
        assert(t.subrange(at, at + needle.len()) =~= needle);
    }
    if ends_with(t, needle) {
        assert(t.skip(t.len() - needle.len()) =~= needle) by {
            assert forall|k: int| 0 <= k < needle.len() implies t.skip(t.len() - needle.len())[k]
                == needle[k] by {
                assert(t[t.len() - needle.len() + k] == needle[k]);
            }
        }
    }
    if begins_with(t, needle) {
        assert(t.take(needle.len() as int) =~= needle) by {
            assert forall|k: int| 0 <= k < needle.len() implies t.take(needle.len() as int)[k]
                == needle[k] by {
                assert(t[0 + k] == needle[k]);
            }
        }
    }
}

/// Parts are put on lines of their own: no parts make no text, one part is the text,
/// and a further part follows behind a line break.
pub proof fn law_lines_stand_below_one_another(parts: Seq<Seq<char>>, part: Seq<char>)
    ensures
        lines(seq![]) == Seq::<char>::empty(),
        lines(seq![part]) == part,
        parts.len() > 0 ==> lines(parts.push(part)) == lines(parts) + seq!['\n'] + part,
{
    reveal_strlit("\n");
    assert("\n"@ =~= seq!['\n']);
    assert(parts.push(part).drop_last() =~= parts);
}

/// White space is what Unicode counts as such, by its code points.
pub proof fn law_white_space_is_that_of_unicode(c: char)
    ensures
        is_white_space(c) <==> {
            let n = c as u32;
            ||| 9 <= n <= 13
            ||| n == 32
            ||| n == 133
            ||| n == 160
            ||| n == 5_760
            ||| 8_192 <= n <= 8_202
            ||| n == 8_232
            ||| n == 8_233
            ||| n == 8_239
            ||| n == 8_287
            ||| n == 12_288
        },
{
}

/// A blank text has nothing but white space, and trimming leaves nothing of it.
pub proof fn law_blank_texts_trim_to_nothing(s: Seq<char>)
    ensures
        is_blank(s) <==> trimmed(s).len() == 0,
{
    law_trimming_takes_white_space_off(s);
    if is_blank(s) && trimmed(s).len() > 0 {
        let r = trimmed(s);
        let from = choose|from: int|
            {
                &&& 0 <= from
                &&& from + r.len() <= s.len()
                &&& r == #[trigger] s.subrange(from, from + r.len())
                &&& forall|i: int|
                    0 <= i < s.len() && !(from <= i < from + r.len()) ==> is_white_space(
                        #[trigger] s[i],
                    )
            };
        assert(r[0] == s[from]);
    }
}

} // verus!
