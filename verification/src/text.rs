//! Text: white space, decimal numbers, and the pieces of std that build strings.

use vstd::prelude::*;
use vstd::string::*;
use vstd::utf8::*;

verus! {

/// Appending one character with `String::push`: the text grows by exactly that
/// character, at its end.
pub assume_specification[ String::push ](s: &mut String, c: char)
    ensures
        final(s)@ == old(s)@.push(c),
;

/// The characters with the Unicode property `White_Space`.
pub open spec fn is_white_space(c: char) -> bool {
    let n = c as int;
    ||| 0x09 <= n <= 0x0D
    ||| n == 0x20
    ||| n == 0x85
    ||| n == 0xA0
    ||| n == 0x1680
    ||| 0x2000 <= n <= 0x200A
    ||| n == 0x2028
    ||| n == 0x2029
    ||| n == 0x202F
    ||| n == 0x205F
    ||| n == 0x3000
}

/// `s` without the white space at its front.
pub open spec fn trimmed_front(s: Seq<char>) -> Seq<char>
    decreases s.len(),
{
    if s.len() > 0 && is_white_space(s.first()) {
        trimmed_front(s.drop_first())
    } else {
        s
    }
}

/// `s` without the white space at its back.
pub open spec fn trimmed_back(s: Seq<char>) -> Seq<char>
    decreases s.len(),
{
    if s.len() > 0 && is_white_space(s.last()) {
        trimmed_back(s.drop_last())
    } else {
        s
    }
}

/// `s` without the white space around it.
pub open spec fn trimmed(s: Seq<char>) -> Seq<char> {
    trimmed_back(trimmed_front(s))
}

/// Whether `s` holds nothing but white space.
pub open spec fn is_blank(s: Seq<char>) -> bool {
    forall|i: int| 0 <= i < s.len() ==> is_white_space(#[trigger] s[i])
}

/// `str::trim`: the text without its leading and trailing white space, where
/// white space is the Unicode property `White_Space`.
#[verifier::external_body]
pub(crate) fn trim(s: &str) -> (res: &str)
    ensures
        res@ == trimmed(s@),
{
    s.trim()
}

/// What `String::from_utf8_lossy` makes of a run of bytes.
pub uninterp spec fn lossy_text(bytes: Seq<u8>) -> Seq<char>;

/// `String::from_utf8_lossy`: a function of the bytes alone. Bytes that are
/// valid UTF-8 are decoded. Malformed ones are replaced, not dropped, so that
/// something always stands for some bytes; what it is, is left to the name.
#[verifier::external_body]
pub(crate) fn from_utf8_lossy(bytes: &[u8]) -> (res: String)
    ensures
        res@ == lossy_text(bytes@),
        valid_utf8(bytes@) ==> res@ == decode_utf8(bytes@),
        bytes@.len() > 0 ==> res@.len() > 0,
{
    String::from_utf8_lossy(bytes).into_owned()
}

/// A text is blank exactly if trimming leaves nothing of it.
pub proof fn blank_text_trims_to_nothing(s: Seq<char>)
    ensures
        trimmed(s).len() == 0 <==> is_blank(s),
{
    front_keeps_blankness(s);
    back_keeps_blankness(trimmed_front(s));
}

proof fn front_keeps_blankness(s: Seq<char>)
    ensures
        is_blank(trimmed_front(s)) <==> is_blank(s),
        trimmed_front(s).len() > 0 ==> !is_white_space(trimmed_front(s).first()),
    decreases s.len(),
{
    if s.len() > 0 && is_white_space(s.first()) {
        let t = s.drop_first();
        front_keeps_blankness(t);
        assert forall|i: int| is_blank(t) && 0 <= i < s.len() implies is_white_space(#[trigger] s[i]) by {
            if i > 0 {
                assert(s[i] == t[i - 1]);
            }
        }
        assert forall|i: int| is_blank(s) && 0 <= i < t.len() implies is_white_space(#[trigger] t[i]) by {
            assert(t[i] == s[i + 1]);
        }
    }
}

proof fn back_keeps_blankness(s: Seq<char>)
    requires
        s.len() > 0 ==> !is_white_space(s.first()),
    ensures
        trimmed_back(s).len() == 0 <==> is_blank(s),
    decreases s.len(),
{
    if s.len() > 0 && is_white_space(s.last()) {
        let t = s.drop_last();
        assert(s.len() > 1);
        assert(t.first() == s.first());
        back_keeps_blankness(t);
        assert(!is_white_space(s[0]));
        assert(!is_white_space(t[0]));
    } else if s.len() > 0 {
        assert(!is_white_space(s[0]));
    }
}

/// Whether a text is empty once trimmed: whether it is all white space.
pub fn is_blank_text(s: &str) -> (res: bool)
    ensures
        res == is_blank(s@),
{
    proof {
        blank_text_trims_to_nothing(s@);
    }
    trim(s).is_empty()
}

/// The decimal digits of `n`, without leading zeros.
pub open spec fn decimal_text(n: nat) -> Seq<char>
    decreases n,
{
    if n < 10 {
        seq!["0123456789"@[n as int]]
    } else {
        decimal_text(n / 10).push("0123456789"@[(n % 10) as int])
    }
}

fn digit(d: u64) -> (res: char)
    requires
        d < 10,
    ensures
        res == "0123456789"@[d as int],
{
    proof {
        reveal_strlit("0123456789");
    }
    match d {
        0 => '0',
        1 => '1',
        2 => '2',
        3 => '3',
        4 => '4',
        5 => '5',
        6 => '6',
        7 => '7',
        8 => '8',
        _ => '9',
    }
}

/// `n` in decimal.
pub fn decimal(n: u64) -> (res: String)
    ensures
        res@ == decimal_text(n as nat),
    decreases n,
{
    let mut text = if n < 10 {
        String::new()
    } else {
        decimal(n / 10)
    };
    text.push(digit(n % 10));
    text
}

/// The characters of a text, in order.
pub fn chars_of(s: &str) -> (res: Vec<char>)
    ensures
        res@ == s@,
{
    let mut chars: Vec<char> = Vec::new();
    for c in it: s.chars()
        invariant
            chars@ == it.seq().take(it.index()),
            it.seq() == s@,
    {
        chars.push(c);
    }
    chars
}

/// The number that a run of decimal digits stands for.
pub open spec fn number(digits: Seq<char>) -> int
    decreases digits.len(),
{
    if digits.len() == 0 {
        0
    } else {
        10 * number(digits.drop_last()) + (digits.last() as int - '0' as int)
    }
}

/// A number in decimal reads back as that number. It is made of digits only, and does
/// not start with a zero unless it is zero.
pub proof fn decimal_text_reads_back(n: nat)
    ensures
        number(decimal_text(n)) == n,
        decimal_text(n).len() > 0,
        forall|i: int| 0 <= i < decimal_text(n).len() ==> '0' <= #[trigger] decimal_text(n)[i] <= '9',
        n > 0 ==> decimal_text(n)[0] != '0',
        n < 10 ==> decimal_text(n).len() == 1,
    decreases n,
{
    reveal_strlit("0123456789");
    let text = decimal_text(n);
    reveal_with_fuel(number, 2);
    if n >= 10 {
        decimal_text_reads_back(n / 10);
        assert(text.drop_last() == decimal_text(n / 10));
        assert(text[0] == decimal_text(n / 10)[0]);
    } else {
        assert(text.drop_last() == Seq::<char>::empty());
    }
}

/// Trimming takes white space off both ends of a text, and nothing else: what is left is
/// a part of the text that neither starts nor ends with white space, and all around it
/// was white space.
pub proof fn trimming_takes_off_white_space_only(s: Seq<char>)
    ensures
        exists|i: int, j: int| is_trimmed_part(s, i, j),
{
    front_is_cut(s);
    let i = choose|i: int|
        0 <= i <= s.len() && #[trigger] s.skip(i) == trimmed_front(s) && is_blank(s.take(i));
    let t = s.skip(i);
    back_is_cut(t);
    let k = choose|k: int|
        0 <= k <= t.len() && #[trigger] t.take(k) == trimmed_back(t) && is_blank(t.skip(k));
    let j = i + k;
    assert(s.subrange(i, j) == t.take(k));
    assert(s.skip(j) == t.skip(k));
    front_keeps_blankness(s);
    if i < j {
        assert(s.subrange(i, j)[0] == t[0]);
        back_keeps_its_last(t);
    }
    assert(is_trimmed_part(s, i, j));
}

/// Whether the part of `s` from `i` to `j` is what trimming leaves: white space around
/// it, and none at its ends.
pub open spec fn is_trimmed_part(s: Seq<char>, i: int, j: int) -> bool {
    &&& 0 <= i <= j <= s.len()
    &&& trimmed(s) == s.subrange(i, j)
    &&& is_blank(s.take(i))
    &&& is_blank(s.skip(j))
    &&& i < j ==> !is_white_space(s[i]) && !is_white_space(s[j - 1])
}

proof fn front_is_cut(s: Seq<char>)
    ensures
        exists|i: int|
            0 <= i <= s.len() && #[trigger] s.skip(i) == trimmed_front(s) && is_blank(s.take(i)),
    decreases s.len(),
{
    if s.len() > 0 && is_white_space(s.first()) {
        let t = s.drop_first();
        front_is_cut(t);
        let i = choose|i: int|
            0 <= i <= t.len() && #[trigger] t.skip(i) == trimmed_front(t) && is_blank(t.take(i));
        assert(s.skip(i + 1) == t.skip(i));
        assert forall|m: int| 0 <= m < i + 1 implies is_white_space(#[trigger] s.take(i + 1)[m]) by {
            if m > 0 {
                assert(t.take(i)[m - 1] == s.take(i + 1)[m]);
            }
        }
        assert(is_blank(s.take(i + 1)));
    } else {
        assert(s.skip(0) == s);
        assert(is_blank(s.take(0)));
    }
}

proof fn back_is_cut(s: Seq<char>)
    ensures
        exists|k: int|
            0 <= k <= s.len() && #[trigger] s.take(k) == trimmed_back(s) && is_blank(s.skip(k)),
    decreases s.len(),
{
    if s.len() > 0 && is_white_space(s.last()) {
        let t = s.drop_last();
        back_is_cut(t);
        let k = choose|k: int|
            0 <= k <= t.len() && #[trigger] t.take(k) == trimmed_back(t) && is_blank(t.skip(k));
        assert(s.take(k) == t.take(k));
        assert forall|m: int| 0 <= m < s.len() - k implies is_white_space(#[trigger] s.skip(k)[m]) by {
            if m < t.len() - k {
                assert(t.skip(k)[m] == s.skip(k)[m]);
            }
        }
        assert(is_blank(s.skip(k)));
    } else {
        assert(s.take(s.len() as int) == s);
        assert(is_blank(s.skip(s.len() as int)));
    }
}

proof fn back_keeps_its_last(s: Seq<char>)
    ensures
        trimmed_back(s).len() > 0 ==> !is_white_space(trimmed_back(s).last()),
    decreases s.len(),
{
    if s.len() > 0 && is_white_space(s.last()) {
        back_keeps_its_last(s.drop_last());
    }
}

} // verus!
