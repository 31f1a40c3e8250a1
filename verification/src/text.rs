//! Texts: integers rendered in decimal, for blob ids, and in fixed-width hexadecimal,
//! for block ids; joining and comparing texts; paths.

use vstd::prelude::*;
use vstd::string::*;

verus! {

/// The character that stands for the digit `d` in bases up to sixteen, upper case.
pub open spec fn digit_char(d: int) -> char {
    if d < 10 {
        (48 + d) as char
    } else {
        (55 + d) as char
    }
}

/// The decimal digits of `n`, most significant first, without leading zeros.
pub open spec fn decimal_digits(n: nat) -> Seq<char>
    decreases n,
{
    if n < 10 {
        seq![digit_char(n as int)]
    } else {
        decimal_digits(n / 10).push(digit_char((n % 10) as int))
    }
}

/// The decimal text of `n`, with a leading minus sign when it is negative.
pub open spec fn decimal_text(n: int) -> Seq<char> {
    if n < 0 {
        seq!['-'] + decimal_digits((-n) as nat)
    } else {
        decimal_digits(n as nat)
    }
}

/// The `width` least significant hexadecimal digits of `n`, most significant first,
/// upper case, padded with zeros.
pub open spec fn hex_padded(n: nat, width: nat) -> Seq<char>
    decreases width,
{
    if width == 0 {
        Seq::empty()
    } else {
        hex_padded(n / 16, (width - 1) as nat).push(digit_char((n % 16) as int))
    }
}

/// `a` sorts before `b` as text: `a` is a proper prefix of `b`, or at the first place
/// where the two differ `a` holds the smaller character.
pub open spec fn text_less(a: Seq<char>, b: Seq<char>) -> bool {
    exists|k: int|
        0 <= k <= a.len() && k < b.len() && #[trigger] a.subrange(0, k) == b.subrange(0, k) && (k
            < a.len() ==> (a[k] as int) < (b[k] as int))
}

/// How many numbers have a hexadecimal form of at most `width` digits.
pub open spec fn hex_capacity(width: nat) -> nat
    decreases width,
{
    if width == 0 {
        1
    } else {
        16 * hex_capacity((width - 1) as nat)
    }
}

/// The number that a sequence of decimal digits stands for.
pub open spec fn decimal_value(digits: Seq<char>) -> int
    decreases digits.len(),
{
    if digits.len() == 0 {
        0
    } else {
        decimal_value(digits.drop_last()) * 10 + (digits.last() as int - 48)
    }
}

/// A padded hexadecimal form has exactly as many digits as its width.
pub proof fn lemma_hex_padded_len(n: nat, width: nat)
    ensures
        hex_padded(n, width).len() == width,
    decreases width,
{
    if width > 0 {
        lemma_hex_padded_len(n / 16, (width - 1) as nat);
    }
}

/// Among numbers that fit the width, the padded hexadecimal forms sort as the numbers do.
pub proof fn lemma_hex_padded_order(a: nat, b: nat, width: nat)
    requires
        a < b < hex_capacity(width),
    ensures
        text_less(hex_padded(a, width), hex_padded(b, width)),
    decreases width,
{
    if width > 0 {
        let w = (width - 1) as nat;
        let pa = hex_padded(a / 16, w);
        let pb = hex_padded(b / 16, w);
        let ta = hex_padded(a, width);
        let tb = hex_padded(b, width);
        lemma_hex_padded_len(a / 16, w);
        lemma_hex_padded_len(b / 16, w);
        if a / 16 == b / 16 {
            assert(ta.subrange(0, w as int) =~= pa);
            assert(tb.subrange(0, w as int) =~= pb);
            assert(ta.subrange(0, w as int) == tb.subrange(0, w as int));
            assert((ta[w as int] as int) < (tb[w as int] as int));
        } else {
            lemma_hex_padded_order(a / 16, b / 16, w);
            let k = choose|k: int|
                0 <= k <= pa.len() && k < pb.len() && #[trigger] pa.subrange(0, k) == pb.subrange(
                    0,
                    k,
                ) && (k < pa.len() ==> (pa[k] as int) < (pb[k] as int));
            assert(ta.subrange(0, k) =~= pa.subrange(0, k));
            assert(tb.subrange(0, k) =~= pb.subrange(0, k));
            assert(ta.subrange(0, k) == tb.subrange(0, k));
            assert(ta[k] == pa[k] && tb[k] == pb[k]);
        }
    }
}

/// No text sorts before itself.
pub proof fn lemma_text_less_irreflexive(a: Seq<char>)
    ensures
        !text_less(a, a),
{
}

/// Reading back the decimal digits of a number gives the number.
pub proof fn lemma_decimal_value_of_digits(n: nat)
    ensures
        decimal_value(decimal_digits(n)) == n,
        decimal_digits(n).len() > 0,
        48 <= decimal_digits(n)[0] as int <= 57,
    decreases n,
{
    if n < 10 {
        let d = decimal_digits(n);
        assert(d.drop_last() =~= Seq::<char>::empty());
        assert(decimal_value(d.drop_last()) == 0);
    } else {
        lemma_decimal_value_of_digits(n / 10);
        let d = decimal_digits(n);
        assert(d.drop_last() =~= decimal_digits(n / 10));
    }
}

/// Different numbers have different decimal texts.
pub proof fn lemma_decimal_text_injective(a: int, b: int)
    requires
        decimal_text(a) == decimal_text(b),
    ensures
        a == b,
{
    let na = (if a < 0 { -a } else { a }) as nat;
    let nb = (if b < 0 { -b } else { b }) as nat;
    lemma_decimal_value_of_digits(na);
    lemma_decimal_value_of_digits(nb);
    let ta = decimal_text(a);
    let tb = decimal_text(b);
    assert(ta[0] == tb[0]);
    if a < 0 {
        assert(ta[0] == '-');
        assert(b < 0);
        assert(ta.drop_first() =~= decimal_digits(na));
        assert(tb.drop_first() =~= decimal_digits(nb));
    } else {
        assert(tb[0] != '-');
    }
}

/// The text of a single digit below sixteen.
pub fn digit_text(d: u8) -> (text: &'static str)
    requires
        d < 16,
    ensures
        text@ == seq![digit_char(d as int)],
{
    proof {
        reveal_strlit("0");
        reveal_strlit("1");
        reveal_strlit("2");
        reveal_strlit("3");
        reveal_strlit("4");
        reveal_strlit("5");
        reveal_strlit("6");
        reveal_strlit("7");
        reveal_strlit("8");
        reveal_strlit("9");
        reveal_strlit("A");
        reveal_strlit("B");
        reveal_strlit("C");
        reveal_strlit("D");
        reveal_strlit("E");
        reveal_strlit("F");
    }
    let text = match d {
        0 => "0",
        1 => "1",
        2 => "2",
        3 => "3",
        4 => "4",
        5 => "5",
        6 => "6",
        7 => "7",
        8 => "8",
        9 => "9",
        10 => "A",
        11 => "B",
        12 => "C",
        13 => "D",
        14 => "E",
        _ => "F",
    };
    assert(text@ =~= seq![digit_char(d as int)]);
    text
}

/// Appends the `width` least significant hexadecimal digits of `n` to `text`.
fn push_hex(text: &mut String, n: u32, width: u32)
    ensures
        final(text)@ == old(text)@ + hex_padded(n as nat, width as nat),
    decreases width,
{
    if width > 0 {
        push_hex(text, n / 16, width - 1);
        text.append(digit_text((n % 16) as u8));
        assert(text@ =~= old(text)@ + hex_padded(n as nat, width as nat));
    } else {
        assert(text@ =~= old(text)@ + hex_padded(n as nat, width as nat));
    }
}

/// Appends the decimal digits of `n` to `text`.
fn push_decimal(text: &mut String, n: u32)
    ensures
        final(text)@ == old(text)@ + decimal_digits(n as nat),
    decreases n,
{
    if n >= 10 {
        push_decimal(text, n / 10);
    }
    text.append(digit_text((n % 10) as u8));
    assert(text@ =~= old(text)@ + decimal_digits(n as nat));
}

/// Renders `n` as eight upper-case hexadecimal digits, padded with zeros.
pub fn hex8(n: u32) -> (text: String)
    ensures
        text@ == hex_padded(n as nat, 8),
{
    let mut text = String::new();
    push_hex(&mut text, n, 8);
    assert(text@ =~= hex_padded(n as nat, 8));
    text
}

/// Renders `n` in decimal, as `{}` formats an `i32`.
pub fn decimal(n: i32) -> (text: String)
    ensures
        text@ == decimal_text(n as int),
{
    let mut text = String::new();
    if n < 0 {
        text.append("-");
        proof {
            reveal_strlit("-");
        }
        let magnitude: u32 = (-(n as i64)) as u32;
        push_decimal(&mut text, magnitude);
        assert(text@ =~= decimal_text(n as int));
    } else {
        push_decimal(&mut text, n as u32);
        assert(text@ =~= decimal_text(n as int));
    }
    text
}

/// The view of an optional text.
pub open spec fn optional_text(text: Option<String>) -> Option<Seq<char>> {
    match text {
        Some(text) => Some(text@),
        None => None,
    }
}

/// The views of texts, in order.
pub open spec fn text_views(texts: Seq<String>) -> Seq<Seq<char>> {
    texts.map_values(|text: String| text@)
}

/// Joins two texts.
pub fn join_texts(first: &str, second: &str) -> (text: String)
    ensures
        text@ == first@ + second@,
{
    let mut text = String::from_str(first);
    text.append(second);
    text
}

/// Whether two texts are the same.
pub fn same_text(first: &str, second: &str) -> (same: bool)
    ensures
        same == (first@ == second@),
{
    String::from_str(first) == String::from_str(second)
}

/// A path made of a folder and a name in it.
pub open spec fn path_in(folder: Seq<char>, name: Seq<char>) -> Seq<char> {
    folder + seq!['/'] + name
}

/// Computes the path of `name` in `folder`.
pub fn join_path(folder: &str, name: &str) -> (path: String)
    ensures
        path@ == path_in(folder@, name@),
{
    let mut path = String::from_str(folder);
    path.append("/");
    path.append(name);
    proof {
        reveal_strlit("/");
        assert("/"@ =~= seq!['/']);
        assert(path@ =~= path_in(folder@, name@));
    }
    path
}

} // verus!
