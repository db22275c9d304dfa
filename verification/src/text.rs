use vstd::prelude::*;

verus! {

/// The character of a decimal digit `d` (0 to 9).
pub open spec fn digit_char(d: nat) -> char {
    ((48 + d) as u32) as char
}

/// The decimal digits of `n`, most significant first, with no leading zero ("0" for zero):
/// how std's `Display` writes an unsigned integer.
pub open spec fn decimal(n: nat) -> Seq<char>
    decreases n,
{
    if n < 10 {
        seq![digit_char(n)]
    } else {
        decimal(n / 10).push(digit_char(n % 10))
    }
}

/// The text of an addition that would overflow a quantity:
/// `Inventory overflow for {resource}: {current} + {amount}`.
pub open spec fn overflow_text(resource: Seq<char>, current: u32, amount: u32) -> Seq<char> {
    seq!['I', 'n', 'v', 'e', 'n', 't', 'o', 'r', 'y', ' ', 'o', 'v', 'e', 'r', 'f', 'l', 'o', 'w', ' ', 'f', 'o', 'r', ' ']
        + resource + seq![':', ' '] + decimal(current as nat) + seq![' ', '+', ' '] + decimal(amount as nat)
}

/// The text of a quantity that falls short of a need:
/// `Insufficient {resource}: have {have} need {need}`.
pub open spec fn shortage_text(resource: Seq<char>, have: u32, need: u32) -> Seq<char> {
    seq!['I', 'n', 's', 'u', 'f', 'f', 'i', 'c', 'i', 'e', 'n', 't', ' '] + resource + seq![
        ':',
        ' ',
        'h',
        'a',
        'v',
        'e',
        ' ',
    ] + decimal(have as nat) + seq![' ', 'n', 'e', 'e', 'd', ' '] + decimal(need as nat)
}

/// The text of the decimal digit `d`.
fn digit_str(d: u64) -> (r: &'static str)
    requires
        d < 10,
    ensures
        r@ == seq![digit_char(d as nat)],
{
    proof {
        reveal_strlit("0");
        reveal_strlit("1");
        reveal_strlit("2");
        reveal_strlit("3");
        reveal_strlit("4");
        reveal_strlit("5");
        reveal_strlit("6");
        reveal_strlit("7");
        reveal_strlit("8");
        reveal_strlit("9");
    }
    match d {
        0 => "0",
        1 => "1",
        2 => "2",
        3 => "3",
        4 => "4",
        5 => "5",
        6 => "6",
        7 => "7",
        8 => "8",
        _ => "9",
    }
}

/// Appends the decimal digits of `n` to `s`.
pub(crate) fn push_decimal(s: &mut String, n: u64)
    ensures
        final(s)@ == old(s)@ + decimal(n as nat),
    decreases n,
{
    if n < 10 {
        s.append(digit_str(n));
    } else {
        push_decimal(s, n / 10);
        s.append(digit_str(n % 10));
        assert(decimal(n as nat) == decimal((n / 10) as nat).push(digit_char((n % 10) as nat)));
    }
}

/// The message of an addition that would overflow a quantity.
pub(crate) fn overflow_message(resource: &str, current: u32, amount: u32) -> (r: String)
    ensures
        r@ == overflow_text(resource@, current, amount),
{
    let mut s = "Inventory overflow for ".to_owned();
    s.append(resource);
    s.append(": ");
    push_decimal(&mut s, current as u64);
    s.append(" + ");
    push_decimal(&mut s, amount as u64);
    proof {
        reveal_strlit("Inventory overflow for ");
        reveal_strlit(": ");
        reveal_strlit(" + ");
        assert(s@ =~= overflow_text(resource@, current, amount));
    }
    s
}

/// The message of a quantity that falls short of a need.
pub(crate) fn shortage_message(resource: &str, have: u32, need: u32) -> (r: String)
    ensures
        r@ == shortage_text(resource@, have, need),
{
    let mut s = "Insufficient ".to_owned();
    s.append(resource);
    s.append(": have ");
    push_decimal(&mut s, have as u64);
    s.append(" need ");
    push_decimal(&mut s, need as u64);
    proof {
        reveal_strlit("Insufficient ");
        reveal_strlit(": have ");
        reveal_strlit(" need ");
        assert(s@ =~= shortage_text(resource@, have, need));
    }
    s
}

} // verus!
