use vstd::prelude::*;

verus! {

/// The character for one octal digit value.
pub open spec fn octal_digit_char(d: int) -> char
    recommends
        0 <= d < 8,
{
    if d == 0 {
        '0'
    } else if d == 1 {
        '1'
    } else if d == 2 {
        '2'
    } else if d == 3 {
        '3'
    } else if d == 4 {
        '4'
    } else if d == 5 {
        '5'
    } else if d == 6 {
        '6'
    } else {
        '7'
    }
}

/// The three octal digits of the low nine permission bits of a mode,
/// in owner, group, other order.
pub open spec fn perm_chars(mode: u32) -> Seq<char> {
    seq![
        octal_digit_char(((mode / 64) % 8) as int),
        octal_digit_char(((mode / 8) % 8) as int),
        octal_digit_char((mode % 8) as int),
    ]
}

/// The one-character string for one octal digit value.
fn octal_digit_str(d: u32) -> (r: &'static str)
    requires
        d < 8,
    ensures
        r@ =~= seq![octal_digit_char(d as int)],
{
    proof {
        reveal_strlit("0");
        reveal_strlit("1");
        reveal_strlit("2");
        reveal_strlit("3");
        reveal_strlit("4");
        reveal_strlit("5");
        reveal_strlit("6");
        reveal_strlit("7");
    }
    if d == 0 {
        "0"
    } else if d == 1 {
        "1"
    } else if d == 2 {
        "2"
    } else if d == 3 {
        "3"
    } else if d == 4 {
        "4"
    } else if d == 5 {
        "5"
    } else if d == 6 {
        "6"
    } else {
        "7"
    }
}

/// Formats the low nine permission bits of `mode` as exactly three octal
/// digits, in owner, group, other order.
pub fn format_permissions(mode: u32) -> (r: String)
    ensures
        r@ == perm_chars(mode),
        r@.len() == 3,
{
    let d0: u32 = (mode / 64) % 8;
    let d1: u32 = (mode / 8) % 8;
    let d2: u32 = mode % 8;
    let mut r = String::new();
    r.append(octal_digit_str(d0));
    r.append(octal_digit_str(d1));
    r.append(octal_digit_str(d2));
    proof {
        assert(r@ =~= perm_chars(mode));
    }
    r
}

/// Every formatted permission digit lies between '0' and '7'.
pub proof fn lemma_octal_digit_char_range(d: int)
    ensures
        '0' <= octal_digit_char(d) <= '7',
{
}

/// A formatted mode is always exactly three characters, each an octal digit.
pub proof fn lemma_perm_chars_are_octal_digits(mode: u32)
    ensures
        perm_chars(mode).len() == 3,
        forall|i: int|
            0 <= i < 3 ==> '0' <= #[trigger] perm_chars(mode)[i] && perm_chars(mode)[i] <= '7',
{
    assert forall|i: int| 0 <= i < 3 implies '0' <= #[trigger] perm_chars(mode)[i]
        && perm_chars(mode)[i] <= '7' by {
        lemma_octal_digit_char_range(((mode / 64) % 8) as int);
        lemma_octal_digit_char_range(((mode / 8) % 8) as int);
        lemma_octal_digit_char_range((mode % 8) as int);
    }
}

/// Formatting reads only the low nine bits: masking the mode with `0o777`
/// first changes nothing, so normalising a mode and formatting it again
/// yields the same three digits.
pub proof fn lemma_perm_chars_mask_idempotent(mode: u32)
    ensures
        perm_chars(mode & 0o777) == perm_chars(mode),
{
    assert(((mode & 0o777) / 64) % 8 == (mode / 64) % 8) by (bit_vector);
    assert(((mode & 0o777) / 8) % 8 == (mode / 8) % 8) by (bit_vector);
    assert((mode & 0o777) % 8 == mode % 8) by (bit_vector);
    assert(perm_chars(mode & 0o777) =~= perm_chars(mode));
}

} // verus!
