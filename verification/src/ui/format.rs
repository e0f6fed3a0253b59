//! How the window writes numbers and texts.
use crate::text::{decimal, decimal_string, number_of, parse_u16};
use vstd::prelude::*;
use vstd::utf8::{decode_utf8, encode_utf8, is_char_boundary};

verus! {

/// The port that was typed, or the port that was there before if that is not a port.
pub open spec fn typed_port(text: Seq<char>, before: u16) -> u16 {
    match number_of(text) {
        Ok(n) => n as u16,
        Err(_) => before,
    }
}

/// The port that was typed, or the port that was there before if that is not a port.
pub fn parse_port(s: &str, before: u16) -> (r: u16)
    ensures
        r == typed_port(s@, before),
{
    match parse_u16(s) {
        Ok(n) => n,
        Err(_) => before,
    }
}

/// The integer nearest to `a / b`. Halfway between two, it is the even one.
pub open spec fn nearest(a: int, b: int) -> int {
    let q = a / b;
    let r = a % b;
    if 2 * r < b || (2 * r == b && q % 2 == 0) {
        q
    } else {
        q + 1
    }
}

/// The distance between neighbours among the numbers that a double holds, at `n`: a double has 53
/// significant bits.
pub open spec fn double_spacing(n: int) -> int
    decreases n,
{
    if n < 0x20000000000000 {
        1
    } else {
        2 * double_spacing(n / 2)
    }
}

/// `n` as a double holds it.
pub open spec fn as_double(n: int) -> int {
    nearest(n, double_spacing(n)) * double_spacing(n)
}

/// The units of a number of bytes.
pub open spec fn unit_name(k: int) -> Seq<char> {
    if k == 0 {
        "B"@
    } else if k == 1 {
        "KB"@
    } else if k == 2 {
        "MB"@
    } else if k == 3 {
        "GB"@
    } else {
        "TB"@
    }
}

/// How many bytes a unit has.
pub open spec fn unit_size(k: int) -> int {
    if k == 0 {
        1
    } else if k == 1 {
        0x400
    } else if k == 2 {
        0x100000
    } else if k == 3 {
        0x40000000
    } else {
        0x10000000000
    }
}

/// The largest unit that is not larger than `n`, and there is none after TB.
pub open spec fn unit_for(n: int) -> int {
    if n < unit_size(1) {
        0
    } else if n < unit_size(2) {
        1
    } else if n < unit_size(3) {
        2
    } else if n < unit_size(4) {
        3
    } else {
        4
    }
}

/// A number of bytes, in its unit: whole for bytes, with one decimal place for the larger units.
/// The number is taken as a double, and what is cut off is rounded.
pub open spec fn bytes_text(n: int) -> Seq<char> {
    let size = as_double(n);
    let k = unit_for(size);
    if k == 0 {
        decimal(n as nat) + " "@ + unit_name(0)
    } else {
        let tenths = nearest(size * 10, unit_size(k));
        decimal((tenths / 10) as nat) + "."@ + decimal((tenths % 10) as nat) + " "@ + unit_name(k)
    }
}

fn round(a: u128, b: u128) -> (r: u128)
    requires
        0 < b < 0x100000000000000000,
        a < 0x1000000000000000000000000,
    ensures
        r == nearest(a as int, b as int),
        r <= a / b + 1,
{
    let q = a / b;
    let r = a % b;
    assert(q <= a) by (nonlinear_arith)
        requires
            q == a / b,
            b > 0,
            a >= 0,
    ;
    if 2 * r < b || (2 * r == b && q % 2 == 0) {
        q
    } else {
        q + 1
    }
}

proof fn lemma_spacing_bounds(n: int)
    requires
        0 <= n < 0x10000000000000000,
    ensures
        1 <= double_spacing(n) <= 0x800,
        double_spacing(n) > 1 ==> n >= 0x20000000000000 && double_spacing(n) * 0x10000000000000
            <= n,
{
    reveal_with_fuel(double_spacing, 13);
}

fn spacing(n: u64) -> (r: u128)
    ensures
        r == double_spacing(n as int),
        1 <= r <= 0x800,
    decreases n,
{
    proof {
        lemma_spacing_bounds(n as int);
    }
    if n < 0x20000000000000 {
        1
    } else {
        2 * spacing(n / 2)
    }
}

/// A number of bytes as the window shows it.
pub fn format_bytes(bytes: u64) -> (r: String)
    ensures
        r@ == bytes_text(bytes as int),
{
    let step = spacing(bytes);
    let rounded = round(bytes as u128, step);
    proof {
        let n = bytes as int;
        lemma_spacing_bounds(n);
        assert(n / (step as int) <= n) by (nonlinear_arith)
            requires
                n >= 0,
                step >= 1,
        ;
        assert(rounded * step <= 0x1000000000000000000000) by (nonlinear_arith)
            requires
                0 <= rounded <= 0x10000000000000000,
                1 <= step <= 0x800,
        ;
        assert((n / (step as int)) * step <= n) by (nonlinear_arith)
            requires
                step >= 1,
                n >= 0,
        ;
        assert(rounded * step <= n + step) by (nonlinear_arith)
            requires
                rounded <= n / (step as int) + 1,
                (n / (step as int)) * step <= n,
                step >= 1,
        ;
    }
    let size: u128 = rounded * step;
    let (k, unit, name): (u8, u128, &str) = if size < 0x400 {
        (0, 1, "B")
    } else if size < 0x100000 {
        (1, 0x400, "KB")
    } else if size < 0x40000000 {
        (2, 0x100000, "MB")
    } else if size < 0x10000000000 {
        (3, 0x40000000, "GB")
    } else {
        (4, 0x10000000000, "TB")
    };
    if k == 0 {
        decimal_string(bytes).concat(" ").concat(name)
    } else {
        let tenths: u128 = round(size * 10, unit);
        proof {
            assert((size * 10) / (unit as int) <= size * 10) by (nonlinear_arith)
                requires
                    size >= 0,
                    unit >= 1,
            ;
            assert((size * 10) / (unit as int) <= 0x10000000000000800 * 10 / 0x400) by (nonlinear_arith)
                requires
                    0 <= size <= 0x10000000000000800,
                    unit >= 0x400,
            ;
        }
        let whole: u64 = (tenths / 10) as u64;
        let tenth: u64 = (tenths % 10) as u64;
        decimal_string(whole).concat(".").concat(decimal_string(tenth).as_str()).concat(" ").concat(
            name,
        )
    }
}

/// The first eight bytes of a token, with dots after them, or the whole token if it is no longer.
pub open spec fn token_preview(token: Seq<char>) -> Seq<char> {
    if encode_utf8(token).len() > 8 {
        decode_utf8(encode_utf8(token).take(8)) + "..."@
    } else {
        token
    }
}

/// A token as the window shows it. A longer token has to have a character end after eight bytes.
pub fn preview_token(token: &str) -> (r: String)
    requires
        encode_utf8(token@).len() > 8 ==> is_char_boundary(encode_utf8(token@), 8),
    ensures
        r@ == token_preview(token@),
{
    if token.as_bytes().len() > 8 {
        let (head, _) = token.split_at(8);
        proof {
            vstd::utf8::encode_utf8_decode_utf8(head@);
            assert(encode_utf8(head@) =~= encode_utf8(token@).take(8));
        }
        head.to_owned().concat("...")
    } else {
        token.to_owned()
    }
}

/// How a client is called in the list: by its name, or by its position if it has none.
pub fn list_label(name: &str, i: usize) -> (r: String)
    ensures
        r@ == (if name@.len() == 0 {
            "<unnamed-"@ + decimal(i as nat) + ">"@
        } else {
            name@
        }),
{
    if name.unicode_len() == 0 {
        "<unnamed-".to_owned().concat(decimal_string(i as u64).as_str()).concat(">")
    } else {
        name.to_owned()
    }
}

/// How a client is called in its heading.
pub fn heading(name: &str) -> (r: &str)
    ensures
        r@ == (if name@.len() == 0 {
            "<unnamed>"@
        } else {
            name@
        }),
{
    if name.unicode_len() == 0 {
        "<unnamed>"
    } else {
        name
    }
}

/// A number of bytes under a kilobyte is written in full.
pub proof fn law_small_numbers_are_exact(n: int)
    requires
        0 <= n < 0x400,
    ensures
        bytes_text(n) == decimal(n as nat) + " "@ + "B"@,
{
    assert(double_spacing(n) == 1);
}

/// Up to 2^53 bytes nothing is lost before the number is rounded to its unit.
pub proof fn law_doubles_are_exact_below_their_precision(n: int)
    requires
        0 <= n < 0x20000000000000,
    ensures
        as_double(n) == n,
{
    assert(double_spacing(n) == 1);
    assert(n % 1 == 0);
}

/// A decimal port that is typed is taken, and what is no port number leaves the port as it was.
pub proof fn law_typed_ports(n: u16, text: Seq<char>, before: u16)
    ensures
        typed_port(decimal(n as nat), before) == n,
        number_of(text) is Err ==> typed_port(text, before) == before,
{
    crate::text::law_decimal_reads_back(n);
}

proof fn lemma_nearest(a: int, b: int)
    requires
        b > 0,
    ensures
        2 * (nearest(a, b) * b - a) <= b,
        2 * (a - nearest(a, b) * b) <= b,
{
    vstd::arithmetic::div_mod::lemma_fundamental_div_mod(a, b);
    vstd::arithmetic::div_mod::lemma_mod_bound(a, b);
    vstd::arithmetic::mul::lemma_mul_is_commutative(a / b, b);
    vstd::arithmetic::mul::lemma_mul_is_distributive_add_other_way(b, a / b, 1);
}

/// From a kilobyte on, a number of bytes is written with one decimal place, in the unit that leaves
/// it between one and a thousand and twenty-four, terabytes apart. What is written is off by no more
/// than half of the last place, once the number was taken as a double, which changes nothing below
/// 2^53 and less than one part in 2^53 above.
pub proof fn law_shown_number_is_near(n: int)
    requires
        0x400 <= n < 0x10000000000000000,
    ensures
        exists|size: int, tenths: int, unit: int, name: Seq<char>|
            {
                &&& #[trigger] is_unit(unit, name)
                &&& #[trigger] is_close(size, n)
                &&& unit <= size
                &&& size < 1024 * unit || name == "TB"@
                &&& 2 * (tenths * unit - 10 * size) <= unit
                &&& 2 * (10 * size - tenths * unit) <= unit
                &&& bytes_text(n) == #[trigger] decimal((tenths / 10) as nat) + "."@ + decimal(
                    (tenths % 10) as nat,
                ) + " "@ + name
            },
{
    let size = as_double(n);
    lemma_close(n);
    let k = unit_for(size);
    let unit = unit_size(k);
    let name = unit_name(k);
    let tenths = nearest(size * 10, unit);
    lemma_nearest(size * 10, unit);
    assert(is_unit(unit, name));
    assert(is_close(size, n));
    assert(bytes_text(n) == decimal((tenths / 10) as nat) + "."@ + decimal((tenths % 10) as nat)
        + " "@ + name);
}

/// Whether `size` is `n` up to the precision of a double.
pub open spec fn is_close(size: int, n: int) -> bool {
    &&& n < 0x20000000000000 ==> size == n
    &&& 0x20000000000000 * (size - n) <= n
    &&& 0x20000000000000 * (n - size) <= n
}

proof fn lemma_close(n: int)
    requires
        0x400 <= n < 0x10000000000000000,
    ensures
        is_close(as_double(n), n),
        as_double(n) >= 0x400,
{
    lemma_spacing_bounds(n);
    lemma_nearest(n, double_spacing(n));
    if n < 0x20000000000000 {
        law_doubles_are_exact_below_their_precision(n);
    } else {
        assert(double_spacing(n) > 1) by {
            reveal_with_fuel(double_spacing, 2);
            lemma_spacing_bounds(n / 2);
        }
    }
}

/// Whether `name` stands for `unit` bytes, from the kilobyte on.
pub open spec fn is_unit(unit: int, name: Seq<char>) -> bool {
    ||| unit == 1024 && name == "KB"@
    ||| unit == 1024 * 1024 && name == "MB"@
    ||| unit == 1024 * 1024 * 1024 && name == "GB"@
    ||| unit == 1024 * 1024 * 1024 * 1024 && name == "TB"@
}

/// A token that takes no more than eight bytes is shown whole. Of a longer one no more is shown than
/// the text of its first eight bytes, with dots after it.
pub proof fn law_token_is_cut_after_eight_bytes(head: Seq<char>, tail: Seq<char>)
    ensures
        encode_utf8(head).len() <= 8 ==> token_preview(head) == head,
        encode_utf8(head).len() == 8 && encode_utf8(tail).len() > 0 ==> token_preview(head + tail)
            == head + "..."@,
{
    crate::ui::log::lemma_encode_joined(head, tail);
    let all = encode_utf8(head) + encode_utf8(tail);
    if encode_utf8(head).len() == 8 {
        assert(all.take(8) =~= encode_utf8(head));
        vstd::utf8::encode_utf8_decode_utf8(head);
    }
}

} // verus!
