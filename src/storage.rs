use vstd::prelude::*;
use vstd::string::StringExecFns;

use crate::media::Format;

verus! {

pub open spec fn digit_char(d: nat) -> char {
    seq!['0', '1', '2', '3', '4', '5', '6', '7', '8', '9'][d as int]
}

/// Decimal text of a natural number, most significant digit first.
pub open spec fn decimal(n: nat) -> Seq<char>
    decreases n,
{
    if n < 10 {
        seq![digit_char(n)]
    } else {
        decimal(n / 10).push(digit_char(n % 10))
    }
}

fn digit_str(d: u32) -> (r: &'static str)
    requires
        d < 10,
    ensures
        r@ == seq![digit_char(d as nat)],
{
    proof {
        reveal_strlit("0");
        reveal_strlit("1");
        reveal_strlit("2");
        reveal_strlit("3");
        reveal_strlit("4");
        reveal_strlit("5");
        reveal_strlit("6");
        reveal_strlit("7");
        reveal_strlit("8");
        reveal_strlit("9");
    }
    match d {
        0 => "0",
        1 => "1",
        2 => "2",
        3 => "3",
        4 => "4",
        5 => "5",
        6 => "6",
        7 => "7",
        8 => "8",
        _ => "9",
    }
}

/// Appends the decimal text of `n` to `out`.
pub fn push_decimal(out: &mut String, n: u32)
    ensures
        final(out)@ == old(out)@ + decimal(n as nat),
    decreases n,
{
    if n >= 10 {
        push_decimal(out, n / 10);
    }
    out.append(digit_str(n % 10));
    proof {
        if n >= 10 {
            assert(decimal(n as nat) == decimal((n / 10) as nat).push(digit_char((n % 10) as nat)));
        }
    }
    assert(final(out)@ =~= old(out)@ + decimal(n as nat));
}

pub open spec fn hex_char(d: int) -> char {
    seq!['0', '1', '2', '3', '4', '5', '6', '7', '8', '9', 'a', 'b', 'c', 'd', 'e', 'f'][d]
}

pub open spec fn pow16(n: nat) -> nat
    decreases n,
{
    if n == 0 {
        1
    } else {
        16 * pow16((n - 1) as nat)
    }
}

/// Hex digit `j` of a 128-bit value, counting from the most significant (0) to
/// the least significant (31).
pub open spec fn nibble(id: u128, j: int) -> int {
    (id as int / pow16((31 - j) as nat) as int) % 16
}

/// Hex digits `from` up to `to` (exclusive) of a 128-bit value, in lower case.
pub open spec fn hex_run(id: u128, from: int, to: int) -> Seq<char> {
    Seq::new((to - from) as nat, |k: int| hex_char(nibble(id, from + k)))
}

/// The hyphenated text of a UUID: its 32 lower-case hex digits, most
/// significant first, in groups of 8, 4, 4, 4 and 12 joined by hyphens.
pub open spec fn hyphenated(id: u128) -> Seq<char> {
    hex_run(id, 0, 8) + seq!['-'] + hex_run(id, 8, 12) + seq!['-'] + hex_run(id, 12, 16) + seq![
        '-',
    ] + hex_run(id, 16, 20) + seq!['-'] + hex_run(id, 20, 32)
}

/// Relies on `uuid::Uuid::from_u128` (big-endian) and the `Display` of
/// `uuid::fmt::Hyphenated`, which writes lower-case hex digits in that layout.
#[verifier::external_body]
fn uuid_string(id: u128) -> (r: String)
    ensures
        r@ == hyphenated(id),
{
    uuid::Uuid::from_u128(id).hyphenated().to_string()
}

/// The UUID that `uuid::Uuid::parse_str` reads from a text, if any.
pub uninterp spec fn uuid_value(s: Seq<char>) -> Option<u128>;

/// Relies on `uuid::Uuid::parse_str`, reporting the parsed id as an integer.
/// It reads every format the crate writes, the hyphenated one among them.
#[verifier::external_body]
pub(crate) fn parse_uuid(s: &str) -> (r: Option<u128>)
    ensures
        r == uuid_value(s@),
        forall|id: u128| s@ == hyphenated(id) ==> r == Some(id),
{
    uuid::Uuid::parse_str(s).ok().map(|u| u.as_u128())
}

pub open spec fn original_dir_of(root: Seq<char>, file_id: u128) -> Seq<char> {
    root + seq!['/'] + hyphenated(file_id) + seq!['/', 'o', 'r', 'i', 'g', 'i', 'n', 'a', 'l']
}

pub open spec fn original_path_of(root: Seq<char>, file_id: u128, filename: Seq<char>) -> Seq<
    char,
> {
    original_dir_of(root, file_id) + seq!['/'] + filename
}

/// `<root>/<file_id>/<width>x<height>/<file_id>.<format>`
pub open spec fn variant_path_of(
    root: Seq<char>,
    file_id: u128,
    width: u32,
    height: u32,
    format: Format,
) -> Seq<char> {
    root + seq!['/'] + hyphenated(file_id) + seq!['/'] + decimal(width as nat) + seq!['x']
        + decimal(height as nat) + seq!['/'] + hyphenated(file_id) + seq!['.'] + format.name()
}

/// Directory that holds the as-uploaded file of `file_id`.
pub fn original_dir(root: &str, file_id: u128) -> (r: String)
    ensures
        r@ == original_dir_of(root@, file_id),
{
    proof {
        reveal_strlit("/");
        reveal_strlit("/original");
    }
    let mut p = String::from_str(root);
    p.append("/");
    let id = uuid_string(file_id);
    p.append(id.as_str());
    p.append("/original");
    p
}

/// Path of the as-uploaded file of `file_id`, stored under its original name.
pub fn original_path(root: &str, file_id: u128, filename: &str) -> (r: String)
    ensures
        r@ == original_path_of(root@, file_id, filename@),
{
    proof {
        reveal_strlit("/");
    }
    let mut p = original_dir(root, file_id);
    p.append("/");
    p.append(filename);
    p
}

/// Path of the variant of `file_id` at the given size and format.
pub fn variant_path(root: &str, file_id: u128, width: u32, height: u32, format: Format) -> (r:
    String)
    ensures
        r@ == variant_path_of(root@, file_id, width, height, format),
{
    proof {
        reveal_strlit("/");
        reveal_strlit("x");
        reveal_strlit(".");
    }
    let id = uuid_string(file_id);
    let mut p = String::from_str(root);
    p.append("/");
    p.append(id.as_str());
    p.append("/");
    push_decimal(&mut p, width);
    p.append("x");
    push_decimal(&mut p, height);
    p.append("/");
    p.append(id.as_str());
    p.append(".");
    p.append(format.extension());
    p
}

/// Addressing is a function of its inputs: two computations of a variant's
/// path from the same file id, size and format give the same path.
pub proof fn lemma_variant_path_deterministic(
    root: Seq<char>,
    file_id: u128,
    width: u32,
    height: u32,
    format: Format,
    first: Seq<char>,
    second: Seq<char>,
)
    requires
        first == variant_path_of(root, file_id, width, height, format),
        second == variant_path_of(root, file_id, width, height, format),
    ensures
        first == second,
{
}

} // verus!
