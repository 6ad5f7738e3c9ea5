//! Volume identifiers: 128-bit GUIDs and their text.
//!
//! A GUID's text is 32 hexadecimal digits in groups of 8, 4, 4, 4 and 12,
//! joined by `-`. A volume may be named by that bare text, by the text in
//! braces, or by `Volume{...}`; all three give the same identifier.
use vstd::prelude::*;
use crate::error::CimError;
use crate::text::{chars_of, starts_with_at, string_from_chars, strip_prefix_all};

verus! {

pub open spec fn is_hex_digit(c: char) -> bool {
    ('0' <= c && c <= '9') || ('a' <= c && c <= 'f') || ('A' <= c && c <= 'F')
}

pub open spec fn hex_digit_value(c: char) -> int {
    if '0' <= c && c <= '9' {
        c as int - '0' as int
    } else if 'a' <= c && c <= 'f' {
        c as int - 'a' as int + 10
    } else {
        c as int - 'A' as int + 10
    }
}

/// The positions of the dashes in a GUID's text.
pub open spec fn is_dash_position(p: int) -> bool {
    p == 8 || p == 13 || p == 18 || p == 23
}

/// `t` is the bare text of a GUID, in either case.
pub open spec fn is_guid_text(t: Seq<char>) -> bool {
    &&& t.len() == 36
    &&& forall|p: int|
        0 <= p < 36 ==> if is_dash_position(p) {
            t[p] == '-'
        } else {
            is_hex_digit(t[p])
        }
}

/// The 32 digits of a GUID's text, in order.
pub open spec fn guid_digits(t: Seq<char>) -> Seq<char> {
    t.subrange(0, 8) + t.subrange(9, 13) + t.subrange(14, 18) + t.subrange(19, 23) + t.subrange(
        24,
        36,
    )
}

/// The number that hexadecimal digits spell, most significant first.
pub open spec fn hex_value(d: Seq<char>) -> int
    decreases d.len(),
{
    if d.len() == 0 {
        0
    } else {
        hex_value(d.drop_last()) * 16 + hex_digit_value(d.last())
    }
}

/// The identifier that a GUID's text spells.
pub open spec fn guid_text_value(t: Seq<char>) -> u128 {
    hex_value(guid_digits(t)) as u128
}

/// Sixteen to the power `n`.
pub open spec fn pow16(n: nat) -> nat
    decreases n,
{
    if n == 0 {
        1
    } else {
        16 * pow16((n - 1) as nat)
    }
}

/// The `i`-th hexadecimal digit of `id`, most significant first.
pub open spec fn nibble(id: u128, i: int) -> int {
    (id as int / pow16((31 - i) as nat) as int) % 16
}

/// The upper-case hexadecimal digit of `v`, below sixteen.
pub open spec fn upper_hex_char(v: int) -> char {
    if v < 10 {
        ((v + 48) as u8) as char
    } else {
        ((v + 55) as u8) as char
    }
}

/// Which digit of the identifier stands at position `p` of its text.
pub open spec fn digit_at(p: int) -> int {
    if p < 8 {
        p
    } else if p < 13 {
        p - 1
    } else if p < 18 {
        p - 2
    } else if p < 23 {
        p - 3
    } else {
        p - 4
    }
}

/// The text of `id`: upper-case digits, 8-4-4-4-12.
pub open spec fn guid_text_of(id: u128) -> Seq<char> {
    Seq::new(
        36,
        |p: int|
            if is_dash_position(p) {
                '-'
            } else {
                upper_hex_char(nibble(id, digit_at(p)))
            },
    )
}

/// Relies on windows' `GUID: From<&str>`, which panics unless the text has 36
/// bytes, hexadecimal digits and dashes at their places, and on `GUID::to_u128`:
/// the identifier is the number that the 32 digits spell.
#[verifier::external_body]
fn guid_from_text(t: &str) -> (r: u128)
    requires
        is_guid_text(t@),
    ensures
        r == guid_text_value(t@),
{
    windows::core::GUID::from(t).to_u128()
}

/// Relies on the `Debug` format of windows' `GUID` (with `GUID::from_u128`):
/// upper-case digits, zero-padded, in groups of 8, 4, 4, 4 and 12.
#[verifier::external_body]
fn guid_text(id: u128) -> (r: String)
    ensures
        r@ == guid_text_of(id),
{
    format!("{:?}", windows::core::GUID::from_u128(id))
}

pub open spec fn volume_prefix() -> Seq<char> {
    seq!['V', 'o', 'l', 'u', 'm', 'e', '{']
}

/// `t` with every trailing `c` removed.
pub open spec fn strip_suffix_all(t: Seq<char>, c: char) -> Seq<char>
    decreases t.len(),
{
    if t.len() > 0 && t.last() == c {
        strip_suffix_all(t.drop_last(), c)
    } else {
        t
    }
}

/// The bare GUID text inside a volume's name: leading `Volume{` and `{`, and
/// trailing `}`, removed.
pub open spec fn bare_volume_text(t: Seq<char>) -> Seq<char> {
    strip_suffix_all(strip_prefix_all(strip_prefix_all(t, volume_prefix()), seq!['{']), '}')
}

/// The identifier that a volume's name gives, if any.
pub open spec fn volume_id_of(t: Seq<char>) -> Option<u128> {
    if is_guid_text(bare_volume_text(t)) {
        Some(guid_text_value(bare_volume_text(t)))
    } else {
        None
    }
}

fn is_guid_text_exec(t: &Vec<char>, from: usize, to: usize) -> (r: bool)
    requires
        from <= to <= t@.len(),
    ensures
        r == is_guid_text(t@.subrange(from as int, to as int)),
{
    let ghost u = t@.subrange(from as int, to as int);
    if to - from != 36 {
        return false;
    }
    let mut p: usize = 0;
    while p < 36
        invariant
            to - from == 36,
            from <= to <= t@.len(),
            u == t@.subrange(from as int, to as int),
            p <= 36,
            forall|q: int|
                0 <= q < p ==> if is_dash_position(q) {
                    u[q] == '-'
                } else {
                    is_hex_digit(u[q])
                },
        decreases 36 - p,
    {
        let c = t[from + p];
        assert(c == u[p as int]);
        if p == 8 || p == 13 || p == 18 || p == 23 {
            if c != '-' {
                return false;
            }
        } else if !(('0' <= c && c <= '9') || ('a' <= c && c <= 'f') || ('A' <= c && c <= 'F')) {
            return false;
        }
        p += 1;
    }
    true
}

/// Reads a volume's identifier from its name: `Volume{GUID}`, `{GUID}` or the
/// bare GUID text. Any other text gives `InvalidVolumeId`.
pub fn parse_volume_id(text: &str) -> (r: Result<u128, CimError>)
    ensures
        volume_id_of(text@) matches Some(id) ==> r == Ok::<u128, CimError>(id),
        volume_id_of(text@) is None ==> r == Err::<u128, CimError>(CimError::InvalidVolumeId),
{
    let t = chars_of(text);
    let ghost tv = t@;
    let prefix: Vec<char> = vec!['V', 'o', 'l', 'u', 'm', 'e', '{'];
    assert(prefix@ =~= volume_prefix());
    assert(volume_prefix().len() == 7);
    let n = t.len();
    let mut i: usize = 0;
    assert(tv.skip(0) =~= tv);
    while starts_with_at(&t, i, &prefix)
        invariant
            i <= tv.len(),
            n == tv.len(),
            tv == t@,
            prefix@ == volume_prefix(),
            volume_prefix().len() == 7,
            strip_prefix_all(tv, volume_prefix()) == strip_prefix_all(tv.skip(i as int), volume_prefix()),
        decreases tv.len() - i,
    {
        assert(tv.skip(i as int).skip(7) =~= tv.skip(i + 7));
        i += 7;
    }
    let ghost after_volume = tv.skip(i as int);
    assert(strip_prefix_all(tv, volume_prefix()) == after_volume);
    while i < t.len() && t[i] == '{'
        invariant
            i <= tv.len(),
            tv == t@,
            strip_prefix_all(after_volume, seq!['{']) == strip_prefix_all(tv.skip(i as int), seq!['{']),
        decreases tv.len() - i,
    {
        assert(tv.skip(i as int).take(1) =~= seq!['{']);
        assert(tv.skip(i as int).skip(1) =~= tv.skip(i + 1));
        i += 1;
    }
    proof {
        if tv.skip(i as int).len() >= 1 {
            assert(tv.skip(i as int).take(1)[0] == tv[i as int]);
            assert(seq!['{'][0] == '{');
            assert(tv.skip(i as int).take(1) != seq!['{']);
        }
        assert(strip_prefix_all(tv.skip(i as int), seq!['{']) == tv.skip(i as int));
    }
    let ghost after_braces = tv.skip(i as int);
    assert(strip_prefix_all(after_volume, seq!['{']) == after_braces);
    assert(tv.subrange(i as int, tv.len() as int) =~= after_braces);
    let mut j: usize = t.len();
    while j > i && t[j - 1] == '}'
        invariant
            i <= j <= tv.len(),
            tv == t@,
            after_braces == tv.skip(i as int),
            strip_suffix_all(after_braces, '}') == strip_suffix_all(tv.subrange(i as int, j as int), '}'),
        decreases j,
    {
        assert(tv.subrange(i as int, j as int).drop_last() =~= tv.subrange(i as int, j - 1));
        j -= 1;
    }
    assert(strip_suffix_all(after_braces, '}') == tv.subrange(i as int, j as int));
    assert(bare_volume_text(tv) == tv.subrange(i as int, j as int));
    if !is_guid_text_exec(&t, i, j) {
        return Err(CimError::InvalidVolumeId);
    }
    let bare = string_from_chars(&t.as_slice()[i..j]);
    Ok(guid_from_text(bare.as_str()))
}

/// The text of a volume identifier: upper-case digits, 8-4-4-4-12.
pub fn volume_id_text(id: u128) -> (r: String)
    ensures
        r@ == guid_text_of(id),
{
    guid_text(id)
}

/// The three names of a volume, `Volume{GUID}`, `{GUID}` and the bare GUID
/// text, give the same identifier: the one that the text spells.
pub proof fn lemma_volume_forms(t: Seq<char>)
    requires
        is_guid_text(t),
    ensures
        volume_id_of(t) == Some(guid_text_value(t)),
        volume_id_of(seq!['{'] + t + seq!['}']) == Some(guid_text_value(t)),
        volume_id_of(volume_prefix() + t + seq!['}']) == Some(guid_text_value(t)),
{
    let vp = volume_prefix();
    let brace = seq!['{'];
    assert(is_hex_digit(t[0]));
    assert(is_hex_digit(t[35]));
    // The bare text: no prefix to strip and no closing brace.
    lemma_no_prefix(t, vp);
    lemma_no_prefix(t, brace);
    assert(strip_suffix_all(t, '}') == t);
    // `{GUID}`.
    let b = brace + t + seq!['}'];
    assert(b[0] == '{');
    assert(b.take(7)[0] != vp[0]);
    assert(strip_prefix_all(b, vp) == b);
    assert(b.take(1) =~= brace);
    assert(b.skip(1) =~= t + seq!['}']);
    lemma_no_prefix(t + seq!['}'], brace);
    assert(strip_prefix_all(b, brace) == t + seq!['}']);
    assert((t + seq!['}']).drop_last() =~= t);
    assert(strip_suffix_all(t + seq!['}'], '}') == t);
    // `Volume{GUID}`.
    let v = vp + t + seq!['}'];
    assert(v.take(7) =~= vp);
    assert(v.skip(7) =~= t + seq!['}']);
    lemma_no_prefix(t + seq!['}'], vp);
    assert(strip_prefix_all(v, vp) == t + seq!['}']);
    assert(strip_prefix_all(t + seq!['}'], brace) == t + seq!['}']);
}

proof fn lemma_no_prefix(t: Seq<char>, p: Seq<char>)
    requires
        t.len() > 0,
        p.len() > 0,
        is_hex_digit(t[0]),
        p[0] == 'V' || p[0] == '{',
    ensures
        strip_prefix_all(t, p) == t,
{
    if t.len() >= p.len() {
        assert(t.take(p.len() as int)[0] != p[0]);
    }
}

proof fn lemma_upper_hex_char(v: int)
    requires
        0 <= v < 16,
    ensures
        is_hex_digit(upper_hex_char(v)),
        hex_digit_value(upper_hex_char(v)) == v,
{
}

proof fn lemma_pow16_positive(n: nat)
    ensures
        pow16(n) > 0,
    decreases n,
{
    if n > 0 {
        lemma_pow16_positive((n - 1) as nat);
    }
}

/// The digits of an identifier's text.
pub open spec fn id_digits(id: u128) -> Seq<char> {
    Seq::new(32, |i: int| upper_hex_char(nibble(id, i)))
}

proof fn lemma_hex_value_prefix(id: u128, k: int)
    requires
        0 <= k <= 32,
    ensures
        hex_value(id_digits(id).take(k)) == id as int / pow16((32 - k) as nat) as int,
    decreases k,
{
    let d = id_digits(id);
    if k == 0 {
        reveal_with_fuel(pow16, 33);
        assert(pow16(32) == 0x1_0000_0000_0000_0000_0000_0000_0000_0000nat);
        assert(d.take(0) =~= Seq::<char>::empty());
        vstd::arithmetic::div_mod::lemma_small_div_converse(id as int, pow16(32) as int);
        assert(id as int / pow16(32) as int == 0) by (nonlinear_arith)
            requires
                0 <= id < pow16(32),
        ;
    } else {
        lemma_hex_value_prefix(id, k - 1);
        assert(d.take(k).drop_last() =~= d.take(k - 1));
        let m = (32 - k) as nat;
        lemma_pow16_positive(m);
        let a = id as int / pow16(m) as int;
        assert(nibble(id, k - 1) == a % 16);
        lemma_upper_hex_char(a % 16);
        assert(pow16((m + 1) as nat) == pow16(m) * 16);
        vstd::arithmetic::div_mod::lemma_div_denominator(id as int, pow16(m) as int, 16);
        vstd::arithmetic::div_mod::lemma_fundamental_div_mod(a, 16);
        assert(hex_value(d.take(k)) == (a / 16) * 16 + a % 16);
        assert(id as int / pow16((m + 1) as nat) as int == a / 16);
        assert((32 - (k - 1)) as nat == m + 1);
    }
}

/// The text of an identifier reads back as that identifier, in each of the
/// three forms of a volume's name.
pub proof fn lemma_volume_text_round_trip(id: u128)
    ensures
        is_guid_text(guid_text_of(id)),
        guid_text_value(guid_text_of(id)) == id,
        volume_id_of(guid_text_of(id)) == Some(id),
        volume_id_of(seq!['{'] + guid_text_of(id) + seq!['}']) == Some(id),
        volume_id_of(volume_prefix() + guid_text_of(id) + seq!['}']) == Some(id),
{
    let t = guid_text_of(id);
    assert forall|p: int| 0 <= p < 36 && !is_dash_position(p) implies is_hex_digit(t[p]) by {
        lemma_pow16_positive((31 - digit_at(p)) as nat);
        lemma_upper_hex_char(nibble(id, digit_at(p)));
    }
    assert(is_guid_text(t));
    assert(guid_digits(t) =~= id_digits(id));
    lemma_hex_value_prefix(id, 32);
    assert(id_digits(id).take(32) =~= id_digits(id));
    assert(pow16(0) == 1);
    assert(id as int / 1 == id as int);
    assert(hex_value(id_digits(id)) == id as int);
    assert(hex_value(guid_digits(t)) == id as int);
    lemma_volume_forms(t);
}

} // verus!
