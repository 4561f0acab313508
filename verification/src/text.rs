//! Verified plain-text formatting: decimal and hexadecimal rendering,
//! column padding, and the report's line shapes.

use vstd::prelude::*;
use vstd::string::*;

verus! {

/// Timestamps at or past this second (year 10000) cannot be rendered.
pub const RFC3339_MAX: u64 = 253_402_300_800;

/// The seconds-precision RFC 3339 rendering of an epoch-seconds value,
/// as `humantime` defines it.
pub uninterp spec fn rfc3339_of(secs: u64) -> Seq<char>;

/// The character for one decimal digit.
pub open spec fn spec_digit_char(d: nat) -> char {
    if d == 0 {
        '0'
    } else if d == 1 {
        '1'
    } else if d == 2 {
        '2'
    } else if d == 3 {
        '3'
    } else if d == 4 {
        '4'
    } else if d == 5 {
        '5'
    } else if d == 6 {
        '6'
    } else if d == 7 {
        '7'
    } else if d == 8 {
        '8'
    } else {
        '9'
    }
}

/// The character for one hexadecimal digit.
pub open spec fn spec_hex_char(d: nat) -> char {
    if d < 10 {
        spec_digit_char(d)
    } else if d == 10 {
        'a'
    } else if d == 11 {
        'b'
    } else if d == 12 {
        'c'
    } else if d == 13 {
        'd'
    } else if d == 14 {
        'e'
    } else {
        'f'
    }
}

/// `n` in decimal, without padding.
pub open spec fn spec_dec(n: nat) -> Seq<char>
    decreases n,
{
    if n < 10 {
        seq![spec_digit_char(n)]
    } else {
        spec_dec(n / 10).push(spec_digit_char(n % 10))
    }
}

/// The lowest `k` hexadecimal digits of `n`, most significant first.
pub open spec fn spec_hex(n: nat, k: nat) -> Seq<char>
    decreases k,
{
    if k == 0 {
        Seq::empty()
    } else {
        spec_hex(n / 16, (k - 1) as nat).push(spec_hex_char(n % 16))
    }
}

/// `n` as a full 16-digit hexadecimal word.
pub open spec fn spec_hex16(n: u64) -> Seq<char> {
    spec_hex(n as nat, 16)
}

/// `s` padded on the right with `c` up to width `w`; a longer `s` stays as
/// it is.
pub open spec fn spec_pad_right(s: Seq<char>, c: char, w: nat) -> Seq<char> {
    if s.len() >= w {
        s
    } else {
        s + Seq::new((w - s.len()) as nat, |i: int| c)
    }
}

/// `n` in decimal, padded on the left with zeroes up to width `w`.
pub open spec fn spec_zero_pad(n: nat, w: nat) -> Seq<char> {
    let d = spec_dec(n);
    if d.len() >= w {
        d
    } else {
        Seq::new((w - d.len()) as nat, |i: int| '0') + d
    }
}

/// A ratio given in hundredths of a percent, rendered as a percentage with
/// two fractional digits, `66.67%` style.
pub open spec fn spec_percent(h: nat) -> Seq<char> {
    spec_dec(h / 100) + "."@ + spec_zero_pad(h % 100, 2) + "%"@
}

/// One key/value line of the report: the key padded to 20 columns, a colon,
/// and the value padded to 78 columns.
pub open spec fn spec_key_value(k: Seq<char>, v: Seq<char>) -> Seq<char> {
    spec_pad_right(k, ' ', 20) + ": "@ + spec_pad_right(v, ' ', 78) + "\n"@
}

/// One section divider: ten `=`, then the title between spaces, padded
/// with `=` to 90 columns.
pub open spec fn spec_barrier(t: Seq<char>) -> Seq<char> {
    "=========="@ + spec_pad_right(" "@ + t + " "@, '=', 90) + "\n"@
}

/// `spec_dec` yields at least one digit, and exactly one for `n < 10`.
pub proof fn lemma_dec_len(n: nat)
    ensures
        spec_dec(n).len() >= 1,
        n < 10 ==> spec_dec(n).len() == 1,
        n >= 10 ==> spec_dec(n).len() >= 2,
    decreases n,
{
    if n >= 10 {
        lemma_dec_len(n / 10);
    }
}

/// The string for one decimal digit.
pub fn digit_str(d: u64) -> (r: &'static str)
    requires
        d < 10,
    ensures
        r@ == seq![spec_digit_char(d as nat)],
{
    proof {
        reveal_strlit("0");
        reveal_strlit("1");
        reveal_strlit("2");
        reveal_strlit("3");
        reveal_strlit("4");
        reveal_strlit("5");
        reveal_strlit("6");
        reveal_strlit("7");
        reveal_strlit("8");
        reveal_strlit("9");
    }
    match d {
        0 => "0",
        1 => "1",
        2 => "2",
        3 => "3",
        4 => "4",
        5 => "5",
        6 => "6",
        7 => "7",
        8 => "8",
        _ => "9",
    }
}

/// The string for one hexadecimal digit.
pub fn hex_digit_str(d: u64) -> (r: &'static str)
    requires
        d < 16,
    ensures
        r@ == seq![spec_hex_char(d as nat)],
{
    proof {
        reveal_strlit("a");
        reveal_strlit("b");
        reveal_strlit("c");
        reveal_strlit("d");
        reveal_strlit("e");
        reveal_strlit("f");
    }
    if d < 10 {
        digit_str(d)
    } else {
        match d {
            10 => "a",
            11 => "b",
            12 => "c",
            13 => "d",
            14 => "e",
            _ => "f",
        }
    }
}

/// Renders `n` in decimal.
pub fn dec_u64(n: u64) -> (r: String)
    ensures
        r@ == spec_dec(n as nat),
    decreases n,
{
    if n < 10 {
        digit_str(n).to_owned()
    } else {
        let mut s = dec_u64(n / 10);
        s.append(digit_str(n % 10));
        proof {
            assert(spec_dec(n as nat) =~= spec_dec((n / 10) as nat) + seq![
                spec_digit_char((n % 10) as nat),
            ]);
        }
        s
    }
}

/// Renders the lowest `k` hexadecimal digits of `n`, most significant first.
pub fn hex_digits(n: u64, k: usize) -> (r: String)
    ensures
        r@ == spec_hex(n as nat, k as nat),
    decreases k,
{
    if k == 0 {
        String::new()
    } else {
        let mut s = hex_digits(n / 16, k - 1);
        s.append(hex_digit_str(n % 16));
        proof {
            assert(spec_hex(n as nat, k as nat) =~= spec_hex((n / 16) as nat, (k - 1) as nat)
                + seq![spec_hex_char((n % 16) as nat)]);
        }
        s
    }
}

/// Renders `n` as a full 16-digit hexadecimal word.
pub fn hex16(n: u64) -> (r: String)
    ensures
        r@ == spec_hex16(n),
{
    hex_digits(n, 16)
}

/// Appends `n` copies of the single character `piece` to `f`.
pub fn append_times(f: &mut String, piece: &str, n: usize)
    requires
        piece@.len() == 1,
    ensures
        final(f)@ == old(f)@ + Seq::new(n as nat, |j: int| piece@[0]),
{
    let ghost start = f@;
    let mut i: usize = 0;
    while i < n
        invariant
            piece@.len() == 1,
            0 <= i <= n,
            f@ == start + Seq::new(i as nat, |j: int| piece@[0]),
        decreases n - i,
    {
        f.append(piece);
        proof {
            assert(start + Seq::new(i as nat, |j: int| piece@[0]) + piece@ =~= start + Seq::new(
                (i + 1) as nat,
                |j: int| piece@[0],
            ));
        }
        i = i + 1;
    }
}

/// Appends `s` to `f`, padded on the right with `pad` up to width `w`.
pub fn append_padded(f: &mut String, s: &str, pad: &str, w: usize)
    requires
        pad@.len() == 1,
    ensures
        final(f)@ == old(f)@ + spec_pad_right(s@, pad@[0], w as nat),
{
    let ghost start = f@;
    f.append(s);
    let len = s.unicode_len();
    if len < w {
        append_times(f, pad, w - len);
        proof {
            assert(f@ =~= start + spec_pad_right(s@, pad@[0], w as nat));
        }
    }
}

/// Renders a ratio in hundredths of a percent as a percentage with two
/// fractional digits.
pub fn percent_str(h: u64) -> (r: String)
    ensures
        r@ == spec_percent(h as nat),
{
    let mut s = dec_u64(h / 100);
    s.append(".");
    let frac = h % 100;
    if frac < 10 {
        s.append("0");
    }
    let fd = dec_u64(frac);
    s.append(fd.as_str());
    s.append("%");
    proof {
        reveal_strlit("0");
        lemma_dec_len(frac as nat);
        if frac < 10 {
            assert(seq!['0'] + spec_dec(frac as nat) =~= spec_zero_pad(frac as nat, 2));
            assert("0"@ =~= seq!['0']);
        } else {
            assert(spec_dec(frac as nat) =~= spec_zero_pad(frac as nat, 2));
        }
        assert(s@ =~= spec_percent(h as nat));
    }
    s
}

/// Appends one key/value line to `f`.
pub fn key_value_write(f: &mut String, title: &str, content: &str)
    ensures
        final(f)@ == old(f)@ + spec_key_value(title@, content@),
{
    let ghost start = f@;
    proof {
        reveal_strlit(" ");
    }
    append_padded(f, title, " ", 20);
    f.append(": ");
    append_padded(f, content, " ", 78);
    f.append("\n");
    proof {
        assert(f@ =~= start + spec_key_value(title@, content@));
    }
}

/// Appends one section divider with the given title to `f`.
pub fn barrier(f: &mut String, title: &str)
    ensures
        final(f)@ == old(f)@ + spec_barrier(title@),
{
    let ghost start = f@;
    f.append("==========");
    f.append(" ");
    f.append(title);
    f.append(" ");
    let len = title.unicode_len();
    proof {
        reveal_strlit(" ");
        reveal_strlit("=");
    }
    if len < usize::MAX - 2 && len + 2 < 90 {
        append_times(f, "=", 90 - (len + 2));
    }
    f.append("\n");
    proof {
        assert(" "@ + title@ + " "@ =~= " "@.add(title@).add(" "@));
        if title@.len() + 2 < 90 {
            assert((" "@ + title@ + " "@).len() == title@.len() + 2);
            assert(f@ =~= start + spec_barrier(title@));
        } else {
            assert(f@ =~= start + spec_barrier(title@));
        }
    }
}

/// Relies on `humantime::format_rfc3339_seconds`: the UTC civil time of
/// the given instant, a pure function of the whole seconds alone. Its
/// `Display` rejects times at or past year 10000, hence the bound.
#[verifier::external_body]
pub(crate) fn rfc3339_seconds(secs: u64) -> (r: String)
    requires
        secs < RFC3339_MAX,
    ensures
        r@ == rfc3339_of(secs),
{
    let t = std::time::UNIX_EPOCH + std::time::Duration::from_secs(secs);
    format!("{}", humantime::format_rfc3339_seconds(t))
}

} // verus!
