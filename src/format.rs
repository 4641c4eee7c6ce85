use vstd::prelude::*;

verus! {

/// The number of units a byte count can be scaled to, past bytes: KB up to EB.
pub const LARGEST_UNIT: u64 = 6;

/// `1024` raised to the power `k`.
pub open spec fn pow1024(k: nat) -> nat
    decreases k,
{
    if k == 0 {
        1
    } else {
        1024 * pow1024((k - 1) as nat)
    }
}

/// The unit a byte count `b` is shown in, when scaling starts at unit `u`: one
/// step up for each further factor of 1024 in `b`, stopping at EB.
pub open spec fn unit_from(b: nat, u: nat) -> nat
    decreases LARGEST_UNIT - u,
{
    if u < LARGEST_UNIT && b >= pow1024(u + 1) {
        unit_from(b, u + 1)
    } else {
        u
    }
}

/// The unit index of `b`: 0 for B, 1 for KB, up to 6 for EB.
pub open spec fn unit_index(b: nat) -> nat {
    unit_from(b, 0)
}

/// `b` divided by `1024^u`, in tenths, rounded to the nearest tenth with ties
/// going to the even tenth.
pub open spec fn tenths(b: nat, u: nat) -> nat {
    let d = pow1024(u);
    let q = (10 * b) / d;
    let r = (10 * b) % d;
    if 2 * r > d || (2 * r == d && q % 2 == 1) {
        q + 1
    } else {
        q
    }
}

/// The character of the decimal digit `d`.
pub open spec fn digit_char(d: nat) -> char {
    ((48 + d % 10) as u32) as char
}

/// The decimal digits of `n`, with no leading zero.
pub open spec fn decimal(n: nat) -> Seq<char>
    decreases n,
{
    if n < 10 {
        seq![digit_char(n)]
    } else {
        decimal(n / 10).push(digit_char(n % 10))
    }
}

/// The name of unit `u`.
pub open spec fn unit_name(u: nat) -> Seq<char> {
    if u == 0 {
        seq!['B']
    } else if u == 1 {
        seq!['K', 'B']
    } else if u == 2 {
        seq!['M', 'B']
    } else if u == 3 {
        seq!['G', 'B']
    } else if u == 4 {
        seq!['T', 'B']
    } else if u == 5 {
        seq!['P', 'B']
    } else {
        seq!['E', 'B']
    }
}

/// `"<whole>.<tenth> <unit>"` for `b` bytes.
pub open spec fn size_text(b: nat) -> Seq<char> {
    let u = unit_index(b);
    let t = tenths(b, u);
    decimal(t / 10) + seq!['.', digit_char(t % 10), ' '] + unit_name(u)
}

/// The literal of one decimal digit.
fn digit_str(d: u64) -> (r: &'static str)
    requires
        d < 10,
    ensures
        r@ == seq![digit_char(d as nat)],
{
    if d == 0 {
        proof { reveal_strlit("0"); }
        "0"
    } else if d == 1 {
        proof { reveal_strlit("1"); }
        "1"
    } else if d == 2 {
        proof { reveal_strlit("2"); }
        "2"
    } else if d == 3 {
        proof { reveal_strlit("3"); }
        "3"
    } else if d == 4 {
        proof { reveal_strlit("4"); }
        "4"
    } else if d == 5 {
        proof { reveal_strlit("5"); }
        "5"
    } else if d == 6 {
        proof { reveal_strlit("6"); }
        "6"
    } else if d == 7 {
        proof { reveal_strlit("7"); }
        "7"
    } else if d == 8 {
        proof { reveal_strlit("8"); }
        "8"
    } else {
        proof { reveal_strlit("9"); }
        "9"
    }
}

/// Appends the decimal digits of `n` to `s`.
pub fn push_decimal(s: &mut String, n: u128)
    ensures
        final(s)@ == old(s)@ + decimal(n as nat),
    decreases n,
{
    if n >= 10 {
        push_decimal(s, n / 10);
    }
    s.append(digit_str((n % 10) as u64));
    assert(s@ =~= old(s)@ + decimal(n as nat));
}

/// The literal naming unit `u`.
fn unit_str(u: u64) -> (r: &'static str)
    requires
        u <= LARGEST_UNIT,
    ensures
        r@ == unit_name(u as nat),
{
    if u == 0 {
        proof { reveal_strlit("B"); }
        "B"
    } else if u == 1 {
        proof { reveal_strlit("KB"); }
        "KB"
    } else if u == 2 {
        proof { reveal_strlit("MB"); }
        "MB"
    } else if u == 3 {
        proof { reveal_strlit("GB"); }
        "GB"
    } else if u == 4 {
        proof { reveal_strlit("TB"); }
        "TB"
    } else if u == 5 {
        proof { reveal_strlit("PB"); }
        "PB"
    } else {
        proof { reveal_strlit("EB"); }
        "EB"
    }
}

/// `1024^k` grows with `k`.
proof fn lemma_pow1024_monotone(j: nat, k: nat)
    requires
        j <= k,
    ensures
        pow1024(j) <= pow1024(k),
    decreases k,
{
    if j < k {
        lemma_pow1024_monotone(j, (k - 1) as nat);
    }
}

/// Every count of at least `1024^6` bytes is shown in EB, the largest unit,
/// however far it exceeds it.
pub proof fn lemma_largest_unit(b: nat)
    requires
        b >= pow1024(6),
    ensures
        unit_index(b) == LARGEST_UNIT,
{
    reveal_with_fuel(unit_from, 7);
    lemma_pow1024_monotone(1, 6);
    lemma_pow1024_monotone(2, 6);
    lemma_pow1024_monotone(3, 6);
    lemma_pow1024_monotone(4, 6);
    lemma_pow1024_monotone(5, 6);
}

/// Renders a byte count as `"<value> <unit>"`: the count divided by 1024 once
/// for each step from B up through KB, MB, GB, TB, PB to EB, taking a step
/// while the value is at least 1024 and a larger unit remains, and shown with
/// one fractional digit.
pub fn human_readable_size(bytes: u64) -> (r: String)
    ensures
        r@ == size_text(bytes as nat),
{
    let mut unit: u64 = 0;
    let mut divisor: u128 = 1;
    while unit < LARGEST_UNIT && (bytes as u128) >= divisor * 1024
        invariant
            unit <= LARGEST_UNIT,
            divisor == pow1024(unit as nat),
            divisor <= 0x1000_0000_0000_0000,
            unit_from(bytes as nat, unit as nat) == unit_index(bytes as nat),
        decreases LARGEST_UNIT - unit,
    {
        proof {
            reveal_with_fuel(pow1024, 7);
        }
        divisor = divisor * 1024;
        unit = unit + 1;
        proof {
            lemma_pow1024_monotone(unit as nat, 6);
        }
    }
    proof {
        reveal_with_fuel(pow1024, 7);
        lemma_pow1024_monotone(unit as nat, 6);
    }
    let scaled: u128 = (bytes as u128) * 10;
    let q: u128 = scaled / divisor;
    let rem: u128 = scaled % divisor;
    let t: u128 = if 2 * rem > divisor || (2 * rem == divisor && q % 2 == 1) {
        q + 1
    } else {
        q
    };
    assert(t == tenths(bytes as nat, unit as nat));
    let mut s = String::new();
    push_decimal(&mut s, t / 10);
    proof { reveal_strlit("."); reveal_strlit(" "); }
    s.append(".");
    s.append(digit_str((t % 10) as u64));
    s.append(" ");
    s.append(unit_str(unit));
    assert(s@ =~= size_text(bytes as nat));
    s
}

/// What the measured path turned out to be.
#[derive(Clone, Copy, Debug, PartialEq, Eq, Structural)]
pub enum TargetKind {
    /// A regular file, measured by its own length.
    File,
    /// A directory, measured by walking it.
    Directory,
}

/// The word that opens the report for a target of kind `k`.
pub open spec fn kind_word(k: TargetKind) -> Seq<char> {
    match k {
        TargetKind::File => "File"@,
        TargetKind::Directory => "Directory"@,
    }
}

/// `<Kind> '<path>' has <size text> (<bytes> bytes)`.
pub open spec fn report_text(k: TargetKind, path: Seq<char>, bytes: nat) -> Seq<char> {
    kind_word(k) + " '"@ + path + "' has "@ + size_text(bytes) + " ("@ + decimal(bytes)
        + " bytes)"@
}

/// The one line reported for a file or directory of `bytes` bytes at `path`:
/// its kind, the path in single quotes, the readable size and the exact count.
pub fn report_line(kind: TargetKind, path: &str, bytes: u64) -> (r: String)
    ensures
        r@ == report_text(kind, path@, bytes as nat),
{
    let mut s = String::new();
    match kind {
        TargetKind::File => s.append("File"),
        TargetKind::Directory => s.append("Directory"),
    }
    s.append(" '");
    s.append(path);
    s.append("' has ");
    let readable = human_readable_size(bytes);
    s.append(readable.as_str());
    s.append(" (");
    push_decimal(&mut s, bytes as u128);
    s.append(" bytes)");
    assert(s@ =~= report_text(kind, path@, bytes as nat));
    s
}

} // verus!
