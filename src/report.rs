use colored::Colorize;
use vstd::prelude::*;

verus! {

/// Nanoseconds in one second.
pub const NANOS_PER_SEC: u64 = 1_000_000_000;

/// Ten to the power `n`.
pub open spec fn pow10(n: nat) -> nat
    decreases n,
{
    if n == 0 {
        1
    } else {
        10 * pow10((n - 1) as nat)
    }
}

/// The character of the decimal digit `d`.
pub open spec fn digit_char(d: nat) -> char {
    if d == 0 {
        '0'
    } else if d == 1 {
        '1'
    } else if d == 2 {
        '2'
    } else if d == 3 {
        '3'
    } else if d == 4 {
        '4'
    } else if d == 5 {
        '5'
    } else if d == 6 {
        '6'
    } else if d == 7 {
        '7'
    } else if d == 8 {
        '8'
    } else {
        '9'
    }
}

/// `n` in decimal, without leading zeros (`0` is written `"0"`).
pub open spec fn decimal(n: nat) -> Seq<char>
    decreases n,
{
    if n < 10 {
        seq![digit_char(n)]
    } else {
        decimal(n / 10).push(digit_char(n % 10))
    }
}

/// The last `width` decimal digits of `n`, padded with leading zeros.
pub open spec fn padded(n: nat, width: nat) -> Seq<char>
    decreases width,
{
    if width == 0 {
        Seq::empty()
    } else {
        padded(n / 10, (width - 1) as nat).push(digit_char(n % 10))
    }
}

/// A duration of `nanos` nanoseconds written in seconds with `places`
/// decimals, rounded half up: `fixed_point(1_500_000_000, 2)` is `"1.50"`.
pub open spec fn fixed_point(nanos: nat, places: nat) -> Seq<char> {
    let unit = pow10((9 - places) as nat);
    let rounded = (nanos + unit / 2) / unit;
    decimal(rounded / pow10(places)) + seq!['.'] + padded(rounded % pow10(places), places)
}

/// The one-character string of the digit `d`.
fn digit_str(d: u64) -> (r: &'static str)
    requires
        d < 10,
    ensures
        r@ == seq![digit_char(d as nat)],
{
    proof {
        reveal_strlit("0");
        reveal_strlit("1");
        reveal_strlit("2");
        reveal_strlit("3");
        reveal_strlit("4");
        reveal_strlit("5");
        reveal_strlit("6");
        reveal_strlit("7");
        reveal_strlit("8");
        reveal_strlit("9");
    }
    match d {
        0 => "0",
        1 => "1",
        2 => "2",
        3 => "3",
        4 => "4",
        5 => "5",
        6 => "6",
        7 => "7",
        8 => "8",
        _ => "9",
    }
}

/// Appends `n` in decimal to `out`.
fn push_decimal(out: &mut String, n: u64)
    ensures
        final(out)@ == old(out)@ + decimal(n as nat),
    decreases n,
{
    if n >= 10 {
        push_decimal(out, n / 10);
    }
    out.append(digit_str(n % 10));
    assert(final(out)@ =~= old(out)@ + decimal(n as nat));
}

/// Appends the last `width` digits of `n`, zero-padded, to `out`.
fn push_padded(out: &mut String, n: u64, width: u64)
    ensures
        final(out)@ == old(out)@ + padded(n as nat, width as nat),
    decreases width,
{
    if width > 0 {
        push_padded(out, n / 10, width - 1);
        out.append(digit_str(n % 10));
        assert(final(out)@ =~= old(out)@ + padded(n as nat, width as nat));
    } else {
        assert(final(out)@ =~= old(out)@ + padded(n as nat, width as nat));
    }
}

/// Ten to the power `n`, for `n` up to nine.
fn pow10_exec(n: u64) -> (r: u64)
    requires
        n <= 9,
    ensures
        r as nat == pow10(n as nat),
        1 <= r <= NANOS_PER_SEC,
    decreases n,
{
    if n == 0 {
        1
    } else {
        let p = pow10_exec(n - 1);
        assert(p <= 100_000_000) by {
            reveal_with_fuel(pow10, 10);
        }
        10 * p
    }
}

/// Rounding `n / u` half up, computed from the quotient and the remainder
/// without forming `n + u / 2`.
proof fn lemma_round_half_up(n: nat, u: nat)
    requires
        u > 0,
    ensures
        (n + u / 2) / u == if n % u >= u - u / 2 { n / u + 1 } else { n / u },
        n % u >= u - u / 2 ==> u >= 2 && n / u < n,
{
    let q = n / u;
    let r = n % u;
    vstd::arithmetic::div_mod::lemma_fundamental_div_mod(n as int, u as int);
    assert(n + u / 2 == q * u + (r + u / 2));
    if r >= u - u / 2 {
        assert(n + u / 2 == (q + 1) * u + (r + u / 2 - u)) by (nonlinear_arith)
            requires
                n + u / 2 == q * u + (r + u / 2),
        ;
        vstd::arithmetic::div_mod::lemma_fundamental_div_mod_converse(
            (n + u / 2) as int,
            u as int,
            (q + 1) as int,
            (r + u / 2 - u) as int,
        );
        assert(u >= 2);
        assert(q < n) by (nonlinear_arith)
            requires
                u >= 2,
                n == q * u + r,
                r >= 1,
        ;
    } else {
        vstd::arithmetic::div_mod::lemma_fundamental_div_mod_converse(
            (n + u / 2) as int,
            u as int,
            q as int,
            (r + u / 2) as int,
        );
    }
}

/// Writes a duration of `nanos` nanoseconds in seconds with `places`
/// decimals, from one to nine, rounded half up.
pub fn format_seconds(nanos: u64, places: u64) -> (r: String)
    requires
        1 <= places <= 9,
    ensures
        r@ == fixed_point(nanos as nat, places as nat),
{
    let unit = pow10_exec(9 - places);
    let scale = pow10_exec(places);
    let q = nanos / unit;
    let rem = nanos % unit;
    proof {
        lemma_round_half_up(nanos as nat, unit as nat);
    }
    let rounded: u64 = if rem >= unit - unit / 2 { q + 1 } else { q };
    let mut out = String::new();
    push_decimal(&mut out, rounded / scale);
    out.append(".");
    push_padded(&mut out, rounded % scale, places);
    proof {
        reveal_strlit(".");
    }
    assert(out@ =~= fixed_point(nanos as nat, places as nat));
    out
}

/// The escape sequence that ends a terminal style.
pub open spec fn reset_code() -> Seq<char> {
    seq!['\x1B', '[', '0', 'm']
}

/// Whether `s` holds the character ESC, which starts a terminal escape sequence.
pub open spec fn has_escape(s: Seq<char>) -> bool {
    exists|i: int| 0 <= i < s.len() && s[i] == '\x1B'
}

/// Relies on colored's `Colorize::bold`, `Colorize::truecolor` and the
/// `Display` of `ColoredString`: the text comes out unchanged when colors are
/// off, else after a style prefix and followed by the reset sequence. Which
/// one depends on the environment and on whether stdout is a terminal. A
/// label without ESC holds no reset sequence, which colored would re-style.
#[verifier::external_body]
fn bold_truecolor(label: &str, red: u8, green: u8, blue: u8) -> (r: String)
    requires
        !has_escape(label@),
    ensures
        r@ == label@ || exists|p: Seq<char>| r@ == p + label@ + reset_code(),
{
    label.bold().truecolor(red, green, blue).to_string()
}

/// How the labels of a report are drawn.
#[derive(Clone, Copy, Debug, PartialEq, Eq, Structural)]
pub enum ReportStyle {
    /// Plain text, for files and pipes.
    Plain,
    /// Bold and colored where the terminal allows it.
    Styled,
}

/// Whether `shown` is how `style` draws the label `plain`.
pub open spec fn shows_label(style: ReportStyle, plain: Seq<char>, shown: Seq<char>) -> bool {
    match style {
        ReportStyle::Plain => shown == plain,
        ReportStyle::Styled => shown == plain || exists|p: Seq<char>| shown == p + plain + reset_code(),
    }
}

/// The lines that report no CPU time, after the `real` line.
pub open spec fn zero_lines(user_label: Seq<char>, sys_label: Seq<char>, posix: bool) -> Seq<char> {
    if posix {
        user_label + " 0.00\n"@ + sys_label + " 0.00\n"@
    } else {
        user_label + "\t0m0.000s\n"@ + sys_label + "\t0m0.000s\n"@
    }
}

/// The report for an elapsed time of `nanos` nanoseconds, with the three
/// labels drawn as given. The POSIX layout writes seconds with two decimals;
/// the default one starts with a blank line and writes `0m` and seconds with
/// three decimals followed by `s`.
pub open spec fn report_text(
    real_label: Seq<char>,
    user_label: Seq<char>,
    sys_label: Seq<char>,
    nanos: nat,
    posix: bool,
) -> Seq<char> {
    if posix {
        real_label + " "@ + fixed_point(nanos, 2) + "\n"@ + zero_lines(user_label, sys_label, posix)
    } else {
        "\n"@ + real_label + "\t0m"@ + fixed_point(nanos, 3) + "s\n"@ + zero_lines(user_label, sys_label, posix)
    }
}

/// Whatever the elapsed time, a report ends with the `user` and `sys` lines
/// that read zero: `0.00` in the POSIX layout, `0m0.000s` in the default one.
pub proof fn law_cpu_times_are_zero(
    real_label: Seq<char>,
    user_label: Seq<char>,
    sys_label: Seq<char>,
    nanos: nat,
    posix: bool,
)
    ensures
        exists|head: Seq<char>|
            report_text(real_label, user_label, sys_label, nanos, posix) == head + zero_lines(
                user_label,
                sys_label,
                posix,
            ),
{
    let head = if posix {
        real_label + " "@ + fixed_point(nanos, 2) + "\n"@
    } else {
        "\n"@ + real_label + "\t0m"@ + fixed_point(nanos, 3) + "s\n"@
    };
    assert(report_text(real_label, user_label, sys_label, nanos, posix) == head + zero_lines(
        user_label,
        sys_label,
        posix,
    ));
}

/// Whether `text` is a report of `nanos` nanoseconds drawn in `style`.
pub open spec fn is_report(text: Seq<char>, nanos: nat, posix: bool, style: ReportStyle) -> bool {
    exists|real_label: Seq<char>, user_label: Seq<char>, sys_label: Seq<char>|
        shows_label(style, "real"@, real_label) && shows_label(style, "user"@, user_label) && shows_label(
            style,
            "sys"@,
            sys_label,
        ) && text == report_text(real_label, user_label, sys_label, nanos, posix)
}

/// Renders the report of `nanos` nanoseconds with the labels given as they
/// are to be shown.
pub fn format_report_with(real_label: &str, user_label: &str, sys_label: &str, nanos: u64, posix: bool) -> (r:
    String)
    ensures
        r@ == report_text(real_label@, user_label@, sys_label@, nanos as nat, posix),
{
    let mut out = String::new();
    if posix {
        out.append(real_label);
        out.append(" ");
        out.append(format_seconds(nanos, 2).as_str());
        out.append("\n");
        out.append(user_label);
        out.append(" 0.00\n");
        out.append(sys_label);
        out.append(" 0.00\n");
    } else {
        out.append("\n");
        out.append(real_label);
        out.append("\t0m");
        out.append(format_seconds(nanos, 3).as_str());
        out.append("s\n");
        out.append(user_label);
        out.append("\t0m0.000s\n");
        out.append(sys_label);
        out.append("\t0m0.000s\n");
    }
    assert(out@ =~= report_text(real_label@, user_label@, sys_label@, nanos as nat, posix));
    out
}

/// The label `name` drawn in `style`, in the color given for the styled case.
fn draw_label(name: &str, style: ReportStyle, red: u8, green: u8, blue: u8) -> (r: String)
    requires
        !has_escape(name@),
    ensures
        shows_label(style, name@, r@),
{
    match style {
        ReportStyle::Plain => name.to_owned(),
        ReportStyle::Styled => bold_truecolor(name, red, green, blue),
    }
}

/// Renders the report of `nanos` nanoseconds in the given layout and style.
pub fn format_report(nanos: u64, posix: bool, style: ReportStyle) -> (r: String)
    ensures
        is_report(r@, nanos as nat, posix, style),
        style == ReportStyle::Plain ==> r@ == report_text(
            "real"@,
            "user"@,
            "sys"@,
            nanos as nat,
            posix,
        ),
{
    proof {
        reveal_strlit("real");
        reveal_strlit("user");
        reveal_strlit("sys");
    }
    let real_label = draw_label("real", style, 161, 178, 255);
    let user_label = draw_label("user", style, 209, 161, 255);
    let sys_label = draw_label("sys", style, 224, 255, 161);
    let r = format_report_with(real_label.as_str(), user_label.as_str(), sys_label.as_str(), nanos, posix);
    r
}

} // verus!
