use vstd::prelude::*;
use crate::compare::{ComparisonResult, MismatchSample, Outcome};
use crate::summary::Summary;

verus! {

/// Relies on `String::push`: appends `c` to the end of `s`.
#[verifier::external_body]
fn push_char(s: &mut String, c: char)
    ensures
        final(s)@ == old(s)@.push(c),
{
    s.push(c)
}

/// Relies on `String::push_str`: appends `t` to the end of `s`.
#[verifier::external_body]
fn push_text(s: &mut String, t: &str)
    ensures
        final(s)@ == old(s)@ + t@,
{
    s.push_str(t)
}

/// The lower-case digit for `d` (below 16).
pub open spec fn digit_char(d: nat) -> char {
    if d < 10 {
        ((48 + d) as u8) as char
    } else {
        ((87 + d) as u8) as char
    }
}

/// `n` written in `base`, most significant digit first, padded with zeros
/// to at least `width` digits.
pub open spec fn digits(n: nat, base: nat, width: nat) -> Seq<char>
    decreases n + width,
    via digits_decreases
{
    if base < 2 || (n == 0 && width == 0) {
        Seq::empty()
    } else {
        let w = if width > 0 {
            (width - 1) as nat
        } else {
            0nat
        };
        digits(n / base, base, w).push(digit_char(n % base))
    }
}

/// Dividing by a base of at least two does not grow a number, and shrinks
/// a positive one.
proof fn lemma_div_shrinks(n: nat, base: nat)
    requires
        base >= 2,
    ensures
        n / base <= n,
        n > 0 ==> n / base < n,
{
    assert(n / base <= n) by (nonlinear_arith)
        requires
            base >= 2,
    ;
    assert(n > 0 ==> n / base < n) by (nonlinear_arith)
        requires
            base >= 2,
    ;
}

#[via_fn]
proof fn digits_decreases(n: nat, base: nat, width: nat) {
    if base >= 2 {
        lemma_div_shrinks(n, base);
    }
}

fn push_digits(out: &mut String, n: usize, base: usize, width: usize)
    requires
        2 <= base <= 16,
    ensures
        final(out)@ == old(out)@ + digits(n as nat, base as nat, width as nat),
    decreases n + width,
{
    if n == 0 && width == 0 {
        assert(old(out)@ + Seq::<char>::empty() =~= old(out)@);
        return;
    }
    let w: usize = if width > 0 {
        width - 1
    } else {
        0
    };
    proof {
        lemma_div_shrinks(n as nat, base as nat);
    }
    push_digits(out, n / base, base, w);
    let d = (n % base) as u8;
    let c: char = if d < 10 {
        (48u8 + d) as char
    } else {
        (87u8 + d) as char
    };
    push_char(out, c);
    proof {
        let prev = digits((n / base) as nat, base as nat, w as nat);
        assert(old(out)@ + prev.push(c) =~= (old(out)@ + prev).push(c));
    }
}


/// `n` in decimal.
pub open spec fn decimal(n: nat) -> Seq<char> {
    digits(n, 10, 1)
}

/// `n` in lower-case hexadecimal, at least `width` digits.
pub open spec fn hex(n: nat, width: nat) -> Seq<char> {
    digits(n, 16, width)
}

/// The line that gives the verdict on one file.
pub open spec fn status_line_spec(name: Seq<char>, o: Outcome) -> Seq<char> {
    match o {
        Outcome::Match => "PASS: "@ + name,
        Outcome::SizeMismatch { .. } => "FAIL: "@ + name,
        Outcome::ByteMismatch { .. } => "FAIL: "@ + name,
        Outcome::Missing => "SKIP: "@ + name + " ("@ + "Saved file not found"@ + ")"@,
        Outcome::ReadError { reason } => "SKIP: "@ + name + " ("@ + reason + ")"@,
    }
}

/// The line that reports one differing position.
pub open spec fn sample_line_spec(name: Seq<char>, s: MismatchSample) -> Seq<char> {
    "   [!] "@ + name + " mismatch at 0x"@ + hex(s.offset as nat, 8) + ": A="@ + hex(
        s.original as nat,
        2,
    ) + ", B="@ + hex(s.saved as nat, 2)
}

/// The diagnostic lines that follow the verdict on one file.
pub open spec fn detail_lines_spec(name: Seq<char>, o: Outcome) -> Seq<Seq<char>> {
    match o {
        Outcome::SizeMismatch { original_len, saved_len } => seq![
            "   [!] Size mismatch: Original="@ + decimal(original_len) + " vs Saved="@ + decimal(
                saved_len,
            ),
        ],
        Outcome::ByteMismatch { count, samples } => samples.map_values(
            |s: MismatchSample| sample_line_spec(name, s),
        ).push("   [!] Total mismatched bytes: "@ + decimal(count)),
        _ => Seq::empty(),
    }
}

/// The closing lines of a pass.
pub open spec fn summary_lines_spec(s: Summary) -> Seq<Seq<char>> {
    seq![
        "Total: "@ + decimal(s.total as nat),
        "Passed: "@ + decimal(s.passed as nat),
        "Failed: "@ + decimal(s.failed as nat),
    ]
}

/// The error that stops a run before any comparison when a required
/// directory is absent; it names both expected paths.
pub open spec fn layout_error_spec(
    originals: Seq<char>,
    originals_exists: bool,
    saved: Seq<char>,
    saved_exists: bool,
) -> Option<Seq<char>> {
    if originals_exists && saved_exists {
        None
    } else {
        Some("Directories not found. Expected: "@ + originals + " and "@ + saved)
    }
}

/// Checks the directory layout: `None` when both the originals and the saved
/// directory exist, otherwise the message to abort with.
pub fn layout_error(originals: &str, originals_exists: bool, saved: &str, saved_exists: bool) -> (r:
    Option<String>)
    ensures
        r matches Some(m) ==> layout_error_spec(originals@, originals_exists, saved@, saved_exists)
            == Some(m@),
        r is None <==> layout_error_spec(originals@, originals_exists, saved@, saved_exists) is None,
{
    if originals_exists && saved_exists {
        None
    } else {
        let mut m = String::new();
        push_text(&mut m, "Directories not found. Expected: ");
        push_text(&mut m, originals);
        push_text(&mut m, " and ");
        push_text(&mut m, saved);
        assert(m@ =~= "Directories not found. Expected: "@ + originals@ + " and "@ + saved@);
        Some(m)
    }
}

/// The verdict line for the file `name`.
pub fn status_line(name: &str, r: &ComparisonResult) -> (line: String)
    ensures
        line@ == status_line_spec(name@, r@),
{
    let mut line = String::new();
    match r {
        ComparisonResult::Match => push_text(&mut line, "PASS: "),
        ComparisonResult::SizeMismatch(..) => push_text(&mut line, "FAIL: "),
        ComparisonResult::ByteMismatch(..) => push_text(&mut line, "FAIL: "),
        ComparisonResult::Missing => push_text(&mut line, "SKIP: "),
        ComparisonResult::ReadError(..) => push_text(&mut line, "SKIP: "),
    }
    push_text(&mut line, name);
    match r {
        ComparisonResult::Missing => {
            push_text(&mut line, " (");
            push_text(&mut line, "Saved file not found");
            push_text(&mut line, ")");
        },
        ComparisonResult::ReadError(reason) => {
            push_text(&mut line, " (");
            push_text(&mut line, reason.as_str());
            push_text(&mut line, ")");
        },
        _ => {},
    }
    assert(line@ =~= status_line_spec(name@, r@));
    line
}

/// The line for one differing position of the file `name`.
pub fn sample_line(name: &str, s: &MismatchSample) -> (line: String)
    ensures
        line@ == sample_line_spec(name@, *s),
{
    let mut line = String::new();
    push_text(&mut line, "   [!] ");
    push_text(&mut line, name);
    push_text(&mut line, " mismatch at 0x");
    push_digits(&mut line, s.offset, 16, 8);
    push_text(&mut line, ": A=");
    push_digits(&mut line, s.original as usize, 16, 2);
    push_text(&mut line, ", B=");
    push_digits(&mut line, s.saved as usize, 16, 2);
    assert(line@ =~= sample_line_spec(name@, *s));
    line
}

/// The diagnostic lines for the file `name`: both sizes when they differ;
/// each kept sample and the total count when bytes differ; none otherwise.
pub fn detail_lines(name: &str, r: &ComparisonResult) -> (lines: Vec<String>)
    ensures
        lines@.map_values(|l: String| l@) == detail_lines_spec(name@, r@),
{
    let mut lines: Vec<String> = Vec::new();
    match r {
        ComparisonResult::SizeMismatch(a, b) => {
            let mut line = String::new();
            push_text(&mut line, "   [!] Size mismatch: Original=");
            push_digits(&mut line, *a, 10, 1);
            push_text(&mut line, " vs Saved=");
            push_digits(&mut line, *b, 10, 1);
            lines.push(line);
        },
        ComparisonResult::ByteMismatch(count, samples) => {
            let mut i: usize = 0;
            while i < samples.len()
                invariant
                    i <= samples@.len(),
                    lines@.map_values(|l: String| l@) == samples@.take(i as int).map_values(
                        |s: MismatchSample| sample_line_spec(name@, s),
                    ),
                decreases samples@.len() - i,
            {
                let ghost prev = lines@;
                let line = sample_line(name, &samples[i]);
                lines.push(line);
                assert(lines@.map_values(|l: String| l@) =~= prev.map_values(|l: String| l@).push(
                    line@,
                ));
                assert(samples@.take(i + 1) =~= samples@.take(i as int).push(samples@[i as int]));
                assert(lines@.map_values(|l: String| l@) =~= samples@.take(i + 1).map_values(
                    |s: MismatchSample| sample_line_spec(name@, s),
                ));
                i = i + 1;
            }
            assert(samples@.take(samples@.len() as int) =~= samples@);
            let mut line = String::new();
            push_text(&mut line, "   [!] Total mismatched bytes: ");
            push_digits(&mut line, *count, 10, 1);
            lines.push(line);
        },
        _ => {},
    }
    assert(lines@.map_values(|l: String| l@) =~= detail_lines_spec(name@, r@));
    lines
}

fn counted_line(label: &str, n: usize) -> (line: String)
    ensures
        line@ == label@ + decimal(n as nat),
{
    let mut line = String::new();
    push_text(&mut line, label);
    push_digits(&mut line, n, 10, 1);
    assert(line@ =~= label@ + decimal(n as nat));
    line
}

/// The closing lines of a pass: the total, passed and failed counts.
pub fn summary_lines(s: &Summary) -> (lines: Vec<String>)
    ensures
        lines@.map_values(|l: String| l@) == summary_lines_spec(*s),
{
    let mut lines: Vec<String> = Vec::new();
    lines.push(counted_line("Total: ", s.total));
    lines.push(counted_line("Passed: ", s.passed));
    lines.push(counted_line("Failed: ", s.failed));
    assert(lines@.map_values(|l: String| l@) =~= summary_lines_spec(*s));
    lines
}

} // verus!
