//! The telemetry sampler: decimal rendering of the counters and the exact
//! text of one telemetry report. Purely observational; nothing here touches
//! the harness state.

use vstd::prelude::*;

verus! {

/// The decimal digit character for one digit value.
pub open spec fn digit_char(d: nat) -> char {
    if d == 0 {
        '0'
    } else if d == 1 {
        '1'
    } else if d == 2 {
        '2'
    } else if d == 3 {
        '3'
    } else if d == 4 {
        '4'
    } else if d == 5 {
        '5'
    } else if d == 6 {
        '6'
    } else if d == 7 {
        '7'
    } else if d == 8 {
        '8'
    } else {
        '9'
    }
}

/// The usual decimal rendering of a number: most significant digit first,
/// no leading zeros (a lone zero for zero itself).
pub open spec fn spec_decimal(n: nat) -> Seq<char>
    decreases n,
{
    if n < 10 {
        seq![digit_char(n)]
    } else {
        spec_decimal(n / 10).push(digit_char(n % 10))
    }
}

/// The single-character string for one decimal digit.
fn digit_str(d: u64) -> (s: &'static str)
    requires
        d < 10,
    ensures
        s@ == seq![digit_char(d as nat)],
{
    proof {
        reveal_strlit("0");
        reveal_strlit("1");
        reveal_strlit("2");
        reveal_strlit("3");
        reveal_strlit("4");
        reveal_strlit("5");
        reveal_strlit("6");
        reveal_strlit("7");
        reveal_strlit("8");
        reveal_strlit("9");
    }
    let s: &'static str = if d == 0 {
        "0"
    } else if d == 1 {
        "1"
    } else if d == 2 {
        "2"
    } else if d == 3 {
        "3"
    } else if d == 4 {
        "4"
    } else if d == 5 {
        "5"
    } else if d == 6 {
        "6"
    } else if d == 7 {
        "7"
    } else if d == 8 {
        "8"
    } else {
        "9"
    };
    proof {
        assert(s@ =~= seq![digit_char(d as nat)]);
    }
    s
}

/// Renders a counter in decimal.
pub fn u64_to_decimal(n: u64) -> (s: String)
    ensures
        s@ == spec_decimal(n as nat),
    decreases n,
{
    if n < 10 {
        String::from_str(digit_str(n))
    } else {
        let mut s = u64_to_decimal(n / 10);
        s.append(digit_str(n % 10));
        proof {
            assert(s@ =~= spec_decimal(n as nat));
        }
        s
    }
}

/// The full text of one telemetry report: the used-heap counter, the
/// total-heap counter, the count of outstanding deferred results, and a
/// separator line, each on a line of its own (the separator is followed by
/// one more blank line).
pub open spec fn telemetry_text(used: nat, total: nat, outstanding: nat) -> Seq<char> {
    "Used Heap Size: "@ + spec_decimal(used) + "\n"@ + "Total Heap Size: "@ + spec_decimal(total)
        + "\n"@ + "Unresolved Promises: "@ + spec_decimal(outstanding) + "\n"@
        + "----------------\n\n"@
}

/// Builds the text of one telemetry report from a heap snapshot: the two
/// memory counters and the number of deferred results still outstanding.
pub fn telemetry_report(used: u64, total: u64, outstanding: u64) -> (r: String)
    ensures
        r@ == telemetry_text(used as nat, total as nat, outstanding as nat),
{
    let mut r = String::from_str("Used Heap Size: ");
    let used_s = u64_to_decimal(used);
    r.append(used_s.as_str());
    r.append("\n");
    r.append("Total Heap Size: ");
    let total_s = u64_to_decimal(total);
    r.append(total_s.as_str());
    r.append("\n");
    r.append("Unresolved Promises: ");
    let outstanding_s = u64_to_decimal(outstanding);
    r.append(outstanding_s.as_str());
    r.append("\n");
    r.append("----------------\n\n");
    proof {
        assert(r@ =~= telemetry_text(used as nat, total as nat, outstanding as nat));
    }
    r
}

} // verus!
