use vstd::prelude::*;
use vstd::string::StringExecFns;

verus! {

/// The decimal digit `d` (0 to 9).
pub open spec fn digit(d: nat) -> char {
    if d == 0 {
        '0'
    } else if d == 1 {
        '1'
    } else if d == 2 {
        '2'
    } else if d == 3 {
        '3'
    } else if d == 4 {
        '4'
    } else if d == 5 {
        '5'
    } else if d == 6 {
        '6'
    } else if d == 7 {
        '7'
    } else if d == 8 {
        '8'
    } else {
        '9'
    }
}

/// The decimal rendering of `n`, without leading zeros.
pub open spec fn decimal(n: nat) -> Seq<char>
    decreases n,
{
    if n < 10 {
        seq![digit(n)]
    } else {
        decimal(n / 10).push(digit(n % 10))
    }
}

/// The decimal rendering of `x`, with a minus sign when negative.
pub open spec fn signed_decimal(x: int) -> Seq<char> {
    if x < 0 {
        seq!['-'] + decimal((-x) as nat)
    } else {
        decimal(x as nat)
    }
}

/// Integer division rounding toward zero, as machine division does.
pub open spec fn div_toward_zero(a: int, b: int) -> int {
    if a >= 0 {
        a / b
    } else {
        -((-a) / b)
    }
}

/// The remainder that goes with `div_toward_zero`.
pub open spec fn rem_toward_zero(a: int, b: int) -> int {
    a - b * div_toward_zero(a, b)
}

/// "major.minor".
pub open spec fn version_string(major: int, minor: int) -> Seq<char> {
    signed_decimal(major) + "."@ + signed_decimal(minor)
}

/// The CUDA driver version `v` (1000 * major + 10 * minor) as "major.minor".
pub open spec fn cuda_version_string(v: int) -> Seq<char> {
    version_string(div_toward_zero(v, 1000), div_toward_zero(rem_toward_zero(v, 1000), 10))
}

fn digit_str(d: u64) -> (r: &'static str)
    requires
        d < 10,
    ensures
        r@ == seq![digit(d as nat)],
{
    proof {
        reveal_strlit("0");
        reveal_strlit("1");
        reveal_strlit("2");
        reveal_strlit("3");
        reveal_strlit("4");
        reveal_strlit("5");
        reveal_strlit("6");
        reveal_strlit("7");
        reveal_strlit("8");
        reveal_strlit("9");
    }
    if d == 0 {
        "0"
    } else if d == 1 {
        "1"
    } else if d == 2 {
        "2"
    } else if d == 3 {
        "3"
    } else if d == 4 {
        "4"
    } else if d == 5 {
        "5"
    } else if d == 6 {
        "6"
    } else if d == 7 {
        "7"
    } else if d == 8 {
        "8"
    } else {
        "9"
    }
}

/// Appends the decimal rendering of `n`.
pub fn push_decimal(s: &mut String, n: u64)
    ensures
        final(s)@ == old(s)@ + decimal(n as nat),
    decreases n,
{
    if n >= 10 {
        push_decimal(s, n / 10);
    }
    s.append(digit_str(n % 10));
    assert(final(s)@ =~= old(s)@ + decimal(n as nat));
}

fn push_signed(s: &mut String, negative: bool, magnitude: u64)
    ensures
        final(s)@ == old(s)@ + signed_decimal(if negative {
            -(magnitude as int)
        } else {
            magnitude as int
        }),
{
    if negative && magnitude > 0 {
        proof {
            reveal_strlit("-");
        }
        s.append("-");
    }
    push_decimal(s, magnitude);
    assert(final(s)@ =~= old(s)@ + signed_decimal(if negative {
        -(magnitude as int)
    } else {
        magnitude as int
    }));
}

fn magnitude(x: i32) -> (r: u64)
    ensures
        r as int == if x < 0 {
            -(x as int)
        } else {
            x as int
        },
{
    let w = x as i64;
    if w < 0 {
        (-w) as u64
    } else {
        w as u64
    }
}

/// "major.minor", as a compute capability is shown.
pub fn version_text(major: i32, minor: i32) -> (r: String)
    ensures
        r@ == version_string(major as int, minor as int),
{
    let mut s = String::new();
    push_signed(&mut s, major < 0, magnitude(major));
    s.append(".");
    push_signed(&mut s, minor < 0, magnitude(minor));
    assert(s@ =~= version_string(major as int, minor as int));
    s
}

/// The CUDA driver version number shown as "major.minor": 12040 gives "12.4".
pub fn cuda_version_text(v: i32) -> (r: String)
    ensures
        r@ == cuda_version_string(v as int),
{
    let negative = v < 0;
    let p = magnitude(v);
    let major = p / 1000;
    let minor = (p % 1000) / 10;
    let mut s = String::new();
    push_signed(&mut s, negative, major);
    s.append(".");
    push_signed(&mut s, negative, minor);
    proof {
        let vi = v as int;
        let pi = p as int;
        if vi >= 0 {
            assert(div_toward_zero(vi, 1000) == major);
            assert(rem_toward_zero(vi, 1000) == pi % 1000);
        } else {
            assert(div_toward_zero(vi, 1000) == -(major as int));
            assert(rem_toward_zero(vi, 1000) == -(pi % 1000));
        }
        assert(s@ =~= cuda_version_string(vi));
    }
    s
}

/// The display name of a MIG instance: "MIG idx (GPU gpu: name)".
pub open spec fn mig_name(mig_index: nat, gpu_index: nat, name: Seq<char>) -> Seq<char> {
    "MIG "@ + decimal(mig_index) + " (GPU "@ + decimal(gpu_index) + ": "@ + name + ")"@
}

/// Formats the display name of MIG instance `mig_index` of GPU `gpu_index`.
pub fn mig_display_name(mig_index: u32, gpu_index: u32, name: &str) -> (r: String)
    ensures
        r@ == mig_name(mig_index as nat, gpu_index as nat, name@),
{
    let mut s = String::from_str("MIG ");
    push_decimal(&mut s, mig_index as u64);
    s.append(" (GPU ");
    push_decimal(&mut s, gpu_index as u64);
    s.append(": ");
    s.append(name);
    s.append(")");
    assert(s@ =~= mig_name(mig_index as nat, gpu_index as nat, name@));
    s
}

/// The name shown for a process whose command name cannot be read: "pid:N".
pub fn fallback_process_name(pid: u32) -> (r: String)
    ensures
        r@ == "pid:"@ + decimal(pid as nat),
{
    let mut s = String::from_str("pid:");
    push_decimal(&mut s, pid as u64);
    s
}

} // verus!
