use vstd::prelude::*;
use vstd::string::StringExecFns;

use crate::text::decimal;

verus! {

/// The performance-state label of state `level`: "P0" to "P15", or "P?" for
/// any other level (an unknown state).
pub open spec fn pstate_label(level: u32) -> Seq<char> {
    if level <= 15 {
        seq!['P'] + decimal(level as nat)
    } else {
        seq!['P', '?']
    }
}

/// The label of performance state `level`.
pub fn format_pstate(level: u32) -> (r: &'static str)
    ensures
        r@ == pstate_label(level),
{
    proof {
        reveal_strlit("P0");
        reveal_strlit("P1");
        reveal_strlit("P2");
        reveal_strlit("P3");
        reveal_strlit("P4");
        reveal_strlit("P5");
        reveal_strlit("P6");
        reveal_strlit("P7");
        reveal_strlit("P8");
        reveal_strlit("P9");
        reveal_strlit("P10");
        reveal_strlit("P11");
        reveal_strlit("P12");
        reveal_strlit("P13");
        reveal_strlit("P14");
        reveal_strlit("P15");
        reveal_strlit("P?");
        reveal_with_fuel(decimal, 2);
        assert(decimal(10) =~= seq!['1', '0']);
        assert(decimal(11) =~= seq!['1', '1']);
        assert(decimal(12) =~= seq!['1', '2']);
        assert(decimal(13) =~= seq!['1', '3']);
        assert(decimal(14) =~= seq!['1', '4']);
        assert(decimal(15) =~= seq!['1', '5']);
    }
    let r = match level {
        0 => "P0",
        1 => "P1",
        2 => "P2",
        3 => "P3",
        4 => "P4",
        5 => "P5",
        6 => "P6",
        7 => "P7",
        8 => "P8",
        9 => "P9",
        10 => "P10",
        11 => "P11",
        12 => "P12",
        13 => "P13",
        14 => "P14",
        15 => "P15",
        _ => "P?",
    };
    assert(r@ =~= pstate_label(level));
    r
}

/// GPU architectures the dashboard names.
#[derive(Debug, Clone, Copy, PartialEq, Eq, Structural)]
pub enum Architecture {
    Kepler,
    Maxwell,
    Pascal,
    Volta,
    Turing,
    Ampere,
    Ada,
    Hopper,
    Unknown,
}

/// The name shown for an architecture.
pub open spec fn architecture_label(a: Architecture) -> Seq<char> {
    match a {
        Architecture::Kepler => "Kepler"@,
        Architecture::Maxwell => "Maxwell"@,
        Architecture::Pascal => "Pascal"@,
        Architecture::Volta => "Volta"@,
        Architecture::Turing => "Turing"@,
        Architecture::Ampere => "Ampere"@,
        Architecture::Ada => "Ada"@,
        Architecture::Hopper => "Hopper"@,
        Architecture::Unknown => "Unknown"@,
    }
}

/// The name of an architecture.
pub fn format_architecture(a: Architecture) -> (r: &'static str)
    ensures
        r@ == architecture_label(a),
{
    match a {
        Architecture::Kepler => "Kepler",
        Architecture::Maxwell => "Maxwell",
        Architecture::Pascal => "Pascal",
        Architecture::Volta => "Volta",
        Architecture::Turing => "Turing",
        Architecture::Ampere => "Ampere",
        Architecture::Ada => "Ada",
        Architecture::Hopper => "Hopper",
        Architecture::Unknown => "Unknown",
    }
}

/// NVML clock throttle reason bits.
pub const THROTTLE_GPU_IDLE: u64 = 0x1;
pub const THROTTLE_APPLICATIONS_CLOCKS_SETTING: u64 = 0x2;
pub const THROTTLE_SW_POWER_CAP: u64 = 0x4;
pub const THROTTLE_HW_SLOWDOWN: u64 = 0x8;
pub const THROTTLE_SYNC_BOOST: u64 = 0x10;
pub const THROTTLE_SW_THERMAL_SLOWDOWN: u64 = 0x20;
pub const THROTTLE_HW_THERMAL_SLOWDOWN: u64 = 0x40;
pub const THROTTLE_HW_POWER_BRAKE_SLOWDOWN: u64 = 0x80;
pub const THROTTLE_DISPLAY_CLOCK_SETTING: u64 = 0x100;

/// `seq![name]` when every bit of `flag` is set in `bits`, else nothing.
pub open spec fn reason_if(bits: u64, flag: u64, name: Seq<char>) -> Seq<Seq<char>> {
    if bits & flag == flag {
        seq![name]
    } else {
        Seq::empty()
    }
}

/// The short names of the throttle reasons set in `bits`, in a fixed order.
pub open spec fn throttle_names(bits: u64) -> Seq<Seq<char>> {
    reason_if(bits, THROTTLE_GPU_IDLE, "Idle"@) + reason_if(
        bits,
        THROTTLE_APPLICATIONS_CLOCKS_SETTING,
        "AppClk"@,
    ) + reason_if(bits, THROTTLE_SW_POWER_CAP, "SwPwrCap"@) + reason_if(
        bits,
        THROTTLE_HW_SLOWDOWN,
        "HW-Slow"@,
    ) + reason_if(bits, THROTTLE_SYNC_BOOST, "SyncBoost"@) + reason_if(
        bits,
        THROTTLE_SW_THERMAL_SLOWDOWN,
        "SW-Therm"@,
    ) + reason_if(bits, THROTTLE_HW_THERMAL_SLOWDOWN, "HW-Therm"@) + reason_if(
        bits,
        THROTTLE_HW_POWER_BRAKE_SLOWDOWN,
        "HW-PwrBrake"@,
    ) + reason_if(bits, THROTTLE_DISPLAY_CLOCK_SETTING, "DispClk"@)
}

/// The items of `parts` separated by `sep`.
pub open spec fn joined(parts: Seq<Seq<char>>, sep: Seq<char>) -> Seq<char>
    decreases parts.len(),
{
    if parts.len() == 0 {
        Seq::empty()
    } else if parts.len() == 1 {
        parts[0]
    } else {
        joined(parts.drop_last(), sep) + sep + parts.last()
    }
}

/// The throttle text: "None" when no bit is set, otherwise the names of the
/// set reasons joined by ", ", or "Unknown" when none of them is named.
pub open spec fn throttle_label(bits: u64) -> Seq<char> {
    if bits == 0 {
        "None"@
    } else if throttle_names(bits).len() == 0 {
        "Unknown"@
    } else {
        joined(throttle_names(bits), ", "@)
    }
}

fn note_reason(names: &mut Vec<&'static str>, bits: u64, flag: u64, name: &'static str)
    ensures
        final(names)@.map_values(|s: &str| s@) == old(names)@.map_values(|s: &str| s@) + reason_if(
            bits,
            flag,
            name@,
        ),
{
    if bits & flag == flag {
        names.push(name);
    }
    assert(final(names)@.map_values(|s: &str| s@) =~= old(names)@.map_values(|s: &str| s@)
        + reason_if(bits, flag, name@));
}

/// The text shown for a set of throttle reason bits.
pub fn format_throttle_reasons(bits: u64) -> (r: String)
    ensures
        r@ == throttle_label(bits),
{
    if bits == 0 {
        return String::from_str("None");
    }
    let mut names: Vec<&'static str> = Vec::new();
    assert(names@.map_values(|s: &str| s@) =~= Seq::<Seq<char>>::empty());
    note_reason(&mut names, bits, THROTTLE_GPU_IDLE, "Idle");
    note_reason(&mut names, bits, THROTTLE_APPLICATIONS_CLOCKS_SETTING, "AppClk");
    note_reason(&mut names, bits, THROTTLE_SW_POWER_CAP, "SwPwrCap");
    note_reason(&mut names, bits, THROTTLE_HW_SLOWDOWN, "HW-Slow");
    note_reason(&mut names, bits, THROTTLE_SYNC_BOOST, "SyncBoost");
    note_reason(&mut names, bits, THROTTLE_SW_THERMAL_SLOWDOWN, "SW-Therm");
    note_reason(&mut names, bits, THROTTLE_HW_THERMAL_SLOWDOWN, "HW-Therm");
    note_reason(&mut names, bits, THROTTLE_HW_POWER_BRAKE_SLOWDOWN, "HW-PwrBrake");
    note_reason(&mut names, bits, THROTTLE_DISPLAY_CLOCK_SETTING, "DispClk");
    let ghost parts = names@.map_values(|s: &str| s@);
    assert(parts =~= throttle_names(bits));
    if names.len() == 0 {
        return String::from_str("Unknown");
    }
    let mut s = String::from_str(names[0]);
    let mut i: usize = 1;
    while i < names.len()
        invariant
            1 <= i <= names@.len(),
            parts == names@.map_values(|s: &str| s@),
            s@ == joined(parts.take(i as int), ", "@),
        decreases names.len() - i,
    {
        proof {
            assert(parts.take(i + 1).drop_last() =~= parts.take(i as int));
        }
        s.append(", ");
        s.append(names[i]);
        i = i + 1;
    }
    proof {
        assert(parts.take(1) =~= seq![parts[0]]);
        assert(parts.take(parts.len() as int) =~= parts);
    }
    s
}

proof fn lemma_joined_starts_with_first(parts: Seq<Seq<char>>, sep: Seq<char>)
    requires
        parts.len() > 0,
        parts[0].len() > 0,
    ensures
        joined(parts, sep).len() > 0,
        joined(parts, sep)[0] == parts[0][0],
    decreases parts.len(),
{
    if parts.len() > 1 {
        lemma_joined_starts_with_first(parts.drop_last(), sep);
    }
}

/// The throttle text reads "None" exactly when no throttle bit is set.
pub proof fn law_throttle_none_iff_clear(bits: u64)
    ensures
        (throttle_label(bits) == "None"@) <==> bits == 0,
{
    reveal_strlit("None");
    reveal_strlit("Unknown");
    reveal_strlit("Idle");
    reveal_strlit("AppClk");
    reveal_strlit("SwPwrCap");
    reveal_strlit("HW-Slow");
    reveal_strlit("SyncBoost");
    reveal_strlit("SW-Therm");
    reveal_strlit("HW-Therm");
    reveal_strlit("HW-PwrBrake");
    reveal_strlit("DispClk");
    if bits != 0 {
        let names = throttle_names(bits);
        if names.len() == 0 {
            assert("Unknown"@.len() != "None"@.len());
        } else {
            assert(names[0][0] != 'N' && names[0].len() > 0);
            lemma_joined_starts_with_first(names, ", "@);
            assert(joined(names, ", "@)[0] != "None"@[0]);
        }
    }
}

proof fn lemma_reason_if_contains(bits: u64, flag: u64, name: Seq<char>, x: Seq<char>)
    ensures
        reason_if(bits, flag, name).contains(x) <==> (bits & flag == flag && x == name),
{
    if bits & flag == flag {
        assert(reason_if(bits, flag, name)[0] == name);
    }
}

proof fn lemma_concat_contains(a: Seq<Seq<char>>, b: Seq<Seq<char>>, x: Seq<char>)
    ensures
        (a + b).contains(x) <==> a.contains(x) || b.contains(x),
{
    if a.contains(x) {
        let i = choose|i: int| 0 <= i < a.len() && a[i] == x;
        assert((a + b)[i] == x);
    }
    if b.contains(x) {
        let i = choose|i: int| 0 <= i < b.len() && b[i] == x;
        assert((a + b)[a.len() + i] == x);
    }
    if (a + b).contains(x) {
        let i = choose|i: int| 0 <= i < (a + b).len() && (a + b)[i] == x;
        if i < a.len() {
            assert(a[i] == x);
        } else {
            assert(b[i - a.len()] == x);
        }
    }
}

proof fn lemma_names_contain(bits: u64, x: Seq<char>)
    ensures
        throttle_names(bits).contains(x) <==> {
            ||| (bits & 0x1 == 0x1 && x == "Idle"@)
            ||| (bits & 0x2 == 0x2 && x == "AppClk"@)
            ||| (bits & 0x4 == 0x4 && x == "SwPwrCap"@)
            ||| (bits & 0x8 == 0x8 && x == "HW-Slow"@)
            ||| (bits & 0x10 == 0x10 && x == "SyncBoost"@)
            ||| (bits & 0x20 == 0x20 && x == "SW-Therm"@)
            ||| (bits & 0x40 == 0x40 && x == "HW-Therm"@)
            ||| (bits & 0x80 == 0x80 && x == "HW-PwrBrake"@)
            ||| (bits & 0x100 == 0x100 && x == "DispClk"@)
        },
{
    let a0 = reason_if(bits, 0x1, "Idle"@);
    let p1 = reason_if(bits, 0x2, "AppClk"@);
    lemma_concat_contains(a0, p1, x);
    let a1 = a0 + p1;
    let p2 = reason_if(bits, 0x4, "SwPwrCap"@);
    lemma_concat_contains(a1, p2, x);
    let a2 = a1 + p2;
    let p3 = reason_if(bits, 0x8, "HW-Slow"@);
    lemma_concat_contains(a2, p3, x);
    let a3 = a2 + p3;
    let p4 = reason_if(bits, 0x10, "SyncBoost"@);
    lemma_concat_contains(a3, p4, x);
    let a4 = a3 + p4;
    let p5 = reason_if(bits, 0x20, "SW-Therm"@);
    lemma_concat_contains(a4, p5, x);
    let a5 = a4 + p5;
    let p6 = reason_if(bits, 0x40, "HW-Therm"@);
    lemma_concat_contains(a5, p6, x);
    let a6 = a5 + p6;
    let p7 = reason_if(bits, 0x80, "HW-PwrBrake"@);
    lemma_concat_contains(a6, p7, x);
    let a7 = a6 + p7;
    let p8 = reason_if(bits, 0x100, "DispClk"@);
    lemma_concat_contains(a7, p8, x);
    let a8 = a7 + p8;
    assert(throttle_names(bits) == a8);
    lemma_reason_if_contains(bits, 0x1, "Idle"@, x);
    lemma_reason_if_contains(bits, 0x2, "AppClk"@, x);
    lemma_reason_if_contains(bits, 0x4, "SwPwrCap"@, x);
    lemma_reason_if_contains(bits, 0x8, "HW-Slow"@, x);
    lemma_reason_if_contains(bits, 0x10, "SyncBoost"@, x);
    lemma_reason_if_contains(bits, 0x20, "SW-Therm"@, x);
    lemma_reason_if_contains(bits, 0x40, "HW-Therm"@, x);
    lemma_reason_if_contains(bits, 0x80, "HW-PwrBrake"@, x);
    lemma_reason_if_contains(bits, 0x100, "DispClk"@, x);
}

/// Each throttle reason is named exactly when its own NVML bit is set,
/// whatever the other bits: idle 0x1, applications clocks 0x2, software
/// power cap 0x4, hardware slowdown 0x8, sync boost 0x10, software thermal
/// 0x20, hardware thermal 0x40, hardware power brake 0x80, display clock
/// 0x100.
pub proof fn law_each_reason_named_by_its_bit(bits: u64)
    ensures
        throttle_names(bits).contains("Idle"@) <==> bits & 0x1 != 0,
        throttle_names(bits).contains("AppClk"@) <==> bits & 0x2 != 0,
        throttle_names(bits).contains("SwPwrCap"@) <==> bits & 0x4 != 0,
        throttle_names(bits).contains("HW-Slow"@) <==> bits & 0x8 != 0,
        throttle_names(bits).contains("SyncBoost"@) <==> bits & 0x10 != 0,
        throttle_names(bits).contains("SW-Therm"@) <==> bits & 0x20 != 0,
        throttle_names(bits).contains("HW-Therm"@) <==> bits & 0x40 != 0,
        throttle_names(bits).contains("HW-PwrBrake"@) <==> bits & 0x80 != 0,
        throttle_names(bits).contains("DispClk"@) <==> bits & 0x100 != 0,
{
    reveal_strlit("Idle");
    reveal_strlit("AppClk");
    reveal_strlit("SwPwrCap");
    reveal_strlit("HW-Slow");
    reveal_strlit("SyncBoost");
    reveal_strlit("SW-Therm");
    reveal_strlit("HW-Therm");
    reveal_strlit("HW-PwrBrake");
    reveal_strlit("DispClk");
    assert(bits & 0x1 == 0x1 <==> bits & 0x1 != 0) by (bit_vector);
    assert(bits & 0x2 == 0x2 <==> bits & 0x2 != 0) by (bit_vector);
    assert(bits & 0x4 == 0x4 <==> bits & 0x4 != 0) by (bit_vector);
    assert(bits & 0x8 == 0x8 <==> bits & 0x8 != 0) by (bit_vector);
    assert(bits & 0x10 == 0x10 <==> bits & 0x10 != 0) by (bit_vector);
    assert(bits & 0x20 == 0x20 <==> bits & 0x20 != 0) by (bit_vector);
    assert(bits & 0x40 == 0x40 <==> bits & 0x40 != 0) by (bit_vector);
    assert(bits & 0x80 == 0x80 <==> bits & 0x80 != 0) by (bit_vector);
    assert(bits & 0x100 == 0x100 <==> bits & 0x100 != 0) by (bit_vector);
    lemma_names_contain(bits, "Idle"@);
    lemma_names_contain(bits, "AppClk"@);
    lemma_names_contain(bits, "SwPwrCap"@);
    lemma_names_contain(bits, "HW-Slow"@);
    lemma_names_contain(bits, "SyncBoost"@);
    lemma_names_contain(bits, "SW-Therm"@);
    lemma_names_contain(bits, "HW-Therm"@);
    lemma_names_contain(bits, "HW-PwrBrake"@);
    lemma_names_contain(bits, "DispClk"@);
    assert("Idle"@[0] == 'I' && "Idle"@[1] == 'd' && "Idle"@[3] == 'e');
    assert("AppClk"@[0] == 'A' && "AppClk"@[1] == 'p' && "AppClk"@[3] == 'C');
    assert("SwPwrCap"@[0] == 'S' && "SwPwrCap"@[1] == 'w' && "SwPwrCap"@[3] == 'w');
    assert("HW-Slow"@[0] == 'H' && "HW-Slow"@[1] == 'W' && "HW-Slow"@[3] == 'S');
    assert("SyncBoost"@[0] == 'S' && "SyncBoost"@[1] == 'y' && "SyncBoost"@[3] == 'c');
    assert("SW-Therm"@[0] == 'S' && "SW-Therm"@[1] == 'W' && "SW-Therm"@[3] == 'T');
    assert("HW-Therm"@[0] == 'H' && "HW-Therm"@[1] == 'W' && "HW-Therm"@[3] == 'T');
    assert("HW-PwrBrake"@[0] == 'H' && "HW-PwrBrake"@[1] == 'W' && "HW-PwrBrake"@[3] == 'P');
    assert("DispClk"@[0] == 'D' && "DispClk"@[1] == 'i' && "DispClk"@[3] == 'p');
}

/// A set of bits that names a single reason is labelled with that name
/// alone; with no bit set the label is "None".
pub proof fn law_single_reason_label(bits: u64)
    ensures
        bits != 0 && throttle_names(bits).len() == 1 ==> throttle_label(bits) == throttle_names(bits)[0],
        bits == 0 ==> throttle_label(bits) == "None"@,
{
}

} // verus!
