use vstd::prelude::*;
use vstd::string::{StrSliceExecFns, StringExecFns};

use crate::display::{
    corrected_errors_color, ecc_mode_color, pstate_color, temp_color, throttle_color, uncorrected_errors_color,
    corrected_errors_tone, ecc_mode_tone, pstate_tone, temp_tone, throttle_tone, uncorrected_errors_tone, Tone,
};
use crate::metrics::{mib_of, GpuMetrics, GpuProcessInfo};
use crate::text::{decimal, push_decimal};

verus! {

/// `n` spaces.
pub open spec fn spaces(n: nat) -> Seq<char> {
    Seq::new(n, |i: int| ' ')
}

/// `s` followed by spaces up to `w` characters; unchanged when already as long.
pub open spec fn pad_right(s: Seq<char>, w: nat) -> Seq<char> {
    if s.len() >= w {
        s
    } else {
        s + spaces((w - s.len()) as nat)
    }
}

/// `s` preceded by spaces up to `w` characters; unchanged when already as long.
pub open spec fn pad_left(s: Seq<char>, w: nat) -> Seq<char> {
    if s.len() >= w {
        s
    } else {
        spaces((w - s.len()) as nat) + s
    }
}

/// The first `n` characters of `s`, or all of them when there are fewer.
pub open spec fn first_chars(s: Seq<char>, n: nat) -> Seq<char> {
    if s.len() <= n {
        s
    } else {
        s.take(n as int)
    }
}

/// The text and colour of each piece of a line.
pub open spec fn span_texts(l: Seq<(String, Tone)>) -> Seq<(Seq<char>, Tone)> {
    l.map_values(|p: (String, Tone)| (p.0@, p.1))
}

/// The text and colour of each piece of each line.
pub open spec fn lines_view(ls: Seq<Vec<(String, Tone)>>) -> Seq<Seq<(Seq<char>, Tone)>> {
    ls.map_values(|l: Vec<(String, Tone)>| span_texts(l@))
}

/// Appends `n` spaces.
fn push_spaces(s: &mut String, n: usize)
    ensures
        final(s)@ == old(s)@ + spaces(n as nat),
{
    proof {
        reveal_strlit(" ");
    }
    let mut i: usize = 0;
    assert(old(s)@ =~= old(s)@ + spaces(0));
    while i < n
        invariant
            i <= n,
            s@ == old(s)@ + spaces(i as nat),
        decreases n - i,
    {
        proof {
            reveal_strlit(" ");
        }
        let ghost before = s@;
        s.append(" ");
        i = i + 1;
        assert(" "@ =~= seq![' ']);
        assert(spaces(i as nat) =~= spaces((i - 1) as nat).push(' '));
        assert(s@ =~= before.push(' '));
        assert(s@ =~= old(s)@ + spaces(i as nat));
    }
}

/// Appends `t` padded with spaces on the right to `w` characters.
fn push_padded_right(s: &mut String, t: &str, w: usize)
    ensures
        final(s)@ == old(s)@ + pad_right(t@, w as nat),
{
    let n = t.unicode_len();
    s.append(t);
    if n < w {
        push_spaces(s, w - n);
    }
    assert(s@ =~= old(s)@ + pad_right(t@, w as nat));
}

/// Appends `t` padded with spaces on the left to `w` characters.
fn push_padded_left(s: &mut String, t: &str, w: usize)
    ensures
        final(s)@ == old(s)@ + pad_left(t@, w as nat),
{
    let n = t.unicode_len();
    if n < w {
        push_spaces(s, w - n);
    }
    s.append(t);
    assert(s@ =~= old(s)@ + pad_left(t@, w as nat));
}

/// The decimal rendering of `n` as a string.
pub fn decimal_text(n: u64) -> (r: String)
    ensures
        r@ == decimal(n as nat),
{
    let mut s = String::new();
    push_decimal(&mut s, n);
    assert(s@ =~= decimal(n as nat));
    s
}

/// Appends one piece to a line.
fn push_span(line: &mut Vec<(String, Tone)>, text: String, tone: Tone)
    ensures
        span_texts(final(line)@) == span_texts(old(line)@).push((text@, tone)),
{
    let ghost t = text@;
    line.push((text, tone));
    assert(span_texts(line@) =~= span_texts(old(line)@).push((t, tone)));
}

/// Appends one line.
fn push_line(lines: &mut Vec<Vec<(String, Tone)>>, line: Vec<(String, Tone)>)
    ensures
        lines_view(final(lines)@) == lines_view(old(lines)@).push(span_texts(line@)),
{
    let ghost l = line@;
    lines.push(line);
    assert(lines_view(lines@) =~= lines_view(old(lines)@).push(span_texts(l)));
}

/// The memory column of a process: its memory in MB, or "N/A".
pub open spec fn process_memory_text(mb: Option<u64>) -> Seq<char> {
    match mb {
        Some(v) => decimal(v as nat) + " MB"@,
        None => "N/A"@,
    }
}

/// Width of the PID column.
pub const PID_COLUMN: usize = 7;

/// Width of the process-name column; longer names are cut to it.
pub const NAME_COLUMN: usize = 15;

/// Width of the memory column.
pub const VRAM_COLUMN: usize = 10;

/// Rows shown in the process table at most.
pub const PROCESS_ROWS: usize = 5;

/// The header of the process table, its columns one space apart.
pub open spec fn process_header() -> Seq<(Seq<char>, Tone)> {
    seq![
        (pad_right("PID"@, PID_COLUMN as nat) + " "@ + pad_right("Process"@, NAME_COLUMN as nat) + " "@
            + pad_left("VRAM"@, VRAM_COLUMN as nat), Tone::CyanBold),
    ]
}

/// One row of the process table: the PID, the first characters of the name
/// and the memory, in the header's columns.
pub open spec fn process_row(p: GpuProcessInfo) -> Seq<(Seq<char>, Tone)> {
    seq![
        (pad_right(decimal(p.pid as nat), PID_COLUMN as nat) + " "@, Tone::Muted),
        (pad_right(first_chars(p.name@, NAME_COLUMN as nat), NAME_COLUMN as nat) + " "@, Tone::White),
        (pad_left(process_memory_text(mib_of(p.vram_used)), VRAM_COLUMN as nat), Tone::Yellow),
    ]
}

/// The process table of a device: the header, then a row for each of the
/// first `PROCESS_ROWS` processes, or a note that there are none.
pub open spec fn process_table(procs: Seq<GpuProcessInfo>) -> Seq<Seq<(Seq<char>, Tone)>> {
    seq![process_header()] + if procs.len() == 0 {
        seq![seq![("  No compute processes"@, Tone::Muted)]]
    } else {
        let n = if procs.len() < PROCESS_ROWS {
            procs.len()
        } else {
            PROCESS_ROWS as nat
        };
        Seq::new(n, |i: int| process_row(procs[i]))
    }
}

fn process_header_line() -> (r: Vec<(String, Tone)>)
    ensures
        span_texts(r@) == process_header(),
{
    let mut s = String::new();
    push_padded_right(&mut s, "PID", PID_COLUMN);
    s.append(" ");
    push_padded_right(&mut s, "Process", NAME_COLUMN);
    s.append(" ");
    push_padded_left(&mut s, "VRAM", VRAM_COLUMN);
    assert(s@ =~= pad_right("PID"@, PID_COLUMN as nat) + " "@ + pad_right("Process"@, NAME_COLUMN as nat) + " "@
        + pad_left("VRAM"@, VRAM_COLUMN as nat));
    let mut r: Vec<(String, Tone)> = Vec::new();
    push_span(&mut r, s, Tone::CyanBold);
    assert(span_texts(r@) =~= process_header());
    r
}

fn process_row_line(p: &GpuProcessInfo) -> (r: Vec<(String, Tone)>)
    ensures
        span_texts(r@) == process_row(*p),
{
    let pid = decimal_text(p.pid as u64);
    let mut c1 = String::new();
    push_padded_right(&mut c1, pid.as_str(), PID_COLUMN);
    c1.append(" ");
    assert(c1@ =~= pad_right(decimal(p.pid as nat), PID_COLUMN as nat) + " "@);
    let n = p.name.as_str().unicode_len();
    let shown = if n <= NAME_COLUMN {
        p.name.as_str()
    } else {
        p.name.as_str().substring_char(0, NAME_COLUMN)
    };
    assert(shown@ =~= first_chars(p.name@, NAME_COLUMN as nat));
    let mut c2 = String::new();
    push_padded_right(&mut c2, shown, NAME_COLUMN);
    c2.append(" ");
    assert(c2@ =~= pad_right(first_chars(p.name@, NAME_COLUMN as nat), NAME_COLUMN as nat) + " "@);
    let mem = match p.vram_used_mb() {
        Some(mb) => {
            let mut t = decimal_text(mb);
            t.append(" MB");
            t
        },
        None => String::from_str("N/A"),
    };
    assert(mem@ == process_memory_text(mib_of(p.vram_used)));
    let mut c3 = String::new();
    push_padded_left(&mut c3, mem.as_str(), VRAM_COLUMN);
    assert(c3@ =~= pad_left(process_memory_text(mib_of(p.vram_used)), VRAM_COLUMN as nat));
    let mut r: Vec<(String, Tone)> = Vec::new();
    push_span(&mut r, c1, Tone::Muted);
    push_span(&mut r, c2, Tone::White);
    push_span(&mut r, c3, Tone::Yellow);
    assert(span_texts(r@) =~= process_row(*p));
    r
}

/// The lines of a device's process table.
pub fn top_process_lines(procs: &Vec<GpuProcessInfo>) -> (r: Vec<Vec<(String, Tone)>>)
    ensures
        lines_view(r@) == process_table(procs@),
{
    let mut r: Vec<Vec<(String, Tone)>> = Vec::new();
    push_line(&mut r, process_header_line());
    assert(lines_view(r@) =~= seq![process_header()]);
    if procs.len() == 0 {
        let mut l: Vec<(String, Tone)> = Vec::new();
        push_span(&mut l, String::from_str("  No compute processes"), Tone::Muted);
        assert(span_texts(l@) =~= seq![("  No compute processes"@, Tone::Muted)]);
        push_line(&mut r, l);
        assert(procs@.len() == 0);
        assert(process_table(procs@) == seq![process_header()] + seq![seq![("  No compute processes"@, Tone::Muted)]]);
        assert(lines_view(r@) =~= process_table(procs@));
        return r;
    }
    let n = if procs.len() < PROCESS_ROWS {
        procs.len()
    } else {
        PROCESS_ROWS
    };
    let mut i: usize = 0;
    while i < n
        invariant
            n <= procs@.len(),
            n == if procs@.len() < PROCESS_ROWS {
                procs@.len()
            } else {
                PROCESS_ROWS as nat
            },
            0 <= i <= n,
            lines_view(r@) == seq![process_header()] + Seq::new(i as nat, |k: int| process_row(procs@[k])),
        decreases n - i,
    {
        push_line(&mut r, process_row_line(&procs[i]));
        i = i + 1;
        assert(lines_view(r@) =~= seq![process_header()] + Seq::new(i as nat, |k: int| process_row(procs@[k])));
    }
    assert(lines_view(r@) =~= process_table(procs@));
    r
}

/// A utilization figure as shown: "N%", or "N/A" when missing.
pub open spec fn percent_text(v: Option<u32>) -> Seq<char> {
    match v {
        Some(x) => decimal(x as nat) + "%"@,
        None => "N/A"@,
    }
}

/// White for a figure that is present, dimmed for a missing one.
pub open spec fn presence_tone(v: Option<u32>) -> Tone {
    match v {
        Some(_) => Tone::White,
        None => Tone::Muted,
    }
}

/// Two spaces between pieces of a line, when something comes before.
pub open spec fn gap_after(before: Seq<(Seq<char>, Tone)>) -> Seq<(Seq<char>, Tone)> {
    if before.len() > 0 {
        seq![("  "@, Tone::Plain)]
    } else {
        seq![]
    }
}

/// A device's name as shown: a MIG instance also names its parent GPU.
pub open spec fn shown_name(m: GpuMetrics) -> Seq<char> {
    match (m.is_mig_instance, m.parent_gpu_index) {
        (true, Some(p)) => m.name@ + " [Parent: GPU "@ + decimal(p as nat) + "]"@,
        _ => m.name@,
    }
}

/// "Name: " and the name.
pub open spec fn name_spans(m: GpuMetrics) -> Seq<(Seq<char>, Tone)> {
    seq![("Name: "@, Tone::Muted), (shown_name(m), Tone::White)]
}

/// The first 20 characters of the UUID, then the architecture and compute
/// capability when known.
pub open spec fn uuid_spans(m: GpuMetrics) -> Seq<(Seq<char>, Tone)> {
    seq![("UUID: "@, Tone::Muted), (first_chars(m.uuid@, 20), Tone::White)] + match m.architecture {
        Some(a) => seq![("  Arch: "@, Tone::Muted), (a@, Tone::Cyan)],
        None => seq![],
    } + match m.compute_capability {
        Some(c) => seq![("  CC: "@, Tone::Muted), (c@, Tone::Cyan)],
        None => seq![],
    }
}

/// Memory in use and in total with the percentage handed in, or "VRAM N/A"
/// when any of the three is missing.
pub open spec fn vram_spans(m: GpuMetrics, percent: Option<(String, Tone)>) -> Seq<(Seq<char>, Tone)> {
    match (mib_of(m.memory_used), mib_of(m.memory_total), percent) {
        (Some(u), Some(t), Some((p, tone))) => seq![
            ("VRAM "@, Tone::YellowBold),
            (decimal(u as nat) + " MB"@, Tone::WhiteBold),
            (" / "@ + decimal(t as nat) + " MB "@, Tone::Muted),
            ("("@ + p@ + "%)"@, tone),
        ],
        _ => seq![("VRAM "@, Tone::YellowBold), ("N/A"@, Tone::Muted)],
    }
}

/// GPU and memory utilization, "N/A" when missing, then SM utilization when known.
pub open spec fn util_spans(m: GpuMetrics) -> Seq<(Seq<char>, Tone)> {
    seq![
        ("GPU: "@, Tone::Green),
        (percent_text(m.gpu_util), presence_tone(m.gpu_util)),
        ("  Mem: "@, Tone::Blue),
        (percent_text(m.memory_util), presence_tone(m.memory_util)),
    ] + match m.sm_util {
        Some(s) => seq![("  SM: "@, Tone::Magenta), (decimal(s as nat) + "%"@, Tone::White)],
        None => seq![],
    }
}

/// Encoder and decoder utilization, each when known.
pub open spec fn codec_spans(m: GpuMetrics) -> Seq<(Seq<char>, Tone)> {
    let e = match m.encoder_util {
        Some(x) => seq![("Enc: "@, Tone::Magenta), (decimal(x as nat) + "%"@, Tone::White)],
        None => seq![],
    };
    e + match m.decoder_util {
        Some(x) => gap_after(e) + seq![("Dec: "@, Tone::Magenta), (decimal(x as nat) + "%"@, Tone::White)],
        None => seq![],
    }
}

/// Graphics, SM and memory clocks (or the graphics clock alone), then the
/// performance state in its colour.
pub open spec fn clock_spans(m: GpuMetrics) -> Seq<(Seq<char>, Tone)> {
    let c = match (m.clock_graphics_mhz, m.clock_sm_mhz, m.clock_memory_mhz) {
        (Some(g), Some(s), Some(x)) => seq![
            ("Clk: "@, Tone::Muted),
            (decimal(g as nat) + "/"@ + decimal(s as nat) + "/"@ + decimal(x as nat) + " MHz"@, Tone::Cyan),
        ],
        (Some(g), _, _) => seq![("Clk: "@, Tone::Muted), (decimal(g as nat) + " MHz"@, Tone::Cyan)],
        _ => seq![],
    };
    c + match m.performance_state {
        Some(p) => gap_after(c) + seq![(p@, pstate_tone(p@))],
        None => seq![],
    }
}

/// The temperature in its colour with the slowdown and shutdown thresholds,
/// then the power draw and limit handed in, shown when both are known.
pub open spec fn thermal_spans(m: GpuMetrics, power: Option<(String, String)>) -> Seq<(Seq<char>, Tone)> {
    let t = match m.temperature {
        Some(x) => seq![("Temp: "@, Tone::Muted), (decimal(x as nat) + "\u{b0}C"@, temp_tone(x))]
            + match m.temp_slowdown {
            Some(sd) => seq![(" (\u{2193}"@ + decimal(sd as nat), Tone::Muted)] + match m.temp_shutdown {
                Some(sh) => seq![(" \u{2715}"@ + decimal(sh as nat) + ")"@, Tone::Muted)],
                None => seq![(")"@, Tone::Muted)],
            },
            None => seq![],
        },
        None => seq![],
    };
    t + match (m.power_usage, m.power_limit, power) {
        (Some(_), Some(_), Some((u, l))) => gap_after(t) + seq![
            ("Power: "@, Tone::Muted),
            (u@ + "/"@ + l@ + "W"@, Tone::Magenta),
        ],
        _ => seq![],
    }
}

/// The PCIe link and the transfer rates handed in, each when known; nothing
/// when neither is.
pub open spec fn pcie_spans(m: GpuMetrics, rates: Option<(String, String)>) -> Seq<(Seq<char>, Tone)> {
    let g = match (m.pcie_gen, m.pcie_width) {
        (Some(g), Some(w)) => seq![("Gen"@ + decimal(g as nat) + " x"@ + decimal(w as nat), Tone::LightCyan)],
        _ => seq![],
    };
    let r = match (m.pcie_tx_kbps, m.pcie_rx_kbps, rates) {
        (Some(_), Some(_), Some((tx, rx))) => gap_after(g) + seq![
            ("TX:"@ + tx@ + " RX:"@ + rx@ + " MB/s"@, Tone::LightCyan),
        ],
        _ => seq![],
    };
    if g.len() + r.len() > 0 {
        seq![("PCIe: "@, Tone::Muted)] + g + r
    } else {
        seq![]
    }
}

/// The ECC mode and error counts, when the mode is known.
pub open spec fn ecc_spans(m: GpuMetrics) -> Seq<(Seq<char>, Tone)> {
    match m.ecc_enabled {
        Some(on) => seq![("ECC: "@, Tone::Muted), (if on {
            "On"@
        } else {
            "Off"@
        }, ecc_mode_tone(on))] + match m.ecc_errors_corrected {
            Some(c) => seq![("  Corr:"@ + decimal(c as nat), corrected_errors_tone(c))],
            None => seq![],
        } + match m.ecc_errors_uncorrected {
            Some(u) => seq![("  Uncorr:"@ + decimal(u as nat), uncorrected_errors_tone(u))],
            None => seq![],
        },
        None => seq![],
    }
}

/// The throttle reasons in their colour, when known.
pub open spec fn throttle_spans(m: GpuMetrics) -> Seq<(Seq<char>, Tone)> {
    match m.throttle_reasons {
        Some(t) => seq![("Throttle: "@, Tone::Muted), (t@, throttle_tone(t@))],
        None => seq![],
    }
}

/// The number of processes.
pub open spec fn process_count_spans(m: GpuMetrics) -> Seq<(Seq<char>, Tone)> {
    seq![("Processes: "@, Tone::Muted), (decimal(m.process_count as nat), Tone::White)]
}

/// A line that is shown only when it has something in it.
pub open spec fn optional_line(l: Seq<(Seq<char>, Tone)>) -> Seq<Seq<(Seq<char>, Tone)>> {
    if l.len() == 0 {
        seq![]
    } else {
        seq![l]
    }
}

/// The detail panel of a device: name, UUID, a blank line, memory and
/// utilization always; codecs, clocks, temperature and power, PCIe, ECC and
/// throttling when they have something to show; the process count last.
/// The figures with decimals come in already formatted: the memory
/// percentage with its colour, the power draw and limit in watts, and the
/// PCIe transfer rates in MB/s.
pub open spec fn detail_spec(
    m: GpuMetrics,
    vram_percent: Option<(String, Tone)>,
    power_w: Option<(String, String)>,
    pcie_mbps: Option<(String, String)>,
) -> Seq<Seq<(Seq<char>, Tone)>> {
    seq![name_spans(m), uuid_spans(m), seq![], vram_spans(m, vram_percent), util_spans(m)]
        + optional_line(codec_spans(m)) + optional_line(clock_spans(m)) + optional_line(
        thermal_spans(m, power_w),
    ) + optional_line(pcie_spans(m, pcie_mbps)) + optional_line(ecc_spans(m)) + optional_line(
        throttle_spans(m),
    ) + seq![process_count_spans(m)]
}

/// Appends a line when it has something in it.
fn push_optional_line(lines: &mut Vec<Vec<(String, Tone)>>, line: Vec<(String, Tone)>)
    ensures
        lines_view(final(lines)@) == lines_view(old(lines)@) + optional_line(span_texts(line@)),
{
    if line.len() > 0 {
        let ghost l = line@;
        push_line(lines, line);
        assert(lines_view(lines@) =~= lines_view(old(lines)@) + optional_line(span_texts(l)));
    } else {
        assert(lines_view(lines@) =~= lines_view(old(lines)@) + optional_line(span_texts(line@)));
    }
}

/// Appends a piece given as a string literal.
fn push_text(line: &mut Vec<(String, Tone)>, text: &str, tone: Tone)
    ensures
        span_texts(final(line)@) == span_texts(old(line)@).push((text@, tone)),
{
    push_span(line, String::from_str(text), tone);
}

/// Appends a number followed by `suffix`.
fn push_number(line: &mut Vec<(String, Tone)>, prefix: &str, n: u64, suffix: &str, tone: Tone)
    ensures
        span_texts(final(line)@) == span_texts(old(line)@).push((prefix@ + decimal(n as nat) + suffix@, tone)),
{
    let mut s = String::from_str(prefix);
    push_decimal(&mut s, n);
    s.append(suffix);
    push_span(line, s, tone);
}

fn name_line(m: &GpuMetrics) -> (r: Vec<(String, Tone)>)
    ensures
        span_texts(r@) == name_spans(*m),
{
    let mut r: Vec<(String, Tone)> = Vec::new();
    push_text(&mut r, "Name: ", Tone::Muted);
    let shown = match (m.is_mig_instance, m.parent_gpu_index) {
        (true, Some(p)) => {
            let mut s = m.name.clone();
            s.append(" [Parent: GPU ");
            push_decimal(&mut s, p as u64);
            s.append("]");
            s
        },
        _ => m.name.clone(),
    };
    assert(shown@ == shown_name(*m));
    push_span(&mut r, shown, Tone::White);
    assert(span_texts(r@) =~= name_spans(*m));
    r
}

fn uuid_line(m: &GpuMetrics) -> (r: Vec<(String, Tone)>)
    ensures
        span_texts(r@) == uuid_spans(*m),
{
    let mut r: Vec<(String, Tone)> = Vec::new();
    push_text(&mut r, "UUID: ", Tone::Muted);
    let n = m.uuid.as_str().unicode_len();
    let shown = if n <= 20 {
        m.uuid.as_str()
    } else {
        m.uuid.as_str().substring_char(0, 20)
    };
    assert(shown@ =~= first_chars(m.uuid@, 20));
    push_text(&mut r, shown, Tone::White);
    let ghost base = span_texts(r@);
    match m.architecture {
        Some(a) => {
            push_text(&mut r, "  Arch: ", Tone::Muted);
            push_text(&mut r, a, Tone::Cyan);
        },
        None => {},
    }
    let ghost with_arch = span_texts(r@);
    match &m.compute_capability {
        Some(c) => {
            push_text(&mut r, "  CC: ", Tone::Muted);
            push_text(&mut r, c.as_str(), Tone::Cyan);
        },
        None => {},
    }
    assert(with_arch =~= base + match m.architecture {
        Some(a) => seq![("  Arch: "@, Tone::Muted), (a@, Tone::Cyan)],
        None => Seq::<(Seq<char>, Tone)>::empty(),
    });
    assert(span_texts(r@) =~= with_arch + match m.compute_capability {
        Some(c) => seq![("  CC: "@, Tone::Muted), (c@, Tone::Cyan)],
        None => Seq::<(Seq<char>, Tone)>::empty(),
    });
    assert(span_texts(r@) =~= uuid_spans(*m));
    r
}

fn vram_line(m: &GpuMetrics, percent: &Option<(String, Tone)>) -> (r: Vec<(String, Tone)>)
    ensures
        span_texts(r@) == vram_spans(*m, *percent),
{
    let mut r: Vec<(String, Tone)> = Vec::new();
    push_text(&mut r, "VRAM ", Tone::YellowBold);
    match (m.memory_used_mb(), m.memory_total_mb(), percent) {
        (Some(u), Some(t), Some((p, tone))) => {
            push_number(&mut r, "", u, " MB", Tone::WhiteBold);
            push_number(&mut r, " / ", t, " MB ", Tone::Muted);
            let mut s = String::from_str("(");
            s.append(p.as_str());
            s.append("%)");
            push_span(&mut r, s, *tone);
            assert(""@ + decimal(u as nat) =~= decimal(u as nat)) by {
                reveal_strlit("");
            }
        },
        _ => {
            push_text(&mut r, "N/A", Tone::Muted);
        },
    }
    assert(span_texts(r@) =~= vram_spans(*m, *percent));
    r
}

fn push_percent(line: &mut Vec<(String, Tone)>, v: Option<u32>)
    ensures
        span_texts(final(line)@) == span_texts(old(line)@).push((percent_text(v), presence_tone(v))),
{
    match v {
        Some(x) => {
            let mut s = decimal_text(x as u64);
            s.append("%");
            push_span(line, s, Tone::White);
        },
        None => push_text(line, "N/A", Tone::Muted),
    }
}

fn util_line(m: &GpuMetrics) -> (r: Vec<(String, Tone)>)
    ensures
        span_texts(r@) == util_spans(*m),
{
    let mut r: Vec<(String, Tone)> = Vec::new();
    push_text(&mut r, "GPU: ", Tone::Green);
    push_percent(&mut r, m.gpu_util);
    push_text(&mut r, "  Mem: ", Tone::Blue);
    push_percent(&mut r, m.memory_util);
    match m.sm_util {
        Some(s) => {
            push_text(&mut r, "  SM: ", Tone::Magenta);
            let mut t = decimal_text(s as u64);
            t.append("%");
            push_span(&mut r, t, Tone::White);
        },
        None => {},
    }
    assert(span_texts(r@) =~= util_spans(*m));
    r
}

fn codec_line(m: &GpuMetrics) -> (r: Vec<(String, Tone)>)
    ensures
        span_texts(r@) == codec_spans(*m),
{
    let mut r: Vec<(String, Tone)> = Vec::new();
    match m.encoder_util {
        Some(x) => {
            push_text(&mut r, "Enc: ", Tone::Magenta);
            let mut t = decimal_text(x as u64);
            t.append("%");
            push_span(&mut r, t, Tone::White);
        },
        None => {},
    }
    match m.decoder_util {
        Some(x) => {
            if r.len() > 0 {
                push_text(&mut r, "  ", Tone::Plain);
            }
            push_text(&mut r, "Dec: ", Tone::Magenta);
            let mut t = decimal_text(x as u64);
            t.append("%");
            push_span(&mut r, t, Tone::White);
        },
        None => {},
    }
    assert(span_texts(r@) =~= codec_spans(*m));
    r
}

fn clock_line(m: &GpuMetrics) -> (r: Vec<(String, Tone)>)
    ensures
        span_texts(r@) == clock_spans(*m),
{
    let mut r: Vec<(String, Tone)> = Vec::new();
    match (m.clock_graphics_mhz, m.clock_sm_mhz, m.clock_memory_mhz) {
        (Some(g), Some(s), Some(x)) => {
            push_text(&mut r, "Clk: ", Tone::Muted);
            let mut t = decimal_text(g as u64);
            t.append("/");
            push_decimal(&mut t, s as u64);
            t.append("/");
            push_decimal(&mut t, x as u64);
            t.append(" MHz");
            push_span(&mut r, t, Tone::Cyan);
        },
        (Some(g), _, _) => {
            push_text(&mut r, "Clk: ", Tone::Muted);
            let mut t = decimal_text(g as u64);
            t.append(" MHz");
            push_span(&mut r, t, Tone::Cyan);
        },
        _ => {},
    }
    match m.performance_state {
        Some(p) => {
            if r.len() > 0 {
                push_text(&mut r, "  ", Tone::Plain);
            }
            push_text(&mut r, p, pstate_color(p));
        },
        None => {},
    }
    assert(span_texts(r@) =~= clock_spans(*m));
    r
}

fn thermal_line(m: &GpuMetrics, power: &Option<(String, String)>) -> (r: Vec<(String, Tone)>)
    ensures
        span_texts(r@) == thermal_spans(*m, *power),
{
    let mut r: Vec<(String, Tone)> = Vec::new();
    match m.temperature {
        Some(x) => {
            push_text(&mut r, "Temp: ", Tone::Muted);
            push_number(&mut r, "", x as u64, "\u{b0}C", temp_color(x));
            assert(""@ + decimal(x as nat) =~= decimal(x as nat)) by {
                reveal_strlit("");
            }
            match m.temp_slowdown {
                Some(sd) => {
                    push_number(&mut r, " (\u{2193}", sd as u64, "", Tone::Muted);
                    assert(" (\u{2193}"@ + decimal(sd as nat) + ""@ =~= " (\u{2193}"@ + decimal(sd as nat)) by {
                        reveal_strlit("");
                    }
                    match m.temp_shutdown {
                        Some(sh) => push_number(&mut r, " \u{2715}", sh as u64, ")", Tone::Muted),
                        None => push_text(&mut r, ")", Tone::Muted),
                    }
                },
                None => {},
            }
        },
        None => {},
    }
    let ghost t = span_texts(r@);
    assert(t =~= match m.temperature {
        Some(x) => seq![("Temp: "@, Tone::Muted), (decimal(x as nat) + "\u{b0}C"@, temp_tone(x))]
            + match m.temp_slowdown {
            Some(sd) => seq![(" (\u{2193}"@ + decimal(sd as nat), Tone::Muted)] + match m.temp_shutdown {
                Some(sh) => seq![(" \u{2715}"@ + decimal(sh as nat) + ")"@, Tone::Muted)],
                None => seq![(")"@, Tone::Muted)],
            },
            None => seq![],
        },
        None => seq![],
    });
    match (m.power_usage, m.power_limit, power) {
        (Some(_), Some(_), Some((u, l))) => {
            if r.len() > 0 {
                push_text(&mut r, "  ", Tone::Plain);
            }
            push_text(&mut r, "Power: ", Tone::Muted);
            let mut s = u.clone();
            s.append("/");
            s.append(l.as_str());
            s.append("W");
            push_span(&mut r, s, Tone::Magenta);
        },
        _ => {},
    }
    assert(span_texts(r@) =~= thermal_spans(*m, *power));
    r
}

fn pcie_line(m: &GpuMetrics, rates: &Option<(String, String)>) -> (r: Vec<(String, Tone)>)
    ensures
        span_texts(r@) == pcie_spans(*m, *rates),
{
    let mut r: Vec<(String, Tone)> = Vec::new();
    push_text(&mut r, "PCIe: ", Tone::Muted);
    let ghost head = span_texts(r@);
    match (m.pcie_gen, m.pcie_width) {
        (Some(g), Some(w)) => {
            let mut s = String::from_str("Gen");
            push_decimal(&mut s, g as u64);
            s.append(" x");
            push_decimal(&mut s, w as u64);
            push_span(&mut r, s, Tone::LightCyan);
        },
        _ => {},
    }
    let ghost after_gen = span_texts(r@);
    let ghost gspec = match (m.pcie_gen, m.pcie_width) {
        (Some(g), Some(w)) => seq![("Gen"@ + decimal(g as nat) + " x"@ + decimal(w as nat), Tone::LightCyan)],
        _ => Seq::<(Seq<char>, Tone)>::empty(),
    };
    assert(head =~= seq![("PCIe: "@, Tone::Muted)]);
    assert(after_gen =~= head + gspec);
    match (m.pcie_tx_kbps, m.pcie_rx_kbps, rates) {
        (Some(_), Some(_), Some((tx, rx))) => {
            if r.len() > 1 {
                push_text(&mut r, "  ", Tone::Plain);
            }
            let mut s = String::from_str("TX:");
            s.append(tx.as_str());
            s.append(" RX:");
            s.append(rx.as_str());
            s.append(" MB/s");
            push_span(&mut r, s, Tone::LightCyan);
        },
        _ => {},
    }
    let ghost rspec = match (m.pcie_tx_kbps, m.pcie_rx_kbps, rates) {
        (Some(_), Some(_), Some((tx, rx))) => gap_after(gspec) + seq![
            ("TX:"@ + tx@ + " RX:"@ + rx@ + " MB/s"@, Tone::LightCyan),
        ],
        _ => Seq::<(Seq<char>, Tone)>::empty(),
    };
    assert(span_texts(r@) =~= head + gspec + rspec);
    if r.len() == 1 {
        r = Vec::new();
        assert(span_texts(r@) =~= Seq::<(Seq<char>, Tone)>::empty());
    }
    assert(span_texts(r@) =~= pcie_spans(*m, *rates));
    r
}

fn ecc_line(m: &GpuMetrics) -> (r: Vec<(String, Tone)>)
    ensures
        span_texts(r@) == ecc_spans(*m),
{
    let mut r: Vec<(String, Tone)> = Vec::new();
    match m.ecc_enabled {
        Some(on) => {
            push_text(&mut r, "ECC: ", Tone::Muted);
            push_text(&mut r, if on {
                "On"
            } else {
                "Off"
            }, ecc_mode_color(on));
            match m.ecc_errors_corrected {
                Some(c) => push_number(&mut r, "  Corr:", c, "", corrected_errors_color(c)),
                None => {},
            }
            match m.ecc_errors_uncorrected {
                Some(u) => push_number(&mut r, "  Uncorr:", u, "", uncorrected_errors_color(u)),
                None => {},
            }
            proof {
                reveal_strlit("");
                assert forall|x: Seq<char>| x + ""@ =~= x by {}
            }
        },
        None => {},
    }
    assert(span_texts(r@) =~= ecc_spans(*m));
    r
}

fn throttle_line(m: &GpuMetrics) -> (r: Vec<(String, Tone)>)
    ensures
        span_texts(r@) == throttle_spans(*m),
{
    let mut r: Vec<(String, Tone)> = Vec::new();
    match &m.throttle_reasons {
        Some(t) => {
            push_text(&mut r, "Throttle: ", Tone::Muted);
            push_span(&mut r, t.clone(), throttle_color(t.as_str()));
        },
        None => {},
    }
    assert(span_texts(r@) =~= throttle_spans(*m));
    r
}

fn process_count_line(m: &GpuMetrics) -> (r: Vec<(String, Tone)>)
    ensures
        span_texts(r@) == process_count_spans(*m),
{
    let mut r: Vec<(String, Tone)> = Vec::new();
    push_text(&mut r, "Processes: ", Tone::Muted);
    push_span(&mut r, decimal_text(m.process_count as u64), Tone::White);
    assert(span_texts(r@) =~= process_count_spans(*m));
    r
}

/// The lines of a device's detail panel, each a list of pieces of text
/// with their colours.
pub fn detail_lines(
    m: &GpuMetrics,
    vram_percent: Option<(String, Tone)>,
    power_w: Option<(String, String)>,
    pcie_mbps: Option<(String, String)>,
) -> (r: Vec<Vec<(String, Tone)>>)
    ensures
        lines_view(r@) == detail_spec(*m, vram_percent, power_w, pcie_mbps),
{
    let mut r: Vec<Vec<(String, Tone)>> = Vec::new();
    push_line(&mut r, name_line(m));
    push_line(&mut r, uuid_line(m));
    let blank: Vec<(String, Tone)> = Vec::new();
    assert(span_texts(blank@) =~= Seq::<(Seq<char>, Tone)>::empty());
    push_line(&mut r, blank);
    push_line(&mut r, vram_line(m, &vram_percent));
    push_line(&mut r, util_line(m));
    assert(lines_view(r@) =~= seq![
        name_spans(*m),
        uuid_spans(*m),
        Seq::<(Seq<char>, Tone)>::empty(),
        vram_spans(*m, vram_percent),
        util_spans(*m),
    ]);
    push_optional_line(&mut r, codec_line(m));
    push_optional_line(&mut r, clock_line(m));
    push_optional_line(&mut r, thermal_line(m, &power_w));
    push_optional_line(&mut r, pcie_line(m, &pcie_mbps));
    push_optional_line(&mut r, ecc_line(m));
    push_optional_line(&mut r, throttle_line(m));
    let ghost before = lines_view(r@);
    push_line(&mut r, process_count_line(m));
    assert(lines_view(r@) =~= before + seq![process_count_spans(*m)]);
    r
}

/// With the graphics, SM and memory clocks all known, the clock line reads
/// "Clk: ", then the graphics clock, the SM clock and the memory clock in
/// that order, separated by "/" and followed by " MHz"; with only the
/// graphics clock known, that clock alone. The performance state, when
/// known, comes last in its own colour.
pub proof fn law_clock_line_order(m: GpuMetrics)
    ensures
        (m.clock_graphics_mhz, m.clock_sm_mhz, m.clock_memory_mhz) matches (Some(g), Some(s), Some(x)) ==> {
            let l = clock_spans(m);
            &&& l[0] == ("Clk: "@, Tone::Muted)
            &&& l[1].0 == decimal(g as nat) + "/"@ + decimal(s as nat) + "/"@ + decimal(x as nat) + " MHz"@
        },
        m.clock_sm_mhz is None || m.clock_memory_mhz is None ==> (m.clock_graphics_mhz matches Some(g) ==> {
            let l = clock_spans(m);
            &&& l[0] == ("Clk: "@, Tone::Muted)
            &&& l[1].0 == decimal(g as nat) + " MHz"@
        }),
        m.performance_state matches Some(p) ==> clock_spans(m).last() == (p@, pstate_tone(p@)),
        m.clock_graphics_mhz is None && m.performance_state is None ==> clock_spans(m).len() == 0,
{
}

} // verus!
