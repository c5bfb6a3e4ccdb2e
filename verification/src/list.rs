//! The inventory report.
//!
//! `list` renders one line per initialized VM: name, OS, CPU count,
//! memory, disk usage as allocated/logical, and running status, each in a
//! fixed-width column. Sizes are printed in gigabytes with two decimals;
//! memory against the binary gigabyte, disk against the decimal one, as
//! the stored sizes are. The enumeration and the metadata reads are the
//! driver's; every character of the report is specified here.

use vstd::prelude::*;

use crate::digits::dec_seq;
use crate::digits::digit_char;
use crate::digits::push_u64;
use crate::vm_config::Os;

verus! {

/// The `list` command: reports every initialized VM.
pub struct List;

/// The OS column text.
pub open spec fn spec_os_str(os: Os) -> Seq<char> {
    match os {
        Os::Linux => "linux"@,
        Os::MacOs => "macOS"@,
    }
}

/// The OS kind as the report prints it.
pub fn to_string(os: Os) -> (r: &'static str)
    ensures
        r@ == spec_os_str(os),
{
    match os {
        Os::Linux => "linux",
        Os::MacOs => "macOS",
    }
}

pub open spec fn spaces(n: nat) -> Seq<char>
    decreases n,
{
    if n == 0 {
        Seq::<char>::empty()
    } else {
        spaces((n - 1) as nat).push(' ')
    }
}

/// `s` padded with trailing spaces to at least `w` characters.
pub open spec fn pad_right(s: Seq<char>, w: nat) -> Seq<char> {
    if s.len() >= w {
        s
    } else {
        s + spaces((w - s.len()) as nat)
    }
}

/// Appends `s` to `out`, then spaces to fill the column.
fn push_padded(out: &mut String, s: &str, w: usize)
    ensures
        final(out)@ == old(out)@ + pad_right(s@, w as nat),
{
    out.append(s);
    let mut have = s.unicode_len();
    let ghost filled: nat = 0;
    while have < w
        invariant
            out@ == old(out)@ + s@ + spaces(filled),
            have == s@.len() + filled,
            filled == 0 || s@.len() + filled <= w,
        decreases w - have,
    {
        out.append(" ");
        proof {
            reveal_strlit(" ");
            assert(" "@ =~= seq![' ']);
            assert(spaces(filled).push(' ') == spaces(filled + 1));
            assert(out@ =~= old(out)@ + s@ + spaces(filled + 1));
        }
        have = have + 1;
        proof {
            filled = filled + 1;
        }
    }
    proof {
        if s@.len() >= w {
            assert(filled == 0);
            assert(s@ + spaces(0) =~= s@);
        } else {
            assert(filled == w - s@.len());
        }
    }
}

/// The size in hundredths of a unit, rounded half up: for bytes `v` and a
/// unit of `u` bytes, `(v * 100 + u / 2) / u`.
pub open spec fn scaled_hundredths(v: nat, unit: nat) -> nat
    recommends
        unit > 0,
{
    (v * 100 + unit / 2) / unit
}

/// A hundredths count rendered as a two-decimal gigabyte figure: whole
/// part, a point, two fraction digits, and the unit letter.
pub open spec fn spec_size_text(h: nat) -> Seq<char> {
    dec_seq(h / 100) + seq!['.'] + seq![digit_char((h % 100) / 10), digit_char(h % 10)] + seq!['G']
}

/// Computes `scaled_hundredths` exactly, in wide arithmetic.
fn size_hundredths(v: u64, unit: u64) -> (h: u64)
    requires
        unit >= 1000,
    ensures
        h == scaled_hundredths(v as nat, unit as nat),
{
    let wide: u128 = (v as u128) * 100 + (unit as u128) / 2;
    let q: u128 = wide / (unit as u128);
    proof {
        let vi = v as int;
        let ui = unit as int;
        assert(q == (vi * 100 + ui / 2) / ui);
        assert((vi * 100 + ui / 2) / ui <= u64::MAX) by (nonlinear_arith)
            requires
                0 <= vi <= u64::MAX,
                1000 <= ui,
        ;
        assert(q as nat == scaled_hundredths(v as nat, unit as nat));
    }
    q as u64
}

/// Appends the two-decimal size figure for `h` hundredths.
fn push_size_text(out: &mut String, h: u64)
    ensures
        final(out)@ == old(out)@ + spec_size_text(h as nat),
{
    push_u64(out, h / 100);
    out.append(".");
    let frac = h % 100;
    let mut digits = String::new();
    push_u64(&mut digits, frac / 10);
    push_u64(&mut digits, frac % 10);
    out.append(digits.as_str());
    out.append("G");
    proof {
        reveal_strlit(".");
        reveal_strlit("G");
        assert("."@ =~= seq!['.']);
        assert("G"@ =~= seq!['G']);
        assert(dec_seq((frac / 10) as nat) =~= seq![digit_char((frac / 10) as nat)]);
        assert(dec_seq((frac % 10) as nat) =~= seq![digit_char((frac % 10) as nat)]);
        assert((h % 100) % 10 == h % 10) by (nonlinear_arith);
        assert(final(out)@ =~= old(out)@ + spec_size_text(h as nat));
    }
}

/// One VM as the report sees it: its config essentials, the disk image's
/// allocated 512-byte block count and logical length, and liveness.
pub struct VmRow {
    pub name: String,
    pub os: Os,
    pub cpu: u64,
    pub memory: u64,
    pub disk_blocks: u64,
    pub disk_length: u64,
    pub running: bool,
}

/// The number of bytes in a binary gigabyte, the memory column's unit.
pub const BYTES_PER_GIB: u64 = 1_073_741_824;

/// The number of bytes in a decimal gigabyte, the disk column's unit.
pub const BYTES_PER_GB: u64 = 1_000_000_000;

/// The status column text.
pub open spec fn spec_status_str(running: bool) -> Seq<char> {
    if running {
        "running"@
    } else {
        "stopped"@
    }
}

/// The line the report prints for `row`, without its newline.
pub open spec fn spec_row_text(row: VmRow) -> Seq<char> {
    pad_right(row.name@, 16) + pad_right(spec_os_str(row.os), 8) + pad_right(
        dec_seq(row.cpu as nat),
        8,
    ) + pad_right(spec_size_text(scaled_hundredths(row.memory as nat, BYTES_PER_GIB as nat)), 8)
        + pad_right(
        spec_size_text(scaled_hundredths(row.disk_blocks as nat * 512, BYTES_PER_GB as nat)) + seq![
            '/',
        ] + spec_size_text(scaled_hundredths(row.disk_length as nat, BYTES_PER_GB as nat)),
        16,
    ) + pad_right(spec_status_str(row.running), 16)
}

/// The header line, without its newline.
pub open spec fn spec_header_text() -> Seq<char> {
    pad_right("name"@, 16) + pad_right("os"@, 8) + pad_right("cpu"@, 8) + pad_right("memory"@, 8)
        + pad_right("disk"@, 16) + pad_right("status"@, 16)
}

/// Renders the line for one VM. The block count is bounded so that the
/// allocated byte count has a value.
pub fn render_row(row: &VmRow) -> (r: String)
    requires
        row.disk_blocks <= u64::MAX / 512,
    ensures
        r@ == spec_row_text(*row),
{
    let mut out = String::new();
    push_padded(&mut out, row.name.as_str(), 16);
    push_padded(&mut out, to_string(row.os), 8);
    let mut cpu_text = String::new();
    push_u64(&mut cpu_text, row.cpu);
    push_padded(&mut out, cpu_text.as_str(), 8);
    let mut memory_text = String::new();
    push_size_text(&mut memory_text, size_hundredths(row.memory, BYTES_PER_GIB));
    push_padded(&mut out, memory_text.as_str(), 8);
    let mut disk_text = String::new();
    push_size_text(&mut disk_text, size_hundredths(row.disk_blocks * 512, BYTES_PER_GB));
    disk_text.append("/");
    push_size_text(&mut disk_text, size_hundredths(row.disk_length, BYTES_PER_GB));
    proof {
        reveal_strlit("/");
        assert("/"@ =~= seq!['/']);
    }
    push_padded(&mut out, disk_text.as_str(), 16);
    let status = if row.running {
        "running"
    } else {
        "stopped"
    };
    push_padded(&mut out, status, 16);
    assert(out@ =~= spec_row_text(*row));
    out
}

/// Renders the header line.
pub fn render_header() -> (r: String)
    ensures
        r@ == spec_header_text(),
{
    let mut out = String::new();
    push_padded(&mut out, "name", 16);
    push_padded(&mut out, "os", 8);
    push_padded(&mut out, "cpu", 8);
    push_padded(&mut out, "memory", 8);
    push_padded(&mut out, "disk", 16);
    push_padded(&mut out, "status", 16);
    assert(out@ =~= spec_header_text());
    out
}

/// The whole report for `rows`: the header and one line per VM, each
/// line closed by a newline.
pub open spec fn spec_report_lines(rows: Seq<VmRow>) -> Seq<char>
    decreases rows.len(),
{
    if rows.len() == 0 {
        Seq::<char>::empty()
    } else {
        spec_row_text(rows[0]) + seq!['\n'] + spec_report_lines(rows.drop_first())
    }
}

proof fn lemma_report_lines_take_one(rows: Seq<VmRow>, idx: int)
    requires
        0 <= idx < rows.len(),
    ensures
        spec_report_lines(rows.take(idx + 1)) == spec_report_lines(rows.take(idx))
            + spec_row_text(rows[idx]) + seq!['\n'],
    decreases idx,
{
    if idx == 0 {
        assert(rows.take(1).drop_first() =~= Seq::<VmRow>::empty());
        assert(rows.take(1)[0] == rows[0]);
        assert(spec_report_lines(Seq::<VmRow>::empty()) == Seq::<char>::empty());
        assert(spec_report_lines(rows.take(1)) =~= spec_report_lines(rows.take(0))
            + spec_row_text(rows[0]) + seq!['\n']);
    } else {
        lemma_report_lines_take_one(rows.drop_first(), idx - 1);
        assert(rows.take(idx + 1).drop_first() =~= rows.drop_first().take(idx));
        assert(rows.take(idx).drop_first() =~= rows.drop_first().take(idx - 1));
        assert(rows.take(idx + 1)[0] == rows[0]);
        assert(rows.take(idx)[0] == rows[0]);
        assert(rows.drop_first()[idx - 1] == rows[idx]);
        assert(spec_report_lines(rows.take(idx + 1)) =~= spec_report_lines(rows.take(idx))
            + spec_row_text(rows[idx]) + seq!['\n']);
    }
}

impl List {
    /// Renders the whole report: header, then one line per row, in the
    /// given order.
    pub fn render(&self, rows: &Vec<VmRow>) -> (r: String)
        requires
            forall|i: int| 0 <= i < rows@.len() ==> (#[trigger] rows@[i]).disk_blocks <= u64::MAX
                / 512,
        ensures
            r@ == spec_header_text() + seq!['\n'] + spec_report_lines(rows@),
    {
        let mut out = render_header();
        out.append("\n");
        proof {
            reveal_strlit("\n");
            assert("\n"@ =~= seq!['\n']);
            assert(spec_report_lines(rows@.take(0)) == Seq::<char>::empty());
            assert(out@ =~= spec_header_text() + seq!['\n'] + spec_report_lines(rows@.take(0)));
        }
        let mut idx: usize = 0;
        while idx < rows.len()
            invariant
                idx <= rows@.len(),
                forall|i: int| 0 <= i < rows@.len() ==> (#[trigger] rows@[i]).disk_blocks
                    <= u64::MAX / 512,
                out@ == spec_header_text() + seq!['\n'] + spec_report_lines(rows@.take(idx as int)),
            decreases rows@.len() - idx,
        {
            let line = render_row(&rows[idx]);
            out.append(line.as_str());
            out.append("\n");
            proof {
                reveal_strlit("\n");
                assert("\n"@ =~= seq!['\n']);
                lemma_report_lines_take_one(rows@, idx as int);
                assert(out@ =~= spec_header_text() + seq!['\n'] + spec_report_lines(
                    rows@.take(idx as int + 1),
                ));
            }
            idx = idx + 1;
        }
        proof {
            assert(rows@.take(rows@.len() as int) =~= rows@);
        }
        out
    }
}

} // verus!
