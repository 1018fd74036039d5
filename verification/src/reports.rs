//! What the commands print when they are done. Paths come in the form in which
//! they are shown.

use vstd::prelude::*;
use vstd::string::*;

use crate::admin::DbLiteReport;
use crate::binary64::{nearest_double, double_of};
use crate::cli::{words, ImportMode};
use crate::panel::{append_fixed2, fixed2, over};
use crate::text::{append_int, append_nat, decimal, int_decimal};

verus! {

/// What an import of a snapshot came to.
#[derive(Debug, Clone)]
pub struct ImportReport {
    pub stores_imported: usize,
    pub bytes_copied: u64,
    pub head_block_number: i64,
    pub head_block_hash_hex: String,
    pub solidified_block_number: i64,
    pub witness_count: usize,
    pub stores: Vec<String>,
}

/// What an export came to.
#[derive(Debug, Clone)]
pub struct ExportReport {
    pub output_path: String,
    pub stores_exported: usize,
    pub bytes_written: u64,
    pub stores: Vec<String>,
}

/// The first `n` words with a comma and a blank between them.
pub open spec fn listed(w: Seq<Seq<char>>, n: nat) -> Seq<char>
    decreases n,
{
    if n == 0 {
        Seq::empty()
    } else if n == 1 {
        w[0]
    } else {
        listed(w, (n - 1) as nat) + ", "@ + w[n - 1]
    }
}

fn append_list(out: &mut String, list: &Vec<String>)
    ensures
        final(out)@ == old(out)@ + listed(words(list@), list@.len()),
{
    let mut i: usize = 0;
    assert(out@ =~= old(out)@ + listed(words(list@), 0));
    while i < list.len()
        invariant
            i <= list@.len(),
            out@ == old(out)@ + listed(words(list@), i as nat),
        decreases list@.len() - i,
    {
        if i > 0 {
            out.append(", ");
        }
        out.append(list[i].as_str());
        i = i + 1;
        assert(out@ =~= old(out)@ + listed(words(list@), i as nat));
    }
}

/// Bytes in mebibytes, with two decimals.
pub open spec fn mebibytes(bytes: nat) -> Seq<char> {
    fixed2(over(bytes, 1_048_576))
}

fn append_mebibytes(out: &mut String, bytes: u64)
    ensures
        final(out)@ == old(out)@ + mebibytes(bytes as nat),
{
    let whole = double_of(bytes as u128);
    let d = nearest_double(whole.mant as u128, 1_048_576, whole.exp);
    append_fixed2(out, &d);
}

/// The word for a mode.
pub open spec fn mode_word(m: ImportMode) -> Seq<char> {
    match m {
        ImportMode::Copy => "Copy"@,
        ImportMode::Move => "Move"@,
        ImportMode::Symlink => "Symlink"@,
    }
}

fn append_mode(out: &mut String, m: &ImportMode)
    ensures
        final(out)@ == old(out)@ + mode_word(*m),
{
    match m {
        ImportMode::Copy => out.append("Copy"),
        ImportMode::Move => out.append("Move"),
        ImportMode::Symlink => out.append("Symlink"),
    }
}

/// The lines that both kinds of import end with.
pub open spec fn import_tail(r: ImportReport) -> Seq<char> {
    "  head block number:      "@ + int_decimal(r.head_block_number as int)
        + "\n  head block hash:        "@ + r.head_block_hash_hex@
        + "\n  solidified block:       "@ + int_decimal(r.solidified_block_number as int)
        + "\n  witnesses:              "@ + decimal(r.witness_count as nat)
        + "\n  stores:                 "@ + listed(words(r.stores@), r.stores@.len()) + "\n"@
}

fn append_import_tail(out: &mut String, r: &ImportReport)
    ensures
        final(out)@ == old(out)@ + import_tail(*r),
{
    let mut s = "  head block number:      ".to_owned();
    append_int(&mut s, r.head_block_number);
    s.append("\n  head block hash:        ");
    s.append(r.head_block_hash_hex.as_str());
    s.append("\n  solidified block:       ");
    append_int(&mut s, r.solidified_block_number);
    s.append("\n  witnesses:              ");
    append_nat(&mut s, r.witness_count as u128);
    s.append("\n  stores:                 ");
    append_list(&mut s, &r.stores);
    s.append("\n");
    out.append(s.as_str());
}

/// The report on an imported snapshot.
pub open spec fn import_report(
    r: ImportReport,
    from: Seq<char>,
    data_dir: Seq<char>,
    mode: ImportMode,
) -> Seq<char> {
    "snapshot imported:\n  source:                 "@ + from
        + "\n  destination:            "@ + data_dir
        + "\n  mode:                   "@ + mode_word(mode) + "\n  stores imported:        "@
        + decimal(r.stores_imported as nat) + (if r.bytes_copied > 0 {
        "\n  bytes copied:           "@ + mebibytes(r.bytes_copied as nat) + " MiB\n"@
    } else {
        "\n"@
    }) + import_tail(r)
}

/// The report on an imported snapshot.
pub fn print_import_report(r: &ImportReport, from: &str, data_dir: &str, mode: &ImportMode) -> (out:
    String)
    ensures
        out@ == import_report(*r, from@, data_dir@, *mode),
{
    let mut out = "snapshot imported:\n  source:                 ".to_owned();
    out.append(from);
    out.append("\n  destination:            ");
    out.append(data_dir);
    out.append("\n  mode:                   ");
    append_mode(&mut out, mode);
    out.append("\n  stores imported:        ");
    append_nat(&mut out, r.stores_imported as u128);
    let size = if r.bytes_copied > 0 {
        let mut t = "\n  bytes copied:           ".to_owned();
        append_mebibytes(&mut t, r.bytes_copied);
        t.append(" MiB\n");
        t
    } else {
        "\n".to_owned()
    };
    out.append(size.as_str());
    append_import_tail(&mut out, r);
    out
}

/// The report on a live import.
pub open spec fn live_import_report(r: ImportReport, from: Seq<char>, data_dir: Seq<char>) -> Seq<
    char,
> {
    "live import complete:\n  source (primary):       "@ + from
        + "\n  destination:            "@ + data_dir
        + "\n  stores imported:        "@ + decimal(r.stores_imported as nat)
        + "\n  bytes streamed:         "@ + mebibytes(r.bytes_copied as nat) + " MiB\n"@
        + import_tail(r)
}

/// The report on a live import.
pub fn live_import_text(r: &ImportReport, from: &str, data_dir: &str) -> (out: String)
    ensures
        out@ == live_import_report(*r, from@, data_dir@),
{
    let mut out = "live import complete:\n  source (primary):       ".to_owned();
    out.append(from);
    out.append("\n  destination:            ");
    out.append(data_dir);
    out.append("\n  stores imported:        ");
    append_nat(&mut out, r.stores_imported as u128);
    out.append("\n  bytes streamed:         ");
    append_mebibytes(&mut out, r.bytes_copied);
    out.append(" MiB\n");
    append_import_tail(&mut out, r);
    out
}

/// The report on an export.
pub open spec fn export_report(r: ExportReport, data_dir: Seq<char>, gzip: bool) -> Seq<char> {
    "snapshot exported:\n  data dir:       "@ + data_dir
        + "\n  output:         "@ + r.output_path@ + "\n  compression:    "@ + (
    if gzip {
        "Gzip"@
    } else {
        "None"@
    }) + "\n  stores:         "@ + decimal(r.stores_exported as nat) + "\n  bytes written:  "@
        + mebibytes(r.bytes_written as nat) + " MiB\n  store list:     "@ + listed(
        words(r.stores@),
        r.stores@.len(),
    ) + "\n"@
}

/// The report on an export.
pub fn export_text(r: &ExportReport, data_dir: &str, gzip: bool) -> (out: String)
    ensures
        out@ == export_report(*r, data_dir@, gzip),
{
    let mut out = "snapshot exported:\n  data dir:       ".to_owned();
    out.append(data_dir);
    out.append("\n  output:         ");
    out.append(r.output_path.as_str());
    out.append("\n  compression:    ");
    if gzip {
        out.append("Gzip");
    } else {
        out.append("None");
    }
    out.append("\n  stores:         ");
    append_nat(&mut out, r.stores_exported as u128);
    out.append("\n  bytes written:  ");
    append_mebibytes(&mut out, r.bytes_written);
    out.append(" MiB\n  store list:     ");
    append_list(&mut out, &r.stores);
    out.append("\n");
    out
}

/// The line on a lite copy.
pub fn lite_text(dst: &str, r: &DbLiteReport) -> (out: String)
    ensures
        out@ == "lite snapshot written to "@ + dst@ + " (latest="@ + int_decimal(
            r.latest_block as int,
        ) + ", kept blocks ["@ + int_decimal(r.prune_below as int) + ", "@ + int_decimal(
            r.latest_block as int,
        ) + "], dropped "@ + decimal(r.blocks_pruned as nat) + ")\n"@,
{
    let mut out = "lite snapshot written to ".to_owned();
    out.append(dst);
    out.append(" (latest=");
    append_int(&mut out, r.latest_block);
    out.append(", kept blocks [");
    append_int(&mut out, r.prune_below);
    out.append(", ");
    append_int(&mut out, r.latest_block);
    out.append("], dropped ");
    append_nat(&mut out, r.blocks_pruned as u128);
    out.append(")\n");
    out
}

/// The line on a compaction.
pub fn compact_text(stores: &Vec<String>) -> (out: String)
    ensures
        out@ == "compacted "@ + decimal(stores@.len()) + " store(s): "@ + listed(
            words(stores@),
            stores@.len(),
        ) + "\n"@,
{
    let mut out = "compacted ".to_owned();
    append_nat(&mut out, stores.len() as u128);
    out.append(" store(s): ");
    append_list(&mut out, stores);
    out.append("\n");
    out
}

/// The line on pruned blocks.
pub fn pruned_text(pruned: usize, before: i64) -> (out: String)
    ensures
        out@ == "pruned "@ + decimal(pruned as nat) + " block(s) below height "@ + int_decimal(
            before as int,
        ) + "\n"@,
{
    let mut out = "pruned ".to_owned();
    append_nat(&mut out, pruned as u128);
    out.append(" block(s) below height ");
    append_int(&mut out, before);
    out.append("\n");
    out
}

/// A list is its names with a comma and a blank between every two.
pub proof fn lists_are_joined(w: Seq<Seq<char>>, n: nat)
    requires
        0 < n < w.len(),
    ensures
        listed(w, (n + 1) as nat) == listed(w, n) + ", "@ + w[n as int],
        listed(w, 1) == w[0],
        listed(w, 0) == Seq::<char>::empty(),
{
}

} // verus!
