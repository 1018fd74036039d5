//! The command line: which command is asked for, what its options say, and how
//! the flags of `start` overlay the configuration.

use vstd::prelude::*;
use vstd::string::*;

use crate::config::{MetricsConfig, NodeConfig, P2pConfig, RpcConfig, TipTestCheckpoint};
use crate::text::{
    append_nat, chars_of, decimal, find_char, first_position, hex_decode, hex_refusal, i64_refusal,
    is_hex, parse_i64, parse_u16, parse_u64, parse_usize, signed_decimal, slice_string, str_eq,
    u16_refusal, u64_refusal, unsigned_decimal, usize_refusal, within,
};

verus! {

/// The words of a command line.
pub open spec fn words(args: Seq<String>) -> Seq<Seq<char>> {
    args.map_values(|s: String| s@)
}

// ---------------------------------------------------------------------------
// Commands
// ---------------------------------------------------------------------------

/// The commands of the program.
#[derive(Debug, Clone, Copy, PartialEq, Eq, Structural)]
pub enum Command {
    Start,
    Init,
    DumpState,
    ImportSnapshot,
    ImportLive,
    ExportSnapshot,
    VerifySnapshot,
    Admin,
    Help,
}

/// The command that a word names.
pub open spec fn command_of(word: Seq<char>) -> Option<Command> {
    if word == "start"@ {
        Some(Command::Start)
    } else if word == "init"@ {
        Some(Command::Init)
    } else if word == "dump-state"@ {
        Some(Command::DumpState)
    } else if word == "import-snapshot"@ {
        Some(Command::ImportSnapshot)
    } else if word == "import-live"@ {
        Some(Command::ImportLive)
    } else if word == "export-snapshot"@ {
        Some(Command::ExportSnapshot)
    } else if word == "verify-snapshot"@ {
        Some(Command::VerifySnapshot)
    } else if word == "admin"@ {
        Some(Command::Admin)
    } else if word == "--help"@ || word == "-h"@ || word == "help"@ {
        Some(Command::Help)
    } else {
        None
    }
}

/// The command that a word names, if any.
pub fn command(word: &str) -> (r: Option<Command>)
    ensures
        r == command_of(word@),
{
    if str_eq(word, "start") {
        Some(Command::Start)
    } else if str_eq(word, "init") {
        Some(Command::Init)
    } else if str_eq(word, "dump-state") {
        Some(Command::DumpState)
    } else if str_eq(word, "import-snapshot") {
        Some(Command::ImportSnapshot)
    } else if str_eq(word, "import-live") {
        Some(Command::ImportLive)
    } else if str_eq(word, "export-snapshot") {
        Some(Command::ExportSnapshot)
    } else if str_eq(word, "verify-snapshot") {
        Some(Command::VerifySnapshot)
    } else if str_eq(word, "admin") {
        Some(Command::Admin)
    } else if str_eq(word, "--help") || str_eq(word, "-h") || str_eq(word, "help") {
        Some(Command::Help)
    } else {
        None
    }
}

/// The administration commands.
#[derive(Debug, Clone, Copy, PartialEq, Eq, Structural)]
pub enum AdminCommand {
    Compact,
    PruneBefore,
    DbMove,
    DbCopy,
    DbRoot,
    DbLite,
}

/// Why the words after `admin` name no command.
#[derive(Debug, Clone, PartialEq, Eq)]
pub enum AdminUsage {
    Missing,
    Unknown(String),
    DbMissing,
    DbUnknown(String),
}

/// Resolves the words after `admin` to a command. The command takes one word,
/// those on databases take two.
pub fn admin_command(args: &Vec<String>) -> (r: Result<AdminCommand, AdminUsage>)
    ensures
        ({
            let w = words(args@);
            if w.len() == 0 {
                r matches Err(AdminUsage::Missing)
            } else if w[0] == "compact"@ {
                r == Ok::<AdminCommand, AdminUsage>(AdminCommand::Compact)
            } else if w[0] == "prune-before"@ {
                r == Ok::<AdminCommand, AdminUsage>(AdminCommand::PruneBefore)
            } else if w[0] != "db"@ {
                r matches Err(AdminUsage::Unknown(s)) && s@ == w[0]
            } else if w.len() == 1 {
                r matches Err(AdminUsage::DbMissing)
            } else if w[1] == "move"@ {
                r == Ok::<AdminCommand, AdminUsage>(AdminCommand::DbMove)
            } else if w[1] == "copy"@ {
                r == Ok::<AdminCommand, AdminUsage>(AdminCommand::DbCopy)
            } else if w[1] == "root"@ {
                r == Ok::<AdminCommand, AdminUsage>(AdminCommand::DbRoot)
            } else if w[1] == "lite"@ {
                r == Ok::<AdminCommand, AdminUsage>(AdminCommand::DbLite)
            } else {
                r matches Err(AdminUsage::DbUnknown(s)) && s@ == w[1]
            }
        }),
{
    if args.len() == 0 {
        return Err(AdminUsage::Missing);
    }
    let sub = args[0].as_str();
    assert(sub@ == words(args@)[0]);
    if str_eq(sub, "compact") {
        return Ok(AdminCommand::Compact);
    }
    if str_eq(sub, "prune-before") {
        return Ok(AdminCommand::PruneBefore);
    }
    if !str_eq(sub, "db") {
        return Err(AdminUsage::Unknown(sub.to_owned()));
    }
    if args.len() == 1 {
        return Err(AdminUsage::DbMissing);
    }
    let db = args[1].as_str();
    assert(db@ == words(args@)[1]);
    if str_eq(db, "move") {
        Ok(AdminCommand::DbMove)
    } else if str_eq(db, "copy") {
        Ok(AdminCommand::DbCopy)
    } else if str_eq(db, "root") {
        Ok(AdminCommand::DbRoot)
    } else if str_eq(db, "lite") {
        Ok(AdminCommand::DbLite)
    } else {
        Err(AdminUsage::DbUnknown(db.to_owned()))
    }
}

// ---------------------------------------------------------------------------
// Options of the one-shot commands
// ---------------------------------------------------------------------------

/// What an option takes.
#[derive(Debug, Clone, Copy, PartialEq, Eq, Structural)]
pub enum OptionKind {
    /// Nothing.
    Bare,
    /// Any word.
    Text,
    /// How a snapshot is planted.
    Mode,
    /// How a snapshot is packed.
    Compression,
    /// A number of at least one.
    Positive,
    /// Any number.
    Number,
}

/// One option of a command, with the words of its refusals.
pub struct OptionRule {
    pub flag: &'static str,
    pub kind: OptionKind,
    pub missing: &'static str,
    pub invalid: &'static str,
}

/// An option as plain values.
pub struct RuleView {
    pub flag: Seq<char>,
    pub kind: OptionKind,
    pub missing: Seq<char>,
    pub invalid: Seq<char>,
}

impl View for OptionRule {
    type V = RuleView;

    open spec fn view(&self) -> RuleView {
        RuleView {
            flag: self.flag@,
            kind: self.kind,
            missing: self.missing@,
            invalid: self.invalid@,
        }
    }
}

/// The rules as plain values.
pub open spec fn rules_view(rules: Seq<OptionRule>) -> Seq<RuleView> {
    rules.map_values(|r: OptionRule| r@)
}

/// Whether an option of this kind takes `v`.
pub open spec fn accepts(kind: OptionKind, v: Seq<char>) -> bool {
    match kind {
        OptionKind::Bare => true,
        OptionKind::Text => true,
        OptionKind::Mode => v == "copy"@ || v == "move"@ || v == "symlink"@,
        OptionKind::Compression => v == "gzip"@ || v == "none"@,
        OptionKind::Positive => within(signed_decimal(v), 1, i64::MAX as int) is Some,
        OptionKind::Number => within(signed_decimal(v), i64::MIN as int, i64::MAX as int) is Some,
    }
}

fn value_fits(kind: OptionKind, v: &str) -> (r: bool)
    ensures
        r == accepts(kind, v@),
{
    match kind {
        OptionKind::Bare => true,
        OptionKind::Text => true,
        OptionKind::Mode => str_eq(v, "copy") || str_eq(v, "move") || str_eq(v, "symlink"),
        OptionKind::Compression => str_eq(v, "gzip") || str_eq(v, "none"),
        OptionKind::Positive => match parse_i64(v) {
            Ok(n) => n >= 1,
            Err(_) => false,
        },
        OptionKind::Number => match parse_i64(v) {
            Ok(_) => true,
            Err(_) => false,
        },
    }
}

/// The position of the rule for `flag`, or the number of rules.
pub open spec fn rule_position(rules: Seq<RuleView>, flag: Seq<char>) -> nat
    decreases rules.len(),
{
    if rules.len() == 0 || rules[0].flag == flag {
        0
    } else {
        1 + rule_position(rules.skip(1), flag)
    }
}

fn find_rule(rules: &Vec<OptionRule>, flag: &str) -> (r: usize)
    ensures
        r == rule_position(rules_view(rules@), flag@),
        r <= rules@.len(),
{
    let ghost all = rules_view(rules@);
    let mut i: usize = 0;
    assert(all.skip(0) =~= all);
    while i < rules.len()
        invariant
            i <= rules@.len(),
            all == rules_view(rules@),
            rule_position(all, flag@) == i + rule_position(all.skip(i as int), flag@),
        decreases rules@.len() - i,
    {
        let ghost rest = all.skip(i as int);
        assert(rest[0] == rules@[i as int]@);
        if str_eq(rules[i].flag, flag) {
            return i;
        }
        assert(rest.skip(1) =~= all.skip(i + 1));
        i = i + 1;
    }
    i
}

/// What scanning a command's options gives.
pub enum Scan {
    /// Each option given, as the position of its rule and its value.
    Options(Seq<(int, Seq<char>)>),
    /// The value of the rule's option is missing.
    Missing(int),
    /// The rule's option does not take the value.
    Invalid(int, Seq<char>),
    /// No rule has this flag.
    Unknown(Seq<char>),
}

/// Scans the words from position `i` on, left to right, stopping at the first
/// fault.
pub open spec fn scan(
    rules: Seq<RuleView>,
    args: Seq<Seq<char>>,
    i: int,
    found: Seq<(int, Seq<char>)>,
) -> Scan
    decreases args.len() - i,
{
    if i < 0 || i >= args.len() {
        Scan::Options(found)
    } else {
        let k = rule_position(rules, args[i]) as int;
        if k >= rules.len() {
            Scan::Unknown(args[i])
        } else if rules[k].kind == OptionKind::Bare {
            scan(rules, args, i + 1, found.push((k, Seq::empty())))
        } else if i + 1 >= args.len() {
            Scan::Missing(k)
        } else if !accepts(rules[k].kind, args[i + 1]) {
            Scan::Invalid(k, args[i + 1])
        } else {
            scan(rules, args, i + 2, found.push((k, args[i + 1])))
        }
    }
}

/// The words of a refused scan.
pub open spec fn refusal(
    rules: Seq<RuleView>,
    s: Scan,
    before: Seq<char>,
    after: Seq<char>,
) -> Option<Seq<char>> {
    match s {
        Scan::Options(_) => None,
        Scan::Missing(k) => Some(rules[k].missing),
        Scan::Invalid(k, v) => Some(
            if rules[k].kind == OptionKind::Number {
                rules[k].invalid + i64_refusal(v)
            } else {
                rules[k].invalid
            },
        ),
        Scan::Unknown(w) => Some(before + w + after),
    }
}

/// The options found, as plain values.
pub open spec fn found_view(found: Seq<(usize, String)>) -> Seq<(int, Seq<char>)> {
    found.map_values(|p: (usize, String)| (p.0 as int, p.1@))
}

/// The last value given for the rule at `k`: a later option overrides.
pub open spec fn last_value(found: Seq<(int, Seq<char>)>, k: int) -> Option<Seq<char>>
    decreases found.len(),
{
    if found.len() == 0 {
        None
    } else if found.last().0 == k {
        Some(found.last().1)
    } else {
        last_value(found.drop_last(), k)
    }
}

/// The last value given for the rule at `k`.
pub fn option_value(found: &Vec<(usize, String)>, k: usize) -> (r: Option<String>)
    ensures
        match r {
            Some(s) => last_value(found_view(found@), k as int) == Some(s@),
            None => last_value(found_view(found@), k as int) is None,
        },
{
    let ghost all = found_view(found@);
    let mut i: usize = found.len();
    assert(all.take(all.len() as int) =~= all);
    while i > 0
        invariant
            i <= found@.len(),
            all == found_view(found@),
            last_value(all, k as int) == last_value(all.take(i as int), k as int),
        decreases i,
    {
        let ghost head = all.take(i as int);
        i = i - 1;
        assert(head.last() == (found@[i as int].0 as int, found@[i as int].1@));
        assert(head.drop_last() =~= all.take(i as int));
        if found[i].0 == k {
            return Some(found[i].1.clone());
        }
    }
    assert(all.take(0) =~= Seq::<(int, Seq<char>)>::empty());
    None
}

/// Every option found has a value that its rule takes.
pub open spec fn all_accepted(rules: Seq<RuleView>, found: Seq<(int, Seq<char>)>) -> bool {
    forall|j: int|
        0 <= j < found.len() ==> {
            let p = #[trigger] found[j];
            0 <= p.0 < rules.len() && accepts(rules[p.0].kind, p.1)
        }
}

/// What a scan lets through, the rules take: no option with a value that its
/// kind does not admit is ever handed on.
pub proof fn scanned_options_are_accepted(
    rules: Seq<RuleView>,
    args: Seq<Seq<char>>,
    i: int,
    found: Seq<(int, Seq<char>)>,
)
    requires
        all_accepted(rules, found),
    ensures
        scan(rules, args, i, found) matches Scan::Options(f) ==> all_accepted(rules, f),
    decreases args.len() - i,
{
    if 0 <= i < args.len() {
        let k = rule_position(rules, args[i]) as int;
        if k < rules.len() {
            if rules[k].kind == OptionKind::Bare {
                scanned_options_are_accepted(rules, args, i + 1, found.push((k, Seq::empty())));
            } else if i + 1 < args.len() && accepts(rules[k].kind, args[i + 1]) {
                scanned_options_are_accepted(rules, args, i + 2, found.push((k, args[i + 1])));
            }
        }
    }
}

proof fn lemma_last_value_accepted(rules: Seq<RuleView>, found: Seq<(int, Seq<char>)>, k: int)
    requires
        all_accepted(rules, found),
    ensures
        last_value(found, k) matches Some(v) ==> 0 <= k < rules.len() && accepts(rules[k].kind, v),
    decreases found.len(),
{
    if found.len() > 0 {
        let p = found[found.len() - 1];
        let head = found.drop_last();
        assert forall|j: int| 0 <= j < head.len() implies {
            let p = #[trigger] head[j];
            0 <= p.0 < rules.len() && accepts(rules[p.0].kind, p.1)
        } by {
            assert(head[j] == found[j]);
        }
        lemma_last_value_accepted(rules, head, k);
    }
}

/// Scans a command's options. A refusal names the unknown flag between
/// `before` and `after`.
pub fn scan_options(
    rules: &Vec<OptionRule>,
    args: &Vec<String>,
    before: &'static str,
    after: &'static str,
) -> (r: Result<Vec<(usize, String)>, String>)
    ensures
        ({
            let rv = rules_view(rules@);
            let s = scan(rv, words(args@), 0, Seq::empty());
            match r {
                Ok(found) => s == Scan::Options(found_view(found@)),
                Err(e) => refusal(rv, s, before@, after@) == Some(e@),
            }
        }),
{
    let ghost rv = rules_view(rules@);
    let ghost w = words(args@);
    let mut found: Vec<(usize, String)> = Vec::new();
    let mut i: usize = 0;
    assert(found_view(found@) =~= Seq::<(int, Seq<char>)>::empty());
    while i < args.len()
        invariant
            i <= args@.len(),
            rv == rules_view(rules@),
            w == words(args@),
            scan(rv, w, 0, Seq::empty()) == scan(rv, w, i as int, found_view(found@)),
        decreases args@.len() - i,
    {
        let ghost sofar = found_view(found@);
        let word = args[i].as_str();
        assert(word@ == w[i as int]);
        let k: usize = find_rule(rules, word);
        if k >= rules.len() {
            let mut e = before.to_owned();
            e.append(word);
            e.append(after);
            return Err(e);
        }
        assert(rv[k as int] == rules@[k as int]@);
        if rules[k].kind == OptionKind::Bare {
            found.push((k, String::new()));
            assert(found_view(found@) =~= sofar.push((k as int, Seq::empty())));
            i = i + 1;
        } else {
            if args.len() - i <= 1 {
                return Err(rules[k].missing.to_owned());
            }
            let value = args[i + 1].as_str();
            assert(value@ == w[i + 1]);
            if !value_fits(rules[k].kind, value) {
                let mut e = rules[k].invalid.to_owned();
                if rules[k].kind == OptionKind::Number {
                    if let Err(why) = parse_i64(value) {
                        e.append(why.as_str());
                    }
                }
                return Err(e);
            }
            found.push((k, value.to_owned()));
            assert(found_view(found@) =~= sofar.push((k as int, value@)));
            i = i + 2;
        }
    }
    Ok(found)
}

// The rules of each command. ---------------------------------------------

fn rule(flag: &'static str, kind: OptionKind, missing: &'static str, invalid: &'static str) -> (r:
    OptionRule)
    ensures
        r@ == (RuleView { flag: flag@, kind, missing: missing@, invalid: invalid@ }),
{
    OptionRule { flag, kind, missing, invalid }
}

/// The `--data-dir` option of the snapshot commands.
pub open spec fn data_dir_rule(missing: Seq<char>) -> RuleView {
    RuleView {
        flag: "--data-dir"@,
        kind: OptionKind::Text,
        missing,
        invalid: ""@,
    }
}

/// The `--from` option.
pub open spec fn from_rule() -> RuleView {
    RuleView {
        flag: "--from"@,
        kind: OptionKind::Text,
        missing: "--from needs PATH"@,
        invalid: ""@,
    }
}

/// The `--force` option.
pub open spec fn force_rule() -> RuleView {
    RuleView { flag: "--force"@, kind: OptionKind::Bare, missing: ""@, invalid: ""@ }
}

/// The options of `import-snapshot`.
pub open spec fn import_snapshot_rules() -> Seq<RuleView> {
    seq![
        from_rule(),
        RuleView {
            flag: "--mode"@,
            kind: OptionKind::Mode,
            missing: "--mode needs copy|move|symlink"@,
            invalid: "--mode must be one of: copy, move, symlink"@,
        },
        force_rule(),
        data_dir_rule("--data-dir needs PATH"@),
    ]
}

/// How a snapshot is planted into the data directory.
#[derive(Debug, Clone, Copy, PartialEq, Eq, Structural)]
pub enum ImportMode {
    Copy,
    Move,
    Symlink,
}

/// The arguments of `import-snapshot`.
#[derive(Debug, Clone)]
pub struct ImportSnapshotArgs {
    pub from: String,
    pub mode: ImportMode,
    pub force: bool,
    pub data_dir: String,
}

/// The value of the rule at `k`, or `fallback`.
pub open spec fn value_or(found: Seq<(int, Seq<char>)>, k: int, fallback: Seq<char>) -> Seq<char> {
    match last_value(found, k) {
        Some(v) => v,
        None => fallback,
    }
}

fn text_or(found: &Vec<(usize, String)>, k: usize, fallback: &'static str) -> (r: String)
    ensures
        r@ == value_or(found_view(found@), k as int, fallback@),
{
    match option_value(found, k) {
        Some(s) => s,
        None => fallback.to_owned(),
    }
}

/// The mode that a word names; anything else copies.
pub open spec fn mode_of(word: Seq<char>) -> ImportMode {
    if word == "move"@ {
        ImportMode::Move
    } else if word == "symlink"@ {
        ImportMode::Symlink
    } else {
        ImportMode::Copy
    }
}

/// Reads the arguments of `import-snapshot`: `--from` is required, the mode is
/// copying unless told otherwise, and a later option overrides an earlier one.
pub fn import_snapshot_args(args: &Vec<String>) -> (r: Result<ImportSnapshotArgs, String>)
    ensures
        ({
            let rv = import_snapshot_rules();
            let s = scan(rv, words(args@), 0, Seq::empty());
            let bad = refusal(
                rv,
                s,
                "unknown flag: "@,
                "\nusage: tron-node import-snapshot --from PATH [--data-dir DIR] [--mode copy|move|symlink] [--force]"@,
            );
            match (s, r) {
                (Scan::Options(f), Ok(a)) => {
                    &&& last_value(f, 0) == Some(a.from@)
                    &&& a.mode == mode_of(value_or(f, 1, "copy"@))
                    &&& a.force == (last_value(f, 2) is Some)
                    &&& a.data_dir@ == value_or(f, 3, "./tron-data"@)
                },
                (Scan::Options(f), Err(e)) => last_value(f, 0) is None && e@
                    == "--from is required"@,
                (_, Ok(_)) => false,
                (_, Err(e)) => bad == Some(e@),
            }
        }),
{
    let mut rules: Vec<OptionRule> = Vec::new();
    rules.push(rule("--from", OptionKind::Text, "--from needs PATH", ""));
    rules.push(
        rule(
            "--mode",
            OptionKind::Mode,
            "--mode needs copy|move|symlink",
            "--mode must be one of: copy, move, symlink",
        ),
    );
    rules.push(rule("--force", OptionKind::Bare, "", ""));
    rules.push(rule("--data-dir", OptionKind::Text, "--data-dir needs PATH", ""));
    assert(rules_view(rules@) =~= import_snapshot_rules());
    match scan_options(
        &rules,
        args,
        "unknown flag: ",
        "\nusage: tron-node import-snapshot --from PATH [--data-dir DIR] [--mode copy|move|symlink] [--force]",
    ) {
        Err(e) => Err(e),
        Ok(found) => {
            let mode_word = text_or(&found, 1, "copy");
            let mode = if str_eq(mode_word.as_str(), "move") {
                ImportMode::Move
            } else if str_eq(mode_word.as_str(), "symlink") {
                ImportMode::Symlink
            } else {
                ImportMode::Copy
            };
            match option_value(&found, 0) {
                None => Err("--from is required".to_owned()),
                Some(from) => Ok(
                    ImportSnapshotArgs {
                        from,
                        mode,
                        force: option_value(&found, 2).is_some(),
                        data_dir: text_or(&found, 3, "./tron-data"),
                    },
                ),
            }
        },
    }
}

/// The options of `export-snapshot`.
pub open spec fn export_snapshot_rules() -> Seq<RuleView> {
    seq![
        RuleView {
            flag: "--to"@,
            kind: OptionKind::Text,
            missing: "--to needs PATH"@,
            invalid: ""@,
        },
        RuleView {
            flag: "--compression"@,
            kind: OptionKind::Compression,
            missing: "--compression needs gzip|none"@,
            invalid: "--compression must be one of: gzip, none"@,
        },
        data_dir_rule("--data-dir needs PATH"@),
    ]
}

/// The arguments of `export-snapshot`.
#[derive(Debug, Clone)]
pub struct ExportSnapshotArgs {
    pub to: String,
    pub gzip: bool,
    pub data_dir: String,
}

/// Reads the arguments of `export-snapshot`: `--to` is required, and the
/// tarball is compressed unless told otherwise.
pub fn export_snapshot_args(args: &Vec<String>) -> (r: Result<ExportSnapshotArgs, String>)
    ensures
        ({
            let rv = export_snapshot_rules();
            let s = scan(rv, words(args@), 0, Seq::empty());
            let bad = refusal(
                rv,
                s,
                "unknown flag: "@,
                "\nusage: tron-node export-snapshot --to PATH [--data-dir DIR] [--compression gzip|none]"@,
            );
            match (s, r) {
                (Scan::Options(f), Ok(a)) => {
                    &&& last_value(f, 0) == Some(a.to@)
                    &&& a.gzip == (value_or(f, 1, "gzip"@) == "gzip"@)
                    &&& a.data_dir@ == value_or(f, 2, "./tron-data"@)
                },
                (Scan::Options(f), Err(e)) => last_value(f, 0) is None && e@ == "--to is required"@,
                (_, Ok(_)) => false,
                (_, Err(e)) => bad == Some(e@),
            }
        }),
{
    let mut rules: Vec<OptionRule> = Vec::new();
    rules.push(rule("--to", OptionKind::Text, "--to needs PATH", ""));
    rules.push(
        rule(
            "--compression",
            OptionKind::Compression,
            "--compression needs gzip|none",
            "--compression must be one of: gzip, none",
        ),
    );
    rules.push(rule("--data-dir", OptionKind::Text, "--data-dir needs PATH", ""));
    assert(rules_view(rules@) =~= export_snapshot_rules());
    match scan_options(
        &rules,
        args,
        "unknown flag: ",
        "\nusage: tron-node export-snapshot --to PATH [--data-dir DIR] [--compression gzip|none]",
    ) {
        Err(e) => Err(e),
        Ok(found) => match option_value(&found, 0) {
            None => Err("--to is required".to_owned()),
            Some(to) => {
                let packing = text_or(&found, 1, "gzip");
                Ok(
                    ExportSnapshotArgs {
                        to,
                        gzip: str_eq(packing.as_str(), "gzip"),
                        data_dir: text_or(&found, 2, "./tron-data"),
                    },
                )
            },
        },
    }
}

/// The options of `import-live`.
pub open spec fn import_live_rules() -> Seq<RuleView> {
    seq![
        from_rule(),
        RuleView {
            flag: "--secondary-cache"@,
            kind: OptionKind::Text,
            missing: "--secondary-cache needs PATH"@,
            invalid: ""@,
        },
        force_rule(),
        data_dir_rule("--data-dir needs PATH"@),
    ]
}

/// The arguments of `import-live`.
#[derive(Debug, Clone)]
pub struct ImportLiveArgs {
    pub from: String,
    pub secondary_cache: Option<String>,
    pub force: bool,
    pub data_dir: String,
}

/// Reads the arguments of `import-live`: `--from` is required.
pub fn import_live_args(args: &Vec<String>) -> (r: Result<ImportLiveArgs, String>)
    ensures
        ({
            let rv = import_live_rules();
            let s = scan(rv, words(args@), 0, Seq::empty());
            let bad = refusal(
                rv,
                s,
                "unknown flag: "@,
                "\nusage: tron-node import-live --from PATH [--data-dir DIR] [--secondary-cache DIR] [--force]"@,
            );
            match (s, r) {
                (Scan::Options(f), Ok(a)) => {
                    &&& last_value(f, 0) == Some(a.from@)
                    &&& last_value(f, 1) == (match a.secondary_cache {
                        Some(c) => Some(c@),
                        None => None,
                    })
                    &&& a.force == (last_value(f, 2) is Some)
                    &&& a.data_dir@ == value_or(f, 3, "./tron-data"@)
                },
                (Scan::Options(f), Err(e)) => last_value(f, 0) is None && e@
                    == "--from is required"@,
                (_, Ok(_)) => false,
                (_, Err(e)) => bad == Some(e@),
            }
        }),
{
    let mut rules: Vec<OptionRule> = Vec::new();
    rules.push(rule("--from", OptionKind::Text, "--from needs PATH", ""));
    rules.push(rule("--secondary-cache", OptionKind::Text, "--secondary-cache needs PATH", ""));
    rules.push(rule("--force", OptionKind::Bare, "", ""));
    rules.push(rule("--data-dir", OptionKind::Text, "--data-dir needs PATH", ""));
    assert(rules_view(rules@) =~= import_live_rules());
    match scan_options(
        &rules,
        args,
        "unknown flag: ",
        "\nusage: tron-node import-live --from PATH [--data-dir DIR] [--secondary-cache DIR] [--force]",
    ) {
        Err(e) => Err(e),
        Ok(found) => match option_value(&found, 0) {
            None => Err("--from is required".to_owned()),
            Some(from) => Ok(
                ImportLiveArgs {
                    from,
                    secondary_cache: option_value(&found, 1),
                    force: option_value(&found, 2).is_some(),
                    data_dir: text_or(&found, 3, "./tron-data"),
                },
            ),
        },
    }
}

/// The options of `admin db lite`.
pub open spec fn db_lite_rules() -> Seq<RuleView> {
    seq![
        RuleView {
            flag: "--src"@,
            kind: OptionKind::Text,
            missing: "admin db lite: --src needs PATH"@,
            invalid: ""@,
        },
        RuleView {
            flag: "--dst"@,
            kind: OptionKind::Text,
            missing: "admin db lite: --dst needs PATH"@,
            invalid: ""@,
        },
        RuleView {
            flag: "--recent-blocks"@,
            kind: OptionKind::Positive,
            missing: "admin db lite: --recent-blocks needs N"@,
            invalid: "admin db lite: --recent-blocks needs a positive integer"@,
        },
    ]
}

/// The arguments of `admin db lite`.
#[derive(Debug, Clone)]
pub struct DbLiteArgs {
    pub src: String,
    pub dst: String,
    pub recent_blocks: i64,
}

/// How many recent blocks a lite copy keeps unless told otherwise.
pub const DEFAULT_LITE_RECENT_BLOCKS: i64 = 65_536;

/// Reads the arguments of `admin db lite`: both directories are required.
pub fn db_lite_args(args: &Vec<String>) -> (r: Result<DbLiteArgs, String>)
    ensures
        ({
            let rv = db_lite_rules();
            let s = scan(rv, words(args@), 0, Seq::empty());
            let bad = refusal(rv, s, "admin db lite: unknown flag '"@, "'"@);
            match (s, r) {
                (Scan::Options(f), Ok(a)) => {
                    &&& last_value(f, 0) == Some(a.src@)
                    &&& last_value(f, 1) == Some(a.dst@)
                    &&& match last_value(f, 2) {
                        Some(n) => signed_decimal(n) == Some(a.recent_blocks as int),
                        None => a.recent_blocks == DEFAULT_LITE_RECENT_BLOCKS,
                    }
                    &&& a.recent_blocks >= 1
                },
                (Scan::Options(f), Err(e)) => if last_value(f, 0) is None {
                    e@ == "admin db lite: --src DIR required"@
                } else {
                    last_value(f, 1) is None && e@ == "admin db lite: --dst DIR required"@
                },
                (_, Ok(_)) => false,
                (_, Err(e)) => bad == Some(e@),
            }
        }),
{
    let mut rules: Vec<OptionRule> = Vec::new();
    rules.push(rule("--src", OptionKind::Text, "admin db lite: --src needs PATH", ""));
    rules.push(rule("--dst", OptionKind::Text, "admin db lite: --dst needs PATH", ""));
    rules.push(
        rule(
            "--recent-blocks",
            OptionKind::Positive,
            "admin db lite: --recent-blocks needs N",
            "admin db lite: --recent-blocks needs a positive integer",
        ),
    );
    assert(rules_view(rules@) =~= db_lite_rules());
    match scan_options(&rules, args, "admin db lite: unknown flag '", "'") {
        Err(e) => Err(e),
        Ok(found) => {
            proof {
                let f = found_view(found@);
                scanned_options_are_accepted(db_lite_rules(), words(args@), 0, Seq::empty());
                lemma_last_value_accepted(db_lite_rules(), f, 2);
            }
            let recent_blocks: i64 = match option_value(&found, 2) {
                None => DEFAULT_LITE_RECENT_BLOCKS,
                Some(n) => match parse_i64(n.as_str()) {
                    Ok(v) => v,
                    Err(_) => DEFAULT_LITE_RECENT_BLOCKS,
                },
            };
            match (option_value(&found, 0), option_value(&found, 1)) {
                (None, _) => Err("admin db lite: --src DIR required".to_owned()),
                (Some(_), None) => Err("admin db lite: --dst DIR required".to_owned()),
                (Some(src), Some(dst)) => Ok(DbLiteArgs { src, dst, recent_blocks }),
            }
        },
    }
}

/// Reads the one option `--data-dir` of `admin compact` and `admin db root`.
/// `unknown` is what stands before an unknown flag.
pub fn data_dir_arg(args: &Vec<String>, unknown: &'static str) -> (r: Result<String, String>)
    ensures
        ({
            let rv = seq![data_dir_rule("--data-dir needs DIR"@)];
            let s = scan(rv, words(args@), 0, Seq::empty());
            match (s, r) {
                (Scan::Options(f), Ok(d)) => d@ == value_or(f, 0, "./tron-data"@),
                (Scan::Options(_), Err(_)) => false,
                (_, Ok(_)) => false,
                (_, Err(e)) => refusal(rv, s, unknown@, "'"@) == Some(e@),
            }
        }),
{
    let mut rules: Vec<OptionRule> = Vec::new();
    rules.push(rule("--data-dir", OptionKind::Text, "--data-dir needs DIR", ""));
    assert(rules_view(rules@) =~= seq![data_dir_rule("--data-dir needs DIR"@)]);
    match scan_options(&rules, args, unknown, "'") {
        Err(e) => Err(e),
        Ok(found) => Ok(text_or(&found, 0, "./tron-data")),
    }
}

/// The options of `admin prune-before`.
pub open spec fn prune_before_rules() -> Seq<RuleView> {
    seq![
        data_dir_rule("--data-dir needs DIR"@),
        RuleView {
            flag: "--before"@,
            kind: OptionKind::Number,
            missing: "--before needs BLOCK"@,
            invalid: "--before parse: "@,
        },
    ]
}

/// Reads the arguments of `admin prune-before`: the data directory and the
/// height, which is required.
pub fn prune_before_args(args: &Vec<String>) -> (r: Result<(String, i64), String>)
    ensures
        ({
            let rv = prune_before_rules();
            let s = scan(rv, words(args@), 0, Seq::empty());
            let bad = refusal(rv, s, "admin prune-before: unknown flag '"@, "'"@);
            match (s, r) {
                (Scan::Options(f), Ok(a)) => {
                    &&& a.0@ == value_or(f, 0, "./tron-data"@)
                    &&& last_value(f, 1) matches Some(n) && signed_decimal(n) == Some(a.1 as int)
                },
                (Scan::Options(f), Err(e)) => last_value(f, 1) is None && e@
                    == "admin prune-before: --before BLOCK required"@,
                (_, Ok(_)) => false,
                (_, Err(e)) => bad == Some(e@),
            }
        }),
{
    let mut rules: Vec<OptionRule> = Vec::new();
    rules.push(rule("--data-dir", OptionKind::Text, "--data-dir needs DIR", ""));
    rules.push(rule("--before", OptionKind::Number, "--before needs BLOCK", "--before parse: "));
    assert(rules_view(rules@) =~= prune_before_rules());
    match scan_options(&rules, args, "admin prune-before: unknown flag '", "'") {
        Err(e) => Err(e),
        Ok(found) => {
            proof {
                let f = found_view(found@);
                scanned_options_are_accepted(prune_before_rules(), words(args@), 0, Seq::empty());
                lemma_last_value_accepted(prune_before_rules(), f, 1);
            }
            let before: Option<i64> = match option_value(&found, 1) {
                None => None,
                Some(n) => match parse_i64(n.as_str()) {
                    Ok(v) => Some(v),
                    Err(_) => None,
                },
            };
            match before {
                None => Err("admin prune-before: --before BLOCK required".to_owned()),
                Some(b) => Ok((text_or(&found, 0, "./tron-data"), b)),
            }
        },
    }
}

/// Which of the two directory commands reads its arguments.
#[derive(Debug, Clone, Copy, PartialEq, Eq, Structural)]
pub enum DirCommand {
    Move,
    Copy,
}

/// The options of `admin db move` and `admin db copy`.
pub open spec fn src_dst_rules(which: DirCommand) -> Seq<RuleView> {
    let moving = which == DirCommand::Move;
    seq![
        RuleView {
            flag: "--src"@,
            kind: OptionKind::Text,
            missing: if moving {
                "admin db move: --src needs PATH"@
            } else {
                "admin db copy: --src needs PATH"@
            },
            invalid: ""@,
        },
        RuleView {
            flag: "--dst"@,
            kind: OptionKind::Text,
            missing: if moving {
                "admin db move: --dst needs PATH"@
            } else {
                "admin db copy: --dst needs PATH"@
            },
            invalid: ""@,
        },
    ]
}

/// Reads the source and the destination of `admin db move` and `admin db
/// copy`: both are required.
pub fn parse_src_dst(args: &Vec<String>, which: DirCommand) -> (r: Result<
    (String, String),
    String,
>)
    ensures
        ({
            let moving = which == DirCommand::Move;
            let rv = src_dst_rules(which);
            let s = scan(rv, words(args@), 0, Seq::empty());
            let bad = refusal(
                rv,
                s,
                if moving {
                    "admin db move: unknown flag '"@
                } else {
                    "admin db copy: unknown flag '"@
                },
                "'"@,
            );
            match (s, r) {
                (Scan::Options(f), Ok(a)) => last_value(f, 0) == Some(a.0@) && last_value(f, 1)
                    == Some(a.1@),
                (Scan::Options(f), Err(e)) => if last_value(f, 0) is None {
                    e@ == if moving {
                        "admin db move: --src PATH required"@
                    } else {
                        "admin db copy: --src PATH required"@
                    }
                } else {
                    last_value(f, 1) is None && e@ == if moving {
                        "admin db move: --dst PATH required"@
                    } else {
                        "admin db copy: --dst PATH required"@
                    }
                },
                (_, Ok(_)) => false,
                (_, Err(e)) => bad == Some(e@),
            }
        }),
{
    let moving = which == DirCommand::Move;
    let mut rules: Vec<OptionRule> = Vec::new();
    rules.push(
        rule(
            "--src",
            OptionKind::Text,
            if moving { "admin db move: --src needs PATH" } else { "admin db copy: --src needs PATH" },
            "",
        ),
    );
    rules.push(
        rule(
            "--dst",
            OptionKind::Text,
            if moving { "admin db move: --dst needs PATH" } else { "admin db copy: --dst needs PATH" },
            "",
        ),
    );
    assert(rules_view(rules@) =~= src_dst_rules(which));
    match scan_options(
        &rules,
        args,
        if moving { "admin db move: unknown flag '" } else { "admin db copy: unknown flag '" },
        "'",
    ) {
        Err(e) => Err(e),
        Ok(found) => match (option_value(&found, 0), option_value(&found, 1)) {
            (None, _) => Err(
                if moving {
                    "admin db move: --src PATH required".to_owned()
                } else {
                    "admin db copy: --src PATH required".to_owned()
                },
            ),
            (Some(_), None) => Err(
                if moving {
                    "admin db move: --dst PATH required".to_owned()
                } else {
                    "admin db copy: --dst PATH required".to_owned()
                },
            ),
            (Some(src), Some(dst)) => Ok((src, dst)),
        },
    }
}

// ---------------------------------------------------------------------------
// Flags of the daemon
// ---------------------------------------------------------------------------

/// The path that `--config` names, the last one where there are several. A
/// `--config` at the very end has no path.
pub open spec fn config_path(
    args: Seq<Seq<char>>,
    i: int,
    found: Option<Seq<char>>,
) -> Result<Option<Seq<char>>, Seq<char>>
    decreases args.len() - i,
{
    if i < 0 || i >= args.len() {
        Ok(found)
    } else if args[i] != "--config"@ {
        config_path(args, i + 1, found)
    } else if i + 1 >= args.len() {
        Err("--config needs a path"@)
    } else {
        config_path(args, i + 2, Some(args[i + 1]))
    }
}

/// Finds the configuration file that the flags name, so that it can be read
/// before the other flags are laid over it.
pub fn config_file(args: &Vec<String>) -> (r: Result<Option<String>, String>)
    ensures
        match (config_path(words(args@), 0, None), r) {
            (Ok(Some(p)), Ok(Some(s))) => s@ == p,
            (Ok(None), Ok(None)) => true,
            (Err(e), Err(s)) => s@ == e,
            _ => false,
        },
{
    let ghost w = words(args@);
    let mut found: Option<String> = None;
    let ghost mut seen: Option<Seq<char>> = None;
    let mut i: usize = 0;
    while i < args.len()
        invariant
            i <= args@.len(),
            w == words(args@),
            seen == (match found {
                Some(s) => Some(s@),
                None => None,
            }),
            config_path(w, 0, None) == config_path(w, i as int, seen),
        decreases args@.len() - i,
    {
        assert(w[i as int] == args@[i as int]@);
        if str_eq(args[i].as_str(), "--config") {
            if args.len() - i <= 1 {
                return Err("--config needs a path".to_owned());
            }
            assert(w[i + 1] == args@[i + 1]@);
            found = Some(args[i + 1].clone());
            proof {
                seen = Some(w[i + 1]);
            }
            i = i + 2;
        } else {
            i = i + 1;
        }
    }
    Ok(found)
}

/// The settings that the daemon's flags reach.
pub struct FlagView {
    pub data_dir: Seq<char>,
    pub rpc_host: Seq<char>,
    pub rpc_port: u16,
    pub rpc_disabled: bool,
    pub chain_id: u64,
    pub peers: Seq<Seq<char>>,
    pub max_blocks: Option<usize>,
    pub p2p_disabled: bool,
    pub use_mainnet_seeds: bool,
    pub progress_log_interval: usize,
    pub tip_test: Option<(i64, Seq<char>)>,
    pub metrics_host: Seq<char>,
    pub metrics_port: u16,
    pub metrics_disabled: bool,
}

/// The settings of `c` that the flags reach.
pub open spec fn flag_view(c: NodeConfig) -> FlagView {
    FlagView {
        data_dir: c.data_dir@,
        rpc_host: c.rpc.host@,
        rpc_port: c.rpc.port,
        rpc_disabled: c.rpc.disabled,
        chain_id: c.rpc.chain_id,
        peers: words(c.p2p.peers@),
        max_blocks: c.p2p.max_blocks,
        p2p_disabled: c.p2p.disabled,
        use_mainnet_seeds: c.p2p.use_mainnet_seeds,
        progress_log_interval: c.p2p.progress_log_interval,
        tip_test: match c.p2p.tip_test {
            Some(t) => Some((t.block_num, t.block_id_hex@)),
            None => None,
        },
        metrics_host: c.metrics.host@,
        metrics_port: c.metrics.port,
        metrics_disabled: c.metrics.disabled,
    }
}

/// Whether two configurations agree on all that no flag reaches.
pub open spec fn same_elsewhere(a: NodeConfig, b: NodeConfig) -> bool {
    &&& a.rpc.eth_call_gas_cap == b.rpc.eth_call_gas_cap
    &&& a.p2p.advertise_port == b.p2p.advertise_port
    &&& a.p2p.max_peers == b.p2p.max_peers
    &&& a.p2p.listen == b.p2p.listen
    &&& a.p2p.listen_host == b.p2p.listen_host
    &&& a.p2p.discover_enable == b.p2p.discover_enable
    &&& a.p2p.discover_bootstrap_ms == b.p2p.discover_bootstrap_ms
    &&& a.p2p.discover_tree_urls == b.p2p.discover_tree_urls
    &&& a.p2p.discover_tree_query_timeout_ms == b.p2p.discover_tree_query_timeout_ms
    &&& a.p2p.node_discovery_persist == b.p2p.node_discovery_persist
    &&& a.p2p.node_discovery_persist_interval_ms == b.p2p.node_discovery_persist_interval_ms
    &&& a.p2p.fetch_block_timeout_ms == b.p2p.fetch_block_timeout_ms
    &&& a.p2p.sync_fetch_inflight_per_peer == b.p2p.sync_fetch_inflight_per_peer
    &&& a.p2p.fast_forward_nodes == b.p2p.fast_forward_nodes
    &&& a.p2p.multi_peer_fetch == b.p2p.multi_peer_fetch
    &&& a.p2p.follow_tip == b.p2p.follow_tip
    &&& a.p2p.explore == b.p2p.explore
    &&& a.p2p.mempool == b.p2p.mempool
    &&& a.p2p.mempool_json == b.p2p.mempool_json
    &&& a.grpc == b.grpc
    &&& a.http == b.http
    &&& a.witness == b.witness
    &&& a.bundler == b.bundler
    &&& a.open_history_query_when_lite_fn == b.open_history_query_when_lite_fn
    &&& a.storage == b.storage
    &&& a.event == b.event
    &&& a.node_backup == b.node_backup
    &&& a.vm == b.vm
    &&& a.rate_limiter == b.rate_limiter
    &&& a.local_witness == b.local_witness
    &&& a.committee == b.committee
    &&& a.index == b.index
}

/// The flags that take a value, with the words owed where it is missing.
pub open spec fn missing_value(flag: Seq<char>) -> Option<Seq<char>> {
    if flag == "--data-dir"@ {
        Some("--data-dir needs a path"@)
    } else if flag == "--rpc-port"@ {
        Some("--rpc-port needs N"@)
    } else if flag == "--rpc-host"@ {
        Some("--rpc-host needs HOST"@)
    } else if flag == "--chain-id"@ {
        Some("--chain-id needs N"@)
    } else if flag == "--peer"@ {
        Some("--peer needs HOST:PORT"@)
    } else if flag == "--max-blocks"@ {
        Some("--max-blocks needs N"@)
    } else if flag == "--progress-log-interval"@ {
        Some("--progress-log-interval needs N"@)
    } else if flag == "--metrics-port"@ {
        Some("--metrics-port needs N"@)
    } else if flag == "--metrics-host"@ {
        Some("--metrics-host needs HOST"@)
    } else if flag == "--tip-test"@ {
        Some("--tip-test needs BLOCK_NUM:HEX_HASH"@)
    } else {
        None
    }
}

/// What a flag that stands alone does.
pub open spec fn bare_flag(s: FlagView, flag: Seq<char>) -> Option<FlagView> {
    if flag == "--no-rpc"@ {
        Some(FlagView { rpc_disabled: true, ..s })
    } else if flag == "--no-sync"@ {
        Some(FlagView { p2p_disabled: true, ..s })
    } else if flag == "--mainnet-seeds"@ {
        Some(FlagView { use_mainnet_seeds: true, ..s })
    } else if flag == "--no-metrics"@ {
        Some(FlagView { metrics_disabled: true, ..s })
    } else {
        None
    }
}

/// A number in range, or the refusal after its prefix.
pub open spec fn number_or(
    v: Option<int>,
    lo: int,
    hi: int,
    prefix: Seq<char>,
    why: Seq<char>,
) -> Result<int, Seq<char>> {
    match within(v, lo, hi) {
        Some(n) => Ok(n),
        None => Err(prefix + why),
    }
}

/// The checkpoint that `BLOCK_NUM:HEX_HASH` names.
pub open spec fn checkpoint(arg: Seq<char>) -> Result<(i64, Seq<char>), Seq<char>> {
    let colon = first_position(arg, ':') as int;
    let num = arg.subrange(0, colon);
    let hash = arg.subrange(colon + 1, arg.len() as int);
    let bytes = vstd::utf8::encode_utf8(hash);
    if colon >= arg.len() {
        Err("--tip-test BLOCK_NUM:HEX_HASH (no `:` in "@ + arg + ")"@)
    } else {
        match within(signed_decimal(num), i64::MIN as int, i64::MAX as int) {
            None => Err("--tip-test block num: "@ + i64_refusal(num)),
            Some(n) => if bytes.len() != 64 {
                Err("--tip-test hash must be 64 hex chars (got "@ + decimal(bytes.len()) + ")"@)
            } else if !is_hex(bytes) {
                Err("--tip-test hex hash: "@ + hex_refusal(bytes))
            } else {
                Ok((n as i64, hash))
            },
        }
    }
}

/// What a flag with the value `v` does.
pub open spec fn valued_flag(s: FlagView, flag: Seq<char>, v: Seq<char>) -> Result<
    FlagView,
    Seq<char>,
> {
    if flag == "--data-dir"@ {
        Ok(FlagView { data_dir: v, ..s })
    } else if flag == "--rpc-port"@ {
        match number_or(unsigned_decimal(v), 0, u16::MAX as int, "rpc-port: "@, u16_refusal(v)) {
            Ok(n) => Ok(FlagView { rpc_port: n as u16, ..s }),
            Err(e) => Err(e),
        }
    } else if flag == "--rpc-host"@ {
        Ok(FlagView { rpc_host: v, ..s })
    } else if flag == "--chain-id"@ {
        match number_or(unsigned_decimal(v), 0, u64::MAX as int, "chain-id: "@, u64_refusal(v)) {
            Ok(n) => Ok(FlagView { chain_id: n as u64, ..s }),
            Err(e) => Err(e),
        }
    } else if flag == "--peer"@ {
        Ok(FlagView { peers: s.peers.push(v), ..s })
    } else if flag == "--max-blocks"@ {
        match number_or(
            unsigned_decimal(v),
            0,
            usize::MAX as int,
            "max-blocks: "@,
            usize_refusal(v),
        ) {
            Ok(n) => Ok(FlagView { max_blocks: Some(n as usize), ..s }),
            Err(e) => Err(e),
        }
    } else if flag == "--progress-log-interval"@ {
        match number_or(
            unsigned_decimal(v),
            0,
            usize::MAX as int,
            "progress-log-interval: "@,
            usize_refusal(v),
        ) {
            Ok(n) => Ok(FlagView { progress_log_interval: n as usize, ..s }),
            Err(e) => Err(e),
        }
    } else if flag == "--metrics-port"@ {
        match number_or(
            unsigned_decimal(v),
            0,
            u16::MAX as int,
            "metrics-port: "@,
            u16_refusal(v),
        ) {
            Ok(n) => Ok(FlagView { metrics_port: n as u16, ..s }),
            Err(e) => Err(e),
        }
    } else if flag == "--metrics-host"@ {
        Ok(FlagView { metrics_host: v, ..s })
    } else {
        match checkpoint(v) {
            Ok(t) => Ok(FlagView { tip_test: Some(t), ..s }),
            Err(e) => Err(e),
        }
    }
}

/// The flags from position `i` on, laid over `s` from left to right. The first
/// fault ends it.
pub open spec fn overlay(s: FlagView, args: Seq<Seq<char>>, i: int) -> Result<FlagView, Seq<char>>
    decreases args.len() - i,
{
    if i < 0 || i >= args.len() {
        Ok(s)
    } else if args[i] == "--config"@ {
        if i + 1 >= args.len() {
            Ok(s)
        } else {
            overlay(s, args, i + 2)
        }
    } else if let Some(t) = bare_flag(s, args[i]) {
        overlay(t, args, i + 1)
    } else if let Some(missing) = missing_value(args[i]) {
        if i + 1 >= args.len() {
            Err(missing)
        } else {
            match valued_flag(s, args[i], args[i + 1]) {
                Ok(t) => overlay(t, args, i + 2),
                Err(e) => Err(e),
            }
        }
    } else {
        Err("unknown flag: "@ + args[i])
    }
}

fn prefixed(prefix: &str, rest: &str) -> (r: String)
    ensures
        r@ == prefix@ + rest@,
{
    let mut s = prefix.to_owned();
    s.append(rest);
    s
}

fn missing_words(flag: &str) -> (r: Option<&'static str>)
    ensures
        match (r, missing_value(flag@)) {
            (Some(s), Some(t)) => s@ == t,
            (None, None) => true,
            _ => false,
        },
{
    if str_eq(flag, "--data-dir") {
        Some("--data-dir needs a path")
    } else if str_eq(flag, "--rpc-port") {
        Some("--rpc-port needs N")
    } else if str_eq(flag, "--rpc-host") {
        Some("--rpc-host needs HOST")
    } else if str_eq(flag, "--chain-id") {
        Some("--chain-id needs N")
    } else if str_eq(flag, "--peer") {
        Some("--peer needs HOST:PORT")
    } else if str_eq(flag, "--max-blocks") {
        Some("--max-blocks needs N")
    } else if str_eq(flag, "--progress-log-interval") {
        Some("--progress-log-interval needs N")
    } else if str_eq(flag, "--metrics-port") {
        Some("--metrics-port needs N")
    } else if str_eq(flag, "--metrics-host") {
        Some("--metrics-host needs HOST")
    } else if str_eq(flag, "--tip-test") {
        Some("--tip-test needs BLOCK_NUM:HEX_HASH")
    } else {
        None
    }
}

/// Reads a `BLOCK_NUM:HEX_HASH` checkpoint.
pub fn parse_checkpoint(arg: &str) -> (r: Result<TipTestCheckpoint, String>)
    ensures
        match (checkpoint(arg@), r) {
            (Ok(t), Ok(c)) => t == (c.block_num, c.block_id_hex@),
            (Err(e), Err(s)) => s@ == e,
            _ => false,
        },
{
    let v = chars_of(arg);
    let colon: usize = find_char(&v, ':');
    if colon >= v.len() {
        let mut e = prefixed("--tip-test BLOCK_NUM:HEX_HASH (no `:` in ", arg);
        e.append(")");
        return Err(e);
    }
    let num = slice_string(&v, 0, colon);
    let hash = slice_string(&v, colon + 1, v.len());
    let block_num: i64 = match parse_i64(num.as_str()) {
        Ok(n) => n,
        Err(why) => {
            return Err(prefixed("--tip-test block num: ", why.as_str()));
        },
    };
    let len: usize = hash.as_str().as_bytes().len();
    if len != 64 {
        let mut e = "--tip-test hash must be 64 hex chars (got ".to_owned();
        append_nat(&mut e, len as u128);
        e.append(")");
        return Err(e);
    }
    if let Err(why) = hex_decode(hash.as_str()) {
        return Err(prefixed("--tip-test hex hash: ", why.as_str()));
    }
    Ok(TipTestCheckpoint { block_num, block_id_hex: hash })
}

/// The settings that the flags reach, apart from the rest.
struct FlagSettings {
    data_dir: String,
    rpc_host: String,
    rpc_port: u16,
    rpc_disabled: bool,
    chain_id: u64,
    peers: Vec<String>,
    max_blocks: Option<usize>,
    p2p_disabled: bool,
    use_mainnet_seeds: bool,
    progress_log_interval: usize,
    tip_test: Option<TipTestCheckpoint>,
    metrics_host: String,
    metrics_port: u16,
    metrics_disabled: bool,
}

impl View for FlagSettings {
    type V = FlagView;

    closed spec fn view(&self) -> FlagView {
        FlagView {
            data_dir: self.data_dir@,
            rpc_host: self.rpc_host@,
            rpc_port: self.rpc_port,
            rpc_disabled: self.rpc_disabled,
            chain_id: self.chain_id,
            peers: words(self.peers@),
            max_blocks: self.max_blocks,
            p2p_disabled: self.p2p_disabled,
            use_mainnet_seeds: self.use_mainnet_seeds,
            progress_log_interval: self.progress_log_interval,
            tip_test: match self.tip_test {
                Some(t) => Some((t.block_num, t.block_id_hex@)),
                None => None,
            },
            metrics_host: self.metrics_host@,
            metrics_port: self.metrics_port,
            metrics_disabled: self.metrics_disabled,
        }
    }
}

/// Copies a list of strings.
pub fn copy_strings(v: &Vec<String>) -> (r: Vec<String>)
    ensures
        words(r@) == words(v@),
{
    let mut out: Vec<String> = Vec::new();
    let mut i: usize = 0;
    while i < v.len()
        invariant
            i <= v@.len(),
            words(out@) == words(v@).take(i as int),
        decreases v@.len() - i,
    {
        let ghost before = words(out@);
        out.push(v[i].clone());
        i = i + 1;
        assert(words(out@) =~= before.push(v@[i - 1]@));
        assert(words(out@) =~= words(v@).take(i as int));
    }
    assert(words(v@).take(i as int) =~= words(v@));
    out
}

impl FlagSettings {
    fn of(c: &NodeConfig) -> (r: FlagSettings)
        ensures
            r@ == flag_view(*c),
    {
        let peers = copy_strings(&c.p2p.peers);
        let tip_test = match &c.p2p.tip_test {
            Some(t) => Some(
                TipTestCheckpoint {
                    block_num: t.block_num,
                    block_id_hex: t.block_id_hex.clone(),
                },
            ),
            None => None,
        };
        FlagSettings {
            data_dir: c.data_dir.clone(),
            rpc_host: c.rpc.host.clone(),
            rpc_port: c.rpc.port,
            rpc_disabled: c.rpc.disabled,
            chain_id: c.rpc.chain_id,
            peers,
            max_blocks: c.p2p.max_blocks,
            p2p_disabled: c.p2p.disabled,
            use_mainnet_seeds: c.p2p.use_mainnet_seeds,
            progress_log_interval: c.p2p.progress_log_interval,
            tip_test,
            metrics_host: c.metrics.host.clone(),
            metrics_port: c.metrics.port,
            metrics_disabled: c.metrics.disabled,
        }
    }

    /// Puts the settings back into a configuration.
    fn into_config(self, base: NodeConfig) -> (r: NodeConfig)
        ensures
            flag_view(r) == self@,
            same_elsewhere(r, base),
    {
        NodeConfig {
            data_dir: self.data_dir,
            rpc: RpcConfig {
                host: self.rpc_host,
                port: self.rpc_port,
                disabled: self.rpc_disabled,
                chain_id: self.chain_id,
                eth_call_gas_cap: base.rpc.eth_call_gas_cap,
            },
            p2p: P2pConfig {
                peers: self.peers,
                max_blocks: self.max_blocks,
                disabled: self.p2p_disabled,
                use_mainnet_seeds: self.use_mainnet_seeds,
                progress_log_interval: self.progress_log_interval,
                tip_test: self.tip_test,
                ..base.p2p
            },
            metrics: MetricsConfig {
                host: self.metrics_host,
                port: self.metrics_port,
                disabled: self.metrics_disabled,
            },
            ..base
        }
    }

    /// Applies a flag that stands alone. Returns whether it is one.
    fn apply_bare(&mut self, flag: &str) -> (r: bool)
        ensures
            match bare_flag(old(self)@, flag@) {
                Some(t) => r && final(self)@ == t,
                None => !r && final(self)@ == old(self)@,
            },
    {
        if str_eq(flag, "--no-rpc") {
            self.rpc_disabled = true;
            true
        } else if str_eq(flag, "--no-sync") {
            self.p2p_disabled = true;
            true
        } else if str_eq(flag, "--mainnet-seeds") {
            self.use_mainnet_seeds = true;
            true
        } else if str_eq(flag, "--no-metrics") {
            self.metrics_disabled = true;
            true
        } else {
            false
        }
    }

    /// Applies a flag with its value.
    fn apply_valued(&mut self, flag: &str, value: &str) -> (r: Result<(), String>)
        requires
            missing_value(flag@) is Some,
        ensures
            match (valued_flag(old(self)@, flag@, value@), r) {
                (Ok(t), Ok(_)) => final(self)@ == t,
                (Err(e), Err(s)) => s@ == e,
                _ => false,
            },
    {
        if str_eq(flag, "--data-dir") {
            self.data_dir = value.to_owned();
        } else if str_eq(flag, "--rpc-port") {
            match parse_u16(value) {
                Ok(n) => {
                    self.rpc_port = n;
                },
                Err(why) => {
                    return Err(prefixed("rpc-port: ", why.as_str()));
                },
            }
        } else if str_eq(flag, "--rpc-host") {
            self.rpc_host = value.to_owned();
        } else if str_eq(flag, "--chain-id") {
            match parse_u64(value) {
                Ok(n) => {
                    self.chain_id = n;
                },
                Err(why) => {
                    return Err(prefixed("chain-id: ", why.as_str()));
                },
            }
        } else if str_eq(flag, "--peer") {
            self.peers.push(value.to_owned());
            assert(words(self.peers@) =~= words(old(self).peers@).push(value@));
        } else if str_eq(flag, "--max-blocks") {
            match parse_usize(value) {
                Ok(n) => {
                    self.max_blocks = Some(n);
                },
                Err(why) => {
                    return Err(prefixed("max-blocks: ", why.as_str()));
                },
            }
        } else if str_eq(flag, "--progress-log-interval") {
            match parse_usize(value) {
                Ok(n) => {
                    self.progress_log_interval = n;
                },
                Err(why) => {
                    return Err(prefixed("progress-log-interval: ", why.as_str()));
                },
            }
        } else if str_eq(flag, "--metrics-port") {
            match parse_u16(value) {
                Ok(n) => {
                    self.metrics_port = n;
                },
                Err(why) => {
                    return Err(prefixed("metrics-port: ", why.as_str()));
                },
            }
        } else if str_eq(flag, "--metrics-host") {
            self.metrics_host = value.to_owned();
        } else {
            match parse_checkpoint(value) {
                Ok(t) => {
                    self.tip_test = Some(t);
                },
                Err(e) => {
                    return Err(e);
                },
            }
        }
        Ok(())
    }
}

/// Lays the daemon's flags over a configuration: the defaults, or what
/// `--config` named. A later flag overrides an earlier one, `--peer` adds.
pub fn parse_args(base: NodeConfig, args: &Vec<String>) -> (r: Result<NodeConfig, String>)
    ensures
        match (overlay(flag_view(base), words(args@), 0), r) {
            (Ok(t), Ok(c)) => flag_view(c) == t && same_elsewhere(c, base),
            (Err(e), Err(s)) => s@ == e,
            _ => false,
        },
{
    let ghost w = words(args@);
    let mut settings = FlagSettings::of(&base);
    let mut i: usize = 0;
    while i < args.len()
        invariant
            w == words(args@),
            overlay(flag_view(base), w, 0) == overlay(settings@, w, i as int),
        decreases args@.len() - i,
    {
        let flag = args[i].as_str();
        assert(flag@ == w[i as int]);
        if str_eq(flag, "--config") {
            if args.len() - i <= 1 {
                return Ok(settings.into_config(base));
            }
            i = i + 2;
        } else if settings.apply_bare(flag) {
            i = i + 1;
        } else {
            match missing_words(flag) {
                None => {
                    return Err(prefixed("unknown flag: ", flag));
                },
                Some(missing) => {
                    if args.len() - i <= 1 {
                        return Err(missing.to_owned());
                    }
                    let value = args[i + 1].as_str();
                    assert(value@ == w[i + 1]);
                    match settings.apply_valued(flag, value) {
                        Ok(_) => {},
                        Err(e) => {
                            return Err(e);
                        },
                    }
                    i = i + 2;
                },
            }
        }
    }
    Ok(settings.into_config(base))
}

/// Flags reach only the settings they name: whatever the words, a run without
/// a fault keeps the peers it started with and adds to them in order.
pub proof fn flags_only_add_peers(s: FlagView, args: Seq<Seq<char>>, i: int)
    ensures
        overlay(s, args, i) matches Ok(t) ==> s.peers.is_prefix_of(t.peers),
    decreases args.len() - i,
{
    if 0 <= i < args.len() {
        if args[i] == "--config"@ {
            if i + 1 < args.len() {
                flags_only_add_peers(s, args, i + 2);
            }
        } else if let Some(t) = bare_flag(s, args[i]) {
            flags_only_add_peers(t, args, i + 1);
        } else if missing_value(args[i]) is Some && i + 1 < args.len() {
            if let Ok(t) = valued_flag(s, args[i], args[i + 1]) {
                flags_only_add_peers(t, args, i + 2);
                assert(s.peers.is_prefix_of(t.peers));
            }
        }
    }
}

/// Each command goes by its word, and help by three.
pub proof fn commands_go_by_their_words(word: Seq<char>)
    ensures
        command_of("start"@) == Some(Command::Start),
        command_of("init"@) == Some(Command::Init),
        command_of("dump-state"@) == Some(Command::DumpState),
        command_of("import-snapshot"@) == Some(Command::ImportSnapshot),
        command_of("import-live"@) == Some(Command::ImportLive),
        command_of("export-snapshot"@) == Some(Command::ExportSnapshot),
        command_of("verify-snapshot"@) == Some(Command::VerifySnapshot),
        command_of("admin"@) == Some(Command::Admin),
        command_of("--help"@) == Some(Command::Help),
        command_of("-h"@) == Some(Command::Help),
        command_of("help"@) == Some(Command::Help),
        command_of(word) == Some(Command::Start) ==> word == "start"@,
        command_of(word) == Some(Command::Init) ==> word == "init"@,
        command_of(word) == Some(Command::DumpState) ==> word == "dump-state"@,
        command_of(word) == Some(Command::ImportSnapshot) ==> word == "import-snapshot"@,
        command_of(word) == Some(Command::ImportLive) ==> word == "import-live"@,
        command_of(word) == Some(Command::ExportSnapshot) ==> word == "export-snapshot"@,
        command_of(word) == Some(Command::VerifySnapshot) ==> word == "verify-snapshot"@,
        command_of(word) == Some(Command::Admin) ==> word == "admin"@,
{
    reveal_strlit("start");
    assert("start"@.len() == 5);
    reveal_strlit("init");
    assert("init"@.len() == 4);
    reveal_strlit("dump-state");
    assert("dump-state"@.len() == 10);
    reveal_strlit("import-snapshot");
    assert("import-snapshot"@.len() == 15);
    reveal_strlit("import-live");
    assert("import-live"@.len() == 11);
    reveal_strlit("export-snapshot");
    assert("export-snapshot"@.len() == 15);
    reveal_strlit("verify-snapshot");
    assert("verify-snapshot"@.len() == 15);
    reveal_strlit("admin");
    assert("admin"@.len() == 5);
    reveal_strlit("--help");
    assert("--help"@.len() == 6);
    reveal_strlit("-h");
    assert("-h"@.len() == 2);
    reveal_strlit("help");
    assert("help"@.len() == 4);
    assert("start"@[0] != "admin"@[0]);
    assert("init"@[0] != "help"@[0]);
    assert("import-snapshot"@[0] != "export-snapshot"@[0]);
    assert("import-snapshot"@[0] != "verify-snapshot"@[0]);
    assert("export-snapshot"@[0] != "verify-snapshot"@[0]);
}

/// A flag without a value switches its part and nothing else.
pub proof fn bare_flags_switch_one_part(s: FlagView)
    ensures
        bare_flag(s, "--no-rpc"@) == Some(FlagView { rpc_disabled: true, ..s }),
        bare_flag(s, "--no-sync"@) == Some(FlagView { p2p_disabled: true, ..s }),
        bare_flag(s, "--mainnet-seeds"@) == Some(FlagView { use_mainnet_seeds: true, ..s }),
        bare_flag(s, "--no-metrics"@) == Some(FlagView { metrics_disabled: true, ..s }),
{
    reveal_strlit("--no-rpc");
    assert("--no-rpc"@.len() == 8);
    reveal_strlit("--no-sync");
    assert("--no-sync"@.len() == 9);
    reveal_strlit("--mainnet-seeds");
    assert("--mainnet-seeds"@.len() == 15);
    reveal_strlit("--no-metrics");
    assert("--no-metrics"@.len() == 12);
}

/// A flag with a value sets its part to that value and nothing else; a peer is
/// added to those before it, and a number out of range is refused.
pub proof fn valued_flags_set_one_part(s: FlagView, v: Seq<char>, n: int)
    ensures
        valued_flag(s, "--data-dir"@, v) == Ok::<FlagView, Seq<char>>(FlagView { data_dir: v, ..s }),
        valued_flag(s, "--rpc-host"@, v) == Ok::<FlagView, Seq<char>>(FlagView { rpc_host: v, ..s }),
        valued_flag(s, "--metrics-host"@, v) == Ok::<FlagView, Seq<char>>(
            FlagView { metrics_host: v, ..s },
        ),
        valued_flag(s, "--peer"@, v) == Ok::<FlagView, Seq<char>>(
            FlagView { peers: s.peers.push(v), ..s },
        ),
        unsigned_decimal(v) == Some(n) && 0 <= n <= u16::MAX ==> valued_flag(s, "--rpc-port"@, v)
            == Ok::<FlagView, Seq<char>>(FlagView { rpc_port: n as u16, ..s }),
        unsigned_decimal(v) == Some(n) && 0 <= n <= u16::MAX ==> valued_flag(
            s,
            "--metrics-port"@,
            v,
        ) == Ok::<FlagView, Seq<char>>(FlagView { metrics_port: n as u16, ..s }),
        unsigned_decimal(v) == Some(n) && 0 <= n <= u64::MAX ==> valued_flag(s, "--chain-id"@, v)
            == Ok::<FlagView, Seq<char>>(FlagView { chain_id: n as u64, ..s }),
        unsigned_decimal(v) == Some(n) && 0 <= n <= usize::MAX ==> valued_flag(
            s,
            "--max-blocks"@,
            v,
        ) == Ok::<FlagView, Seq<char>>(FlagView { max_blocks: Some(n as usize), ..s }),
        unsigned_decimal(v) == Some(n) && 0 <= n <= usize::MAX ==> valued_flag(
            s,
            "--progress-log-interval"@,
            v,
        ) == Ok::<FlagView, Seq<char>>(FlagView { progress_log_interval: n as usize, ..s }),
        unsigned_decimal(v) is None || n > u16::MAX && unsigned_decimal(v) == Some(n) ==> valued_flag(
            s,
            "--rpc-port"@,
            v,
        ) is Err && valued_flag(s, "--metrics-port"@, v) is Err,
        unsigned_decimal(v) is None ==> valued_flag(s, "--chain-id"@, v) is Err && valued_flag(
            s,
            "--max-blocks"@,
            v,
        ) is Err && valued_flag(s, "--progress-log-interval"@, v) is Err,
{
    reveal_strlit("--data-dir");
    assert("--data-dir"@.len() == 10);
    reveal_strlit("--rpc-port");
    assert("--rpc-port"@.len() == 10);
    reveal_strlit("--rpc-host");
    assert("--rpc-host"@.len() == 10);
    reveal_strlit("--chain-id");
    assert("--chain-id"@.len() == 10);
    reveal_strlit("--peer");
    assert("--peer"@.len() == 6);
    reveal_strlit("--max-blocks");
    assert("--max-blocks"@.len() == 12);
    reveal_strlit("--progress-log-interval");
    assert("--progress-log-interval"@.len() == 23);
    reveal_strlit("--metrics-port");
    assert("--metrics-port"@.len() == 14);
    reveal_strlit("--metrics-host");
    assert("--metrics-host"@.len() == 14);
    reveal_strlit("--tip-test");
    assert("--tip-test"@.len() == 10);
    assert("--data-dir"@[2] != "--rpc-port"@[2]);
    assert("--data-dir"@[2] != "--rpc-host"@[2]);
    assert("--data-dir"@[2] != "--chain-id"@[2]);
    assert("--data-dir"@[2] != "--tip-test"@[2]);
    assert("--rpc-port"@[6] != "--rpc-host"@[6]);
    assert("--rpc-port"@[2] != "--chain-id"@[2]);
    assert("--rpc-port"@[2] != "--tip-test"@[2]);
    assert("--rpc-host"@[2] != "--chain-id"@[2]);
    assert("--rpc-host"@[2] != "--tip-test"@[2]);
    assert("--chain-id"@[2] != "--tip-test"@[2]);
    assert("--metrics-port"@[10] != "--metrics-host"@[10]);
}

proof fn lemma_first_position(a: Seq<char>, c: char, b: Seq<char>)
    requires
        forall|i: int| 0 <= i < a.len() ==> #[trigger] a[i] != c,
    ensures
        first_position(a + seq![c] + b, c) == a.len(),
        first_position(a, c) == a.len(),
    decreases a.len(),
{
    let s = a + seq![c] + b;
    if a.len() > 0 {
        let t = a.skip(1);
        assert forall|i: int| 0 <= i < t.len() implies #[trigger] t[i] != c by {
            assert(t[i] == a[i + 1]);
        }
        assert(s.skip(1) =~= t + seq![c] + b);
        assert(s[0] == a[0]);
        lemma_first_position(t, c, b);
    } else {
        assert(s[0] == c);
    }
}

/// A checkpoint is a number and a hash of sixty-four hexadecimal digits, with
/// the first colon between them; anything else is refused.
pub proof fn checkpoints_are_a_number_and_a_hash(num: Seq<char>, hash: Seq<char>, n: i64)
    requires
        forall|i: int| 0 <= i < num.len() ==> #[trigger] num[i] != ':',
    ensures
        ({
            let arg = num + seq![':'] + hash;
            let bytes = vstd::utf8::encode_utf8(hash);
            &&& signed_decimal(num) == Some(n as int) && bytes.len() == 64 && is_hex(bytes)
                ==> checkpoint(arg) == Ok::<(i64, Seq<char>), Seq<char>>((n, hash))
            &&& signed_decimal(num) is None ==> checkpoint(arg) is Err
            &&& bytes.len() != 64 ==> checkpoint(arg) is Err
            &&& !is_hex(bytes) ==> checkpoint(arg) is Err
        }),
        checkpoint(num) is Err,
{
    let arg = num + seq![':'] + hash;
    lemma_first_position(num, ':', hash);
    assert(arg.subrange(0, num.len() as int) =~= num);
    assert(arg.subrange((num.len() + 1) as int, arg.len() as int) =~= hash);
}

/// Of an option that stands several times the last value counts.
pub proof fn the_last_value_counts(
    found: Seq<(int, Seq<char>)>,
    k: int,
    v: Seq<char>,
    other: int,
    fallback: Seq<char>,
)
    requires
        other != k,
    ensures
        last_value(found.push((k, v)), k) == Some(v),
        last_value(found.push((other, v)), k) == last_value(found, k),
        last_value(Seq::empty(), k) is None,
        value_or(found.push((k, v)), k, fallback) == v,
        value_or(Seq::empty(), k, fallback) == fallback,
{
    assert(found.push((k, v)).drop_last() =~= found);
    assert(found.push((other, v)).drop_last() =~= found);
}

/// Options are read in turn: one without a value takes a word, one with a value
/// takes two, and the reading stops at the first word that is no option, that
/// lacks its value or whose value does not fit.
pub proof fn options_are_read_in_turn(
    rules: Seq<RuleView>,
    args: Seq<Seq<char>>,
    i: int,
    found: Seq<(int, Seq<char>)>,
    k: int,
)
    requires
        0 <= i < args.len(),
        0 <= k < rules.len(),
        rules[k].flag == args[i],
        forall|j: int| 0 <= j < k ==> (#[trigger] rules[j]).flag != args[i],
    ensures
        rules[k].kind == OptionKind::Bare ==> scan(rules, args, i, found) == scan(
            rules,
            args,
            i + 1,
            found.push((k, Seq::empty())),
        ),
        rules[k].kind != OptionKind::Bare && i + 1 == args.len() ==> scan(rules, args, i, found)
            == Scan::Missing(k),
        rules[k].kind != OptionKind::Bare && i + 1 < args.len() && accepts(
            rules[k].kind,
            args[i + 1],
        ) ==> scan(rules, args, i, found) == scan(rules, args, i + 2, found.push((k, args[i + 1]))),
        rules[k].kind != OptionKind::Bare && i + 1 < args.len() && !accepts(
            rules[k].kind,
            args[i + 1],
        ) ==> scan(rules, args, i, found) == Scan::Invalid(k, args[i + 1]),
        scan(rules, args, args.len() as int, found) == Scan::Options(found),
{
    lemma_rule_position(rules, args[i], k);
}

proof fn lemma_rule_position(rules: Seq<RuleView>, flag: Seq<char>, k: int)
    requires
        0 <= k <= rules.len(),
        k < rules.len() ==> rules[k].flag == flag,
        forall|j: int| 0 <= j < k ==> (#[trigger] rules[j]).flag != flag,
    ensures
        rule_position(rules, flag) == k,
    decreases rules.len(),
{
    if k > 0 {
        let t = rules.skip(1);
        assert(rules[0].flag != flag);
        assert forall|j: int| 0 <= j < k - 1 implies (#[trigger] t[j]).flag != flag by {
            assert(t[j] == rules[j + 1]);
        }
        lemma_rule_position(t, flag, k - 1);
    }
}

/// A word that no rule has is refused.
pub proof fn unknown_words_are_refused(
    rules: Seq<RuleView>,
    args: Seq<Seq<char>>,
    i: int,
    found: Seq<(int, Seq<char>)>,
)
    requires
        0 <= i < args.len(),
        forall|j: int| 0 <= j < rules.len() ==> (#[trigger] rules[j]).flag != args[i],
    ensures
        scan(rules, args, i, found) == Scan::Unknown(args[i]),
{
    lemma_rule_position(rules, args[i], rules.len() as int);
}

/// The values that an option takes: three modes, two compressions, a number of
/// at least one, or any number that the machine holds.
pub proof fn values_fit_their_kind(v: Seq<char>, n: int)
    ensures
        accepts(OptionKind::Text, v),
        accepts(OptionKind::Mode, v) <==> v == "copy"@ || v == "move"@ || v == "symlink"@,
        accepts(OptionKind::Compression, v) <==> v == "gzip"@ || v == "none"@,
        signed_decimal(v) == Some(n) ==> (accepts(OptionKind::Positive, v) <==> 1 <= n
            && n <= i64::MAX),
        signed_decimal(v) == Some(n) ==> (accepts(OptionKind::Number, v) <==> i64::MIN <= n
            && n <= i64::MAX),
        signed_decimal(v) is None ==> !accepts(OptionKind::Positive, v) && !accepts(
            OptionKind::Number,
            v,
        ),
        mode_of("copy"@) == ImportMode::Copy,
        mode_of("move"@) == ImportMode::Move,
        mode_of("symlink"@) == ImportMode::Symlink,
{
    reveal_strlit("copy");
    reveal_strlit("move");
    reveal_strlit("symlink");
    assert("copy"@[0] != "move"@[0]);
    assert("copy"@.len() != "symlink"@.len());
}

/// The options of each command, in the order in which they are numbered.
pub proof fn commands_have_their_options(which: DirCommand)
    ensures
        ({
            let r = import_snapshot_rules();
            &&& r.len() == 4
            &&& r[0].flag == "--from"@ && r[0].kind == OptionKind::Text
            &&& r[1].flag == "--mode"@ && r[1].kind == OptionKind::Mode
            &&& r[2].flag == "--force"@ && r[2].kind == OptionKind::Bare
            &&& r[3].flag == "--data-dir"@ && r[3].kind == OptionKind::Text
        }),
        ({
            let r = export_snapshot_rules();
            &&& r.len() == 3
            &&& r[0].flag == "--to"@ && r[0].kind == OptionKind::Text
            &&& r[1].flag == "--compression"@ && r[1].kind == OptionKind::Compression
            &&& r[2].flag == "--data-dir"@ && r[2].kind == OptionKind::Text
        }),
        ({
            let r = import_live_rules();
            &&& r.len() == 4
            &&& r[0].flag == "--from"@ && r[0].kind == OptionKind::Text
            &&& r[1].flag == "--secondary-cache"@ && r[1].kind == OptionKind::Text
            &&& r[2].flag == "--force"@ && r[2].kind == OptionKind::Bare
            &&& r[3].flag == "--data-dir"@ && r[3].kind == OptionKind::Text
        }),
        ({
            let r = db_lite_rules();
            &&& r.len() == 3
            &&& r[0].flag == "--src"@ && r[0].kind == OptionKind::Text
            &&& r[1].flag == "--dst"@ && r[1].kind == OptionKind::Text
            &&& r[2].flag == "--recent-blocks"@ && r[2].kind == OptionKind::Positive
        }),
        ({
            let r = prune_before_rules();
            &&& r.len() == 2
            &&& r[0].flag == "--data-dir"@ && r[0].kind == OptionKind::Text
            &&& r[1].flag == "--before"@ && r[1].kind == OptionKind::Number
        }),
        ({
            let r = src_dst_rules(which);
            &&& r.len() == 2
            &&& r[0].flag == "--src"@ && r[0].kind == OptionKind::Text
            &&& r[1].flag == "--dst"@ && r[1].kind == OptionKind::Text
        }),
{
}

/// The configuration file is the one named last, and naming none is no fault.
pub proof fn the_last_configuration_counts(
    args: Seq<Seq<char>>,
    i: int,
    found: Option<Seq<char>>,
)
    requires
        0 <= i < args.len(),
    ensures
        args[i] != "--config"@ ==> config_path(args, i, found) == config_path(args, i + 1, found),
        args[i] == "--config"@ && i + 1 < args.len() ==> config_path(args, i, found) == config_path(
            args,
            i + 2,
            Some(args[i + 1]),
        ),
        args[i] == "--config"@ && i + 1 == args.len() ==> config_path(args, i, found) is Err,
        config_path(args, args.len() as int, found) == Ok::<Option<Seq<char>>, Seq<char>>(found),
{
}

/// The flags read and write the settings that they are named after.
pub proof fn flags_are_of_their_settings(c: NodeConfig, i: int)
    ensures
        flag_view(c).data_dir == c.data_dir@,
        flag_view(c).rpc_host == c.rpc.host@,
        flag_view(c).rpc_port == c.rpc.port,
        flag_view(c).rpc_disabled == c.rpc.disabled,
        flag_view(c).chain_id == c.rpc.chain_id,
        flag_view(c).peers.len() == c.p2p.peers@.len(),
        0 <= i < c.p2p.peers@.len() ==> flag_view(c).peers[i] == c.p2p.peers@[i]@,
        flag_view(c).max_blocks == c.p2p.max_blocks,
        flag_view(c).p2p_disabled == c.p2p.disabled,
        flag_view(c).use_mainnet_seeds == c.p2p.use_mainnet_seeds,
        flag_view(c).progress_log_interval == c.p2p.progress_log_interval,
        flag_view(c).metrics_host == c.metrics.host@,
        flag_view(c).metrics_port == c.metrics.port,
        flag_view(c).metrics_disabled == c.metrics.disabled,
        c.p2p.tip_test is None ==> flag_view(c).tip_test is None,
        c.p2p.tip_test is Some ==> flag_view(c).tip_test == Some(
            ((c.p2p.tip_test->Some_0).block_num, (c.p2p.tip_test->Some_0).block_id_hex@),
        ),
{
}

} // verus!
