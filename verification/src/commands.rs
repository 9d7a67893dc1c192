//! The command line of the database tool: which command, on which paths,
//! with which numbers. Running the command is the tool's own work.
use crate::ai_types::views;
use crate::num::{parse_u32, parse_unsigned, parse_usize};
use crate::text::{owned, seq_starts_with, str_eq};
use crate::tool_options::{
    count_option_spec, m7_options_spec, opt_string_view, optional_catalog_page_count,
    optional_catalog_page_size, optional_enrich_limit, optional_target, optional_worker_job_limit,
    parse_m7_audit_options, required_path, worker_job_limit_spec,
};
use vstd::prelude::*;

verus! {

/// A command of the database tool with its arguments.
#[derive(Debug, Clone, PartialEq, Eq)]
pub enum DbCommand {
    Migrate { db_path: String },
    Integrity { db_path: String },
    M3Audit { db_path: String },
    M7DataAudit { db_path: String, upcoming_shortfall_reason: Option<String> },
    SyncRetrieval { db_path: String, limit: u32, after_app_id: u32 },
    ExtractOfflineFeatures { db_path: String, limit: u32, after_app_id: u32 },
    MaterializeStoreProfiles { db_path: String },
    RepairEmptyAvailability { db_path: String },
    EmbedDocuments { db_path: String, limit: u32, batch: usize },
    CollectSteamCatalog { db_path: String, max_pages: u32, page_size: u32 },
    CollectSteamCandidates { db_path: String, target: u32 },
    EnrichSteamCandidates { db_path: String, limit: u32 },
    RunSteamWorkerOnce { db_path: String, job_limit: i64, enrich_limit: u32 },
    ImportGoldenProfiles { db_path: String },
    Backup { db_path: String, out_path: String },
    Restore { backup_path: String, dest_path: String },
    Help,
}

/// The mathematical form of a command.
pub enum CommandView {
    Migrate(Seq<char>),
    Integrity(Seq<char>),
    M3Audit(Seq<char>),
    M7DataAudit(Seq<char>, Option<Seq<char>>),
    SyncRetrieval(Seq<char>, u32, u32),
    ExtractOfflineFeatures(Seq<char>, u32, u32),
    MaterializeStoreProfiles(Seq<char>),
    RepairEmptyAvailability(Seq<char>),
    EmbedDocuments(Seq<char>, u32, usize),
    CollectSteamCatalog(Seq<char>, u32, u32),
    CollectSteamCandidates(Seq<char>, u32),
    EnrichSteamCandidates(Seq<char>, u32),
    RunSteamWorkerOnce(Seq<char>, i64, u32),
    ImportGoldenProfiles(Seq<char>),
    Backup(Seq<char>, Seq<char>),
    Restore(Seq<char>, Seq<char>),
    Help,
}

pub open spec fn command_view(c: DbCommand) -> CommandView {
    match c {
        DbCommand::Migrate { db_path } => CommandView::Migrate(db_path@),
        DbCommand::Integrity { db_path } => CommandView::Integrity(db_path@),
        DbCommand::M3Audit { db_path } => CommandView::M3Audit(db_path@),
        DbCommand::M7DataAudit { db_path, upcoming_shortfall_reason } => CommandView::M7DataAudit(
            db_path@,
            opt_string_view(upcoming_shortfall_reason),
        ),
        DbCommand::SyncRetrieval { db_path, limit, after_app_id } => CommandView::SyncRetrieval(
            db_path@,
            limit,
            after_app_id,
        ),
        DbCommand::ExtractOfflineFeatures { db_path, limit, after_app_id } =>
            CommandView::ExtractOfflineFeatures(db_path@, limit, after_app_id),
        DbCommand::MaterializeStoreProfiles { db_path } => CommandView::MaterializeStoreProfiles(
            db_path@,
        ),
        DbCommand::RepairEmptyAvailability { db_path } => CommandView::RepairEmptyAvailability(
            db_path@,
        ),
        DbCommand::EmbedDocuments { db_path, limit, batch } => CommandView::EmbedDocuments(
            db_path@,
            limit,
            batch,
        ),
        DbCommand::CollectSteamCatalog { db_path, max_pages, page_size } =>
            CommandView::CollectSteamCatalog(db_path@, max_pages, page_size),
        DbCommand::CollectSteamCandidates { db_path, target } => CommandView::CollectSteamCandidates(
            db_path@,
            target,
        ),
        DbCommand::EnrichSteamCandidates { db_path, limit } => CommandView::EnrichSteamCandidates(
            db_path@,
            limit,
        ),
        DbCommand::RunSteamWorkerOnce { db_path, job_limit, enrich_limit } =>
            CommandView::RunSteamWorkerOnce(db_path@, job_limit, enrich_limit),
        DbCommand::ImportGoldenProfiles { db_path } => CommandView::ImportGoldenProfiles(db_path@),
        DbCommand::Backup { db_path, out_path } => CommandView::Backup(db_path@, out_path@),
        DbCommand::Restore { backup_path, dest_path } => CommandView::Restore(
            backup_path@,
            dest_path@,
        ),
        DbCommand::Help => CommandView::Help,
    }
}

/// The tool's usage text.
pub open spec fn usage_text() -> Seq<char> {
    "mpgs-dbtool <command> [args]\n\nCommands:\n  migrate <db-path>\n  integrity <db-path>\n  m3-audit <db-path>\n  m7-data-audit <db-path> [--allow-upcoming-shortfall=<reason>]\n  sync-retrieval <db-path> [limit=5000] [after_app_id=0]\n  extract-offline-features <db-path> [limit=5000] [after_app_id=0]\n  materialize-store-profiles <db-path>\n  repair-empty-availability <db-path>\n  embed-documents <db-path> [limit=200] [batch=16]\n  collect-steam-catalog <db-path> [max-pages=1] [page-size=1000]\n  collect-steam-candidates <db-path> [target, default 2000]\n  enrich-steam-candidates <db-path> [limit, default 100]\n  run-steam-worker-once <db-path> [job-limit=1] [enrich-limit=100]\n  import-golden-profiles <db-path>\n  backup <db-path> <backup-path>\n  restore <backup-path> <dest-db-path>\n\nEnrichment environment:\n  MPGS_STEAM_WEB_API_KEY (required by collect-steam-catalog; server-side only)\n  MPGS_STEAM_WORKER_ID (optional stable lease owner name)\n  MPGS_STEAM_COUNTRY (default cn)\n  MPGS_STEAM_LANGUAGE (default schinese)\n"@
}

/// The tool's usage text.
pub fn usage() -> (r: &'static str)
    ensures
        r@ == usage_text(),
{
    "mpgs-dbtool <command> [args]\n\nCommands:\n  migrate <db-path>\n  integrity <db-path>\n  m3-audit <db-path>\n  m7-data-audit <db-path> [--allow-upcoming-shortfall=<reason>]\n  sync-retrieval <db-path> [limit=5000] [after_app_id=0]\n  extract-offline-features <db-path> [limit=5000] [after_app_id=0]\n  materialize-store-profiles <db-path>\n  repair-empty-availability <db-path>\n  embed-documents <db-path> [limit=200] [batch=16]\n  collect-steam-catalog <db-path> [max-pages=1] [page-size=1000]\n  collect-steam-candidates <db-path> [target, default 2000]\n  enrich-steam-candidates <db-path> [limit, default 100]\n  run-steam-worker-once <db-path> [job-limit=1] [enrich-limit=100]\n  import-golden-profiles <db-path>\n  backup <db-path> <backup-path>\n  restore <backup-path> <dest-db-path>\n\nEnrichment environment:\n  MPGS_STEAM_WEB_API_KEY (required by collect-steam-catalog; server-side only)\n  MPGS_STEAM_WORKER_ID (optional stable lease owner name)\n  MPGS_STEAM_COUNTRY (default cn)\n  MPGS_STEAM_LANGUAGE (default schinese)\n"
}

/// The argument at position `i`, if there is one.
pub open spec fn arg_at(args: Seq<Seq<char>>, i: int) -> Option<Seq<char>> {
    if 0 <= i < args.len() {
        Some(args[i])
    } else {
        None
    }
}

/// A path argument labelled `label`: required, and not a flag.
pub open spec fn path_arg(a: Option<Seq<char>>, label: Seq<char>) -> Result<Seq<char>, Seq<char>> {
    match a {
        None => Err("missing "@ + label),
        Some(v) => if seq_starts_with(v, "--"@) {
            Err("expected path for "@ + label + ", got flag "@ + v)
        } else {
            Ok(v)
        },
    }
}

/// A number argument (its `default` text when absent) read as `str::parse`
/// reads an integer no larger than `max`, then clamped into `[lo, hi]`;
/// `err` when it does not read.
pub open spec fn number_arg(
    a: Option<Seq<char>>,
    default: Seq<char>,
    max: nat,
    lo: nat,
    hi: nat,
    err: Seq<char>,
) -> Result<nat, Seq<char>> {
    let text = match a {
        Some(v) => v,
        None => default,
    };
    match parse_unsigned(text, max) {
        None => Err(err),
        Some(n) => Ok(
            if n < lo {
                lo
            } else if n > hi {
                hi
            } else {
                n
            },
        ),
    }
}

/// A command that takes only a database path (further arguments ignored).
pub open spec fn path_only(args: Seq<Seq<char>>, make: spec_fn(Seq<char>) -> CommandView) -> Result<
    CommandView,
    Seq<char>,
> {
    match path_arg(arg_at(args, 1), "--db path"@) {
        Err(e) => Err(e),
        Ok(d) => Ok(make(d)),
    }
}

/// A command that takes exactly a database path; `extra` is the message for
/// anything after it.
pub open spec fn path_exactly(
    args: Seq<Seq<char>>,
    make: spec_fn(Seq<char>) -> CommandView,
    extra: Seq<char>,
) -> Result<CommandView, Seq<char>> {
    match path_arg(arg_at(args, 1), "--db path"@) {
        Err(e) => Err(e),
        Ok(d) => if args.len() > 2 {
            Err(extra)
        } else {
            Ok(make(d))
        },
    }
}

/// `sync-retrieval` and `extract-offline-features`: a path, a limit (default
/// 5000, clamped into 1..=50000) and an app id to start after (default 0).
pub open spec fn scan_command(args: Seq<Seq<char>>, name: Seq<char>, sync: bool) -> Result<
    CommandView,
    Seq<char>,
> {
    match path_arg(arg_at(args, 1), "--db path"@) {
        Err(e) => Err(e),
        Ok(d) => match number_arg(
            arg_at(args, 2),
            "5000"@,
            u32::MAX as nat,
            1,
            50_000,
            name + " limit must be an integer"@,
        ) {
            Err(e) => Err(e),
            Ok(limit) => match number_arg(
                arg_at(args, 3),
                "0"@,
                u32::MAX as nat,
                0,
                u32::MAX as nat,
                name + " after_app_id must be an integer"@,
            ) {
                Err(e) => Err(e),
                Ok(after) => Ok(
                    if sync {
                        CommandView::SyncRetrieval(d, limit as u32, after as u32)
                    } else {
                        CommandView::ExtractOfflineFeatures(d, limit as u32, after as u32)
                    },
                ),
            },
        },
    }
}

/// `embed-documents`: a path, a limit (default 200, clamped into 1..=10000)
/// and a batch size (default 16, clamped into 1..=64).
pub open spec fn embed_command(args: Seq<Seq<char>>) -> Result<CommandView, Seq<char>> {
    match path_arg(arg_at(args, 1), "--db path"@) {
        Err(e) => Err(e),
        Ok(d) => match number_arg(
            arg_at(args, 2),
            "200"@,
            u32::MAX as nat,
            1,
            10_000,
            "embed-documents limit must be an integer"@,
        ) {
            Err(e) => Err(e),
            Ok(limit) => match number_arg(
                arg_at(args, 3),
                "16"@,
                usize::MAX as nat,
                1,
                64,
                "embed-documents batch must be an integer"@,
            ) {
                Err(e) => Err(e),
                Ok(batch) => Ok(CommandView::EmbedDocuments(d, limit as u32, batch as usize)),
            },
        },
    }
}

/// `collect-steam-catalog`: a path, a page count and a page size (at most
/// `max_results`), nothing more.
pub open spec fn catalog_command(args: Seq<Seq<char>>, max_results: u32) -> Result<CommandView, Seq<char>> {
    match path_arg(arg_at(args, 1), "--db path"@) {
        Err(e) => Err(e),
        Ok(d) => match count_option_spec(arg_at(args, 2), "catalog page count"@, 1, 100) {
            Err(e) => Err(e),
            Ok(pages) => match count_option_spec(
                arg_at(args, 3),
                "catalog page size"@,
                1_000,
                max_results,
            ) {
                Err(e) => Err(e),
                Ok(size) => if args.len() > 4 {
                    Err("collect-steam-catalog accepts db-path, max-pages, and page-size only"@)
                } else {
                    Ok(CommandView::CollectSteamCatalog(d, pages, size))
                },
            },
        },
    }
}

/// `collect-steam-candidates` (`candidates`) and `enrich-steam-candidates`:
/// a path and one count, nothing more.
pub open spec fn one_count_command(args: Seq<Seq<char>>, candidates: bool) -> Result<CommandView, Seq<char>> {
    match path_arg(arg_at(args, 1), "--db path"@) {
        Err(e) => Err(e),
        Ok(d) => if candidates {
            match count_option_spec(arg_at(args, 2), "candidate target"@, 2_000, 10_000) {
                Err(e) => Err(e),
                Ok(n) => if args.len() > 3 {
                    Err("collect-steam-candidates accepts at most db-path and target"@)
                } else {
                    Ok(CommandView::CollectSteamCandidates(d, n))
                },
            }
        } else {
            match count_option_spec(arg_at(args, 2), "enrich limit"@, 100, 5_000) {
                Err(e) => Err(e),
                Ok(n) => if args.len() > 3 {
                    Err("enrich-steam-candidates accepts at most db-path and limit"@)
                } else {
                    Ok(CommandView::EnrichSteamCandidates(d, n))
                },
            }
        },
    }
}

/// `run-steam-worker-once`: a path, a job limit and an enrich limit, nothing
/// more.
pub open spec fn worker_command(args: Seq<Seq<char>>) -> Result<CommandView, Seq<char>> {
    match path_arg(arg_at(args, 1), "--db path"@) {
        Err(e) => Err(e),
        Ok(d) => match worker_job_limit_spec(arg_at(args, 2)) {
            Err(e) => Err(e),
            Ok(jobs) => match count_option_spec(arg_at(args, 3), "enrich limit"@, 100, 5_000) {
                Err(e) => Err(e),
                Ok(n) => if args.len() > 4 {
                    Err("run-steam-worker-once accepts db-path, job-limit, and enrich-limit only"@)
                } else {
                    Ok(CommandView::RunSteamWorkerOnce(d, jobs, n))
                },
            },
        },
    }
}

/// A command of two paths with these labels (further arguments ignored).
pub open spec fn two_paths(args: Seq<Seq<char>>, first: Seq<char>, second: Seq<char>, backup: bool) -> Result<
    CommandView,
    Seq<char>,
> {
    match path_arg(arg_at(args, 1), first) {
        Err(e) => Err(e),
        Ok(a) => match path_arg(arg_at(args, 2), second) {
            Err(e) => Err(e),
            Ok(b) => Ok(
                if backup {
                    CommandView::Backup(a, b)
                } else {
                    CommandView::Restore(a, b)
                },
            ),
        },
    }
}

/// The command the arguments (after the program name) ask for, or the
/// message the tool stops with; `max_results` is the catalog source's largest
/// page size.
pub open spec fn command_spec(args: Seq<Seq<char>>, max_results: u32) -> Result<CommandView, Seq<char>> {
    if args.len() == 0 {
        Err(usage_text())
    } else {
        let cmd = args[0];
        if cmd == "migrate"@ {
            path_only(args, |d: Seq<char>| CommandView::Migrate(d))
        } else if cmd == "integrity"@ {
            path_only(args, |d: Seq<char>| CommandView::Integrity(d))
        } else if cmd == "m3-audit"@ {
            path_only(args, |d: Seq<char>| CommandView::M3Audit(d))
        } else if cmd == "m7-data-audit"@ {
            match path_arg(arg_at(args, 1), "--db path"@) {
                Err(e) => Err(e),
                Ok(d) => match m7_options_spec(args.skip(2)) {
                    Err(e) => Err(e),
                    Ok(reason) => Ok(CommandView::M7DataAudit(d, reason)),
                },
            }
        } else if cmd == "sync-retrieval"@ {
            scan_command(args, "sync-retrieval"@, true)
        } else if cmd == "extract-offline-features"@ {
            scan_command(args, "extract-offline-features"@, false)
        } else if cmd == "materialize-store-profiles"@ {
            path_exactly(
                args,
                |d: Seq<char>| CommandView::MaterializeStoreProfiles(d),
                "materialize-store-profiles accepts only db-path"@,
            )
        } else if cmd == "repair-empty-availability"@ {
            path_exactly(
                args,
                |d: Seq<char>| CommandView::RepairEmptyAvailability(d),
                "repair-empty-availability accepts only db-path"@,
            )
        } else if cmd == "embed-documents"@ {
            embed_command(args)
        } else if cmd == "collect-steam-catalog"@ {
            catalog_command(args, max_results)
        } else if cmd == "collect-steam-candidates"@ {
            one_count_command(args, true)
        } else if cmd == "enrich-steam-candidates"@ {
            one_count_command(args, false)
        } else if cmd == "run-steam-worker-once"@ {
            worker_command(args)
        } else if cmd == "import-golden-profiles"@ {
            path_exactly(
                args,
                |d: Seq<char>| CommandView::ImportGoldenProfiles(d),
                "import-golden-profiles accepts only db-path"@,
            )
        } else if cmd == "backup"@ {
            two_paths(args, "--db path"@, "--out path"@, true)
        } else if cmd == "restore"@ {
            two_paths(args, "--from path"@, "--to path"@, false)
        } else if cmd == "help"@ || cmd == "-h"@ || cmd == "--help"@ {
            Ok(CommandView::Help)
        } else {
            Err("unknown command '"@ + cmd + "'\n"@ + usage_text())
        }
    }
}

/// `r` is the outcome `s` describes.
pub open spec fn outcome_is(r: Result<DbCommand, String>, s: Result<CommandView, Seq<char>>) -> bool {
    match s {
        Ok(v) => r matches Ok(c) && command_view(c) == v,
        Err(m) => r matches Err(e) && e@ == m,
    }
}

fn arg_of(args: &Vec<String>, i: usize) -> (r: Option<String>)
    ensures
        opt_string_view(r) == arg_at(views(args@), i as int),
{
    if i < args.len() {
        Some(owned(args[i].as_str()))
    } else {
        None
    }
}

fn tail_of(args: &Vec<String>, k: usize) -> (r: Vec<String>)
    requires
        k <= args@.len(),
    ensures
        views(r@) == views(args@).skip(k as int),
{
    let mut out: Vec<String> = Vec::new();
    let mut i: usize = k;
    while i < args.len()
        invariant
            k <= i <= args@.len(),
            views(out@) == views(args@).subrange(k as int, i as int),
        decreases args@.len() - i,
    {
        let ghost before = out@;
        out.push(owned(args[i].as_str()));
        assert(views(out@) =~= views(args@).subrange(k as int, i as int + 1)) by {
            assert(views(out@) =~= views(before).push(args@[i as int]@));
        }
        i = i + 1;
    }
    assert(views(args@).subrange(k as int, args@.len() as int) =~= views(args@).skip(k as int));
    out
}

fn number_of(
    a: Option<String>,
    default: &str,
    lo: u32,
    hi: u32,
    err: String,
) -> (r: Result<u32, String>)
    requires
        lo <= hi,
    ensures
        match number_arg(opt_string_view(a), default@, u32::MAX as nat, lo as nat, hi as nat, err@) {
            Ok(n) => r == Ok::<u32, String>(n as u32),
            Err(m) => r matches Err(e) && e@ == m,
        },
{
    let parsed = match &a {
        Some(v) => parse_u32(v.as_str()),
        None => parse_u32(default),
    };
    match parsed {
        None => Err(err),
        Some(n) => Ok(
            if n < lo {
                lo
            } else if n > hi {
                hi
            } else {
                n
            },
        ),
    }
}

fn text2(a: &str, b: &str) -> (r: String)
    ensures
        r@ == a@ + b@,
{
    crate::text::concat(a, b)
}

fn scan(args: &Vec<String>, name: &str, sync: bool) -> (r: Result<DbCommand, String>)
    ensures
        outcome_is(r, scan_command(views(args@), name@, sync)),
{
    let d = match required_path(arg_of(args, 1), "--db path") {
        Ok(d) => d,
        Err(e) => {
            return Err(e);
        },
    };
    let limit = match number_of(arg_of(args, 2), "5000", 1, 50_000, text2(name, " limit must be an integer")) {
        Ok(n) => n,
        Err(e) => {
            return Err(e);
        },
    };
    let after = match number_of(
        arg_of(args, 3),
        "0",
        0,
        u32::MAX,
        text2(name, " after_app_id must be an integer"),
    ) {
        Ok(n) => n,
        Err(e) => {
            return Err(e);
        },
    };
    if sync {
        Ok(DbCommand::SyncRetrieval { db_path: d, limit, after_app_id: after })
    } else {
        Ok(DbCommand::ExtractOfflineFeatures { db_path: d, limit, after_app_id: after })
    }
}

fn embed(args: &Vec<String>) -> (r: Result<DbCommand, String>)
    ensures
        outcome_is(r, embed_command(views(args@))),
{
    let d = match required_path(arg_of(args, 1), "--db path") {
        Ok(d) => d,
        Err(e) => {
            return Err(e);
        },
    };
    let limit = match number_of(
        arg_of(args, 2),
        "200",
        1,
        10_000,
        owned("embed-documents limit must be an integer"),
    ) {
        Ok(n) => n,
        Err(e) => {
            return Err(e);
        },
    };
    let b = arg_of(args, 3);
    let parsed = match &b {
        Some(v) => parse_usize(v.as_str()),
        None => parse_usize("16"),
    };
    let batch: usize = match parsed {
        None => {
            return Err(owned("embed-documents batch must be an integer"));
        },
        Some(n) => if n < 1 {
            1
        } else if n > 64 {
            64
        } else {
            n
        },
    };
    Ok(DbCommand::EmbedDocuments { db_path: d, limit, batch })
}

fn catalog(args: &Vec<String>, max_results: u32) -> (r: Result<DbCommand, String>)
    ensures
        outcome_is(r, catalog_command(views(args@), max_results)),
{
    let d = match required_path(arg_of(args, 1), "--db path") {
        Ok(d) => d,
        Err(e) => {
            return Err(e);
        },
    };
    let pages = match optional_catalog_page_count(arg_of(args, 2)) {
        Ok(n) => n,
        Err(e) => {
            return Err(e);
        },
    };
    let size = match optional_catalog_page_size(arg_of(args, 3), max_results) {
        Ok(n) => n,
        Err(e) => {
            return Err(e);
        },
    };
    if args.len() > 4 {
        return Err(owned("collect-steam-catalog accepts db-path, max-pages, and page-size only"));
    }
    Ok(DbCommand::CollectSteamCatalog { db_path: d, max_pages: pages, page_size: size })
}

fn one_count(args: &Vec<String>, candidates: bool) -> (r: Result<DbCommand, String>)
    ensures
        outcome_is(r, one_count_command(views(args@), candidates)),
{
    let d = match required_path(arg_of(args, 1), "--db path") {
        Ok(d) => d,
        Err(e) => {
            return Err(e);
        },
    };
    if candidates {
        let n = match optional_target(arg_of(args, 2)) {
            Ok(n) => n,
            Err(e) => {
                return Err(e);
            },
        };
        if args.len() > 3 {
            return Err(owned("collect-steam-candidates accepts at most db-path and target"));
        }
        Ok(DbCommand::CollectSteamCandidates { db_path: d, target: n })
    } else {
        let n = match optional_enrich_limit(arg_of(args, 2)) {
            Ok(n) => n,
            Err(e) => {
                return Err(e);
            },
        };
        if args.len() > 3 {
            return Err(owned("enrich-steam-candidates accepts at most db-path and limit"));
        }
        Ok(DbCommand::EnrichSteamCandidates { db_path: d, limit: n })
    }
}

fn worker(args: &Vec<String>) -> (r: Result<DbCommand, String>)
    ensures
        outcome_is(r, worker_command(views(args@))),
{
    let d = match required_path(arg_of(args, 1), "--db path") {
        Ok(d) => d,
        Err(e) => {
            return Err(e);
        },
    };
    let jobs = match optional_worker_job_limit(arg_of(args, 2)) {
        Ok(n) => n,
        Err(e) => {
            return Err(e);
        },
    };
    let n = match optional_enrich_limit(arg_of(args, 3)) {
        Ok(n) => n,
        Err(e) => {
            return Err(e);
        },
    };
    if args.len() > 4 {
        return Err(owned("run-steam-worker-once accepts db-path, job-limit, and enrich-limit only"));
    }
    Ok(DbCommand::RunSteamWorkerOnce { db_path: d, job_limit: jobs, enrich_limit: n })
}

fn paths(args: &Vec<String>, first: &str, second: &str, backup: bool) -> (r: Result<DbCommand, String>)
    ensures
        outcome_is(r, two_paths(views(args@), first@, second@, backup)),
{
    let a = match required_path(arg_of(args, 1), first) {
        Ok(p) => p,
        Err(e) => {
            return Err(e);
        },
    };
    let b = match required_path(arg_of(args, 2), second) {
        Ok(p) => p,
        Err(e) => {
            return Err(e);
        },
    };
    if backup {
        Ok(DbCommand::Backup { db_path: a, out_path: b })
    } else {
        Ok(DbCommand::Restore { backup_path: a, dest_path: b })
    }
}

/// The command the arguments (after the program name) ask for, or the
/// message the tool stops with (see [`command_spec`]); `max_results` is the
/// catalog source's largest page size.
pub fn parse_command(args: &Vec<String>, max_results: u32) -> (r: Result<DbCommand, String>)
    ensures
        outcome_is(r, command_spec(views(args@), max_results)),
{
    let ghost av = views(args@);
    if args.len() == 0 {
        return Err(owned(usage()));
    }
    let cmd = args[0].as_str();
    assert(av[0] == cmd@);
    let path = required_path(arg_of(args, 1), "--db path");
    if str_eq(cmd, "migrate") {
        return match path {
            Ok(d) => Ok(DbCommand::Migrate { db_path: d }),
            Err(e) => Err(e),
        };
    }
    if str_eq(cmd, "integrity") {
        return match path {
            Ok(d) => Ok(DbCommand::Integrity { db_path: d }),
            Err(e) => Err(e),
        };
    }
    if str_eq(cmd, "m3-audit") {
        return match path {
            Ok(d) => Ok(DbCommand::M3Audit { db_path: d }),
            Err(e) => Err(e),
        };
    }
    if str_eq(cmd, "m7-data-audit") {
        let d = match path {
            Ok(d) => d,
            Err(e) => {
                return Err(e);
            },
        };
        return match parse_m7_audit_options(tail_of(args, if args.len() < 2 { args.len() } else { 2 })) {
            Ok(reason) => Ok(DbCommand::M7DataAudit { db_path: d, upcoming_shortfall_reason: reason }),
            Err(e) => Err(e),
        };
    }
    if str_eq(cmd, "sync-retrieval") {
        return scan(args, "sync-retrieval", true);
    }
    if str_eq(cmd, "extract-offline-features") {
        return scan(args, "extract-offline-features", false);
    }
    if str_eq(cmd, "materialize-store-profiles") {
        return match path {
            Ok(d) => if args.len() > 2 {
                Err(owned("materialize-store-profiles accepts only db-path"))
            } else {
                Ok(DbCommand::MaterializeStoreProfiles { db_path: d })
            },
            Err(e) => Err(e),
        };
    }
    if str_eq(cmd, "repair-empty-availability") {
        return match path {
            Ok(d) => if args.len() > 2 {
                Err(owned("repair-empty-availability accepts only db-path"))
            } else {
                Ok(DbCommand::RepairEmptyAvailability { db_path: d })
            },
            Err(e) => Err(e),
        };
    }
    if str_eq(cmd, "embed-documents") {
        return embed(args);
    }
    if str_eq(cmd, "collect-steam-catalog") {
        return catalog(args, max_results);
    }
    if str_eq(cmd, "collect-steam-candidates") {
        return one_count(args, true);
    }
    if str_eq(cmd, "enrich-steam-candidates") {
        return one_count(args, false);
    }
    if str_eq(cmd, "run-steam-worker-once") {
        return worker(args);
    }
    if str_eq(cmd, "import-golden-profiles") {
        return match path {
            Ok(d) => if args.len() > 2 {
                Err(owned("import-golden-profiles accepts only db-path"))
            } else {
                Ok(DbCommand::ImportGoldenProfiles { db_path: d })
            },
            Err(e) => Err(e),
        };
    }
    if str_eq(cmd, "backup") {
        return paths(args, "--db path", "--out path", true);
    }
    if str_eq(cmd, "restore") {
        return paths(args, "--from path", "--to path", false);
    }
    if str_eq(cmd, "help") || str_eq(cmd, "-h") || str_eq(cmd, "--help") {
        return Ok(DbCommand::Help);
    }
    let mut m = crate::text::chars_of("unknown command '");
    crate::text::extend_chars(&mut m, crate::text::chars_of(cmd).as_slice());
    crate::text::extend_chars(&mut m, crate::text::chars_of("'\n").as_slice());
    crate::text::extend_chars(&mut m, crate::text::chars_of(usage()).as_slice());
    Err(crate::text::string_from_chars(m.as_slice()))
}

/// What a parsed command holds: the database path is the argument after the
/// command name and is never a flag; numbers lie in their ranges (scan
/// limits 1 to 50000, embedding limits 1 to 10000 in batches of 1 to 64,
/// catalog pages 1 to 100 of 1 to `max_results` results, candidate targets 1
/// to 10000, enrichment limits 1 to 5000, worker job limits 1 to 10); "help",
/// "-h" and "--help" ask for help; no arguments is refused with the usage
/// text.
pub proof fn lemma_command_shapes(args: Seq<Seq<char>>, max_results: u32)
    ensures
        args.len() == 0 ==> command_spec(args, max_results) == Err::<CommandView, Seq<char>>(usage_text()),
        args.len() > 0 && (args[0] == "help"@ || args[0] == "-h"@ || args[0] == "--help"@) ==> command_spec(
            args,
            max_results,
        ) == Ok::<CommandView, Seq<char>>(CommandView::Help),
        command_spec(args, max_results) matches Ok(v) ==> match v {
            CommandView::Help => true,
            CommandView::Restore(a, b) => args.len() >= 3 && a == args[1] && b == args[2] && !seq_starts_with(a, "--"@)
                && !seq_starts_with(b, "--"@) && args[0] == "restore"@,
            CommandView::Backup(a, b) => args.len() >= 3 && a == args[1] && b == args[2] && !seq_starts_with(a, "--"@)
                && !seq_starts_with(b, "--"@) && args[0] == "backup"@,
            CommandView::Migrate(d) => args.len() >= 2 && d == args[1] && !seq_starts_with(d, "--"@) && args[0] == "migrate"@,
            CommandView::Integrity(d) => args.len() >= 2 && d == args[1] && !seq_starts_with(d, "--"@) && args[0] == "integrity"@,
            CommandView::M3Audit(d) => args.len() >= 2 && d == args[1] && !seq_starts_with(d, "--"@) && args[0] == "m3-audit"@,
            CommandView::M7DataAudit(d, _) => args.len() >= 2 && d == args[1] && !seq_starts_with(d, "--"@) && args[0] == "m7-data-audit"@,
            CommandView::SyncRetrieval(d, limit, _) => args.len() >= 2 && d == args[1] && !seq_starts_with(d, "--"@)
                && 1 <= limit <= 50_000 && args[0] == "sync-retrieval"@,
            CommandView::ExtractOfflineFeatures(d, limit, _) => args.len() >= 2 && d == args[1] && !seq_starts_with(d, "--"@)
                && 1 <= limit <= 50_000 && args[0] == "extract-offline-features"@,
            CommandView::MaterializeStoreProfiles(d) => args.len() == 2 && d == args[1] && !seq_starts_with(d, "--"@)
                && args[0] == "materialize-store-profiles"@,
            CommandView::RepairEmptyAvailability(d) => args.len() == 2 && d == args[1] && !seq_starts_with(d, "--"@)
                && args[0] == "repair-empty-availability"@,
            CommandView::ImportGoldenProfiles(d) => args.len() == 2 && d == args[1] && !seq_starts_with(d, "--"@)
                && args[0] == "import-golden-profiles"@,
            CommandView::EmbedDocuments(d, limit, batch) => args.len() >= 2 && d == args[1] && !seq_starts_with(d, "--"@)
                && 1 <= limit <= 10_000 && 1 <= batch <= 64 && args[0] == "embed-documents"@,
            CommandView::CollectSteamCatalog(d, pages, size) => 2 <= args.len() <= 4 && d == args[1] && !seq_starts_with(d, "--"@)
                && 1 <= pages <= 100 && 1 <= size <= max_results && args[0] == "collect-steam-catalog"@,
            CommandView::CollectSteamCandidates(d, target) => 2 <= args.len() <= 3 && d == args[1] && !seq_starts_with(d, "--"@)
                && 1 <= target <= 10_000 && args[0] == "collect-steam-candidates"@,
            CommandView::EnrichSteamCandidates(d, limit) => 2 <= args.len() <= 3 && d == args[1] && !seq_starts_with(d, "--"@)
                && 1 <= limit <= 5_000 && args[0] == "enrich-steam-candidates"@,
            CommandView::RunSteamWorkerOnce(d, jobs, limit) => 2 <= args.len() <= 4 && d == args[1] && !seq_starts_with(d, "--"@)
                && 1 <= jobs <= 10 && 1 <= limit <= 5_000 && args[0] == "run-steam-worker-once"@,
        },
{
    reveal_strlit("help");
    reveal_strlit("-h");
    reveal_strlit("--help");
    reveal_strlit("migrate");
    reveal_strlit("integrity");
    reveal_strlit("m3-audit");
    reveal_strlit("m7-data-audit");
    reveal_strlit("sync-retrieval");
    reveal_strlit("extract-offline-features");
    reveal_strlit("materialize-store-profiles");
    reveal_strlit("repair-empty-availability");
    reveal_strlit("embed-documents");
    reveal_strlit("collect-steam-catalog");
    reveal_strlit("collect-steam-candidates");
    reveal_strlit("enrich-steam-candidates");
    reveal_strlit("run-steam-worker-once");
    reveal_strlit("import-golden-profiles");
    reveal_strlit("backup");
    reveal_strlit("restore");
    if args.len() > 0 {
        let c = args[0];
        if c == "--help"@ {
            assert(c.len() == 6 && c[0] == '-');
        }
        if c == "-h"@ {
            assert(c.len() == 2);
        }
        if c == "help"@ {
            assert(c.len() == 4);
        }
    }
}

} // verus!
