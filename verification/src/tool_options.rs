//! The database tool's command-line options and the collection worker's
//! decisions: bounded counts, keys and owner names, retry delays, job error
//! categories and the coverage thresholds of the data audits.
use vstd::prelude::*;
use crate::num::{dec, dec_signed, parse_i64, parse_signed, parse_u32, parse_u64, parse_unsigned, push_dec, push_dec_signed};
use crate::scheduler::steam_key_shape;
use crate::text::{
    ascii_lower, chars_contain, chars_of, extend_chars, lower_chars, owned, seq_contains,
    seq_starts_with, str_eq, str_starts_with, string_from_chars, trim, trim_chars, trim_str,
};

verus! {

pub const STORE_SEARCH_CURSOR_KEY: &'static str = "steam_store_search:multiplayer:reviews_desc";
pub const ENRICH_CURSOR_KEY: &'static str = "steam_store_enrichment:dynamic:v2";
pub const APP_LIST_CURSOR_KEY: &'static str = "steam_istore_getapplist:games:v1";
pub const APP_LIST_PAGES_DEFAULT: u32 = 1;
pub const APP_LIST_PAGES_MAX: u32 = 100;
pub const APP_LIST_PAGE_SIZE_DEFAULT: u32 = 1_000;
pub const WORKER_JOB_LIMIT_DEFAULT: i64 = 1;
pub const WORKER_JOB_LIMIT_MAX: i64 = 10;
pub const WORKER_RETRY_BASE_MS: i64 = 60_000;
pub const STORE_SEARCH_TARGET_DEFAULT: u32 = 2_000;
pub const STORE_SEARCH_TARGET_MAX: u32 = 10_000;
pub const ENRICH_LIMIT_DEFAULT: u32 = 100;
pub const ENRICH_LIMIT_MAX: u32 = 5_000;
pub const ENRICH_INTER_REQUEST_MS: u64 = 2_500;
pub const ENRICH_RATE_LIMIT_COOLDOWN_MS: u64 = 300_000;

fn text3(a: &str, b: &str, c: &str) -> (r: String)
    ensures
        r@ == a@ + b@ + c@,
{
    let mut m = chars_of(a);
    extend_chars(&mut m, chars_of(b).as_slice());
    extend_chars(&mut m, chars_of(c).as_slice());
    string_from_chars(m.as_slice())
}

/// A path argument labelled `label`: required, and not a flag.
pub fn required_path(arg: Option<String>, label: &str) -> (r: Result<String, String>)
    ensures
        match arg {
            None => r matches Err(m) && m@ == "missing "@ + label@,
            Some(v) => if seq_starts_with(v@, "--"@) {
                r matches Err(m) && m@ == "expected path for "@ + label@ + ", got flag "@ + v@
            } else {
                r matches Ok(p) && p@ == v@
            },
        },
{
    match arg {
        None => {
            let mut m = chars_of("missing ");
            extend_chars(&mut m, chars_of(label).as_slice());
            Err(string_from_chars(m.as_slice()))
        },
        Some(v) => {
            if str_starts_with(v.as_str(), "--") {
                let mut m = chars_of("expected path for ");
                extend_chars(&mut m, chars_of(label).as_slice());
                extend_chars(&mut m, chars_of(", got flag ").as_slice());
                extend_chars(&mut m, chars_of(v.as_str()).as_slice());
                return Err(string_from_chars(m.as_slice()));
            }
            Ok(v)
        },
    }
}

/// A count option: absent is `default`; present must parse as a `u32` in
/// `[1, max]`. `what` names it in the messages.
pub open spec fn count_option_spec(arg: Option<Seq<char>>, what: Seq<char>, default: u32, max: u32) -> Result<u32, Seq<char>> {
    let parsed = match arg {
        None => Ok(default as nat),
        Some(v) => match parse_unsigned(v, u32::MAX as nat) {
            Some(n) => Ok(n),
            None => Err("invalid "@ + what + ": "@ + v),
        },
    };
    match parsed {
        Err(m) => Err(m),
        Ok(n) => if 1 <= n <= max {
            Ok(n as u32)
        } else {
            Err(what + " must be between 1 and "@ + dec(max as nat))
        },
    }
}

pub open spec fn opt_string_view(o: Option<String>) -> Option<Seq<char>> {
    match o {
        Some(s) => Some(s@),
        None => None,
    }
}

fn count_option(arg: Option<String>, what: &str, default: u32, max: u32) -> (r: Result<u32, String>)
    ensures
        match count_option_spec(opt_string_view(arg), what@, default, max) {
            Ok(n) => r == Ok::<u32, String>(n),
            Err(m) => r matches Err(s) && s@ == m,
        },
{
    let n = match arg {
        None => default,
        Some(v) => match parse_u32(v.as_str()) {
            Some(n) => n,
            None => {
                let mut m = chars_of("invalid ");
                extend_chars(&mut m, chars_of(what).as_slice());
                extend_chars(&mut m, chars_of(": ").as_slice());
                extend_chars(&mut m, chars_of(v.as_str()).as_slice());
                return Err(string_from_chars(m.as_slice()));
            },
        },
    };
    if !(1 <= n && n <= max) {
        let mut m = chars_of(what);
        extend_chars(&mut m, chars_of(" must be between 1 and ").as_slice());
        push_dec(&mut m, max as u64);
        return Err(string_from_chars(m.as_slice()));
    }
    Ok(n)
}

/// How many candidates to collect (default 2000, at most 10000).
pub fn optional_target(arg: Option<String>) -> (r: Result<u32, String>)
    ensures
        match count_option_spec(opt_string_view(arg), "candidate target"@, 2_000, 10_000) {
            Ok(n) => r == Ok::<u32, String>(n),
            Err(m) => r matches Err(s) && s@ == m,
        },
{
    count_option(arg, "candidate target", STORE_SEARCH_TARGET_DEFAULT, STORE_SEARCH_TARGET_MAX)
}

/// How many candidates to enrich (default 100, at most 5000).
pub fn optional_enrich_limit(arg: Option<String>) -> (r: Result<u32, String>)
    ensures
        match count_option_spec(opt_string_view(arg), "enrich limit"@, 100, 5_000) {
            Ok(n) => r == Ok::<u32, String>(n),
            Err(m) => r matches Err(s) && s@ == m,
        },
{
    count_option(arg, "enrich limit", ENRICH_LIMIT_DEFAULT, ENRICH_LIMIT_MAX)
}

/// How many catalog pages to fetch (default 1, at most 100).
pub fn optional_catalog_page_count(arg: Option<String>) -> (r: Result<u32, String>)
    ensures
        match count_option_spec(opt_string_view(arg), "catalog page count"@, 1, 100) {
            Ok(n) => r == Ok::<u32, String>(n),
            Err(m) => r matches Err(s) && s@ == m,
        },
{
    count_option(arg, "catalog page count", APP_LIST_PAGES_DEFAULT, APP_LIST_PAGES_MAX)
}

/// How many apps a catalog page asks for (default 1000, at most
/// `max_results`, the catalog source's own limit).
pub fn optional_catalog_page_size(arg: Option<String>, max_results: u32) -> (r: Result<u32, String>)
    ensures
        match count_option_spec(opt_string_view(arg), "catalog page size"@, 1_000, max_results) {
            Ok(n) => r == Ok::<u32, String>(n),
            Err(m) => r matches Err(s) && s@ == m,
        },
{
    count_option(arg, "catalog page size", APP_LIST_PAGE_SIZE_DEFAULT, max_results)
}

/// How many jobs one worker run leases: default 1; present must parse as an
/// `i64` in `[1, 10]`.
pub open spec fn worker_job_limit_spec(arg: Option<Seq<char>>) -> Result<i64, Seq<char>> {
    let parsed = match arg {
        None => Ok(1int),
        Some(v) => match parse_signed(v, i64::MIN as int, i64::MAX as int) {
            Some(n) => Ok(n),
            None => Err("invalid worker job limit: "@ + v),
        },
    };
    match parsed {
        Err(m) => Err(m),
        Ok(n) => if 1 <= n <= 10 {
            Ok(n as i64)
        } else {
            Err("worker job limit must be between 1 and 10"@)
        },
    }
}

pub fn optional_worker_job_limit(arg: Option<String>) -> (r: Result<i64, String>)
    ensures
        match worker_job_limit_spec(opt_string_view(arg)) {
            Ok(n) => r == Ok::<i64, String>(n),
            Err(m) => r matches Err(s) && s@ == m,
        },
{
    proof {
        reveal_strlit("");
    }
    let n = match arg {
        None => WORKER_JOB_LIMIT_DEFAULT,
        Some(v) => match parse_i64(v.as_str()) {
            Some(n) => n,
            None => {
                return Err(text3("invalid worker job limit: ", v.as_str(), ""));
            },
        },
    };
    proof {
        reveal_strlit("");
    }
    if !(1 <= n && n <= WORKER_JOB_LIMIT_MAX) {
        return Err(owned("worker job limit must be between 1 and 10"));
    }
    Ok(n)
}

/// The Steam Web API key setting: unset is no key; a set value must be 32
/// hexadecimal digits once trimmed, and is the trimmed value.
pub fn steam_web_api_key_from(raw: Option<&str>) -> (r: Result<Option<String>, String>)
    ensures
        match raw {
            None => r matches Ok(None),
            Some(v) => if steam_key_shape(v@) {
                r matches Ok(Some(k)) && k@ == trim(v@)
            } else {
                r matches Err(m) && m@ == "MPGS_STEAM_WEB_API_KEY must be a 32-character hexadecimal key"@
            },
        },
{
    match raw {
        None => Ok(None),
        Some(v) => {
            if crate::scheduler::steam_web_api_key_configured(Some(v)) {
                Ok(Some(trim_str(v)))
            } else {
                Err(owned("MPGS_STEAM_WEB_API_KEY must be a 32-character hexadecimal key"))
            }
        },
    }
}

/// The collection worker's owner name: the configured name, or
/// `mpgs-dbtool-<process id>`, trimmed; it must be 1 to 96 bytes.
pub open spec fn worker_owner_spec(raw: Option<Seq<char>>, process_id: u32) -> Result<Seq<char>, Seq<char>> {
    let owner = trim(
        match raw {
            Some(v) => v,
            None => "mpgs-dbtool-"@ + dec(process_id as nat),
        },
    );
    if owner.len() == 0 || vstd::utf8::encode_utf8(owner).len() > 96 {
        Err("MPGS_STEAM_WORKER_ID must be between 1 and 96 bytes"@)
    } else {
        Ok(owner)
    }
}

pub fn configured_worker_owner(raw: Option<&str>, process_id: u32) -> (r: Result<String, String>)
    ensures
        match worker_owner_spec(
            match raw {
                Some(v) => Some(v@),
                None => None,
            },
            process_id,
        ) {
            Ok(o) => r matches Ok(s) && s@ == o,
            Err(m) => r matches Err(s) && s@ == m,
        },
{
    let name: String = match raw {
        Some(v) => owned(v),
        None => {
            let mut m = chars_of("mpgs-dbtool-");
            push_dec(&mut m, process_id as u64);
            string_from_chars(m.as_slice())
        },
    };
    let owner = trim_str(name.as_str());
    let bytes = owner.as_str().as_bytes().len();
    if bytes == 0 || bytes > 96 {
        return Err(owned("MPGS_STEAM_WORKER_ID must be between 1 and 96 bytes"));
    }
    Ok(owner)
}

/// The delay before a failed job is retried: one minute, doubled for each
/// earlier attempt, from one to six attempts.
pub open spec fn worker_retry_delay_spec(attempts: i64) -> int {
    let a = if attempts < 1 {
        1
    } else if attempts > 6 {
        6
    } else {
        attempts as int
    };
    (60_000 * vstd::arithmetic::power2::pow2((a - 1) as nat)) as int
}

pub fn worker_retry_delay_ms(attempts: i64) -> (r: i64)
    ensures
        r == worker_retry_delay_spec(attempts),
{
    let a: i64 = if attempts < 1 {
        1
    } else if attempts > 6 {
        6
    } else {
        attempts
    };
    let mut delay: i64 = WORKER_RETRY_BASE_MS;
    let mut k: i64 = 1;
    proof {
        vstd::arithmetic::power2::lemma2_to64();
    }
    while k < a
        invariant
            1 <= k <= a <= 6,
            delay == 60_000 * vstd::arithmetic::power2::pow2((k - 1) as nat),
        decreases a - k,
    {
        proof {
            vstd::arithmetic::power2::lemma2_to64();
        }
        delay = delay * 2;
        k = k + 1;
    }
    delay
}

/// The refresh status name and source cursor key of a worker job type.
pub open spec fn worker_task_status_spec(task_type: Seq<char>) -> Option<(Seq<char>, Seq<char>)> {
    if task_type == "sync_catalog"@ {
        Some(("catalog_sync"@, "steam_istore_getapplist:games:v1"@))
    } else if task_type == "collect_candidates"@ {
        Some(("candidate_collection"@, "steam_store_search:multiplayer:reviews_desc"@))
    } else if task_type == "enrich_catalog"@ {
        Some(("enrichment"@, "steam_store_enrichment:dynamic:v2"@))
    } else {
        None
    }
}

pub fn worker_task_status(task_type: &str) -> (r: Option<(&'static str, &'static str)>)
    ensures
        match worker_task_status_spec(task_type@) {
            Some((name, key)) => r matches Some(p) && p.0@ == name && p.1@ == key,
            None => r is None,
        },
{
    if str_eq(task_type, "sync_catalog") {
        Some(("catalog_sync", APP_LIST_CURSOR_KEY))
    } else if str_eq(task_type, "collect_candidates") {
        Some(("candidate_collection", STORE_SEARCH_CURSOR_KEY))
    } else if str_eq(task_type, "enrich_catalog") {
        Some(("enrichment", ENRICH_CURSOR_KEY))
    } else {
        None
    }
}

/// The job error category a worker failure category is reported as: the
/// job contract's own categories pass through, an oversized response counts
/// as a changed source shape, a storage failure as a network failure, and
/// anything else as an invalid payload.
pub open spec fn job_error_category_spec(category: Seq<char>) -> Seq<char> {
    if category == "network"@ || category == "rate_limited"@ || category == "auth"@ || category == "not_found"@
        || category == "parse_changed"@ || category == "invalid_payload"@ {
        category
    } else if category == "response_too_large"@ {
        "parse_changed"@
    } else if category == "storage"@ {
        "network"@
    } else {
        "invalid_payload"@
    }
}

pub fn worker_job_error_category(category: &'static str) -> (r: &'static str)
    ensures
        r@ == job_error_category_spec(category@),
{
    if str_eq(category, "network") || str_eq(category, "rate_limited") || str_eq(category, "auth") || str_eq(
        category,
        "not_found",
    ) || str_eq(category, "parse_changed") || str_eq(category, "invalid_payload") {
        category
    } else if str_eq(category, "response_too_large") {
        "parse_changed"
    } else if str_eq(category, "storage") {
        "network"
    } else {
        "invalid_payload"
    }
}

/// The work a leased Steam job calls for.
#[derive(Debug, Clone, Copy, PartialEq, Eq)]
pub enum WorkerJob {
    SyncCatalog,
    CollectCandidates,
    EnrichCatalog,
    /// The job fails at once with this category and message.
    Refused(&'static str, &'static str),
}

/// The work a leased job of type `task_type` calls for: a catalog sync
/// (which needs the Web API key, else it is refused for want of
/// authorization), a candidate collection or a catalog enrichment; any other
/// type is refused as an invalid payload.
pub fn worker_job(task_type: &str, has_api_key: bool) -> (r: WorkerJob)
    ensures
        match r {
            WorkerJob::SyncCatalog => task_type@ == "sync_catalog"@ && has_api_key,
            WorkerJob::CollectCandidates => task_type@ == "collect_candidates"@,
            WorkerJob::EnrichCatalog => task_type@ == "enrich_catalog"@,
            WorkerJob::Refused(category, message) => if task_type@ == "sync_catalog"@ {
                !has_api_key && category@ == "auth"@ && message@
                    == "MPGS_STEAM_WEB_API_KEY is not configured for the worker"@
            } else {
                task_type@ != "collect_candidates"@ && task_type@ != "enrich_catalog"@ && category@
                    == "invalid_payload"@ && message@ == "unsupported Steam job type"@
            },
        },
{
    if str_eq(task_type, "sync_catalog") {
        if has_api_key {
            WorkerJob::SyncCatalog
        } else {
            WorkerJob::Refused("auth", "MPGS_STEAM_WEB_API_KEY is not configured for the worker")
        }
    } else if str_eq(task_type, "collect_candidates") {
        WorkerJob::CollectCandidates
    } else if str_eq(task_type, "enrich_catalog") {
        WorkerJob::EnrichCatalog
    } else {
        WorkerJob::Refused("invalid_payload", "unsupported Steam job type")
    }
}

/// The key under which a worker records completing job `job_id`.
pub fn worker_completion_key(owner: &str, job_id: i64) -> (r: String)
    ensures
        r@ == "worker:"@ + owner@ + ":"@ + dec_signed(job_id as int),
{
    let mut m = chars_of("worker:");
    extend_chars(&mut m, chars_of(owner).as_slice());
    extend_chars(&mut m, chars_of(":").as_slice());
    push_dec_signed(&mut m, job_id);
    string_from_chars(m.as_slice())
}

/// What the audit's options give: the reason of an allowed shortfall of
/// upcoming games, given at most once, one line, 1 to 240 bytes once
/// trimmed; any other option is refused.
pub open spec fn m7_options_spec(args: Seq<Seq<char>>) -> Result<Option<Seq<char>>, Seq<char>>
    decreases args.len(),
{
    if args.len() == 0 {
        Ok(None)
    } else {
        match m7_options_spec(args.drop_last()) {
            Err(e) => Err(e),
            Ok(prev) => {
                let arg = args.last();
                if !seq_starts_with(arg, "--allow-upcoming-shortfall="@) {
                    Err(m7_usage_message())
                } else {
                    let reason = trim(arg.skip(27));
                    if reason.len() == 0 || vstd::utf8::encode_utf8(reason).len() > 240 || reason.contains('\r')
                        || reason.contains('\n') || prev is Some {
                        Err(m7_reason_message())
                    } else {
                        Ok(Some(reason))
                    }
                }
            },
        }
    }
}

pub open spec fn m7_usage_message() -> Seq<char> {
    "m7-data-audit accepts only --allow-upcoming-shortfall=<reason> after db-path"@
}

pub open spec fn m7_reason_message() -> Seq<char> {
    "--allow-upcoming-shortfall needs one non-empty single-line reason of at most 240 bytes"@
}

pub proof fn lemma_m7_stays_failed(args: Seq<Seq<char>>, k: int)
    requires
        0 <= k <= args.len(),
        m7_options_spec(args.take(k)) is Err,
    ensures
        m7_options_spec(args) == m7_options_spec(args.take(k)),
    decreases args.len() - k,
{
    if k < args.len() {
        assert(args.take(k + 1).drop_last() =~= args.take(k));
        lemma_m7_stays_failed(args, k + 1);
    } else {
        assert(args.take(k) =~= args);
    }
}

fn has_char(v: &[char], c: char) -> (r: bool)
    ensures
        r == v@.contains(c),
{
    let mut i: usize = 0;
    while i < v.len()
        invariant
            i <= v@.len(),
            forall|k: int| 0 <= k < i ==> v@[k] != c,
        decreases v@.len() - i,
    {
        if v[i] == c {
            return true;
        }
        i = i + 1;
    }
    false
}

/// Parse the options after the audit's database path.
pub fn parse_m7_audit_options(args: Vec<String>) -> (r: Result<Option<String>, String>)
    ensures
        match m7_options_spec(args@.map_values(|s: String| s@)) {
            Ok(None) => r matches Ok(None),
            Ok(Some(reason)) => r matches Ok(Some(s)) && s@ == reason,
            Err(m) => r matches Err(s) && s@ == m,
        },
{
    let ghost av = args@.map_values(|s: String| s@);
    let mut reason: Option<String> = None;
    let mut i: usize = 0;
    assert(av.take(0) =~= Seq::<Seq<char>>::empty());
    while i < args.len()
        invariant
            i <= args@.len(),
            av == args@.map_values(|s: String| s@),
            m7_options_spec(av.take(i as int)) == Ok::<Option<Seq<char>>, Seq<char>>(
                match reason {
                    Some(s) => Some(s@),
                    None => None,
                },
            ),
        decreases args@.len() - i,
    {
        assert(av.take(i as int + 1).drop_last() =~= av.take(i as int));
        assert(av.take(i as int + 1).last() == args@[i as int]@);
        let arg = args[i].as_str();
        if !str_starts_with(arg, "--allow-upcoming-shortfall=") {
            proof {
                lemma_m7_stays_failed(av, i as int + 1);
            }
            return Err(owned("m7-data-audit accepts only --allow-upcoming-shortfall=<reason> after db-path"));
        }
        let c = chars_of(arg);
        proof {
            reveal_strlit("--allow-upcoming-shortfall=");
        }
        let value = crate::text::slice_range(c.as_slice(), 27, c.len());
        assert(value@ =~= arg@.skip(27));
        let t = trim_chars(value.as_slice());
        let text = string_from_chars(t.as_slice());
        let bytes = text.as_str().as_bytes().len();
        if t.len() == 0 || bytes > 240 || has_char(t.as_slice(), '\r') || has_char(t.as_slice(), '\n') || reason.is_some() {
            proof {
                lemma_m7_stays_failed(av, i as int + 1);
            }
            return Err(owned("--allow-upcoming-shortfall needs one non-empty single-line reason of at most 240 bytes"));
        }
        reason = Some(text);
        i = i + 1;
    }
    assert(av.take(i as int) =~= av);
    match reason {
        Some(s) => Ok(Some(s)),
        None => Ok(None),
    }
}

/// `covered` out of `total` reaches `minimum_percent` percent (with
/// negative coverage counting as none, and products saturating).
pub open spec fn meets_percentage_spec(covered: i64, total: i64, minimum_percent: i64) -> bool {
    let c = if covered < 0 {
        0
    } else {
        covered as int
    };
    total > 0 && crate::scheduler::clamp_i64(c * 100) >= crate::scheduler::clamp_i64(total * minimum_percent)
}

pub fn meets_percentage(covered: i64, total: i64, minimum_percent: i64) -> (r: bool)
    ensures
        r == meets_percentage_spec(covered, total, minimum_percent),
{
    if total <= 0 {
        return false;
    }
    let c: i128 = if covered < 0 {
        0
    } else {
        covered as i128
    };
    let p: i128 = c * 100;
    let t: i128 = total as i128;
    let m: i128 = minimum_percent as i128;
    assert(-0x8000_0000_0000_0000 * 0x8000_0000_0000_0000 <= t * m <= 0x8000_0000_0000_0000 * 0x8000_0000_0000_0000)
        by (nonlinear_arith)
        requires
            -0x8000_0000_0000_0000 <= t <= 0x7FFF_FFFF_FFFF_FFFF,
            -0x8000_0000_0000_0000 <= m <= 0x7FFF_FFFF_FFFF_FFFF,
            t > 0,
    ;
    let lhs = clamp128(p);
    let rhs = clamp128(t * m);
    lhs >= rhs
}

fn clamp128(x: i128) -> (r: i64)
    requires
        -0x8000_0000_0000_0000_0000_0000_0000_0000 < x < 0x7FFF_FFFF_FFFF_FFFF_FFFF_FFFF_FFFF_FFFF,
    ensures
        r == crate::scheduler::clamp_i64(x as int),
{
    if x > 0x7FFF_FFFF_FFFF_FFFFi128 {
        i64::MAX
    } else if x < -0x8000_0000_0000_0000i128 {
        i64::MIN
    } else {
        x as i64
    }
}

/// A switch that is on: `1`, `true`, `yes` or `on`, trimmed and ignoring
/// ASCII case.
pub open spec fn flag_on(raw: Seq<char>) -> bool {
    let w = ascii_lower(trim(raw));
    w == "1"@ || w == "true"@ || w == "yes"@ || w == "on"@
}

/// Whether the raw switch setting `raw` (`None` when unset) is on.
pub fn env_flag(raw: Option<&str>) -> (r: bool)
    ensures
        r == (raw matches Some(v) && flag_on(v@)),
{
    match raw {
        None => false,
        Some(v) => {
            let c = chars_of(v);
            let t = trim_chars(c.as_slice());
            let w = string_from_chars(lower_chars(t.as_slice()).as_slice());
            let s = w.as_str();
            str_eq(s, "1") || str_eq(s, "true") || str_eq(s, "yes") || str_eq(s, "on")
        },
    }
}

/// The pause between enrichment requests: the trimmed setting in
/// milliseconds when it lies in `[1000, 60000]`, else 2500.
pub open spec fn inter_request_spec(raw: Option<Seq<char>>) -> u64 {
    match raw {
        Some(v) => match parse_unsigned(trim(v), u64::MAX as nat) {
            Some(n) => if 1_000 <= n <= 60_000 {
                n as u64
            } else {
                2_500
            },
            None => 2_500,
        },
        None => 2_500,
    }
}

pub fn enrich_inter_request_ms(raw: Option<&str>) -> (r: u64)
    ensures
        r == inter_request_spec(
            match raw {
                Some(v) => Some(v@),
                None => None,
            },
        ),
{
    match raw {
        None => ENRICH_INTER_REQUEST_MS,
        Some(v) => {
            let t = trim_str(v);
            match parse_u64(t.as_str()) {
                Some(n) => if 1_000 <= n && n <= 60_000 {
                    n
                } else {
                    ENRICH_INTER_REQUEST_MS
                },
                None => ENRICH_INTER_REQUEST_MS,
            }
        },
    }
}

/// Why an enrichment request is retried.
#[derive(Debug, Clone, Copy, PartialEq, Eq)]
pub enum RetryCause {
    /// The source rate-limited the request, possibly saying for how long.
    RateLimited { retry_after_ms: Option<u64> },
    /// Any other source failure.
    Other,
}

/// The delay before retrying an enrichment request: after a rate limit at
/// least the five-minute cooldown (or what the source asked, if longer);
/// otherwise one second doubled per attempt, at most six doublings.
pub open spec fn enrich_retry_delay_spec(cause: RetryCause, attempt: u64) -> int {
    match cause {
        RetryCause::RateLimited { retry_after_ms } => {
            let asked = match retry_after_ms {
                Some(v) => v as int,
                None => 0,
            };
            if asked > 300_000 {
                asked
            } else {
                300_000
            }
        },
        RetryCause::Other => (1_000 * vstd::arithmetic::power2::pow2(
            if attempt > 6 {
                6nat
            } else {
                attempt as nat
            },
        )) as int,
    }
}

pub fn enrich_retry_delay_ms(cause: RetryCause, attempt: u64) -> (r: u64)
    ensures
        r == enrich_retry_delay_spec(cause, attempt),
{
    match cause {
        RetryCause::RateLimited { retry_after_ms } => {
            let asked = match retry_after_ms {
                Some(v) => v,
                None => 0,
            };
            if asked > ENRICH_RATE_LIMIT_COOLDOWN_MS {
                asked
            } else {
                ENRICH_RATE_LIMIT_COOLDOWN_MS
            }
        },
        RetryCause::Other => {
            let e: u64 = if attempt > 6 {
                6
            } else {
                attempt
            };
            let mut delay: u64 = 1_000;
            let mut k: u64 = 0;
            proof {
                vstd::arithmetic::power2::lemma2_to64();
            }
            while k < e
                invariant
                    k <= e <= 6,
                    delay == 1_000 * vstd::arithmetic::power2::pow2(k as nat),
                decreases e - k,
            {
                proof {
                    vstd::arithmetic::power2::lemma2_to64();
                }
                delay = delay * 2;
                k = k + 1;
            }
            delay
        },
    }
}

/// A count option, when accepted, lies in `[1, max]`: an absent one is the
/// default, and a present one that parses within the bounds is taken.
pub proof fn lemma_count_option(arg: Option<Seq<char>>, what: Seq<char>, default: u32, max: u32)
    ensures
        count_option_spec(arg, what, default, max) matches Ok(n) ==> 1 <= n <= max,
        arg is None && 1 <= default <= max ==> count_option_spec(arg, what, default, max) == Ok::<u32, Seq<char>>(default),
        (arg matches Some(v) && parse_unsigned(v, u32::MAX as nat) matches Some(n) && 1 <= n <= max)
            ==> count_option_spec(arg, what, default, max) == Ok::<u32, Seq<char>>(
            parse_unsigned(arg->0, u32::MAX as nat)->0 as u32,
        ),
        arg is None && !(1 <= default <= max) ==> count_option_spec(arg, what, default, max) is Err,
{
}

/// A worker run leases 1 to 10 jobs, one when unset.
pub proof fn lemma_worker_job_limit(arg: Option<Seq<char>>)
    ensures
        worker_job_limit_spec(arg) matches Ok(n) ==> 1 <= n <= 10,
        arg is None ==> worker_job_limit_spec(arg) == Ok::<i64, Seq<char>>(1),
{
}

/// A failed job waits one minute after its first attempt, twice as long
/// after each further attempt, and 32 minutes from the sixth attempt on.
pub proof fn lemma_worker_retry_delays(attempts: i64)
    ensures
        attempts <= 1 ==> worker_retry_delay_spec(attempts) == 60_000,
        1 <= attempts < 6 ==> worker_retry_delay_spec((attempts + 1) as i64) == 2 * worker_retry_delay_spec(attempts),
        attempts >= 6 ==> worker_retry_delay_spec(attempts) == 1_920_000,
{
    vstd::arithmetic::power2::lemma2_to64();
    if 1 <= attempts < 6 {
        vstd::arithmetic::power2::lemma_pow2_unfold(attempts as nat);
    }
}

/// A worker failure is always reported as one of the job contract's
/// categories ("network", "rate_limited", "auth", "not_found",
/// "parse_changed", "invalid_payload"), and each of those is reported as
/// itself.
pub proof fn lemma_job_error_categories(category: Seq<char>)
    ensures
        ({
            let r = job_error_category_spec(category);
            r == "network"@ || r == "rate_limited"@ || r == "auth"@ || r == "not_found"@ || r == "parse_changed"@
                || r == "invalid_payload"@
        }),
        (category == "network"@ || category == "rate_limited"@ || category == "auth"@ || category == "not_found"@
            || category == "parse_changed"@ || category == "invalid_payload"@) ==> job_error_category_spec(category)
            == category,
        category == "response_too_large"@ ==> job_error_category_spec(category) == "parse_changed"@,
        category == "storage"@ ==> job_error_category_spec(category) == "network"@,
{
    reveal_strlit("network");
    reveal_strlit("rate_limited");
    reveal_strlit("auth");
    reveal_strlit("not_found");
    reveal_strlit("parse_changed");
    reveal_strlit("invalid_payload");
    reveal_strlit("response_too_large");
    reveal_strlit("storage");
    if category == "storage"@ {
        assert(category[0] == 's');
    }
    if category == "response_too_large"@ {
        assert(category.len() == 18);
    }
}

/// A switch is on exactly when, trimmed and lower-cased, it is "1", "true",
/// "yes" or "on".
pub proof fn lemma_flag_words(raw: Seq<char>)
    ensures
        flag_on(raw) <==> ({
            let w = ascii_lower(trim(raw));
            w == "1"@ || w == "true"@ || w == "yes"@ || w == "on"@
        }),
{
}

/// The pause between enrichment requests lies in `[1000, 60000]`
/// milliseconds, 2500 unless a setting within those bounds is given.
pub proof fn lemma_inter_request(raw: Option<Seq<char>>)
    ensures
        1_000 <= inter_request_spec(raw) <= 60_000,
        (raw matches Some(v) && parse_unsigned(trim(v), u64::MAX as nat) matches Some(n) && 1_000 <= n <= 60_000)
            ==> inter_request_spec(raw) == parse_unsigned(trim(raw->0), u64::MAX as nat)->0,
        raw is None ==> inter_request_spec(raw) == 2_500,
{
}

/// After a rate limit an enrichment request waits at least five minutes, and
/// longer when the source asks; other failures wait one second doubled per
/// attempt, at most 64 seconds.
pub proof fn lemma_enrich_retry_delays(cause: RetryCause, attempt: u64)
    ensures
        cause is RateLimited ==> enrich_retry_delay_spec(cause, attempt) >= 300_000,
        cause matches RetryCause::RateLimited { retry_after_ms: Some(v) } ==> enrich_retry_delay_spec(cause, attempt) >= v,
        cause is Other && attempt == 0 ==> enrich_retry_delay_spec(cause, attempt) == 1_000,
        cause is Other && attempt < 6 ==> enrich_retry_delay_spec(cause, (attempt + 1) as u64) == 2 * enrich_retry_delay_spec(cause, attempt),
        cause is Other && attempt >= 6 ==> enrich_retry_delay_spec(cause, attempt) == 64_000,
{
    vstd::arithmetic::power2::lemma2_to64();
    if attempt < 6 {
        vstd::arithmetic::power2::lemma_pow2_unfold((attempt + 1) as nat);
    }
}

/// Coverage reaches a percentage when the covered share, times 100, is at
/// least the total times the percentage (negative coverage counting as
/// none); nothing is covered of an empty total. Stated where the products do
/// not saturate.
pub proof fn lemma_meets_percentage(covered: i64, total: i64, minimum_percent: i64)
    requires
        -1_000_000_000_000 <= covered <= 1_000_000_000_000,
        -1_000_000_000_000 <= total <= 1_000_000_000_000,
        0 <= minimum_percent <= 100,
    ensures
        meets_percentage_spec(covered, total, minimum_percent) <==> total > 0 && (if covered < 0 { 0 } else {
            covered as int
        }) * 100 >= total * minimum_percent,
{
    let c: int = if covered < 0 { 0 } else { covered as int };
    assert(0 <= c * 100 <= 100_000_000_000_000) by (nonlinear_arith)
        requires
            0 <= c <= 1_000_000_000_000,
    ;
    assert(-100_000_000_000_000 <= total * minimum_percent <= 100_000_000_000_000) by (nonlinear_arith)
        requires
            -1_000_000_000_000 <= total <= 1_000_000_000_000,
            0 <= minimum_percent <= 100,
    ;
}

} // verus!
