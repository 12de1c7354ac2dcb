//! The plan of a systemd user service that runs the resolver on a timer:
//! the name of the unit, the text of its two files, and the reading of
//! what `systemctl` answered. Writing the files and running `systemctl`
//! is the caller's part.

use vstd::prelude::*;
use vstd::string::*;

use crate::domain::model::opt_text;
use crate::domain::text::{
    ascii_lower, chars_of, decimal, lower_char, string_from_chars, string_of_range, text_contains,
    contains_text, texts, trim, trim_str, u32_to_string,
};
use crate::error::{TideError, TideResult};
use crate::infra::cache::{hex_encode, hex_lower, lemma_hex_lower_len, sha256, sha256_digest};
use crate::infra::command::{clone_args, CommandOutput};
use crate::infra::paths::{path_file_name, path_join};

verus! {

/// The unit of a scheduled run: its name, its two files and their text.
#[derive(Debug, Clone)]
pub struct ServicePlan {
    pub unit_name: String,
    pub service_file: String,
    pub timer_file: String,
    pub service_content: String,
    pub timer_content: String,
}

/// A request to schedule the resolver for a repository.
#[derive(Debug, Clone)]
pub struct ServiceInstallRequest {
    pub repo_root: String,
    /// Minutes between runs; at least 1.
    pub interval_minutes: u32,
    /// The name of the unit, in place of the default one.
    pub unit_name: Option<String>,
    pub local_only: bool,
    pub explain: bool,
    pub metadata_suffix: Option<String>,
}

/// A request to remove the schedule of a repository.
#[derive(Debug, Clone)]
pub struct ServiceUninstallRequest {
    pub repo_root: String,
    pub unit_name: Option<String>,
}

/// The request that the flags of a command line mean: remote lookups are
/// off unless allowed, and the run explains unless asked to be compact.
pub fn to_install_request(
    repo_root: &str,
    interval_minutes: u32,
    unit_name: Option<String>,
    allow_remote: bool,
    compact: bool,
    metadata_suffix: Option<String>,
) -> (request: ServiceInstallRequest)
    ensures
        request.repo_root@ == repo_root@,
        request.interval_minutes == interval_minutes,
        request.unit_name == unit_name,
        request.local_only == !allow_remote,
        request.explain == !compact,
        request.metadata_suffix == metadata_suffix,
{
    ServiceInstallRequest {
        repo_root: String::from_str(repo_root),
        interval_minutes,
        unit_name,
        local_only: !allow_remote,
        explain: !compact,
        metadata_suffix,
    }
}

/// Whether `c` may stand in a unit name: an ASCII letter or digit, a
/// dash or an underscore.
pub open spec fn is_unit_char(c: char) -> bool {
    ('a' <= c <= 'z') || ('A' <= c <= 'Z') || ('0' <= c <= '9') || c == '-' || c == '_'
}

/// What `c` becomes in a unit name: itself in lower case where it may
/// stand there, a dash where it may not.
pub open spec fn unit_char(c: char) -> char {
    if is_unit_char(c) {
        ascii_lower(c)
    } else {
        '-'
    }
}

/// The first position at or after `from` that holds no dash, or the
/// length of `s`.
pub open spec fn skip_dashes(s: Seq<char>, from: int) -> int
    decreases s.len() - from,
{
    if 0 <= from < s.len() && s[from] == '-' {
        skip_dashes(s, from + 1)
    } else {
        from
    }
}

/// The end of `s[..to]` once its trailing dashes are dropped.
pub open spec fn skip_dashes_back(s: Seq<char>, to: int) -> int
    decreases to,
{
    if 0 < to <= s.len() && s[to - 1] == '-' {
        skip_dashes_back(s, to - 1)
    } else {
        to
    }
}

/// `s` without its leading and trailing dashes.
pub open spec fn strip_dashes(s: Seq<char>) -> Seq<char> {
    let start = skip_dashes(s, 0);
    let end = skip_dashes_back(s, s.len() as int);
    if end < start {
        Seq::empty()
    } else {
        s.subrange(start, end)
    }
}

/// The unit name that `raw` stands for: every character that may not
/// stand in a unit name replaced by a dash, capitals lowered, and the
/// dashes at both ends dropped.
pub open spec fn sanitized_unit_name(raw: Seq<char>) -> Seq<char> {
    strip_dashes(raw.map_values(|c: char| unit_char(c)))
}

proof fn lemma_skip_dashes_bounds(s: Seq<char>, from: int)
    requires
        0 <= from <= s.len(),
    ensures
        from <= skip_dashes(s, from) <= s.len(),
    decreases s.len() - from,
{
    if from < s.len() && s[from] == '-' {
        lemma_skip_dashes_bounds(s, from + 1);
    }
}

proof fn lemma_skip_dashes_back_bounds(s: Seq<char>, to: int)
    requires
        0 <= to <= s.len(),
    ensures
        0 <= skip_dashes_back(s, to) <= to,
    decreases to,
{
    if 0 < to && s[to - 1] == '-' {
        lemma_skip_dashes_back_bounds(s, to - 1);
    }
}

fn to_unit_char(c: char) -> (r: char)
    ensures
        r == unit_char(c),
{
    if ('a' <= c && c <= 'z') || ('A' <= c && c <= 'Z') || ('0' <= c && c <= '9') || c == '-' || c
        == '_' {
        lower_char(c)
    } else {
        '-'
    }
}

/// The unit name that `raw` stands for.
pub fn sanitize_unit_name(raw: &str) -> (out: String)
    ensures
        out@ == sanitized_unit_name(raw@),
{
    let chars = chars_of(raw);
    let ghost wanted = raw@.map_values(|c: char| unit_char(c));
    let mut mapped: Vec<char> = Vec::new();
    let mut i: usize = 0;
    while i < chars.len()
        invariant
            i <= chars.len(),
            chars@ == raw@,
            wanted == raw@.map_values(|c: char| unit_char(c)),
            mapped@ == wanted.take(i as int),
        decreases chars.len() - i,
    {
        mapped.push(to_unit_char(chars[i]));
        proof {
            assert(wanted.take(i + 1) == wanted.take(i as int).push(wanted[i as int]));
        }
        i += 1;
    }
    assert(wanted.take(chars.len() as int) == wanted);
    let mut start: usize = 0;
    while start < mapped.len() && mapped[start] == '-'
        invariant
            start <= mapped.len(),
            skip_dashes(mapped@, 0) == skip_dashes(mapped@, start as int),
        decreases mapped.len() - start,
    {
        start += 1;
    }
    let mut end: usize = mapped.len();
    while end > start && mapped[end - 1] == '-'
        invariant
            start <= end <= mapped.len(),
            skip_dashes_back(mapped@, mapped@.len() as int) == skip_dashes_back(
                mapped@,
                end as int,
            ),
        decreases end,
    {
        end -= 1;
    }
    proof {
        lemma_skip_dashes_back_bounds(mapped@, end as int);
        if end == start {
            assert(mapped@.subrange(start as int, end as int) == Seq::<char>::empty());
        }
    }
    string_of_range(&mapped, start, end)
}

/// What `c` becomes between the quotes of a unit file: a backslash and a
/// quote get a backslash in front.
pub open spec fn quote_escape(c: char) -> Seq<char> {
    if c == '\\' {
        seq!['\\', '\\']
    } else if c == '"' {
        seq!['\\', '"']
    } else {
        seq![c]
    }
}

/// The characters of `s`, each as it stands between quotes.
pub open spec fn quote_escaped(s: Seq<char>) -> Seq<char>
    decreases s.len(),
{
    if s.len() == 0 {
        Seq::empty()
    } else {
        quote_escaped(s.drop_last()) + quote_escape(s.last())
    }
}

/// `s` in quotes, as a unit file takes it.
pub open spec fn systemd_quoted(s: Seq<char>) -> Seq<char> {
    seq!['"'] + quote_escaped(s) + seq!['"']
}

/// `value` in quotes, as a unit file takes it.
pub fn systemd_quote(value: &str) -> (out: String)
    ensures
        out@ == systemd_quoted(value@),
{
    let chars = chars_of(value);
    let mut quoted: Vec<char> = Vec::new();
    quoted.push('"');
    let mut i: usize = 0;
    assert(quote_escaped(chars@.take(0)) == Seq::<char>::empty());
    while i < chars.len()
        invariant
            i <= chars.len(),
            quoted@ == seq!['"'] + quote_escaped(chars@.take(i as int)),
        decreases chars.len() - i,
    {
        let c = chars[i];
        proof {
            assert(chars@.take(i + 1).drop_last() == chars@.take(i as int));
            assert(chars@.take(i + 1).last() == c);
        }
        if c == '\\' {
            quoted.push('\\');
            quoted.push('\\');
        } else if c == '"' {
            quoted.push('\\');
            quoted.push('"');
        } else {
            quoted.push(c);
        }
        i += 1;
    }
    assert(chars@.take(chars.len() as int) == chars@);
    quoted.push('"');
    string_from_chars(&quoted)
}

/// An interval of no minutes is an `InvalidServiceInterval`.
pub fn validate_interval(minutes: u32) -> (r: TideResult<()>)
    ensures
        minutes >= 1 ==> r is Ok,
        minutes == 0 ==> {
            &&& r matches Err(TideError::InvalidServiceInterval { minutes: m })
            &&& m == 0
        },
{
    if minutes == 0 {
        return Err(TideError::InvalidServiceInterval { minutes });
    }
    Ok(())
}

/// Whether services can be managed: only on Linux. Elsewhere the feature
/// is an `UnsupportedPlatform`.
pub fn ensure_linux(feature: &str, is_linux: bool) -> (r: TideResult<()>)
    ensures
        is_linux ==> r is Ok,
        !is_linux ==> {
            &&& r matches Err(TideError::UnsupportedPlatform { feature: f })
            &&& f@ == feature@
        },
{
    if is_linux {
        Ok(())
    } else {
        Err(TideError::UnsupportedPlatform { feature: String::from_str(feature) })
    }
}

/// The directory of the user's units below the home directory, as the
/// path library joins it. Without a home directory there is none: a
/// `MissingHomeDirectory`.
pub fn user_systemd_dir(home: Option<String>) -> (r: TideResult<String>)
    ensures
        home is Some <==> r is Ok,
        home is None ==> r matches Err(TideError::MissingHomeDirectory),
{
    match home {
        Some(dir) => Ok(path_join(dir.as_str(), ".config/systemd/user")),
        None => Err(TideError::MissingHomeDirectory),
    }
}

/// The arguments of a scheduled run.
pub open spec fn scheduled_args_view(local_only: bool, explain: bool, suffix: Option<Seq<char>>) -> Seq<
    Seq<char>,
> {
    let head = seq!["mark"@];
    let with_explain = if explain {
        head.push("--explain"@)
    } else {
        head
    };
    let with_local = if local_only {
        with_explain.push("--local-only"@)
    } else {
        with_explain
    };
    match suffix {
        Some(s) => if trim(s).len() > 0 {
            with_local.push("--tag"@).push(trim(s))
        } else {
            with_local
        },
        None => with_local,
    }
}

fn push_text(args: &mut Vec<String>, arg: String)
    ensures
        texts(final(args)@) == texts(old(args)@).push(arg@),
{
    let ghost before = args@;
    args.push(arg);
    proof {
        assert(texts(args@) == texts(before).push(arg@));
    }
}

/// The arguments of a scheduled run: `mark`, then `--explain` and
/// `--local-only` where they are set, then `--tag` with the trimmed
/// suffix where one is left.
pub fn scheduled_mark_args(local_only: bool, explain: bool, metadata_suffix: &Option<String>) -> (args:
    Vec<String>)
    ensures
        texts(args@) == scheduled_args_view(local_only, explain, opt_text(*metadata_suffix)),
{
    let mut args: Vec<String> = Vec::new();
    proof {
        assert(texts(args@) == Seq::<Seq<char>>::empty());
    }
    push_text(&mut args, String::from_str("mark"));
    proof {
        assert(texts(args@) == seq!["mark"@]);
    }
    if explain {
        push_text(&mut args, String::from_str("--explain"));
    }
    if local_only {
        push_text(&mut args, String::from_str("--local-only"));
    }
    match metadata_suffix {
        Some(suffix) => {
            let tag = trim_str(suffix.as_str());
            if tag.as_str().unicode_len() > 0 {
                push_text(&mut args, String::from_str("--tag"));
                push_text(&mut args, tag);
            }
        },
        None => {},
    }
    args
}

/// The arguments of a command line, each in quotes with a space before.
pub open spec fn quoted_args(args: Seq<Seq<char>>) -> Seq<char>
    decreases args.len(),
{
    if args.len() == 0 {
        Seq::empty()
    } else {
        quoted_args(args.drop_last()) + " "@ + systemd_quoted(args.last())
    }
}

/// The text of the service unit.
pub open spec fn service_unit_text(
    unit_name: Seq<char>,
    repo_root: Seq<char>,
    binary: Seq<char>,
    exec_args: Seq<Seq<char>>,
) -> Seq<char> {
    "[Unit]\nDescription=TideMark scheduled resolver ("@ + unit_name
        + ")\nAfter=network-online.target\n\n[Service]\nType=oneshot\nWorkingDirectory="@
        + systemd_quoted(repo_root) + "\nExecStart="@ + systemd_quoted(binary) + quoted_args(
        exec_args,
    ) + "\nStandardOutput=journal\nStandardError=journal\n\n"@
}

/// The text of the service unit: a one-shot service that runs `binary`
/// with `exec_args` in the repository.
pub fn render_service_unit(
    unit_name: &str,
    repo_root: &str,
    binary: &str,
    exec_args: &Vec<String>,
) -> (out: String)
    ensures
        out@ == service_unit_text(unit_name@, repo_root@, binary@, texts(exec_args@)),
{
    let ghost listed = texts(exec_args@);
    let mut tail = String::new();
    let mut i: usize = 0;
    assert(quoted_args(listed.take(0)) == Seq::<char>::empty());
    while i < exec_args.len()
        invariant
            i <= exec_args.len(),
            listed == texts(exec_args@),
            tail@ == quoted_args(listed.take(i as int)),
        decreases exec_args.len() - i,
    {
        proof {
            assert(listed.take(i + 1).drop_last() == listed.take(i as int));
            assert(listed.take(i + 1).last() == exec_args@[i as int]@);
        }
        tail.append(" ");
        tail.append(systemd_quote(exec_args[i].as_str()).as_str());
        i += 1;
    }
    assert(listed.take(exec_args.len() as int) == listed);
    let mut out = String::from_str("[Unit]\nDescription=TideMark scheduled resolver (");
    out.append(unit_name);
    out.append(
        ")\nAfter=network-online.target\n\n[Service]\nType=oneshot\nWorkingDirectory=",
    );
    out.append(systemd_quote(repo_root).as_str());
    out.append("\nExecStart=");
    out.append(systemd_quote(binary).as_str());
    out.append(tail.as_str());
    out.append("\nStandardOutput=journal\nStandardError=journal\n\n");
    out
}

/// The text of the timer unit.
pub open spec fn timer_unit_text(unit_name: Seq<char>, interval_minutes: nat) -> Seq<char> {
    "[Unit]\nDescription=TideMark schedule ("@ + unit_name
        + ")\n\n[Timer]\nOnBootSec=2min\nOnUnitActiveSec="@ + decimal(interval_minutes)
        + "min\nAccuracySec=1s\nPersistent=true\nUnit="@ + unit_name
        + ".service\n\n[Install]\nWantedBy=timers.target\n"@
}

/// The text of the timer unit: it starts the service two minutes after
/// boot and every `interval_minutes` after a run.
pub fn render_timer_unit(unit_name: &str, interval_minutes: u32) -> (out: String)
    ensures
        out@ == timer_unit_text(unit_name@, interval_minutes as nat),
{
    let mut out = String::from_str("[Unit]\nDescription=TideMark schedule (");
    out.append(unit_name);
    out.append(")\n\n[Timer]\nOnBootSec=2min\nOnUnitActiveSec=");
    out.append(u32_to_string(interval_minutes).as_str());
    out.append("min\nAccuracySec=1s\nPersistent=true\nUnit=");
    out.append(unit_name);
    out.append(".service\n\n[Install]\nWantedBy=timers.target\n");
    out
}

/// The default name of the unit of a repository: `tidemark-`, the name
/// of the repository, a dash, and the first twelve hexadecimal digits of
/// the SHA-256 digest of its root path. The name of the repository is the
/// sanitized last component of the path, or `repo` where nothing is left
/// of it.
pub open spec fn default_unit_name_view(file_name: Option<Seq<char>>, repo_root: Seq<char>) -> Seq<
    char,
> {
    let repo_name = match file_name {
        Some(name) => if sanitized_unit_name(name).len() > 0 {
            sanitized_unit_name(name)
        } else {
            "repo"@
        },
        None => "repo"@,
    };
    "tidemark-"@ + repo_name + "-"@ + hex_lower(sha256(vstd::utf8::encode_utf8(repo_root))).take(12)
}

/// The default name of a unit, from the last component of the root path
/// as the path library tells it.
pub fn unit_name_from(file_name: Option<String>, repo_root: &str) -> (out: String)
    ensures
        out@ == default_unit_name_view(opt_text(file_name), repo_root@),
{
    let sanitized = match &file_name {
        Some(name) => sanitize_unit_name(name.as_str()),
        None => String::new(),
    };
    let repo_name = if sanitized.as_str().unicode_len() > 0 {
        sanitized
    } else {
        String::from_str("repo")
    };
    let digest = sha256_digest(repo_root.as_bytes());
    let hex = chars_of(hex_encode(digest.as_slice()).as_str());
    proof {
        lemma_hex_lower_len(digest@);
    }
    let short = string_of_range(&hex, 0, 12);
    let mut out = String::from_str("tidemark-");
    out.append(repo_name.as_str());
    out.append("-");
    out.append(short.as_str());
    out
}

/// The default name of the unit of the repository at `repo_root`.
pub fn default_unit_name(repo_root: &str) -> (out: String)
    ensures
        exists|file_name: Option<Seq<char>>| out@ == default_unit_name_view(file_name, repo_root@),
{
    let file_name = path_file_name(repo_root);
    let ghost seen = opt_text(file_name);
    let out = unit_name_from(file_name, repo_root);
    assert(out@ == default_unit_name_view(seen, repo_root@));
    out
}

/// Whether the request names a unit: its name, sanitized, is not empty.
pub open spec fn names_unit(request: ServiceInstallRequest) -> bool {
    request.unit_name matches Some(name) && sanitized_unit_name(name@).len() > 0
}

/// The plan of the unit for `request`: unit files in `systemd_dir` that
/// run `current_exe`. The unit is named as the request says, or by
/// default after the repository. An interval of no minutes is refused.
pub fn plan_service(request: &ServiceInstallRequest, systemd_dir: &str, current_exe: &str) -> (r:
    TideResult<ServicePlan>)
    ensures
        match r {
            Ok(plan) => {
                &&& request.interval_minutes >= 1
                &&& if names_unit(*request) {
                    plan.unit_name@ == sanitized_unit_name(request.unit_name->0@)
                } else {
                    exists|file_name: Option<Seq<char>>|
                        plan.unit_name@ == default_unit_name_view(file_name, request.repo_root@)
                }
                &&& plan.service_content@ == service_unit_text(
                    plan.unit_name@,
                    request.repo_root@,
                    current_exe@,
                    scheduled_args_view(
                        request.local_only,
                        request.explain,
                        opt_text(request.metadata_suffix),
                    ),
                )
                &&& plan.timer_content@ == timer_unit_text(
                    plan.unit_name@,
                    request.interval_minutes as nat,
                )
            },
            Err(e) => {
                &&& request.interval_minutes == 0
                &&& e matches TideError::InvalidServiceInterval { minutes }
                &&& minutes == 0
            },
        },
{
    match validate_interval(request.interval_minutes) {
        Ok(_) => {},
        Err(e) => {
            return Err(e);
        },
    }
    let requested = match &request.unit_name {
        Some(name) => sanitize_unit_name(name.as_str()),
        None => String::new(),
    };
    let unit_name = if requested.as_str().unicode_len() > 0 {
        requested
    } else {
        default_unit_name(request.repo_root.as_str())
    };
    let mut service_name = unit_name.clone();
    service_name.append(".service");
    let mut timer_name = unit_name.clone();
    timer_name.append(".timer");
    let service_file = path_join(systemd_dir, service_name.as_str());
    let timer_file = path_join(systemd_dir, timer_name.as_str());
    let exec_args = scheduled_mark_args(
        request.local_only,
        request.explain,
        &request.metadata_suffix,
    );
    let service_content = render_service_unit(
        unit_name.as_str(),
        request.repo_root.as_str(),
        current_exe,
        &exec_args,
    );
    let timer_content = render_timer_unit(unit_name.as_str(), request.interval_minutes);
    Ok(ServicePlan { unit_name, service_file, timer_file, service_content, timer_content })
}

/// The request whose plan names the files to remove: the same
/// repository and unit name, with an hourly local run that explains.
pub fn uninstall_seed(request: &ServiceUninstallRequest) -> (seed: ServiceInstallRequest)
    ensures
        seed.repo_root@ == request.repo_root@,
        opt_text(seed.unit_name) == opt_text(request.unit_name),
        seed.interval_minutes == 60,
        seed.local_only,
        seed.explain,
        seed.metadata_suffix is None,
{
    ServiceInstallRequest {
        repo_root: request.repo_root.clone(),
        interval_minutes: 60,
        unit_name: crate::domain::model::clone_opt_string(&request.unit_name),
        local_only: true,
        explain: true,
        metadata_suffix: None,
    }
}

/// Whether `e` is the failure of `systemctl` run with `args`.
pub open spec fn is_systemctl_failure(
    e: TideError,
    args: Seq<String>,
    stderr: Seq<char>,
    code: Option<i32>,
) -> bool {
    &&& e matches TideError::SystemCommand { program, args: named, stderr: said, code: exit }
    &&& program@ == "systemctl"@
    &&& texts(named@) == texts(args)
    &&& said@ == stderr
    &&& exit == code
}

fn systemctl_failure(args: &Vec<String>, stderr: String, code: Option<i32>) -> (e: TideError)
    ensures
        is_systemctl_failure(e, args@, stderr@, code),
{
    TideError::SystemCommand {
        program: String::from_str("systemctl"),
        args: clone_args(args),
        stderr,
        code,
    }
}

/// What a run of `systemctl` that must succeed comes to: a failure of
/// the command where it did not, with its trimmed diagnostics.
pub fn read_systemctl_checked(args: &Vec<String>, output: &CommandOutput) -> (r: TideResult<()>)
    ensures
        match r {
            Ok(_) => output.success,
            Err(e) => !output.success && is_systemctl_failure(
                e,
                args@,
                trim(output.stderr@),
                output.code,
            ),
        },
{
    if output.success {
        return Ok(());
    }
    Err(systemctl_failure(args, trim_str(output.stderr.as_str()), output.code))
}

/// Whether diagnostics in lower case say that the unit is not there.
pub open spec fn says_unit_missing(lowered: Seq<char>) -> bool {
    contains_text(lowered, "not loaded"@) || contains_text(lowered, "not found"@)
}

/// The lower case of a text, as Unicode defines it for every character.
pub uninterp spec fn lowercase_of(text: Seq<char>) -> Seq<char>;

/// `str::to_lowercase`: the text in lower case. The mapping is Unicode's
/// and depends on the text alone, not on a locale.
#[verifier::external_body]
fn lowercase(text: &str) -> (r: String)
    ensures
        r@ == lowercase_of(text@),
{
    text.to_lowercase()
}

/// Whether `r` is what a run of `systemctl` that may find no unit comes
/// to, given its diagnostics in lower case: success where the command
/// succeeded, and where the diagnostics say that the unit is not loaded or
/// not found; a failure of the command otherwise, with the lowered
/// diagnostics trimmed.
pub open spec fn is_best_effort_outcome(
    r: TideResult<()>,
    args: Seq<String>,
    output: CommandOutput,
    lowered: Seq<char>,
) -> bool {
    match r {
        Ok(_) => output.success || says_unit_missing(lowered),
        Err(e) => {
            &&& !output.success
            &&& !says_unit_missing(lowered)
            &&& is_systemctl_failure(e, args, trim(lowered), output.code)
        },
    }
}

/// What a run of `systemctl` that may find no unit comes to, given its
/// diagnostics in lower case.
pub fn settle_best_effort(args: &Vec<String>, output: &CommandOutput, lowered_stderr: &str) -> (r:
    TideResult<()>)
    ensures
        is_best_effort_outcome(r, args@, *output, lowered_stderr@),
{
    if output.success {
        return Ok(());
    }
    if text_contains(lowered_stderr, "not loaded") || text_contains(lowered_stderr, "not found") {
        return Ok(());
    }
    Err(systemctl_failure(args, trim_str(lowered_stderr), output.code))
}

/// What a run of `systemctl` that may find no unit comes to: the outcome
/// for its diagnostics put in lower case.
pub fn read_systemctl_best_effort(args: &Vec<String>, output: &CommandOutput) -> (r: TideResult<
    (),
>)
    ensures
        is_best_effort_outcome(r, args@, *output, lowercase_of(output.stderr@)),
{
    let lowered = lowercase(output.stderr.as_str());
    settle_best_effort(args, output, lowered.as_str())
}

} // verus!
