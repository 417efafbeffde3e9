//! The decisions taken from the command line before a search: which proxy,
//! which usernames, which shell's completions, which schedule, and which
//! reports are written where.

use vstd::prelude::*;
use crate::text::{
    chars_of, is_whitespace, is_whitespace_exec, lowercase, spec_lowercase, str_eq, string_of, trim,
    trim_exec, views,
};
use crate::types::opt_view;

verus! {

/// An error in what the command line asked for, with its message.
#[derive(Debug)]
pub enum RavenError {
    Cli(String),
}

// ---------------------------------------------------------------------------
// Proxy
// ---------------------------------------------------------------------------

/// The proxy through which Tor is reached.
pub open spec fn tor_proxy() -> Seq<char> {
    "socks5://127.0.0.1:9050"@
}

/// The proxy to use: Tor's whenever Tor is asked for (it overrides a given
/// proxy), else the given proxy, if any.
pub fn resolve_proxy(unique_tor: bool, tor: bool, proxy: &Option<String>) -> (r: Option<String>)
    ensures
        opt_view(r) == if unique_tor || tor {
            Some(tor_proxy())
        } else {
            opt_view(*proxy)
        },
{
    if unique_tor || tor {
        return Some(String::from_str("socks5://127.0.0.1:9050"));
    }
    match proxy {
        Some(p) => Some(p.clone()),
        None => None,
    }
}

// ---------------------------------------------------------------------------
// Usernames
// ---------------------------------------------------------------------------

/// The non-empty trimmed lines, in order.
pub open spec fn trimmed_names(lines: Seq<Seq<char>>) -> Seq<Seq<char>>
    decreases lines.len(),
{
    if lines.len() == 0 {
        Seq::empty()
    } else {
        trimmed_names(lines.drop_last()) + if trim(lines.last()).len() > 0 {
            seq![trim(lines.last())]
        } else {
            Seq::empty()
        }
    }
}

/// The usernames to search: those given on the command line, then the
/// non-empty trimmed lines of the usernames file when one was read.
pub open spec fn spec_usernames(cli: Seq<Seq<char>>, file_lines: Option<Seq<Seq<char>>>) -> Seq<Seq<char>> {
    match file_lines {
        Some(lines) => cli + trimmed_names(lines),
        None => cli,
    }
}

/// The message when a usernames file and the command line give no name.
pub open spec fn no_names_in_file_message() -> Seq<char> {
    "No usernames found in file or command line"@
}

/// The message when no username is given at all.
pub open spec fn no_names_message() -> Seq<char> {
    "No usernames provided. Use --help for usage."@
}

/// The usernames to search, from the command line and the lines of the
/// usernames file (`None` when no file was given). Fails when there is none,
/// with a message that says whether a file was read.
pub fn resolve_usernames(cli_usernames: &Vec<String>, file_lines: Option<&Vec<String>>) -> (r: Result<
    Vec<String>,
    RavenError,
>)
    ensures
        match r {
            Ok(names) => views(names@) == spec_usernames(
                views(cli_usernames@),
                match file_lines {
                    Some(l) => Some(views(l@)),
                    None => None,
                },
            ) && names@.len() > 0,
            Err(RavenError::Cli(m)) => spec_usernames(
                views(cli_usernames@),
                match file_lines {
                    Some(l) => Some(views(l@)),
                    None => None,
                },
            ).len() == 0 && m@ == if file_lines is Some {
                no_names_in_file_message()
            } else {
                no_names_message()
            },
        },
{
    let mut names: Vec<String> = Vec::new();
    let mut i: usize = 0;
    while i < cli_usernames.len()
        invariant
            i <= cli_usernames@.len(),
            views(names@) == views(cli_usernames@).take(i as int),
        decreases cli_usernames@.len() - i,
    {
        let n = cli_usernames[i].clone();
        assert(views(names@.push(n)) =~= views(names@).push(n@));
        names.push(n);
        assert(views(cli_usernames@).take(i + 1) =~= views(cli_usernames@).take(i as int).push(
            cli_usernames@[i as int]@,
        ));
        i += 1;
    }
    assert(views(cli_usernames@).take(cli_usernames@.len() as int) =~= views(cli_usernames@));
    if let Some(lines) = file_lines {
        let ghost base = views(names@);
        let ghost lv = views(lines@);
        let mut j: usize = 0;
        while j < lines.len()
            invariant
                lv == views(lines@),
                j <= lines@.len(),
                views(names@) == base + trimmed_names(lv.take(j as int)),
            decreases lines@.len() - j,
        {
            assert(lv.take(j + 1).drop_last() =~= lv.take(j as int));
            let cs = chars_of(lines[j].as_str());
            let t = trim_exec(cs.as_slice());
            if t.len() > 0 {
                let name = string_of(t.as_slice());
                assert(views(names@.push(name)) =~= views(names@).push(name@));
                names.push(name);
            } else {
                assert(views(names@) =~= views(names@) + Seq::<Seq<char>>::empty());
            }
            j += 1;
        }
        assert(lv.take(lv.len() as int) =~= lv);
        if names.len() == 0 {
            return Err(RavenError::Cli(String::from_str("No usernames found in file or command line")));
        }
    }
    if names.len() == 0 {
        return Err(RavenError::Cli(String::from_str("No usernames provided. Use --help for usage.")));
    }
    Ok(names)
}

// ---------------------------------------------------------------------------
// Shell completions
// ---------------------------------------------------------------------------

/// The shells completions can be written for.
#[derive(Clone, Copy, PartialEq, Eq, Debug)]
pub enum ShellKind {
    Bash,
    Zsh,
    Fish,
    PowerShell,
    Elvish,
}

/// The shell a name stands for (in any case), or the message naming the
/// lower-cased name and the supported shells.
pub open spec fn spec_parse_shell(name: Seq<char>) -> Result<ShellKind, Seq<char>> {
    let l = spec_lowercase(name);
    if l == "bash"@ {
        Ok(ShellKind::Bash)
    } else if l == "zsh"@ {
        Ok(ShellKind::Zsh)
    } else if l == "fish"@ {
        Ok(ShellKind::Fish)
    } else if l == "powershell"@ {
        Ok(ShellKind::PowerShell)
    } else if l == "elvish"@ {
        Ok(ShellKind::Elvish)
    } else {
        Err("Unknown shell '"@ + l + "'. Supported: bash, zsh, fish, powershell, elvish"@)
    }
}

/// The shell a name stands for.
pub fn parse_shell(name: &str) -> (r: Result<ShellKind, RavenError>)
    ensures
        match (r, spec_parse_shell(name@)) {
            (Ok(k), Ok(j)) => k == j,
            (Err(RavenError::Cli(m)), Err(n)) => m@ == n,
            _ => false,
        },
{
    let l = lowercase(name);
    if str_eq(l.as_str(), "bash") {
        Ok(ShellKind::Bash)
    } else if str_eq(l.as_str(), "zsh") {
        Ok(ShellKind::Zsh)
    } else if str_eq(l.as_str(), "fish") {
        Ok(ShellKind::Fish)
    } else if str_eq(l.as_str(), "powershell") {
        Ok(ShellKind::PowerShell)
    } else if str_eq(l.as_str(), "elvish") {
        Ok(ShellKind::Elvish)
    } else {
        let mut m = String::from_str("Unknown shell '");
        m.append(l.as_str());
        m.append("'. Supported: bash, zsh, fish, powershell, elvish");
        Err(RavenError::Cli(m))
    }
}

// ---------------------------------------------------------------------------
// Schedule
// ---------------------------------------------------------------------------

/// `cron::Schedule`, a parsed schedule, carried through as an opaque value.
#[verifier::external_type_specification]
#[verifier::external_body]
pub struct ExSchedule(cron::Schedule);

/// What `cron` reports for a schedule expression: `None` when it parses,
/// else the text of its error.
pub uninterp spec fn spec_cron_error(expr: Seq<char>) -> Option<Seq<char>>;

/// Parses a six- or seven-field cron expression.
///
/// Trusted: wraps `str::parse::<cron::Schedule>` (the crate's `FromStr`),
/// whose outcome depends on the expression alone; the contract names it, the
/// error by its displayed text.
#[verifier::external_body]
fn parse_schedule(expr: &str) -> (r: Result<cron::Schedule, String>)
    ensures
        match r {
            Ok(_) => spec_cron_error(expr@) is None,
            Err(m) => spec_cron_error(expr@) == Some(m@),
        },
{
    expr.parse::<cron::Schedule>().map_err(|e| e.to_string())
}

/// The number of whitespace-separated fields of a text (what
/// `split_whitespace` yields).
pub open spec fn field_count(s: Seq<char>) -> nat
    decreases s.len(),
{
    if s.len() == 0 {
        0
    } else {
        field_count(s.drop_last()) + if !is_whitespace(s.last()) && (s.len() == 1 || is_whitespace(
            s[s.len() - 2],
        )) {
            1nat
        } else {
            0nat
        }
    }
}

fn field_count_exec(s: &str) -> (n: usize)
    ensures
        n == field_count(s@),
{
    let cs = chars_of(s);
    let mut n: usize = 0;
    let mut i: usize = 0;
    while i < cs.len()
        invariant
            cs@ == s@,
            i <= cs@.len(),
            n == field_count(cs@.take(i as int)),
            n <= i,
        decreases cs@.len() - i,
    {
        let ghost t = cs@.take(i + 1);
        assert(t.drop_last() =~= cs@.take(i as int));
        let starts = !is_whitespace_exec(cs[i]) && (i == 0 || is_whitespace_exec(cs[i - 1]));
        if starts {
            n += 1;
        }
        i += 1;
    }
    assert(cs@.take(cs@.len() as int) =~= cs@);
    n
}

/// The full expression of a schedule: a five-field expression gets a seconds
/// field of `0` in front, a six-field one stays as it is, others have none.
pub open spec fn full_cron_expression(expr: Seq<char>) -> Option<Seq<char>> {
    if field_count(expr) == 5 {
        Some("0 "@ + expr)
    } else if field_count(expr) == 6 {
        Some(expr)
    } else {
        None
    }
}

/// The message for an expression with the wrong number of fields.
pub open spec fn cron_fields_message() -> Seq<char> {
    "Cron expression must have 5 or 6 fields (e.g. \"0 */6 * * *\")"@
}

/// The schedule of a cron expression of five fields (minutes first) or six
/// (seconds first). Fails on any other number of fields, and with `cron`'s
/// message on an expression it does not accept.
pub fn parse_cron(expr: &str) -> (r: Result<cron::Schedule, RavenError>)
    ensures
        match full_cron_expression(expr@) {
            None => r matches Err(RavenError::Cli(m)) && m@ == cron_fields_message(),
            Some(full) => match spec_cron_error(full) {
                None => r is Ok,
                Some(e) => r matches Err(RavenError::Cli(m)) && m@ == "Invalid cron expression '"@
                    + expr@ + "': "@ + e,
            },
        },
{
    let n = field_count_exec(expr);
    let full = if n == 5 {
        let mut f = String::from_str("0 ");
        f.append(expr);
        f
    } else if n == 6 {
        String::from_str(expr)
    } else {
        return Err(
            RavenError::Cli(String::from_str("Cron expression must have 5 or 6 fields (e.g. \"0 */6 * * *\")")),
        );
    };
    match parse_schedule(full.as_str()) {
        Ok(s) => Ok(s),
        Err(e) => {
            let mut m = String::from_str("Invalid cron expression '");
            m.append(expr);
            m.append("': ");
            m.append(e.as_str());
            Err(RavenError::Cli(m))
        },
    }
}

// ---------------------------------------------------------------------------
// Reports
// ---------------------------------------------------------------------------

/// The export formats of the search results.
#[derive(Clone, Copy, PartialEq, Eq, Debug)]
pub enum ReportFormat {
    Csv,
    Xlsx,
    Txt,
    Json,
}

/// Where a report is written: a path given on the command line, or the
/// result path with the format's extension, or the result path itself.
#[derive(PartialEq, Eq, Debug)]
pub enum ReportPath {
    Given(String),
    ResultPathWithExtension(String),
    ResultPath,
}

/// The report options of the command line: each export flag with the path
/// given to it (empty when none was given).
pub struct ReportOptions {
    pub output: Option<String>,
    pub folderoutput: Option<String>,
    pub csv: Option<String>,
    pub xlsx: Option<String>,
    pub txt: Option<String>,
    pub json_report: Option<String>,
}

/// The view of a report path.
pub open spec fn report_path_view(p: ReportPath) -> (int, Seq<char>) {
    match p {
        ReportPath::Given(s) => (0, s@),
        ReportPath::ResultPathWithExtension(e) => (1, e@),
        ReportPath::ResultPath => (2, Seq::empty()),
    }
}

/// Where an export asked for with the given path goes: there, unless the path
/// is empty, in which case to the result path with the extension.
pub open spec fn export_path(given: Seq<char>, ext: Seq<char>) -> (int, Seq<char>) {
    if given.len() == 0 {
        (1, ext)
    } else {
        (0, given)
    }
}

/// The exports asked for, in the order csv, xlsx, txt, json; and when none
/// is asked for but an output file or folder is, a text report at the result
/// path.
pub open spec fn spec_report_plan(o: ReportOptions) -> Seq<(ReportFormat, (int, Seq<char>))> {
    let csv = match o.csv {
        Some(p) => seq![(ReportFormat::Csv, export_path(p@, "csv"@))],
        None => Seq::empty(),
    };
    let xlsx = match o.xlsx {
        Some(p) => seq![(ReportFormat::Xlsx, export_path(p@, "xlsx"@))],
        None => Seq::empty(),
    };
    let txt = match o.txt {
        Some(p) => seq![(ReportFormat::Txt, export_path(p@, "txt"@))],
        None => Seq::empty(),
    };
    let json = match o.json_report {
        Some(p) => seq![(ReportFormat::Json, export_path(p@, "json"@))],
        None => Seq::empty(),
    };
    let has_export = o.csv is Some || o.xlsx is Some || o.txt is Some || o.json_report is Some;
    let fallback = if !has_export && (o.output is Some || o.folderoutput is Some) {
        seq![(ReportFormat::Txt, (2int, Seq::<char>::empty()))]
    } else {
        Seq::empty()
    };
    csv + xlsx + txt + json + fallback
}

/// The views of a report plan.
pub open spec fn plan_view(v: Seq<(ReportFormat, ReportPath)>) -> Seq<(ReportFormat, (int, Seq<char>))> {
    v.map_values(|e: (ReportFormat, ReportPath)| (e.0, report_path_view(e.1)))
}

fn export_entry(format: ReportFormat, given: &String, ext: &str) -> (r: (ReportFormat, ReportPath))
    ensures
        r.0 == format,
        report_path_view(r.1) == export_path(given@, ext@),
{
    if chars_of(given.as_str()).len() == 0 {
        (format, ReportPath::ResultPathWithExtension(String::from_str(ext)))
    } else {
        (format, ReportPath::Given(given.clone()))
    }
}

/// The reports to write for one username, each with where it goes.
pub fn report_plan(opts: &ReportOptions) -> (r: Vec<(ReportFormat, ReportPath)>)
    ensures
        plan_view(r@) == spec_report_plan(*opts),
{
    let mut r: Vec<(ReportFormat, ReportPath)> = Vec::new();
    if let Some(p) = &opts.csv {
        r.push(export_entry(ReportFormat::Csv, p, "csv"));
    }
    let ghost a = plan_view(r@);
    if let Some(p) = &opts.xlsx {
        r.push(export_entry(ReportFormat::Xlsx, p, "xlsx"));
    }
    let ghost b = plan_view(r@);
    if let Some(p) = &opts.txt {
        r.push(export_entry(ReportFormat::Txt, p, "txt"));
    }
    let ghost c = plan_view(r@);
    if let Some(p) = &opts.json_report {
        r.push(export_entry(ReportFormat::Json, p, "json"));
    }
    let ghost d = plan_view(r@);
    let has_export = opts.csv.is_some() || opts.xlsx.is_some() || opts.txt.is_some()
        || opts.json_report.is_some();
    if !has_export && (opts.output.is_some() || opts.folderoutput.is_some()) {
        r.push((ReportFormat::Txt, ReportPath::ResultPath));
    }
    proof {
        let o = *opts;
        let csv = match o.csv {
            Some(p) => seq![(ReportFormat::Csv, export_path(p@, "csv"@))],
            None => Seq::empty(),
        };
        let xlsx = match o.xlsx {
            Some(p) => seq![(ReportFormat::Xlsx, export_path(p@, "xlsx"@))],
            None => Seq::empty(),
        };
        let txt = match o.txt {
            Some(p) => seq![(ReportFormat::Txt, export_path(p@, "txt"@))],
            None => Seq::empty(),
        };
        let json = match o.json_report {
            Some(p) => seq![(ReportFormat::Json, export_path(p@, "json"@))],
            None => Seq::empty(),
        };
        assert(a =~= csv);
        assert(b =~= csv + xlsx);
        assert(c =~= csv + xlsx + txt);
        assert(d =~= csv + xlsx + txt + json);
        assert(plan_view(r@) =~= spec_report_plan(o));
    }
    r
}

} // verus!
