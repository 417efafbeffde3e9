use raven::options::{
    parse_cron, parse_shell, report_plan, resolve_proxy, resolve_usernames, RavenError, ReportFormat, ReportOptions,
    ReportPath, ShellKind,
};

fn cli_message(e: RavenError) -> String {
    match e {
        RavenError::Cli(m) => m,
    }
}

#[test]
fn tor_overrides_proxy() {
    let p = Some("http://proxy:8080".to_string());
    assert_eq!(resolve_proxy(false, true, &p), Some("socks5://127.0.0.1:9050".to_string()));
    assert_eq!(resolve_proxy(true, false, &None), Some("socks5://127.0.0.1:9050".to_string()));
    assert_eq!(resolve_proxy(false, false, &p), p);
    assert_eq!(resolve_proxy(false, false, &None), None);
}

#[test]
fn usernames_from_cli_and_file() {
    let cli = vec!["alice".to_string()];
    let lines = vec!["  bob \t".to_string(), "".to_string(), "   ".to_string(), "carol".to_string()];
    let names = resolve_usernames(&cli, Some(&lines)).unwrap();
    assert_eq!(names, vec!["alice".to_string(), "bob".to_string(), "carol".to_string()]);
    assert_eq!(resolve_usernames(&cli, None).unwrap(), cli);
}

#[test]
fn usernames_missing() {
    let none: Vec<String> = vec![];
    let blank = vec!["  ".to_string()];
    assert_eq!(cli_message(resolve_usernames(&none, Some(&blank)).unwrap_err()), "No usernames found in file or command line");
    assert_eq!(cli_message(resolve_usernames(&none, None).unwrap_err()), "No usernames provided. Use --help for usage.");
}

#[test]
fn shells() {
    assert_eq!(parse_shell("bash").unwrap(), ShellKind::Bash);
    assert_eq!(parse_shell("ZSH").unwrap(), ShellKind::Zsh);
    assert_eq!(parse_shell("PowerShell").unwrap(), ShellKind::PowerShell);
    assert_eq!(parse_shell("elvish").unwrap(), ShellKind::Elvish);
    assert_eq!(parse_shell("fish").unwrap(), ShellKind::Fish);
    assert_eq!(
        cli_message(parse_shell("Tcsh").unwrap_err()),
        "Unknown shell 'tcsh'. Supported: bash, zsh, fish, powershell, elvish"
    );
}

#[test]
fn cron_field_counts() {
    assert!(parse_cron("0 */6 * * *").is_ok());
    assert!(parse_cron("30 0 */6 * * *").is_ok());
    assert_eq!(
        cli_message(parse_cron("* * * *").unwrap_err()),
        "Cron expression must have 5 or 6 fields (e.g. \"0 */6 * * *\")"
    );
    let m = cli_message(parse_cron("a b c d e").unwrap_err());
    assert!(m.starts_with("Invalid cron expression 'a b c d e': "), "{m}");
}

#[test]
fn report_plan_cases() {
    let opts = ReportOptions {
        output: None,
        folderoutput: None,
        csv: Some(String::new()),
        xlsx: None,
        txt: Some("out.txt".to_string()),
        json_report: Some(String::new()),
    };
    let plan = report_plan(&opts);
    assert_eq!(plan.len(), 3);
    assert_eq!(plan[0], (ReportFormat::Csv, ReportPath::ResultPathWithExtension("csv".to_string())));
    assert_eq!(plan[1], (ReportFormat::Txt, ReportPath::Given("out.txt".to_string())));
    assert_eq!(plan[2], (ReportFormat::Json, ReportPath::ResultPathWithExtension("json".to_string())));
    let only_output = ReportOptions { output: Some("r".to_string()), folderoutput: None, csv: None, xlsx: None, txt: None, json_report: None };
    assert_eq!(report_plan(&only_output), vec![(ReportFormat::Txt, ReportPath::ResultPath)]);
    let nothing = ReportOptions { output: None, folderoutput: None, csv: None, xlsx: None, txt: None, json_report: None };
    assert!(report_plan(&nothing).is_empty());
}
