use workflows::catalog::{lookup, StepKind};

#[test]
fn lookup_is_case_insensitive() {
    assert_eq!(lookup("Http"), Some(StepKind::Http));
    assert_eq!(lookup("HTTP"), Some(StepKind::Http));
    assert_eq!(lookup("http"), Some(StepKind::Http));
    assert_eq!(lookup("EcHo"), Some(StepKind::Echo));
    assert_eq!(lookup("WECHAT"), Some(StepKind::WeChat));
}

#[test]
fn absent_kind_is_not_found() {
    assert_eq!(lookup("ftp"), None);
    assert_eq!(lookup(""), None);
    assert_eq!(lookup("httpx"), None);
}

#[test]
fn every_registered_kind_resolves() {
    assert_eq!(lookup("http"), Some(StepKind::Http));
    assert_eq!(lookup("echo"), Some(StepKind::Echo));
    assert_eq!(lookup("wechat"), Some(StepKind::WeChat));
    assert_eq!(lookup("gist"), Some(StepKind::Gist));
    assert_eq!(lookup("command"), Some(StepKind::Command));
    assert_eq!(lookup("download"), Some(StepKind::Download));
    assert_eq!(lookup("decompress"), Some(StepKind::Decompress));
    assert_eq!(lookup("atom"), Some(StepKind::Atom));
    assert_eq!(lookup("rss"), Some(StepKind::Rss));
    assert_eq!(lookup("read"), Some(StepKind::Read));
    assert_eq!(lookup("save"), Some(StepKind::Save));
}

#[test]
fn declared_names_match_the_contract_surface() {
    assert_eq!(StepKind::Http.parameters(), vec!["url", "method"]);
    assert_eq!(StepKind::Http.outputs(), vec!["status_code", "text"]);
    assert_eq!(StepKind::Command.parameters(), vec!["program", "daemon", "inherit_io"]);
    assert!(StepKind::Command.outputs().is_empty());
    assert_eq!(StepKind::Atom.parameters(), vec!["text", "schedule_in_secs"]);
    assert_eq!(StepKind::Atom.outputs(), vec!["title", "link"]);
    assert_eq!(StepKind::Rss.parameters(), vec!["text", "schedule_in_secs"]);
    assert_eq!(StepKind::Read.parameters(), vec!["path"]);
    assert_eq!(StepKind::Read.outputs(), vec!["text"]);
    assert_eq!(StepKind::Save.parameters(), vec!["text", "destination"]);
    assert_eq!(
        StepKind::Gist.parameters(),
        vec!["action", "gist_id", "access_token", "file_name", "text"]
    );
    assert_eq!(StepKind::WeChat.parameters(), vec!["corp_id", "secret", "agent_id", "text"]);
    assert_eq!(StepKind::WeChat.outputs(), vec!["error_code"]);
}
