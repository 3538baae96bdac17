use workflows::command::Command;
use workflows::decompress::Decompress;
use workflows::dict::Dict;
use workflows::download::Download;
use workflows::echo::Echo;
use workflows::gist::{Gist, GistAction};
use workflows::http::Http;
use workflows::read::Read;
use workflows::save::Save;
use workflows::wechat::WeChat;

fn dict_of(pairs: &[(&str, &str)]) -> Dict {
    let mut d = Dict::new();
    for (k, v) in pairs {
        d.insert(k.to_string(), v.to_string());
    }
    d
}

#[test]
fn echo_renders_its_text_parameter() {
    assert_eq!(Echo {}.render(&dict_of(&[("text", "hi")])), "hi");
    assert_eq!(Echo {}.render(&Dict::new()), "");
}

#[test]
fn http_plan_and_outputs() {
    let p = Http {}.plan(&dict_of(&[("url", "http://e"), ("method", "GET")]));
    assert_eq!(p.url, "http://e");
    assert_eq!(p.method, "GET");
    let d = Http {}.response_outputs("200", "body".to_string());
    assert_eq!(d.parameter("status_code"), "200");
    assert_eq!(d.parameter("text"), "body");
}

#[test]
fn command_plan_parses_its_flags() {
    let p = Command {}.plan(&dict_of(&[
        ("program", "ls"),
        ("daemon", "true"),
        ("inherit_io", "false"),
    ]));
    assert_eq!(p.program, "ls");
    assert!(p.daemon);
    assert!(!p.inherit_io);
    // anything but the two literals falls back to false
    let p = Command {}.plan(&dict_of(&[("program", "ls"), ("daemon", "TRUE")]));
    assert!(!p.daemon);
    assert!(!p.inherit_io);
}

#[test]
fn download_decompress_read_save_plans_extract_their_parameters() {
    let p = Download {}.plan(&dict_of(&[("url", "u"), ("destination", "d")]));
    assert_eq!(p.url, "u");
    assert_eq!(p.destination, "d");
    let p = Decompress {}.plan(&dict_of(&[("path", "p"), ("destination", "d")]));
    assert_eq!(p.path, "p");
    assert_eq!(p.destination, "d");
    assert_eq!(Read {}.plan(&dict_of(&[("path", "p")])), "p");
    let d = Read {}.response_outputs("contents".to_string());
    assert_eq!(d.parameter("text"), "contents");
    let p = Save {}.plan(&dict_of(&[("text", "t"), ("destination", "d")]));
    assert_eq!(p.text, "t");
    assert_eq!(p.destination, "d");
}

#[test]
fn wechat_plan_builds_urls_and_message() {
    let p = WeChat {}
        .plan(&dict_of(&[
            ("corp_id", "cid"),
            ("secret", "sec"),
            ("agent_id", "42"),
            ("text", "hello"),
        ]))
        .unwrap();
    assert_eq!(
        p.token_url,
        "https://qyapi.weixin.qq.com/cgi-bin/gettoken?corpid=cid&corpsecret=sec"
    );
    assert_eq!(p.message.agent_id, 42);
    assert_eq!(p.message.to_user, "@all");
    assert_eq!(p.message.message_type, "text");
    assert_eq!(p.message.content, "hello");
    assert!(!p.message.enable_duplicate_check);
    assert_eq!(p.message.duplicate_check_interval, 0);
}

#[test]
fn wechat_plan_rejects_a_malformed_agent_id() {
    let r = WeChat {}.plan(&dict_of(&[("agent_id", "forty-two")]));
    assert_eq!(r.err().unwrap(), "forty-two");
}

#[test]
fn wechat_urls_and_outputs() {
    assert_eq!(
        WeChat {}.send_url("TOKEN"),
        "https://qyapi.weixin.qq.com/cgi-bin/message/send?access_token=TOKEN"
    );
    let d = WeChat {}.response_outputs("0");
    assert_eq!(d.parameter("error_code"), "0");
}

#[test]
fn gist_plan_parses_the_action_case_insensitively() {
    let p = Gist {}
        .plan(&dict_of(&[
            ("action", "update"),
            ("gist_id", "abc"),
            ("access_token", "tok"),
            ("file_name", "f.md"),
            ("text", "body"),
        ]))
        .unwrap();
    assert_eq!(p.action, GistAction::Update);
    assert_eq!(p.url, "https://api.github.com/gists/abc");
    assert_eq!(p.authorization, "token tok");
    assert_eq!(p.file_name, "f.md");
    assert_eq!(p.text, "body");
    let p = Gist {}.plan(&dict_of(&[("action", "GET")])).unwrap();
    assert_eq!(p.action, GistAction::Get);
}

#[test]
fn gist_plan_rejects_an_unknown_action() {
    let r = Gist {}.plan(&dict_of(&[("action", "delete")]));
    assert_eq!(r.err().unwrap(), "delete");
}

#[test]
fn gist_outputs_fold_status_and_content() {
    let d = Gist {}.response_outputs("200", "content".to_string());
    assert_eq!(d.parameter("status_code"), "200");
    assert_eq!(d.parameter("text"), "content");
}

#[test]
fn dict_insert_shadows_and_duplicate_is_independent() {
    let mut d = Dict::new();
    d.insert("k".to_string(), "v1".to_string());
    d.insert("k".to_string(), "v2".to_string());
    assert_eq!(d.parameter("k"), "v2");
    assert_eq!(d.len(), 2);
    let mut copy = d.duplicate();
    copy.insert("k".to_string(), "v3".to_string());
    assert_eq!(d.parameter("k"), "v2");
    assert_eq!(copy.parameter("k"), "v3");
}
