use tianyi_api::action::PortForwardingAction;
use tianyi_api::builder::TianyiBuilder;
use tianyi_api::client::{base_url, login_form, login_url, Tianyi};
use tianyi_api::data::{PortForwardingData, PortForwardingRule};
use tianyi_api::data::ActionResult;
use tianyi_api::error::TianyiError;
use tianyi_api::numeric::{cache_buster, u64_to_string};
use tianyi_api::retval::parse_action_result;
use tianyi_api::token::extract_token;
use tianyi_api::update::plan_update;

fn sample_rule() -> PortForwardingRule {
    PortForwardingRule {
        protocol: "tcp".to_string(),
        in_port: 80,
        enable: 1,
        description: "web".to_string(),
        client: "192.168.1.11".to_string(),
        ex_port: 8080,
    }
}

fn session() -> Tianyi {
    Tianyi {
        url: "http://192.168.1.1".to_string(),
        token: "0123456789abcdef0123456789abcdef".to_string(),
    }
}

#[test]
fn builder_defaults() {
    let b = TianyiBuilder::new();
    assert_eq!(b.ip, "192.168.1.1");
    assert_eq!(b.username, "useradmin");
    assert_eq!(b.password, "");
}

#[test]
fn builder_setters_replace_one_field() {
    let b = TianyiBuilder::new().ip("10.0.0.1").username("root").password("secret");
    assert_eq!(b.ip, "10.0.0.1");
    assert_eq!(b.username, "root");
    assert_eq!(b.password, "secret");
    let b2 = TianyiBuilder::new().password("only");
    assert_eq!(b2.ip, "192.168.1.1");
    assert_eq!(b2.username, "useradmin");
    assert_eq!(b2.password, "only");
}

#[test]
fn action_tokens_are_fixed() {
    assert_eq!(PortForwardingAction::Add.as_str(), "add");
    assert_eq!(PortForwardingAction::Enable.as_str(), "enable");
    assert_eq!(PortForwardingAction::Disable.as_str(), "disable");
    assert_eq!(PortForwardingAction::Delete.as_str(), "del");
}

#[test]
fn token_is_captured_from_login_body() {
    let body = "<html><script>var x = { token: 'a0b1c2d3e4f5a6b7c8d9e0f1a2b3c4d5' };</script>";
    let tok = extract_token(body);
    assert_eq!(tok.as_deref(), Some("a0b1c2d3e4f5a6b7c8d9e0f1a2b3c4d5"));
}

#[test]
fn token_absent_yields_none() {
    assert_eq!(extract_token(""), None);
    assert_eq!(extract_token("<html>login failed</html>"), None);
    // 31 characters only: the pattern must not match
    assert_eq!(extract_token("token: 'a0b1c2d3e4f5a6b7c8d9e0f1a2b3c4d'"), None);
    // an uppercase character inside the would-be token
    assert_eq!(extract_token("token: 'A0b1c2d3e4f5a6b7c8d9e0f1a2b3c4d5'"), None);
}

#[test]
fn token_first_full_match_wins() {
    // the first prefix is not followed by a full token, the second is
    let body = "token: 'short' and then token: 'ffffffffffffffffffffffffffffffff'!";
    assert_eq!(extract_token(body).as_deref(), Some("ffffffffffffffffffffffffffffffff"));
    // two full matches: the earlier one is captured
    let body2 = "token: '00000000000000000000000000000000' token: '11111111111111111111111111111111'";
    assert_eq!(extract_token(body2).as_deref(), Some("00000000000000000000000000000000"));
}

#[test]
fn login_succeeds_on_token() {
    let body = "token: 'a0b1c2d3e4f5a6b7c8d9e0f1a2b3c4d5'";
    let t = Tianyi::from_login("http://192.168.1.1", body).unwrap();
    assert_eq!(t.url, "http://192.168.1.1");
    assert_eq!(t.token, "a0b1c2d3e4f5a6b7c8d9e0f1a2b3c4d5");
}

#[test]
fn login_without_token_is_authentication_error() {
    let r = Tianyi::from_login("http://192.168.1.1", "<html>wrong password</html>");
    assert_eq!(r.err(), Some(TianyiError::Authentication));
}

#[test]
fn decimal_numerals() {
    assert_eq!(u64_to_string(0), "0");
    assert_eq!(u64_to_string(7), "7");
    assert_eq!(u64_to_string(8080), "8080");
    assert_eq!(u64_to_string(18446744073709551615), "18446744073709551615");
    assert_eq!(cache_buster(12345), "0.12345");
}

#[test]
fn login_request_fields() {
    assert_eq!(base_url("192.168.1.1"), "http://192.168.1.1");
    assert_eq!(login_url("http://192.168.1.1"), "http://192.168.1.1/cgi-bin/luci");
    let form = login_form("useradmin", "pw");
    assert_eq!(
        form,
        vec![
            ("username".to_string(), "useradmin".to_string()),
            ("psd".to_string(), "pw".to_string()),
        ]
    );
}

#[test]
fn logout_request_fields() {
    let (url, form) = session().logout_request("0.5");
    assert_eq!(url, "http://192.168.1.1/cgi-bin/luci/admin/logout");
    assert_eq!(
        form,
        vec![
            ("token".to_string(), "0123456789abcdef0123456789abcdef".to_string()),
            ("_".to_string(), "0.5".to_string()),
        ]
    );
}

#[test]
fn gwinfo_request_fields() {
    let (url, query) = session().gwinfo_request("0.25");
    assert_eq!(url, "http://192.168.1.1/cgi-bin/luci/admin/settings/gwinfo");
    assert_eq!(
        query,
        vec![
            ("get".to_string(), "part".to_string()),
            ("_".to_string(), "0.25".to_string()),
        ]
    );
}

#[test]
fn port_forwarding_request_fields() {
    let (url, query) = session().port_forwarding_request("0.75");
    assert_eq!(url, "http://192.168.1.1/cgi-bin/luci/admin/settings/pmDisplay");
    assert_eq!(query, vec![("_".to_string(), "0.75".to_string())]);
}

#[test]
fn set_rule_request_without_payload() {
    let (url, form) = session().set_rule_request(PortForwardingAction::Delete, "web", None, "0.1");
    assert_eq!(url, "http://192.168.1.1/cgi-bin/luci/admin/settings/pmSetSingle");
    assert_eq!(
        form,
        vec![
            ("srvname".to_string(), "web".to_string()),
            ("token".to_string(), "0123456789abcdef0123456789abcdef".to_string()),
            ("op".to_string(), "del".to_string()),
            ("_".to_string(), "0.1".to_string()),
        ]
    );
}

#[test]
fn set_rule_request_with_payload() {
    let rule = sample_rule();
    let (_, form) = session().set_rule_request(PortForwardingAction::Add, "web", Some(&rule), "0.1");
    assert_eq!(
        form,
        vec![
            ("srvname".to_string(), "web".to_string()),
            ("token".to_string(), "0123456789abcdef0123456789abcdef".to_string()),
            ("op".to_string(), "add".to_string()),
            ("_".to_string(), "0.1".to_string()),
            ("client".to_string(), "192.168.1.11".to_string()),
            ("protocol".to_string(), "tcp".to_string()),
            ("exPort".to_string(), "8080".to_string()),
            ("inPort".to_string(), "80".to_string()),
        ]
    );
}

#[test]
fn update_plan_without_match_is_empty() {
    let rules = vec![sample_rule()];
    let plan = plan_update(&rules, "192.168.1.99", "192.168.1.12");
    assert_eq!(plan.len(), 0);
}

#[test]
fn update_plan_deletes_then_adds() {
    let mut other = sample_rule();
    other.description = "ssh".to_string();
    other.client = "192.168.1.20".to_string();
    let rules = vec![sample_rule(), other];
    let plan = plan_update(&rules, "192.168.1.11", "192.168.1.12");
    assert_eq!(plan.len(), 2);
    assert_eq!(plan[0].action, PortForwardingAction::Delete);
    assert_eq!(plan[0].srvname, "web");
    assert_eq!(plan[0].rule.client, "192.168.1.11");
    assert_eq!(plan[1].action, PortForwardingAction::Add);
    assert_eq!(plan[1].srvname, "web");
    assert_eq!(plan[1].rule.client, "192.168.1.12");
    assert_eq!(plan[1].rule.protocol, "tcp");
    assert_eq!(plan[1].rule.in_port, 80);
    assert_eq!(plan[1].rule.ex_port, 8080);
    assert_eq!(plan[1].rule.enable, 1);
}

#[test]
fn update_plan_with_two_matches_keeps_order() {
    let mut second = sample_rule();
    second.description = "ssh".to_string();
    second.in_port = 22;
    second.ex_port = 2222;
    let rules = vec![sample_rule(), second];
    let plan = plan_update(&rules, "192.168.1.11", "192.168.1.12");
    assert_eq!(plan.len(), 4);
    assert_eq!(plan[0].action, PortForwardingAction::Delete);
    assert_eq!(plan[0].srvname, "web");
    assert_eq!(plan[1].action, PortForwardingAction::Delete);
    assert_eq!(plan[1].srvname, "ssh");
    assert_eq!(plan[2].action, PortForwardingAction::Add);
    assert_eq!(plan[2].srvname, "web");
    assert_eq!(plan[2].rule.client, "192.168.1.12");
    assert_eq!(plan[3].action, PortForwardingAction::Add);
    assert_eq!(plan[3].srvname, "ssh");
    assert_eq!(plan[3].rule.client, "192.168.1.12");
    assert_eq!(plan[3].rule.in_port, 22);
}

#[test]
fn snapshot_scenario_lists_and_updates() {
    // the snapshot a router answering
    // {"mask":"255.255.255.0","lanIp":"192.168.1.1","count":1,
    //  "rule1":{"protocol":"tcp","inPort":80,"enable":1,"desp":"web",
    //           "client":"192.168.1.11","exPort":8080}}
    // decodes to
    let data = PortForwardingData {
        mask: "255.255.255.0".to_string(),
        lan_ip: "192.168.1.1".to_string(),
        count: 1,
        rules: vec![("rule1".to_string(), sample_rule())],
    };
    let rules = data.rules_list();
    assert_eq!(rules.len(), 1);
    assert_eq!(rules[0].client, "192.168.1.11");
    let plan = plan_update(&rules, "192.168.1.11", "192.168.1.12");
    assert_eq!(plan.len(), 2);
    assert_eq!(plan[0].action, PortForwardingAction::Delete);
    assert_eq!(plan[0].srvname, "web");
    assert_eq!(plan[0].rule.description, "web");
    assert_eq!(plan[0].rule.client, "192.168.1.11");
    assert_eq!(plan[1].action, PortForwardingAction::Add);
    assert_eq!(plan[1].srvname, "web");
    assert_eq!(plan[1].rule.description, "web");
    assert_eq!(plan[1].rule.client, "192.168.1.12");
    assert_eq!(plan[1].rule.protocol, "tcp");
    assert_eq!(plan[1].rule.in_port, 80);
    assert_eq!(plan[1].rule.ex_port, 8080);
    assert_eq!(plan[1].rule.enable, 1);
}

#[test]
fn action_result_parses_plain_body() {
    assert_eq!(parse_action_result("{\"retVal\":0}"), Ok(ActionResult { ret_val: 0 }));
    assert_eq!(parse_action_result("{ \"retVal\": 1 }"), Ok(ActionResult { ret_val: 1 }));
    assert_eq!(
        parse_action_result("\n{\t\"retVal\" : -17 }\r\n"),
        Ok(ActionResult { ret_val: -17 })
    );
    assert_eq!(
        parse_action_result("{\"retVal\":2147483647}"),
        Ok(ActionResult { ret_val: 2147483647 })
    );
    assert_eq!(
        parse_action_result("{\"retVal\":-2147483648}"),
        Ok(ActionResult { ret_val: -2147483648 })
    );
    assert_eq!(parse_action_result("{\"retVal\":-0}"), Ok(ActionResult { ret_val: 0 }));
}

#[test]
fn action_result_rejects_malformed_bodies() {
    assert_eq!(parse_action_result(""), Err(TianyiError::Parse));
    assert_eq!(parse_action_result("retVal: 3"), Err(TianyiError::Parse));
    assert_eq!(parse_action_result("{\"retval\":3}"), Err(TianyiError::Parse));
    assert_eq!(parse_action_result("{\"retVal\":}"), Err(TianyiError::Parse));
    assert_eq!(parse_action_result("{\"retVal\":3"), Err(TianyiError::Parse));
    assert_eq!(parse_action_result("{\"retVal\":03}"), Err(TianyiError::Parse));
    assert_eq!(parse_action_result("{\"retVal\":3}x"), Err(TianyiError::Parse));
    assert_eq!(parse_action_result("{\"retVal\":2147483648}"), Err(TianyiError::Parse));
    assert_eq!(parse_action_result("{\"retVal\":-2147483649}"), Err(TianyiError::Parse));
    assert_eq!(
        parse_action_result("{\"retVal\":99999999999999999999999999}"),
        Err(TianyiError::Parse)
    );
}

#[test]
fn fresh_cache_buster_has_number_shape() {
    let cb = tianyi_api::numeric::fresh_cache_buster();
    assert!(cb.starts_with("0."));
    assert!(cb.len() > 2);
    assert!(cb[2..].chars().all(|c| c.is_ascii_digit()));
}
