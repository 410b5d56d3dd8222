use mylib::init::{AuthCode, Config, DeviceCodeResponse, InitAction, InitEvent, InitState, UserInfoErr};

#[test]
fn extract_tokens_from_user_file() {
    let content = "access_token: 121.abc\nrefresh_token: 122.def\n";
    assert_eq!(Config::extract_access_token(content), Some("121.abc"));
    assert_eq!(Config::extract_refresh_token(content), Some("122.def"));
}

#[test]
fn extract_tokens_missing_parts() {
    assert_eq!(Config::extract_access_token(""), None);
    assert_eq!(Config::extract_access_token("no colon here"), None);
    assert_eq!(Config::extract_refresh_token("access_token: a"), None);
    assert_eq!(Config::extract_refresh_token("access_token: a\nrefresh"), None);
}

#[test]
fn extract_token_stops_at_second_colon() {
    assert_eq!(Config::extract_access_token("access_token:  a:b \n"), Some("a"));
}

#[test]
fn user_file_round_trip() {
    let auth = AuthCode { access_token: "121.a-b".to_string(), refresh_token: "122.c.d".to_string() };
    let content = Config::user_file_content(&auth);
    assert_eq!(content, "access_token: 121.a-b\nrefresh_token: 122.c.d");
    assert_eq!(Config::extract_access_token(&content), Some("121.a-b"));
    assert_eq!(Config::extract_refresh_token(&content), Some("122.c.d"));
}

#[test]
fn blank_user_file() {
    assert!(Config::is_blank(""));
    assert!(Config::is_blank(" \n\t\u{3000}"));
    assert!(!Config::is_blank(" x "));
}

#[test]
fn authorization_urls() {
    assert_eq!(
        Config::device_code_url(),
        "https://openapi.baidu.com/oauth/2.0/device/code?response_type=device_code&client_id=*&scope=basic,netdisk"
    );
    assert_eq!(
        Config::access_code_url("DC"),
        "https://openapi.baidu.com/oauth/2.0/token?grant_type=device_token&code=DC&client_id=*&client_secret=*"
    );
    assert_eq!(
        Config::user_info_url("T"),
        "https://pan.baidu.com/rest/2.0/xpan/nas?method=uinfo&access_token=T"
    );
}

#[test]
fn token_validity() {
    assert!(UserInfoErr { errno: 0, errmsg: String::new() }.token_is_valid());
    assert!(!UserInfoErr { errno: -6, errmsg: "expired".to_string() }.token_is_valid());
}

#[test]
fn start_up_with_valid_stored_tokens() {
    let (s, a) = InitState::start();
    assert!(matches!(a, InitAction::ReadLocal));
    let content = "access_token: A1\nrefresh_token: R1".to_string();
    let (s, a) = s.next(InitEvent::LocalContent(Some(content)));
    assert!(matches!(a, InitAction::CheckToken { ref access_token } if access_token == "A1"));
    let (s, a) = s.next(InitEvent::TokenChecked(Ok(true)));
    assert!(matches!(a, InitAction::QueryUser { ref access_token } if access_token == "A1"));
    let (s, a) = s.next(InitEvent::UserName("bob".to_string()));
    assert!(matches!(s, InitState::Finished));
    match a {
        InitAction::Finish(c) => {
            assert_eq!(c.access_token, "A1");
            assert_eq!(c.refresh_token, "R1");
            assert_eq!(c.user, "bob");
        }
        _ => panic!("start-up should finish"),
    }
}

#[test]
fn start_up_with_login() {
    let (s, _) = InitState::start();
    let (s, a) = s.next(InitEvent::LocalContent(None));
    assert!(matches!(a, InitAction::RequestDeviceCode));
    let response = DeviceCodeResponse {
        device_code: "DC".to_string(),
        user_code: "UC".to_string(),
        verification_url: "https://v".to_string(),
    };
    let (s, a) = s.next(InitEvent::DeviceCode(response));
    assert!(matches!(a, InitAction::AskLogin { ref verification_url, ref user_code }
        if verification_url == "https://v" && user_code == "UC"));
    let (s, a) = s.next(InitEvent::Answer(Ok("maybe".to_string())));
    assert!(matches!(a, InitAction::AskAgain));
    let (s, a) = s.next(InitEvent::Answer(Err("closed".to_string())));
    assert!(matches!(a, InitAction::AskAgain));
    let (s, a) = s.next(InitEvent::Answer(Ok("y".to_string())));
    assert!(matches!(a, InitAction::RequestAccessCode { ref device_code } if device_code == "DC"));
    let auth = AuthCode { access_token: "A2".to_string(), refresh_token: "R2".to_string() };
    let (s, a) = s.next(InitEvent::AccessCode(auth));
    assert!(matches!(a, InitAction::WriteUserFile { ref content }
        if content == "access_token: A2\nrefresh_token: R2"));
    let (s, a) = s.next(InitEvent::UserFileWritten);
    assert!(matches!(a, InitAction::QueryUser { ref access_token } if access_token == "A2"));
    let (_, a) = s.next(InitEvent::UserName("ann".to_string()));
    assert!(matches!(a, InitAction::Finish(ref c) if c.access_token == "A2" && c.refresh_token == "R2" && c.user == "ann"));
}

#[test]
fn start_up_blank_file_or_invalid_token_leads_to_login() {
    let (s, _) = InitState::start();
    let (_, a) = s.next(InitEvent::LocalContent(Some("  \n".to_string())));
    assert!(matches!(a, InitAction::RequestDeviceCode));
    let (s, _) = InitState::start();
    let (s, _) = s.next(InitEvent::LocalContent(Some("access_token: A\nrefresh_token: R".to_string())));
    let (_, a) = s.next(InitEvent::TokenChecked(Ok(false)));
    assert!(matches!(a, InitAction::RequestDeviceCode));
}

#[test]
fn start_up_cancel_and_failures() {
    let (s, _) = InitState::start();
    let (s, _) = s.next(InitEvent::LocalContent(None));
    let response = DeviceCodeResponse {
        device_code: "DC".to_string(),
        user_code: "UC".to_string(),
        verification_url: "V".to_string(),
    };
    let (s, _) = s.next(InitEvent::DeviceCode(response));
    let (s, a) = s.next(InitEvent::Answer(Ok("n".to_string())));
    assert!(matches!(a, InitAction::Cancel));
    assert!(matches!(s, InitState::Finished));

    let (s, _) = InitState::start();
    let (_, a) = s.next(InitEvent::UserFileWritten);
    assert!(matches!(a, InitAction::Fail));
}

#[test]
fn start_up_falls_back_to_login_on_unusable_user_file() {
    let (s, _) = InitState::start();
    let (s, a) = s.next(InitEvent::LocalContent(Some("garbage".to_string())));
    assert!(matches!(s, InitState::RequestingDeviceCode));
    assert!(matches!(a, InitAction::RequestDeviceCode));

    let (s, _) = InitState::start();
    let (s, _) = s.next(InitEvent::LocalContent(Some("access_token: A".to_string())));
    let (s, a) = s.next(InitEvent::TokenChecked(Ok(true)));
    assert!(matches!(s, InitState::RequestingDeviceCode));
    assert!(matches!(a, InitAction::RequestDeviceCode));

    let (s, _) = InitState::start();
    let (s, _) = s.next(InitEvent::LocalContent(Some("access_token: A\nrefresh_token: R".to_string())));
    let (s, a) = s.next(InitEvent::TokenChecked(Err("connection refused".to_string())));
    assert!(matches!(s, InitState::RequestingDeviceCode));
    assert!(matches!(a, InitAction::RequestDeviceCode));
}
