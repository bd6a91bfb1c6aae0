use neurokaraoke::auth::{
    auth_context, authorize_url, callback_step, code_challenge, code_verifier, html_response, jwt_payload,
    neuro_karaoke_discord, new_code_verifier, split_char, split_words, token_exchange_body, user_claims,
    CallbackStep, JwtError, CALLBACK_ADDRESS, DISCORD_TOKEN_URL, FAILURE_HTML, NEURO_KARAOKE_CLIENT_ID,
    NEURO_KARAOKE_REDIRECT_URI, SUCCESS_HTML,
};

fn text(parts: Vec<Vec<char>>) -> Vec<String> {
    parts.into_iter().map(|p| p.into_iter().collect()).collect()
}

#[test]
fn jwt_payload_is_the_decoded_middle_segment() {
    let token = "aaa.eyJzdWIiOiIxIn0.ccc";
    assert_eq!(jwt_payload(token), Ok(b"{\"sub\":\"1\"}".to_vec()));
}

#[test]
fn jwt_with_other_than_three_segments_is_malformed() {
    assert_eq!(jwt_payload("a.b"), Err(JwtError::Malformed));
    assert_eq!(jwt_payload("a.b.c.d"), Err(JwtError::Malformed));
    assert_eq!(jwt_payload(""), Err(JwtError::Malformed));
}

#[test]
fn jwt_with_bad_base64_is_refused() {
    assert_eq!(jwt_payload("a.!!!.c"), Err(JwtError::Base64));
    assert_eq!(jwt_payload("a.eyJzdWIiOiIxIn0=.c"), Err(JwtError::Base64));
}

#[test]
fn claims_take_the_parsed_id() {
    let c = user_claims("67e55044-10b1-426f-9247-bb680e5fe0c8", "neuro".to_string());
    assert_eq!(c.id, 0x67e55044_10b1_426f_9247_bb680e5fe0c8u128);
    assert_eq!(c.username, "neuro");
    assert!(c.email.is_none());
    let d = user_claims("12345", "vedal".to_string());
    assert_eq!(d.username, "vedal");
    assert_eq!((d.id >> 76) & 0xf, 4);
    assert_eq!((d.id >> 62) & 0x3, 2);
    let ctx = auth_context("tok".to_string(), d);
    assert_eq!(ctx.token, "tok");
    assert_eq!(ctx.user.username, "vedal");
}

#[test]
fn discord_configuration_and_authorize_url() {
    let c = neuro_karaoke_discord();
    assert_eq!(c.client_id, NEURO_KARAOKE_CLIENT_ID);
    assert_eq!(c.redirect_uri, NEURO_KARAOKE_REDIRECT_URI);
    assert_eq!(CALLBACK_ADDRESS, "127.0.0.1:14442");
    assert_eq!(
        authorize_url(&c, "PZULGelBtiOAjjsBPixskLZ_cYWiFxX95qGFNkKPTTs"),
        "https://discord.com/oauth2/authorize?client_id=1544639254188007494&response_type=code&redirect_uri=http%3A%2F%2Flocalhost%3A14442%2Fauth%2Fcallback&scope=identify&code_challenge=PZULGelBtiOAjjsBPixskLZ_cYWiFxX95qGFNkKPTTs&code_challenge_method=S256"
    );
}

#[test]
fn pkce_verifier_and_challenge() {
    let bytes: Vec<u8> = (0u8..64).collect();
    assert_eq!(
        code_verifier(&bytes),
        "AAECAwQFBgcICQoLDA0ODxAREhMUFRYXGBkaGxwdHh8gISIjJCUmJygpKissLS4vMDEyMzQ1Njc4OTo7PD0-Pw"
    );
    assert_eq!(code_verifier(&vec![251, 255]), "-_8");
    assert_eq!(
        code_challenge("dBjftJeZ4CVP-mJ92K9Gu1_w1dTWnpTEt6n1nI1aSpc"),
        "PZULGelBtiOAjjsBPixskLZ_cYWiFxX95qGFNkKPTTs"
    );
    let fresh = new_code_verifier();
    assert_eq!(fresh.len(), 86);
    assert!(fresh.chars().all(|c| c.is_ascii_alphanumeric() || c == '-' || c == '_'));
    assert_ne!(fresh, new_code_verifier());
}

#[test]
fn token_exchange_request() {
    let c = neuro_karaoke_discord();
    assert_eq!(DISCORD_TOKEN_URL, "https://discord.com/api/oauth2/token");
    assert_eq!(
        token_exchange_body(&c, "a b", "v-1_~"),
        "client_id=1544639254188007494&grant_type=authorization_code&code=a%20b&redirect_uri=http%3A%2F%2Flocalhost%3A14442%2Fauth%2Fcallback&code_verifier=v-1_~"
    );
}

#[test]
fn html_responses_carry_the_byte_length() {
    assert_eq!(
        html_response("<p>é</p>"),
        "HTTP/1.1 200 OK\r\nContent-Length: 9\r\nContent-Type: text/html\r\nConnection: close\r\n\r\n<p>é</p>"
    );
    assert!(html_response(FAILURE_HTML).ends_with(FAILURE_HTML));
    assert!(html_response(SUCCESS_HTML).contains(&format!("Content-Length: {}\r\n", SUCCESS_HTML.len())));
}

#[test]
fn callback_steps() {
    assert!(matches!(callback_step(""), CallbackStep::Skip));
    assert!(matches!(callback_step("GET\r\n"), CallbackStep::Skip));
    assert!(matches!(callback_step("GET /favicon.ico HTTP/1.1\r\n"), CallbackStep::Skip));
    match callback_step("GET /auth/callback?code=abc&state=x HTTP/1.1\r\n") {
        CallbackStep::Code(c) => assert_eq!(c, "abc"),
        _ => panic!("expected a code"),
    }
    match callback_step("GET /auth/callback?state=x&code=a%2Bb HTTP/1.1\r\n") {
        CallbackStep::Code(c) => assert_eq!(c, "a+b"),
        _ => panic!("expected a code"),
    }
    match callback_step("GET /auth/callback?error=access_denied HTTP/1.1\r\n") {
        CallbackStep::Denied(e) => assert_eq!(e, "access_denied"),
        _ => panic!("expected a refusal"),
    }
    assert!(matches!(callback_step("GET /auth/callback?xcode=1 HTTP/1.1\r\n"), CallbackStep::NoCode));
    assert!(matches!(callback_step("GET :99999/?code=1 HTTP/1.1\r\n"), CallbackStep::BadUrl));
}

#[test]
fn splitting() {
    let dots: Vec<char> = "a..b.".chars().collect();
    assert_eq!(text(split_char(&dots, '.')), vec!["a", "", "b", ""]);
    let line: Vec<char> = "  GET   /x\tHTTP/1.1\r\n".chars().collect();
    assert_eq!(text(split_words(&line)), vec!["GET", "/x", "HTTP/1.1"]);
}
