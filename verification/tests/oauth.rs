use deeprecall::avatars::name_upload;
use deeprecall::oauth::{
    answer_from_params, both, callback_query, collect_params, cut_pair, decode_pairs,
    char_is_space, first_line_of, raw_pairs, second_word_of, sign_in_address,
};
use deeprecall::avatars::{AvatarUpload, avatar_file_name, avatar_report, upload_avatar};
use deeprecall::json::Json;
use deeprecall::oauth::{
    OAuthAnswer, OAuthEvent, auth_url, get_param, handle_oauth_request, http_response,
    parse_query_string, render_page, send_response, split_at_char, target_of,
};
use deeprecall::text::has_prefix;

fn pair(k: &str, v: &str) -> (String, String) {
    (k.to_string(), v.to_string())
}

fn chars(s: &str) -> Vec<char> {
    s.chars().collect()
}

#[test]
fn target_is_the_second_word_of_the_first_line() {
    assert_eq!(target_of("GET /x HTTP/1.1\r\nHost: a\r\n\r\n"), Some("/x".to_string()));
    assert_eq!(target_of("GET /x"), Some("/x".to_string()));
    assert_eq!(target_of("  GET \t /x?a=1  \nPOST /y"), Some("/x?a=1".to_string()));
    assert_eq!(target_of("GET\u{a0}/x HTTP/1.1"), Some("/x".to_string()));
    assert_eq!(target_of("GET"), None);
    assert_eq!(target_of("GET \r\n/x"), None);
    assert_eq!(target_of(""), None);
    assert_eq!(target_of("\n GET /x"), None);
    assert_eq!(target_of("   "), None);
}

#[test]
fn text_is_split_at_every_separator() {
    let pieces = |s: &str| -> Vec<String> {
        split_at_char(&chars(s), '&').into_iter().map(|p| p.into_iter().collect()).collect()
    };
    assert_eq!(pieces("a&b"), vec!["a", "b"]);
    assert_eq!(pieces(""), vec![""]);
    assert_eq!(pieces("&"), vec!["", ""]);
    assert_eq!(pieces("a&&b&"), vec!["a", "", "b", ""]);
    assert_eq!(pieces("abc"), vec!["abc"]);
}

#[test]
fn query_is_parsed_and_decoded() {
    assert_eq!(
        parse_query_string("code=a%20b&state=x%3Dy"),
        vec![pair("code", "a b"), pair("state", "x=y")]
    );
    assert_eq!(parse_query_string("a=1=2"), vec![pair("a", "1=2")]);
    assert_eq!(parse_query_string("a=1+2"), vec![pair("a", "1+2")]);
    assert_eq!(parse_query_string("a="), vec![pair("a", "")]);
    assert_eq!(parse_query_string("=v"), vec![pair("", "v")]);
    assert_eq!(parse_query_string("%C3%A9=%E2%9C%93"), vec![pair("é", "✓")]);
}

#[test]
fn pieces_that_are_no_pair_are_passed_over() {
    assert_eq!(parse_query_string(""), vec![]);
    assert_eq!(parse_query_string("flag&a=1&&b"), vec![pair("a", "1")]);
    assert_eq!(parse_query_string("a=%FF&b=2"), vec![pair("b", "2")]);
    assert_eq!(parse_query_string("%FF=1&b=2"), vec![pair("b", "2")]);
}

#[test]
fn later_value_of_a_key_wins() {
    let params = parse_query_string("a=1&b=2&a=3");
    assert_eq!(params, vec![pair("a", "3"), pair("b", "2")]);
    assert_eq!(get_param(&params, "a"), Some(&"3".to_string()));
    assert_eq!(get_param(&params, "c"), None);
}

#[test]
fn callback_with_a_code_signs_in() {
    let answer =
        handle_oauth_request("GET /oauth2/callback?code=abc&state=s1 HTTP/1.1\r\n\r\n").unwrap();
    assert_eq!(
        answer,
        OAuthAnswer {
            title: "Sign In Successful".to_string(),
            body: "<h1>✓ Sign In Successful</h1><p>You can close this window and return to the \
                   app.</p>"
                .to_string(),
            event: Some(OAuthEvent::Code { code: "abc".to_string(), state: Some("s1".to_string()) }),
        }
    );
    let answer = handle_oauth_request("GET /oauth2/callback?code=abc HTTP/1.1").unwrap();
    assert_eq!(answer.event, Some(OAuthEvent::Code { code: "abc".to_string(), state: None }));
}

#[test]
fn callback_with_an_error_reports_it() {
    let answer = handle_oauth_request(
        "GET /oauth2/callback?error=access_denied&error_description=No%20way&code=x HTTP/1.1",
    )
    .unwrap();
    assert_eq!(
        answer,
        OAuthAnswer {
            title: "OAuth Error".to_string(),
            body: "<h1>OAuth Error</h1><p>No way</p><p>You can close this window.</p>".to_string(),
            event: Some(OAuthEvent::Failed {
                error: "access_denied".to_string(),
                description: "No way".to_string()
            }),
        }
    );
    let answer = handle_oauth_request("GET /oauth2/callback?error=e HTTP/1.1").unwrap();
    assert_eq!(
        answer.body,
        "<h1>OAuth Error</h1><p>Unknown error</p><p>You can close this window.</p>"
    );
    assert_eq!(
        answer.event,
        Some(OAuthEvent::Failed {
            error: "e".to_string(),
            description: "Unknown error".to_string()
        })
    );
}

#[test]
fn callback_without_code_or_query_is_invalid() {
    let answer = handle_oauth_request("GET /oauth2/callback?state=s HTTP/1.1").unwrap();
    assert_eq!(
        answer,
        OAuthAnswer {
            title: "Invalid Request".to_string(),
            body: "<h1>Invalid OAuth Callback</h1><p>Missing authorization code.</p>".to_string(),
            event: None,
        }
    );
    let answer = handle_oauth_request("GET /oauth2/callback HTTP/1.1").unwrap();
    assert_eq!(
        answer,
        OAuthAnswer {
            title: "Invalid Request".to_string(),
            body: "<h1>Invalid OAuth Callback</h1><p>Missing query parameters.</p>".to_string(),
            event: None,
        }
    );
}

#[test]
fn other_targets_are_not_found() {
    for request in ["GET / HTTP/1.1", "GET /favicon.ico HTTP/1.1", "GET /oauth2/callbac?code=1 x"] {
        let answer = handle_oauth_request(request).unwrap();
        assert_eq!(
            answer,
            OAuthAnswer {
                title: "Not Found".to_string(),
                body: "<h1>404 Not Found</h1><p>OAuth callback should be at /oauth2/callback</p>"
                    .to_string(),
                event: None,
            }
        );
    }
    assert_eq!(handle_oauth_request("GET"), None);
    assert!(has_prefix(&chars("/oauth2/callbackx"), &chars("/oauth2/callback")));
    assert!(has_prefix(&chars("abc"), &chars("")));
    assert!(!has_prefix(&chars("ab"), &chars("abc")));
}

#[test]
fn response_carries_the_length_in_bytes() {
    assert_eq!(
        http_response("héllo"),
        "HTTP/1.1 200 OK\r\nContent-Type: text/html; charset=utf-8\r\nContent-Length: 6\r\n\r\nhéllo"
    );
    assert_eq!(
        http_response(""),
        "HTTP/1.1 200 OK\r\nContent-Type: text/html; charset=utf-8\r\nContent-Length: 0\r\n\r\n"
    );
}

#[test]
fn page_is_rendered_around_title_and_content() {
    let html = render_page("T", "<h1>B</h1>");
    assert!(html.starts_with("<!DOCTYPE html>\n<html>\n<head>\n    <meta charset=\"UTF-8\">\n"));
    assert!(html.contains("    <title>T</title>\n    <style>\n        body {\n"));
    assert!(html.contains("    <div class=\"container\">\n        <h1>B</h1>\n    </div>\n"));
    assert!(html.contains("        setTimeout(() => {\n            window.close();\n        }, 2000);"));
    assert!(html.ends_with("    </script>\n</body>\n</html>"));
    let response = send_response("T", "✓");
    let (head, page) = response.split_once("\r\n\r\n").unwrap();
    assert_eq!(page, render_page("T", "✓"));
    assert!(head.ends_with(&format!("Content-Length: {}", page.len())));
}

#[test]
fn sign_in_address_encodes_the_callback() {
    assert_eq!(
        auth_url("http://localhost:3000", "github", "http://localhost:3001/auth/callback"),
        "http://localhost:3000/auth/signin?provider=github&callbackUrl=http%3A%2F%2Flocalhost%3A3001%2Fauth%2Fcallback"
    );
}

#[test]
fn avatar_files_are_named_by_author_role_and_time() {
    assert_eq!(avatar_file_name("a1", "original", 1700000000), "a1_original_1700000000.jpg");
    assert_eq!(avatar_file_name("a1", "display", 0), "a1_display_0.jpg");
    assert_eq!(avatar_file_name("", "display", -5), "_display_-5.jpg");
    assert_eq!(
        avatar_file_name("x", "r", i64::MIN),
        format!("x_r_{}.jpg", i64::MIN)
    );
}

#[test]
fn upload_is_decoded() {
    assert_eq!(
        upload_avatar("a1", "aGVsbG8=", "AAEC", 7),
        Ok(AvatarUpload {
            original_name: "a1_original_7.jpg".to_string(),
            original: b"hello".to_vec(),
            display_name: "a1_display_7.jpg".to_string(),
            display: vec![0, 1, 2],
        })
    );
    assert_eq!(upload_avatar("a1", "", "", 7).unwrap().original, Vec::<u8>::new());
}

#[test]
fn upload_that_is_no_base64_is_refused() {
    assert!(upload_avatar("a1", "a", "AAEC", 7).is_err());
    assert!(upload_avatar("a1", "AAEC", "!!!!", 7).is_err());
    let both = upload_avatar("a1", "****", "AAE", 7).unwrap_err();
    let first = upload_avatar("a1", "****", "AAEC", 7).unwrap_err();
    assert_eq!(both, first);
    assert!(!first.is_empty());
}

#[test]
fn upload_is_reported_with_its_paths() {
    let crop = Json::Object(vec![("x".to_string(), Json::Null)]);
    assert_eq!(
        avatar_report("/a/o.jpg", "/a/d.jpg", crop.duplicate()),
        Json::Object(vec![
            (
                "paths".to_string(),
                Json::Object(vec![
                    ("original".to_string(), Json::String("/a/o.jpg".to_string())),
                    ("display".to_string(), Json::String("/a/d.jpg".to_string())),
                ])
            ),
            ("cropRegion".to_string(), crop),
        ])
    );
}

#[test]
fn first_line_ends_at_the_line_feed() {
    let line = |s: &str| -> String { first_line_of(&chars(s)).into_iter().collect() };
    assert_eq!(line("a b\r\nc"), "a b");
    assert_eq!(line("a b\nc"), "a b");
    assert_eq!(line("a b\r"), "a b\r");
    assert_eq!(line("\r\n"), "");
    assert_eq!(line("\n"), "");
    assert_eq!(line(""), "");
    assert_eq!(line("a\r\r\n"), "a\r");
}

#[test]
fn second_word_is_cut_at_white_space() {
    assert_eq!(second_word_of(&chars("GET /x V")), Some("/x".to_string()));
    assert_eq!(second_word_of(&chars("\u{3000}a\u{2003}\u{85}b")), Some("b".to_string()));
    assert_eq!(second_word_of(&chars("a\u{200b}b")), None);
    assert_eq!(second_word_of(&chars("ab ")), None);
    assert_eq!(second_word_of(&vec![]), None);
}

#[test]
fn white_space_is_what_the_standard_library_says() {
    for code in 0..=0x10ffffu32 {
        if let Some(c) = char::from_u32(code) {
            assert_eq!(char_is_space(c), c.is_whitespace(), "{:x}", code);
        }
    }
}

#[test]
fn query_is_cut_before_it_is_decoded() {
    let cut = |s: &str| cut_pair(&chars(s));
    assert_eq!(cut("a=b"), Some(pair("a", "b")));
    assert_eq!(cut("a%20=b=c"), Some(pair("a%20", "b=c")));
    assert_eq!(cut("="), Some(pair("", "")));
    assert_eq!(cut("ab"), None);
    assert_eq!(cut(""), None);
    assert_eq!(
        raw_pairs("a=%31&b&=&c=%zz"),
        vec![Some(pair("a", "%31")), None, Some(pair("", "")), Some(pair("c", "%zz"))]
    );
    assert_eq!(
        decode_pairs(&vec![Some(pair("a%20", "%31")), None, Some(pair("k", "%FF"))]),
        vec![Some(pair("a ", "1")), None, None]
    );
    assert_eq!(both(Some("k".to_string()), Some("v".to_string())), Some(pair("k", "v")));
    assert_eq!(both(None, Some("v".to_string())), None);
    assert_eq!(both(Some("k".to_string()), None), None);
    assert_eq!(
        collect_params(&vec![
            Some(pair("a", "1")),
            None,
            Some(pair("b", "2")),
            Some(pair("a", "3"))
        ]),
        vec![pair("a", "3"), pair("b", "2")]
    );
}

#[test]
fn answer_goes_by_the_parameters_alone() {
    let answer = answer_from_params(&vec![pair("code", "c"), pair("error", "e")]);
    assert_eq!(answer.title, "OAuth Error");
    assert_eq!(
        answer.event,
        Some(OAuthEvent::Failed {
            error: "e".to_string(),
            description: "Unknown error".to_string()
        })
    );
    let answer = answer_from_params(&vec![pair("state", "s"), pair("code", "c")]);
    assert_eq!(
        answer.event,
        Some(OAuthEvent::Code { code: "c".to_string(), state: Some("s".to_string()) })
    );
    assert_eq!(answer_from_params(&vec![]).title, "Invalid Request");
    assert_eq!(callback_query("/x"), None);
    assert_eq!(callback_query("/oauth2/callback"), Some(None));
    assert_eq!(callback_query("/oauth2/callback?"), Some(Some(String::new())));
    assert_eq!(callback_query("/oauth2/callback/x?a=1?b"), Some(Some("a=1?b".to_string())));
}

#[test]
fn sign_in_address_takes_the_encoded_callback_as_it_is() {
    assert_eq!(sign_in_address("b", "p", "c%3A"), "b/auth/signin?provider=p&callbackUrl=c%3A");
    let upload = name_upload("a", vec![1], vec![2, 3], 4);
    assert_eq!(
        upload,
        AvatarUpload {
            original_name: "a_original_4.jpg".to_string(),
            original: vec![1],
            display_name: "a_display_4.jpg".to_string(),
            display: vec![2, 3],
        }
    );
}
