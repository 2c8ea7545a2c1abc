//! Web search: result pages, instant answers and the course of a search.

use hope_core::json::{parse_json, Json};
use hope_core::web_search::duckduckgo::{extract_ddg_url, is_ddg_blocked, parse_ddg_results};
use hope_core::web_search::html::{html_decode, strip_html_tags};
use hope_core::web_search::instant_answer::{
    ddg_instant_answer, instant_answer_url, instant_answers, is_success,
};
use hope_core::web_search::percent::decode_or_keep;
use hope_core::web_search::result::SearchResult;
use hope_core::web_search::search::{
    ddg_freshness_param, ddg_headers, ddg_html_url, ddg_is_rate_limited, ddg_mark_rate_limited,
    page_body_outcome, page_status_outcome, DdgSearch, SearchStep,
};

fn result(title: &str, url: &str, snippet: &str) -> SearchResult {
    SearchResult {
        title: title.to_string(),
        url: url.to_string(),
        snippet: snippet.to_string(),
        source: "DuckDuckGo".to_string(),
    }
}

// ── Result pages ─────────────────────────────────────────────────

#[test]
fn test_parse_ddg_results_with_sample() {
    // Old format: href before class (historical DDG HTML)
    let html_old = r#"
        <div class="result results_links results_links_deep web-result">
            <div class="links_main links_deep result__body">
                <a rel="nofollow" href="//duckduckgo.com/l/?uddg=https%3A%2F%2Fwww.rust-lang.org%2F&rut=abc123" class="result__a">Rust Programming Language</a>
                <a class="result__snippet" href="//duckduckgo.com/l/?uddg=https%3A%2F%2Fwww.rust-lang.org%2F">A language empowering everyone to build reliable software.</a>
                <a class="result__url" href="//duckduckgo.com/l/?uddg=https%3A%2F%2Fwww.rust-lang.org%2F">rust-lang.org</a>
            </div>
        </div>
        "#;

    let results_old = parse_ddg_results(html_old, 10);
    assert!(!results_old.is_empty(), "Should parse old-format results");
    assert_eq!(results_old[0].url, "https://www.rust-lang.org/");
    assert_eq!(results_old[0].title, "Rust Programming Language");

    // New format: href after class (current DDG HTML)
    let html_new = r#"
        <h2 class="result__title">
            <a rel="nofollow" class="result__a" href="https://rust-lang.org/">Rust Programming Language</a>
        </h2>
        <h2 class="result__title">
            <a rel="nofollow" class="result__a" href="https://en.wikipedia.org/wiki/Rust_(programming_language)">Rust (programming language) - Wikipedia</a>
        </h2>
        <h2 class="result__title">
            <a rel="nofollow" class="result__a" href="https://www.w3schools.com/rust/index.php">Rust Tutorial - W3Schools</a>
        </h2>
        "#;

    let results_new = parse_ddg_results(html_new, 10);
    assert!(!results_new.is_empty(), "Should parse new-format results");
    assert_eq!(results_new.len(), 3);
    assert_eq!(results_new[0].url, "https://rust-lang.org/");
    assert_eq!(results_new[0].title, "Rust Programming Language");
    assert_eq!(results_new[1].url, "https://en.wikipedia.org/wiki/Rust_(programming_language)");
    assert_eq!(results_new[2].url, "https://www.w3schools.com/rust/index.php");

    // Mixed format in same page
    let html_mixed = r#"
        <a href="//duckduckgo.com/l/?uddg=https%3A%2F%2Fexample.com%2F1" class="result__a">Old Format Link</a>
        <a class="result__a" href="https://example.com/2">New Format Link</a>
        "#;

    let results_mixed = parse_ddg_results(html_mixed, 10);
    assert_eq!(results_mixed.len(), 2, "Should parse both old and new format");
    assert_eq!(results_mixed[0].url, "https://example.com/1");
    assert_eq!(results_mixed[1].url, "https://example.com/2");
}

#[test]
fn page_gives_snippets_and_shown_addresses() {
    let html = r#"
        <a class="result__a" href="https://a.example/">A &amp; <b>B</b></a>
        <a class="result__snippet" href="x">One <b>bold</b> &lt;word&gt; </a>
        <span class="result__url" > a.example </span>
        <a class="result__a" href="https://b.example/">B</a>
        <span class="result__url" > b.example/path </span>
        "#;
    assert_eq!(
        parse_ddg_results(html, 10),
        vec![
            result("A & B", "https://a.example/", "One bold <word>"),
            result("B", "https://b.example/", "b.example/path"),
        ]
    );
}

#[test]
fn smaller_limit_gives_the_first_results() {
    let html = r#"<a class="result__a" href="u1">1</a><a class="result__a" href="u2">2</a>"#;
    assert_eq!(parse_ddg_results(html, 0), Vec::new());
    assert_eq!(parse_ddg_results(html, 1), vec![result("1", "u1", "")]);
    assert_eq!(parse_ddg_results(html, 2).len(), 2);
    assert_eq!(parse_ddg_results(html, 9).len(), 2);
}

#[test]
fn unusable_links_are_passed_over() {
    let html = r#"class="result__a">no tag</a>
        <a class="result__a">no address</a>
        <a class="result__a" href="">empty address</a>
        <a class="result__a" href="javascript:x">script</a>
        <a class="result__a" href="u"> <i></i> </a>
        <a class="result__a" href="ok">fine</a>
        <a class="result__a" href="cut">never closed"#;
    assert_eq!(parse_ddg_results(html, 10), vec![result("fine", "ok", "")]);
}

#[test]
fn empty_snippet_gives_way_to_the_shown_address() {
    let html = r#"<a class="result__a" href="u">t</a><p class="result__snippet"></a>
        <i class="result__url">shown</i>"#;
    assert_eq!(parse_ddg_results(html, 5), vec![result("t", "u", "shown")]);
}

#[test]
fn redirects_lead_to_their_target() {
    assert_eq!(
        extract_ddg_url("//duckduckgo.com/l/?uddg=https%3A%2F%2Fx.example%2Fa%3Fb%3D%C3%A9&rut=1"),
        "https://x.example/a?b=é"
    );
    assert_eq!(extract_ddg_url("/l/?uddg=https%3a%2f%2fx"), "https://x");
    assert_eq!(extract_ddg_url("https://plain.example/"), "https://plain.example/");
    assert_eq!(extract_ddg_url("/relative"), "/relative");
    // Bytes that are no UTF-8 leave the text as it is.
    assert_eq!(extract_ddg_url("?uddg=%FF%FE&x"), "%FF%FE");
}

#[test]
fn escapes_need_two_digits() {
    assert_eq!(decode_or_keep("%41%4g%4"), "A%4g%4");
    assert_eq!(decode_or_keep("100%"), "100%");
    assert_eq!(decode_or_keep("%%41+b"), "%A+b");
    assert_eq!(decode_or_keep("é%C3%A9"), "éé");
}

#[test]
fn encoding_is_undone_by_decoding() {
    for text in ["", "a b&c=d/e?f#g%h+i", "日本語 ~-._", "\u{1F382}\n"] {
        let url = ddg_html_url(text, None);
        let encoded = url.strip_prefix("https://html.duckduckgo.com/html/?q=").unwrap();
        assert!(!encoded.contains('&'));
        assert_eq!(decode_or_keep(encoded), text);
    }
}

#[test]
fn homepage_is_taken_for_a_block() {
    let home = r#"<link rel="canonical" href="https://duckduckgo.com/">"#;
    assert!(is_ddg_blocked(home));
    assert!(!is_ddg_blocked(&format!("{}<a class=\"result__a\">", home)));
    assert!(!is_ddg_blocked(&format!("{} result-link", home)));
    assert!(!is_ddg_blocked(&format!("{} result__snippet", home)));
    assert!(!is_ddg_blocked("no canonical address"));
}

#[test]
fn tags_and_references_come_out_of_fragments() {
    assert_eq!(strip_html_tags("  <b>a</b> b <i class='x'>c</i>\n"), "a b c");
    assert_eq!(strip_html_tags("a < b > c"), "a  c");
    assert_eq!(strip_html_tags("cut <off"), "cut");
    assert_eq!(strip_html_tags(""), "");
    assert_eq!(
        html_decode("&lt;a&gt; &amp; &quot;b&quot; &#x27;c&#39;&nbsp;d &eacute; &"),
        "<a> & \"b\" 'c' d &eacute; &"
    );
    assert_eq!(html_decode("&amp;lt;"), "&lt;");
}

// ── Requests ─────────────────────────────────────────────────────

#[test]
fn freshness_becomes_a_parameter() {
    assert_eq!(ddg_freshness_param(Some("day")), "d");
    assert_eq!(ddg_freshness_param(Some("week")), "w");
    assert_eq!(ddg_freshness_param(Some("month")), "m");
    assert_eq!(ddg_freshness_param(Some("year")), "");
    assert_eq!(ddg_freshness_param(None), "");
}

#[test]
fn addresses_hold_the_encoded_query() {
    assert_eq!(
        ddg_html_url("rust & c++", Some("week")),
        "https://html.duckduckgo.com/html/?q=rust%20%26%20c%2B%2B&df=w"
    );
    assert_eq!(ddg_html_url("é", Some("never")), "https://html.duckduckgo.com/html/?q=%C3%A9");
    assert_eq!(
        instant_answer_url("1+1"),
        "https://api.duckduckgo.com/?q=1%2B1&format=json&no_html=1&skip_disambig=1"
    );
}

#[test]
fn requests_carry_browser_headers() {
    let headers = ddg_headers();
    assert_eq!(headers.len(), 7);
    assert_eq!(headers[1], ("Accept-Language", "en-US,en;q=0.9,zh-CN;q=0.8,zh;q=0.7"));
    assert_eq!(headers[6], ("Sec-Fetch-User", "?1"));
}

#[test]
fn cooldown_lasts_its_time() {
    let until = ddg_mark_rate_limited(1000);
    assert_eq!(until, 1030);
    assert!(ddg_is_rate_limited(until, 1000));
    assert!(ddg_is_rate_limited(until, 1029));
    assert!(!ddg_is_rate_limited(until, 1030));
    assert!(!ddg_is_rate_limited(0, 0));
}

#[test]
fn status_of_a_page_decides_before_its_body() {
    let limited = page_status_outcome(202, "202 Accepted").unwrap();
    assert!(limited.rate_limited);
    assert_eq!(limited.results.unwrap_err(), "DDG rate-limited (HTTP 202)");
    let failed = page_status_outcome(403, "403 Forbidden").unwrap();
    assert!(!failed.rate_limited);
    assert_eq!(
        failed.results.unwrap_err(),
        "DuckDuckGo HTML failed with status: 403 Forbidden"
    );
    assert!(page_status_outcome(199, "199").is_some());
    assert!(page_status_outcome(300, "300").is_some());
    assert!(page_status_outcome(200, "200 OK").is_none());
    assert!(page_status_outcome(299, "299").is_none());
}

#[test]
fn blocked_body_begins_the_cooldown() {
    let home = r#"<link rel="canonical" href="https://duckduckgo.com/">"#;
    let blocked = page_body_outcome(home, 5);
    assert!(blocked.rate_limited);
    assert_eq!(blocked.results.unwrap_err(), "DDG blocked (anti-bot redirect)");
    let fine = page_body_outcome(r#"<a class="result__a" href="u">t</a>"#, 5);
    assert!(!fine.rate_limited);
    assert_eq!(fine.results.unwrap(), vec![result("t", "u", "")]);
}

// ── Instant answers ──────────────────────────────────────────────

#[test]
fn answers_come_in_their_order() {
    let body = r#"{
        "AbstractText": "Rust is a language.", "AbstractURL": "https://w.example", "Heading": "Rust",
        "Answer": "42",
        "RelatedTopics": [
            {"Text": "Topic - more", "FirstURL": "https://t1.example"},
            {"Text": "", "FirstURL": "https://t2.example"},
            {"Name": "group"},
            {"Text": "Plain", "FirstURL": "https://t3.example"}
        ],
        "Results": [{"Text": "Site", "FirstURL": "https://r.example"}, {"Text": "no address"}]
    }"#;
    let expected = vec![
        result("Rust", "https://w.example", "Rust is a language."),
        result("the query — Instant Answer", "", "42"),
        result("Topic", "https://t1.example", "Topic - more"),
        result("Plain", "https://t3.example", "Plain"),
        result("Site", "https://r.example", ""),
    ];
    assert_eq!(ddg_instant_answer("the query", 200, body), expected);
    assert_eq!(instant_answers("the query", &parse_json(body).unwrap()), expected);
}

#[test]
fn failed_requests_give_no_answers() {
    let body = r#"{"Answer": "42"}"#;
    assert_eq!(ddg_instant_answer("q", 200, body).len(), 1);
    assert!(ddg_instant_answer("q", 500, body).is_empty());
    assert!(ddg_instant_answer("q", 304, body).is_empty());
    assert!(ddg_instant_answer("q", 200, "<html>").is_empty());
    assert!(ddg_instant_answer("q", 200, "[]").is_empty());
    assert!(is_success(200) && is_success(299) && !is_success(199) && !is_success(300));
}

#[test]
fn answers_are_few_and_short() {
    let topic = r#"{"Text": "t", "FirstURL": "u"}"#;
    let topics = vec![topic; 9].join(",");
    let body = format!(
        r#"{{"AbstractText": "{}", "AbstractURL": "u", "RelatedTopics": [{}], "Results": [{}]}}"#,
        "é".repeat(400),
        topics,
        topics
    );
    let answers = ddg_instant_answer("q", 200, &body);
    assert_eq!(answers.len(), 1 + 5 + 3);
    assert_eq!(answers[0].title, "Instant Answer");
    assert_eq!(answers[0].snippet, "é".repeat(300));
}

#[test]
fn members_of_other_kinds_are_passed_over() {
    let data = Json::Object(vec![
        ("Answer".into(), Json::Number("42".into())),
        ("RelatedTopics".into(), Json::Text("none".into())),
        ("Results".into(), Json::Null),
    ]);
    assert!(instant_answers("q", &data).is_empty());
}

// ── Course of a search ───────────────────────────────────────────

#[test]
fn full_page_needs_no_answers() {
    let mut search = DdgSearch::new(0, 1000);
    assert_eq!(search.next_step(), SearchStep::AskPage);
    search.page = Some(Ok(vec![
        result("1", "u1", ""),
        result("2", "u2", ""),
        result("2 again", "u2", ""),
        result("no address", "", "a"),
        result("no address", "", "b"),
    ]));
    assert_eq!(search.next_step(), SearchStep::Finish);
    let found = search.finish(10).unwrap();
    assert_eq!(
        found,
        vec![
            result("1", "u1", ""),
            result("2", "u2", ""),
            result("no address", "", "a"),
            result("no address", "", "b"),
        ]
    );
}

#[test]
fn short_page_is_supplemented() {
    let mut search = DdgSearch::new(1000, 1000);
    search.page = Some(Ok(vec![result("1", "u1", ""), result("2", "u2", "")]));
    assert_eq!(search.next_step(), SearchStep::AskAnswers);
    search.answers = Some(vec![
        result("answer to 1", "u1", ""),
        result("3", "u3", ""),
        result("3 again", "u3", ""),
    ]);
    assert_eq!(search.next_step(), SearchStep::Finish);
    let found = search.finish(10).unwrap();
    assert_eq!(found, vec![result("1", "u1", ""), result("2", "u2", ""), result("3", "u3", "")]);
}

#[test]
fn failed_page_falls_back_to_answers() {
    let mut search = DdgSearch::new(0, 1000);
    search.page = Some(Err("no luck".to_string()));
    assert_eq!(search.next_step(), SearchStep::AskAnswers);
    search.answers = Some(vec![result("a", "ua", ""), result("b", "ub", "")]);
    assert_eq!(search.finish(1).unwrap(), vec![result("a", "ua", "")]);

    let mut search = DdgSearch::new(0, 1000);
    search.page = Some(Err("no luck".to_string()));
    search.answers = Some(Vec::new());
    assert_eq!(search.finish(5).unwrap(), Vec::new());
}

#[test]
fn cooldown_asks_for_answers_only() {
    let mut search = DdgSearch::new(1030, 1029);
    assert_eq!(search.next_step(), SearchStep::AskAnswers);
    search.answers = Some(vec![result("a", "u", ""), result("b", "u", "")]);
    assert_eq!(search.next_step(), SearchStep::Finish);
    // The answers come as they are.
    assert_eq!(search.finish(1).unwrap().len(), 2);

    let mut search = DdgSearch::new(1030, 1029);
    search.answers = Some(Vec::new());
    assert_eq!(search.finish(5).unwrap_err(), "DuckDuckGo rate-limit cooldown active");
}
