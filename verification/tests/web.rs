use aster::json::JsonValue;
use aster::tool::ToolError;
use aster::web::{
    bing_results, duckduckgo_results, first_search_service, generate_search_cache_key, google_results,
    service_after_failure, SearchResult, SearchService, WebFetchTool,
    WebSearchInput, WebSearchTool,
};

fn s(t: &str) -> JsonValue {
    JsonValue::String(t.to_string())
}

fn obj(es: Vec<(&str, JsonValue)>) -> JsonValue {
    JsonValue::Object(es.into_iter().map(|(k, v)| (k.to_string(), v)).collect())
}

fn hit(title: &str, url: &str) -> SearchResult {
    SearchResult { title: title.to_string(), url: url.to_string(), snippet: None, publish_date: None }
}

fn failed_message(e: ToolError) -> String {
    match e {
        ToolError::ExecutionFailed(m) => m,
        other => panic!("unexpected error: {:?}", other),
    }
}

fn output(r: aster::tool::ToolResult) -> String {
    assert!(r.success);
    r.output.unwrap()
}

#[test]
fn test_web_fetch_tool_creation() {
    let tool = WebFetchTool::new();
    assert_eq!(tool.name(), "WebFetch");
    assert!(!tool.description().is_empty());
}

#[test]
fn test_web_search_tool_creation() {
    let tool = WebSearchTool::new();
    assert_eq!(tool.name(), "WebSearch");
    assert!(!tool.description().is_empty());
}

#[test]
fn test_search_cache_key_generation() {
    let key1 = generate_search_cache_key("test query", &Some(vec!["example.com".to_string()]), &None);
    let key2 = generate_search_cache_key("test query", &Some(vec!["example.com".to_string()]), &None);
    let key3 = generate_search_cache_key("different query", &Some(vec!["example.com".to_string()]), &None);
    assert_eq!(key1, key2);
    assert_ne!(key1, key3);
}

#[test]
fn test_domain_extraction() {
    let tool = WebSearchTool::new();
    assert_eq!(tool.extract_domain("https://www.example.com/path"), "example.com");
    assert_eq!(tool.extract_domain("https://example.com"), "example.com");
    assert_eq!(tool.extract_domain("http://subdomain.example.com"), "subdomain.example.com");
    assert_eq!(tool.extract_domain("invalid-url"), "");
}

#[test]
fn test_domain_filtering() {
    let tool = WebSearchTool::new();
    let results = vec![hit("Example 1", "https://example.com/1"), hit("Test 1", "https://test.com/1")];

    let allowed = Some(vec!["example.com".to_string()]);
    let filtered = tool.apply_domain_filters(results.clone(), &allowed, &None);
    assert_eq!(filtered.len(), 1);
    assert_eq!(filtered[0].title, "Example 1");

    let blocked = Some(vec!["test.com".to_string()]);
    let filtered = tool.apply_domain_filters(results, &None, &blocked);
    assert_eq!(filtered.len(), 1);
    assert_eq!(filtered[0].title, "Example 1");
}

#[test]
fn cache_key_sorts_domains_and_normalises_the_query() {
    let a = generate_search_cache_key("  Rust Lang ", &Some(vec!["b.com".to_string(), "a.com".to_string()]), &None);
    assert_eq!(a, "rust lang|a.com,b.com|");
    let b = generate_search_cache_key("rust lang", &Some(vec!["a.com".to_string(), "b.com".to_string()]), &None);
    assert_eq!(a, b);
    let c = generate_search_cache_key("q", &None, &Some(vec!["z.org".to_string(), "m.org".to_string(), "m.org".to_string()]));
    assert_eq!(c, "q||m.org,m.org,z.org");
}

#[test]
fn filters_compare_domains_in_lowercase_and_ignore_empty_lists() {
    let tool = WebSearchTool::new();
    let results = vec![hit("A", "https://WWW.Example.COM/x"), hit("B", "https://other.org"), hit("C", "not a url")];
    let kept = tool.apply_domain_filters(results.clone(), &Some(vec!["EXAMPLE.com".to_string()]), &None);
    assert_eq!(kept.len(), 1);
    assert_eq!(kept[0].title, "A");
    let all = tool.apply_domain_filters(results.clone(), &Some(vec![]), &Some(vec![]));
    assert_eq!(all.len(), 3);
    let blocked = tool.apply_domain_filters(results, &None, &Some(vec!["other.org".to_string()]));
    assert_eq!(blocked.iter().map(|r| r.title.as_str()).collect::<Vec<_>>(), vec!["A", "C"]);
}

#[test]
fn duckduckgo_answer_lists_abstract_then_topics() {
    let mut topics = vec![obj(vec![("Text", s("Rust - a language")), ("FirstURL", s("https://d.example/rust"))])];
    let group: Vec<JsonValue> = (1..=4)
        .map(|i| obj(vec![("Text", s(&format!("T{} - more", i))), ("FirstURL", s(&format!("https://d.example/{}", i)))]))
        .collect();
    topics.push(obj(vec![("Name", s("Group")), ("Topics", JsonValue::Array(group))]));
    topics.push(obj(vec![("Text", s("no url"))]));
    let data = obj(vec![
        ("Abstract", s("Rust is a language.")),
        ("AbstractURL", s("https://rust-lang.org")),
        ("Heading", s("Rust")),
        ("RelatedTopics", JsonValue::Array(topics)),
    ]);
    let r = duckduckgo_results(&data);
    let titles: Vec<&str> = r.iter().map(|h| h.title.as_str()).collect();
    assert_eq!(titles, vec!["Rust", "Rust", "T1", "T2", "T3"]);
    assert_eq!(r[0].url, "https://rust-lang.org");
    assert_eq!(r[0].snippet.as_deref(), Some("Rust is a language."));
    assert_eq!(r[1].snippet.as_deref(), Some("Rust - a language"));
    assert_eq!(r[4].url, "https://d.example/3");
}

#[test]
fn duckduckgo_without_heading_or_with_empty_abstract() {
    let data = obj(vec![("Abstract", s("Text")), ("AbstractURL", s("https://x.example"))]);
    let r = duckduckgo_results(&data);
    assert_eq!(r.len(), 1);
    assert_eq!(r[0].title, "DuckDuckGo Instant Answer");
    let data = obj(vec![("Abstract", s("")), ("AbstractURL", s("https://x.example"))]);
    assert!(duckduckgo_results(&data).is_empty());
}

#[test]
fn duckduckgo_takes_ten_topics() {
    let topics: Vec<JsonValue> = (0..12)
        .map(|i| obj(vec![("Text", s(&format!("n{}", i))), ("FirstURL", s("https://u"))]))
        .collect();
    let data = obj(vec![("RelatedTopics", JsonValue::Array(topics))]);
    let r = duckduckgo_results(&data);
    assert_eq!(r.len(), 10);
    assert_eq!(r[9].title, "n9");
}

#[test]
fn bing_and_google_answers() {
    let pages = JsonValue::Array(vec![
        obj(vec![
            ("name", s("Page")),
            ("url", s("https://p.example")),
            ("snippet", s("about")),
            ("dateLastCrawled", s("2024-01-01")),
        ]),
        obj(vec![("name", s("No url"))]),
    ]);
    let data = obj(vec![("webPages", obj(vec![("value", pages)]))]);
    let r = bing_results(&data);
    assert_eq!(r.len(), 1);
    assert_eq!(r[0].publish_date.as_deref(), Some("2024-01-01"));
    assert!(bing_results(&obj(vec![])).is_empty());

    let items = JsonValue::Array(vec![obj(vec![("title", s("G")), ("link", s("https://g.example")), ("snippet", s("sn"))])]);
    let r = google_results(&obj(vec![("items", items)]));
    assert_eq!(r.len(), 1);
    assert_eq!(r[0].url, "https://g.example");
    assert_eq!(r[0].snippet.as_deref(), Some("sn"));
    assert_eq!(r[0].publish_date, None);
}

#[test]
fn search_listing_format() {
    let tool = WebSearchTool::new();
    let mut a = hit("A", "https://a.example");
    a.snippet = Some("first".to_string());
    a.publish_date = Some("2024".to_string());
    let b = hit("B", "https://b.example");
    let text = tool.format_search_results(&[a, b], "q");
    assert_eq!(
        text,
        "搜索查询: \"q\"\n\n1. [A](https://a.example)\n   first\n   发布时间: 2024\n\n2. [B](https://b.example)\n\n\n来源:\n- [A](https://a.example)\n- [B](https://b.example)\n"
    );
    assert_eq!(tool.format_search_results(&[], "none"), "搜索查询: \"none\"\n\n未找到结果。\n");
}

#[test]
fn search_replies() {
    let tool = WebSearchTool::new();
    let input = WebSearchInput {
        query: "q".to_string(),
        allowed_domains: Some(vec![]),
        blocked_domains: Some(vec![]),
    };
    assert_eq!(failed_message(tool.validate_input(&input).unwrap_err()), "不能同时指定 allowed_domains 和 blocked_domains");

    let allowed = Some(vec!["a.example".to_string(), "b.example".to_string()]);
    let (reply, cached) = tool.search_reply("q", &allowed, &None, Ok(vec![hit("X", "https://x.example")]));
    assert!(cached.unwrap().is_empty());
    assert_eq!(
        output(reply.unwrap()),
        "网络搜索: \"q\"\n\n应用域名过滤器后未找到结果。\n\n应用的过滤器:\n- 允许的域名: a.example, b.example\n- 阻止的域名: 无\n\n尝试调整您的域名过滤器或搜索查询。"
    );

    let (reply, _) = tool.search_reply("q", &None, &None, Ok(vec![]));
    assert!(output(reply.unwrap()).starts_with("网络搜索: \"q\"\n\n未找到结果。这可能是由于:\n1."));

    let (reply, cached) = tool.search_reply("q", &None, &None, Err("boom".to_string()));
    assert!(cached.is_none());
    assert_eq!(failed_message(reply.unwrap_err()), "搜索失败: boom");

    let (reply, cached) = tool.search_reply("q", &None, &None, Ok(vec![hit("X", "https://x.example")]));
    assert_eq!(cached.unwrap().len(), 1);
    assert_eq!(output(reply.unwrap()), "搜索查询: \"q\"\n\n1. [X](https://x.example)\n\n\n来源:\n- [X](https://x.example)\n");

    let r = tool.cached_reply(&[], "q", 125);
    assert_eq!(output(r), "搜索查询: \"q\"\n\n未找到结果。\n\n\n_[缓存结果，来自 2 分钟前]_");
}

#[test]
fn html_to_text_strips_tags_and_decodes_entities() {
    let tool = WebFetchTool::new();
    assert_eq!(tool.html_to_text("<p>Hello&nbsp;<b>World</b></p>\n\n  &amp; more "), "Hello  World & more");
    assert_eq!(tool.html_to_text("a <> b"), "a <> b");
    assert_eq!(tool.html_to_text("a<b"), "a<b");
    assert_eq!(tool.html_to_text("&lt;tag&gt; &quot;q&quot; &#x27;s&#x27;"), "<tag> \"q\" 's'");
    assert_eq!(tool.html_to_markdown("<script>alert(1)</script>Text"), "alert(1) Text");
}

#[test]
fn private_addresses() {
    let tool = WebFetchTool::new();
    for h in ["10.0.0.1", "172.16.5.4", "172.31.255.255", "192.168.1.1", "127.0.0.1", "169.254.1.1"] {
        assert!(tool.is_private_ip(h), "{}", h);
    }
    for h in ["172.32.0.1", "8.8.8.8", "010.0.0.1", "256.1.1.1", "1.2.3", "1.2.3.4.5", "example.com", "192.168.1"] {
        assert!(!tool.is_private_ip(h), "{}", h);
    }
}

#[test]
fn domain_safety() {
    let tool = WebFetchTool::new();
    assert_eq!(tool.check_domain_safety(Some("localhost")).unwrap_err(), "域名 localhost 因安全原因被禁止访问");
    assert_eq!(tool.check_domain_safety(Some("api.LOCALHOST")).unwrap_err(), "域名 api.LOCALHOST 因安全原因被禁止访问");
    assert_eq!(tool.check_domain_safety(Some("10.1.2.3")).unwrap_err(), "私有 IP 地址 10.1.2.3 被禁止访问");
    assert_eq!(tool.check_domain_safety(None).unwrap_err(), "无效的主机名");
    assert!(tool.check_domain_safety(Some("example.com")).is_ok());
    assert!(tool.check_domain_safety(Some("notlocalhost")).is_ok());
    assert_eq!(tool.check_target("http://127.0.0.1:8080/x").unwrap_err(), "域名 127.0.0.1 因安全原因被禁止访问");
    assert!(tool.check_target("not a url").unwrap_err().starts_with("无效的 URL: "));
    assert!(tool.check_target("https://example.com/page").is_ok());
}

#[test]
fn urls_move_to_https() {
    let tool = WebFetchTool::new();
    assert_eq!(tool.resolve_url("http://example.com").unwrap(), "https://example.com/");
    assert_eq!(tool.resolve_url("https://example.com/a").unwrap(), "https://example.com/a");
    assert!(failed_message(tool.resolve_url("::nonsense").unwrap_err()).starts_with("无效的 URL: "));
}

#[test]
fn response_bodies() {
    let tool = WebFetchTool::new();
    assert_eq!(
        tool.check_content_length(Some(10485761)).unwrap_err(),
        "响应体大小 (10485761 字节) 超过最大限制 (10485760 字节)"
    );
    assert!(tool.check_content_length(Some(10485760)).is_ok());
    assert!(tool.check_content_length(None).is_ok());
    assert_eq!(tool.process_body("{\"a\":1}", "application/json").unwrap(), "{\n  \"a\": 1\n}");
    assert_eq!(tool.process_body("not json", "application/json").unwrap(), "not json");
    assert_eq!(tool.process_body("<b>x</b>", "text/html; charset=utf-8").unwrap(), "x");
    assert_eq!(tool.process_body("<b>x</b>", "text/plain").unwrap(), "<b>x</b>");
    let big = "a".repeat(10485761);
    assert_eq!(
        tool.process_body(&big, "text/plain").unwrap_err(),
        "内容大小 (10485761 字节) 超过最大限制 (10485760 字节)"
    );
}

#[test]
fn fetch_replies() {
    let tool = WebFetchTool::new();
    let r = tool.fetch_reply("u", "p", Ok(("body".to_string(), "text/plain".to_string(), 200)));
    assert_eq!(output(r.unwrap()), "URL: u\n提示词: p\n\n--- 内容 ---\nbody");
    let r = tool.fetch_reply("u", "p", Ok(("x".to_string(), String::new(), 404)));
    assert_eq!(failed_message(r.unwrap_err()), "HTTP 错误: 404 Not Found");
    let r = tool.fetch_reply("u", "p", Ok(("x".to_string(), String::new(), 418)));
    assert_eq!(failed_message(r.unwrap_err()), "HTTP 错误: 418 Unknown Error");
    let r = tool.fetch_reply("u", "p", Err("timeout".to_string()));
    assert_eq!(failed_message(r.unwrap_err()), "获取失败: timeout");
    let r = tool.content_reply("u", "p", "c", true);
    assert_eq!(output(r), "URL: u\n提示词: p\n\n--- 内容 (缓存) ---\nc");
}

#[test]
fn long_content_is_cut() {
    let tool = WebFetchTool::new();
    let long = "a".repeat(100001);
    let text = output(tool.content_reply("u", "p", &long, false));
    let expected = format!("URL: u\n提示词: p\n\n--- 内容 ---\n{}...\n\n[内容已截断]", "a".repeat(100000));
    assert_eq!(text, expected);
    let wide = "中".repeat(40000);
    let text = output(tool.content_reply("u", "p", &wide, false));
    assert!(text.ends_with(&format!("{}...\n\n[内容已截断]", wide)));
    let short = "b".repeat(100000);
    assert!(output(tool.content_reply("u", "p", &short, false)).ends_with(&short));
}

#[test]
fn cache_key_does_not_depend_on_domain_order() {
    let a = generate_search_cache_key("Q", &Some(vec!["x.org".to_string(), "a.org".to_string(), "m.org".to_string()]), &None);
    let b = generate_search_cache_key(" q ", &Some(vec!["m.org".to_string(), "x.org".to_string(), "a.org".to_string()]), &None);
    assert_eq!(a, b);
}

#[test]
fn only_successful_fetches_are_cached() {
    let tool = WebFetchTool::new();
    assert_eq!(tool.content_to_cache(&Ok(("body".to_string(), "text/plain".to_string(), 200))), Some("body".to_string()));
    assert_eq!(tool.content_to_cache(&Ok(("gone".to_string(), "text/plain".to_string(), 404))), None);
    assert_eq!(tool.content_to_cache(&Err("timeout".to_string())), None);
}

#[test]
fn search_services_are_tried_in_order() {
    assert_eq!(first_search_service(true, true), SearchService::Bing);
    assert_eq!(first_search_service(false, true), SearchService::Google);
    assert_eq!(first_search_service(false, false), SearchService::DuckDuckGo);
    assert_eq!(service_after_failure(SearchService::Bing, true), Some(SearchService::Google));
    assert_eq!(service_after_failure(SearchService::Bing, false), Some(SearchService::DuckDuckGo));
    assert_eq!(service_after_failure(SearchService::Google, false), Some(SearchService::DuckDuckGo));
    assert_eq!(service_after_failure(SearchService::DuckDuckGo, true), None);
}
