use muon::handlers::samicpp::files::{
    content_range, error_page, expand_template, file_kind, file_too_big, first_index_file, last_index_file,
    multipart_content_type, multipart_end, multipart_part_head, parse_ranges, plain_file_headers, platform,
    range_satisfiable, ranges_fit, read_plan, redirect_location, redirect_status, ByteRange, ClientAddress,
    FileKind, ReadPlan, TemplateVars,
};
use muon::handlers::samicpp::{MatchType, RouteConfig};
use muon::settings::OneOrMany;

fn conf() -> RouteConfig {
    let mut c = RouteConfig::default();
    c.match_type = MatchType::Always;
    c.directory = "site".to_string();
    c
}

#[test]
fn kinds_of_files() {
    let c = conf();
    assert_eq!(file_kind(&c, "x.blank"), FileKind::Blank);
    assert_eq!(file_kind(&c, "page.var.html"), FileKind::Variables);
    assert_eq!(file_kind(&c, "a.var.redirect"), FileKind::Variables);
    assert_eq!(file_kind(&c, "to.redirect"), FileKind::Redirect);
    assert_eq!(file_kind(&c, "other.link"), FileKind::Link);
    assert_eq!(file_kind(&c, "mod.ffi.so"), FileKind::FfiModule);
    assert_eq!(file_kind(&c, "mod.ffi.dylib"), FileKind::FfiModule);
    assert_eq!(file_kind(&c, "index.html"), FileKind::Regular);
}

#[test]
fn forbidden_files() {
    let mut c = conf();
    c.forbid = Some(r"^\.".to_string());
    assert_eq!(file_kind(&c, ".env"), FileKind::Forbidden);
    assert_eq!(file_kind(&c, "env"), FileKind::Regular);
    c.forbid = None;
    c.forbid_end = Some(OneOrMany::Many(vec![".key".to_string(), ".pem".to_string()]));
    assert_eq!(file_kind(&c, "tls.pem"), FileKind::Forbidden);
    c.forbid_end = None;
    // the start list is compared with the end of the name as well
    c.forbid_start = Some(OneOrMany::One("secret".to_string()));
    assert_eq!(file_kind(&c, "my.secret"), FileKind::Forbidden);
    assert_eq!(file_kind(&c, "secret.txt"), FileKind::Regular);
}

#[test]
fn error_pages() {
    let mut c = conf();
    c.e404_file = Some("404.html".to_string());
    let p = error_page(&c, "www", 404, "\"a/b\"", "reason", "detail");
    assert_eq!(p.status, 404);
    assert_eq!(p.status_text, "Not Found");
    assert_eq!(p.page_file.as_deref(), Some("www/site/404.html"));
    assert_eq!(p.body, "couldnt find \"a/b\"");
    let p = error_page(&c, "www", 409, "p", "no files found", "detail");
    assert_eq!(p.status_text, "Conflict");
    assert!(p.page_file.is_none());
    assert_eq!(p.body, "something went wrong. no files found");
    let p = error_page(&c, "www", 418, "p", "teapot", "short");
    assert_eq!(p.status_text, "Error");
    assert_eq!(p.body, "teapot short");
    assert_eq!(error_page(&c, "www", 400, "p", "r", "d").body, "broken request");
    assert_eq!(error_page(&c, "www", 403, "p", "r", "d").body, "forbidden");
    assert_eq!(error_page(&c, "www", 416, "p", "r", "d").status_text, "Range Not Satisfiable");
    assert_eq!(error_page(&c, "www", 500, "p", "r", "d").body, "something went wrong\r\nr");
    assert_eq!(error_page(&c, "www", 501, "p", "r", "d").body, "not implemented");
}

#[test]
fn plain_file_headers_by_name() {
    let h = plain_file_headers("archive.tar.gz");
    assert_eq!(h.encoding.as_deref(), Some("gzip"));
    assert_eq!(h.extension, "tar");
    assert!(h.disposition.is_none());
    assert!(h.late_encoding.is_none());
    let h = plain_file_headers("report.pdf.download.br");
    assert_eq!(h.encoding.as_deref(), Some("br"));
    assert_eq!(h.disposition.as_deref(), Some("attachment; filename=report.pdf"));
    assert_eq!(h.extension, "download");
    let h = plain_file_headers("x.gz.gz");
    assert_eq!(h.late_encoding.as_deref(), Some("gzip"));
    assert_eq!(h.extension, "gz");
    let h = plain_file_headers("README");
    assert_eq!(h.extension, "README");
}

#[test]
fn range_headers() {
    let v = vec!["bytes=0-99,200-,-100".to_string()];
    let r = parse_ranges(Some(&v), 1000).unwrap();
    assert_eq!(r, vec![
        ByteRange { start: 0, end: 99 },
        ByteRange { start: 200, end: 999 },
        ByteRange { start: 900, end: 999 },
    ]);
    let v = vec!["bytes=5,a-b,-,1-2-3".to_string(), "items=0-1".to_string(), "bytes=7-3".to_string()];
    let r = parse_ranges(Some(&v), 10).unwrap();
    assert_eq!(r, vec![ByteRange { start: 1, end: 2 }, ByteRange { start: 7, end: 3 }]);
    assert!(parse_ranges(None, 10).is_none());
    assert!(ranges_fit(&["bytes=-10".to_string()], 10));
    assert!(!ranges_fit(&["bytes=-11".to_string()], 10));
    assert!(!ranges_fit(&["bytes=0-".to_string()], 0));
    assert!(ranges_fit(&["bytes=0-5".to_string()], 0));
}

#[test]
fn range_checks_and_texts() {
    assert!(range_satisfiable(&ByteRange { start: 0, end: 10 }, 10));
    assert!(!range_satisfiable(&ByteRange { start: 7, end: 3 }, 10));
    assert!(!range_satisfiable(&ByteRange { start: 0, end: 11 }, 10));
    assert_eq!(content_range(&ByteRange { start: 200, end: 999 }, 1000), "bytes 200-999/1000");
    assert_eq!(multipart_content_type(), "multipart/byteranges; boundary=aGV5IGhvdyBhcmUgeW91");
    assert_eq!(
        multipart_part_head("text/plain", &ByteRange { start: 0, end: 9 }, 20),
        "--aGV5IGhvdyBhcmUgeW91\r\nContent-Type: text/plain\r\nContent-Range: bytes 0-9/20\r\n\r\n"
    );
    assert_eq!(multipart_end(), "--aGV5IGhvdyBhcmUgeW91--\r\n");
}

#[test]
fn reading_in_chunks() {
    assert_eq!(read_plan(10, 100, 0), ReadPlan::Whole);
    assert_eq!(read_plan(250, 100, 100), ReadPlan::Chunked { count: 2, remain: 50 });
    assert_eq!(read_plan(100, 100, 128), ReadPlan::Chunked { count: 0, remain: 100 });
    assert!(file_too_big(11, Some(10)));
    assert!(!file_too_big(10, Some(10)));
    assert!(!file_too_big(u64::MAX, None));
}

#[test]
fn redirects() {
    assert_eq!(redirect_status("to.301.redirect"), 301);
    assert_eq!(redirect_status("to.redirect"), 302);
    assert_eq!(redirect_status("a.b.redirect"), 302);
    assert_eq!(redirect_status("a.70000.redirect"), 302);
    assert_eq!(redirect_status("a.+307.redirect"), 307);
    assert_eq!(redirect_location("  https://example.com/\n \n"), "https://example.com/");
    assert_eq!(redirect_location("\u{3000}/a\nb\t"), "/ab");
}

#[test]
fn template_variables() {
    let v = TemplateVars {
        headers: vec![("host".to_string(), "a%b".to_string()), ("x-y".to_string(), "1".to_string())],
        address: ClientAddress::Named("1.2.3.4".to_string()),
        full_ip: "1.2.3.4:5".to_string(),
        path: "p/q".to_string(),
        host: "a%b".to_string(),
        is_secure: false,
        base_dir: "www".to_string(),
        user_agent: "Mozilla (X11; Linux x86_64)".to_string(),
        domain: "a%b".to_string(),
        version: "HTTP/1.1".to_string(),
    };
    let c = "%H-HOST% %H-X-Y% %IP% %FULL_IP% %PATH% %HOST% %SCHEME% %BASE_DIR% %PLATFORM% %VERSION% 100%";
    assert_eq!(
        expand_template(c, &v),
        "a%b 1 1.2.3.4 1.2.3.4:5 p/q a%b http www linux HTTP/1.1 100%"
    );
    let mut w = v;
    w.address = ClientAddress::Unnamed("unnamed %SCHEME%".to_string());
    assert_eq!(expand_template("%IP%", &w), "unnamed http");
}

#[test]
fn platforms() {
    assert_eq!(platform("Mozilla/5.0 (Windows NT 10.0)"), "windows");
    assert_eq!(platform("Mozilla/5.0 (Linux; Android 14)"), "android");
    assert_eq!(platform("curl/8.0"), "curl");
    assert_eq!(platform("Mozilla/5.0 (iPad; CPU OS)"), "ipad");
    assert_eq!(platform(""), "unknown");
}

#[test]
fn directory_index_files() {
    let entries = vec![
        ("readme.md".to_string(), true),
        ("docs".to_string(), false),
        ("docs.html".to_string(), true),
        ("index.html".to_string(), true),
    ];
    assert_eq!(first_index_file(&entries, "docs"), Some(2));
    assert_eq!(last_index_file(&entries, "docs"), Some(3));
    assert_eq!(first_index_file(&entries[..2], "docs"), None);
}
