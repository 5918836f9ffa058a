use lsp_web::hosts::{allowed_hosts, check_host, host_allowed, host_filter, InvalidHost, PORT};
use lsp_web::initialize::{file_url, initialize_params, Trace};
use lsp_web::pages::{debug_page, document_file, document_page, symbol_page, symbol_query};
use serde_json::Value;

#[test]
fn own_hosts_pass() {
    assert_eq!(8100, PORT);
    assert_eq!(vec!["127.0.0.1:8100", "localhost:8100"], allowed_hosts(PORT));
    assert_eq!(vec!["127.0.0.1:0", "localhost:0"], allowed_hosts(0));
    assert_eq!(vec!["127.0.0.1:65535", "localhost:65535"], allowed_hosts(65535));
    assert_eq!(Ok(()), check_host(PORT, "127.0.0.1:8100"));
    assert_eq!(Ok(()), check_host(PORT, "localhost:8100"));
}

#[test]
fn other_hosts_are_turned_away() {
    for host in ["", "localhost", "localhost:810", "Localhost:8100", "example.org:8100"] {
        assert_eq!(Err(InvalidHost), check_host(PORT, host));
        assert!(!host_allowed(&allowed_hosts(PORT), host));
    }
    assert_eq!("Invalid Host header", InvalidHost.message());
}

#[test]
fn host_filter_follows_the_test() {
    assert_eq!(Ok(()), host_filter(|host: &str| host.len() == 1, "a"));
    assert_eq!(Err(InvalidHost), host_filter(|host: &str| host.len() == 1, "ab"));
}

#[test]
fn paths_become_urls() {
    assert_eq!("file:///home/me/project", file_url("/home/me/project").as_str());
    assert_eq!("file:///a%20b/%C3%A9", file_url("/a b/\u{e9}").as_str());
    assert_eq!("file:///", file_url("").as_str());
    assert_eq!("file:///src/main.rs", file_url("src/main.rs").as_str());
}

#[test]
fn file_url_starts_from_the_root() {
    for base in ["file:///", "file://"] {
        let mut url = lsp_types::Url::parse(base).unwrap();
        assert_eq!("file:///", url.as_str());
        url.set_path("/some/path");
        assert_eq!(url, file_url("/some/path"));
    }
}

#[test]
fn client_introduces_itself() {
    let params = initialize_params(42, "/home/me");
    assert_eq!(Some(42), params.process_id);
    assert_eq!(Some("/home/me".to_string()), params.root_path);
    assert_eq!("file:///home/me", params.root_uri.unwrap().as_str());
    assert_eq!(None, params.initialization_options);
    assert_eq!(None, params.capabilities.workspace);
    assert_eq!(None, params.capabilities.text_document);
    assert_eq!(None, params.capabilities.window);
    assert_eq!(None, params.capabilities.experimental);
    assert_eq!(Some(Trace::Verbose), params.trace);
    assert_eq!(None, params.workspace_folders);
}

fn entries(context: &tera::Context) -> Vec<(String, Value)> {
    match serde_json::to_value(context).unwrap() {
        Value::Object(map) => map.into_iter().collect(),
        _ => panic!("a context is an object"),
    }
}

fn entry(name: &str, value: Value) -> (String, Value) {
    (name.to_string(), value)
}

#[test]
fn debug_page_shows_the_process() {
    let page = debug_page(99);
    assert_eq!("debug.html", page.template);
    assert_eq!(vec![entry("pid", Value::from(99))], entries(&page.context));
}

#[test]
fn document_page_shows_the_document() {
    let symbols = Value::Array(vec![Value::from("main"), Value::from(1.5), Value::Null]);
    let page = document_page("src/main.rs", "fn main() {}", &symbols);
    assert_eq!("document.html", page.template);
    assert_eq!(
        vec![
            entry("content", Value::from("fn main() {}")),
            entry("path", Value::from("src/main.rs")),
            entry("symbols", symbols),
        ],
        entries(&page.context)
    );
}

#[test]
fn pages_differ_in_the_path_alone() {
    let symbols = Value::Array(vec![Value::from("main")]);
    let pages = ["", "lib.rs"].map(|path| {
        assert_eq!("src/main.rs", document_file(path));
        document_page(path, "fn main() {}", &symbols)
    });
    let [first, second] = pages.map(|page| {
        assert_eq!("document.html", page.template);
        entries(&page.context)
    });
    assert_eq!(first[0], second[0]);
    assert_eq!(entry("path", Value::from("")), first[1]);
    assert_eq!(entry("path", Value::from("lib.rs")), second[1]);
    assert_eq!(first[2], second[2]);
}

#[test]
fn symbol_page_shows_the_symbols() {
    let page = symbol_page("ma", &Value::Array(vec![]));
    assert_eq!("workspace/symbol.html", page.template);
    assert_eq!(
        vec![entry("query", Value::from("ma")), entry("symbols", Value::Array(vec![]))],
        entries(&page.context)
    );
}

#[test]
fn query_defaults_to_nothing() {
    assert_eq!("", symbol_query(None));
    assert_eq!("ma", symbol_query(Some("ma".to_string())));
}
