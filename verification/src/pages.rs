//! The pages that the web server shows: for each, its template and what the template is filled
//! with.

use tera::Context;

use vstd::prelude::*;

use crate::json::JsonView;

verus! {

/// A JSON value of the `serde_json` crate.
#[verifier::external_type_specification]
#[verifier::external_body]
pub struct ExValue(serde_json::Value);

/// The tree that a `serde_json::Value` is.
pub uninterp spec fn value_tree(value: serde_json::Value) -> JsonView;

/// The context of the `tera` crate: what a template is filled with.
#[verifier::external_type_specification]
#[verifier::external_body]
pub struct ExContext(tera::Context);

/// The entries of a context: a JSON value by its name.
pub uninterp spec fn context_entries(context: Context) -> Map<Seq<char>, JsonView>;

/// Calls `Context::new`: a context without entries.
#[verifier::external_body]
fn new_context() -> (context: Context)
    ensures
        context_entries(context) == (Map::<Seq<char>, JsonView>::empty()),
{
    Context::new()
}

/// Calls `Context::insert` with a text. The entry becomes that text, the others stay.
#[verifier::external_body]
fn insert_text(context: &mut Context, key: &str, val: &str)
    ensures
        context_entries(*final(context)) == context_entries(*old(context)).insert(
            key@,
            JsonView::Text(val@),
        ),
{
    context.insert(key, val)
}

/// Calls `Context::insert` with a number. The entry becomes that number, the others stay.
#[verifier::external_body]
fn insert_number(context: &mut Context, key: &str, val: u32)
    ensures
        context_entries(*final(context)) == context_entries(*old(context)).insert(
            key@,
            JsonView::Int(val as int),
        ),
{
    context.insert(key, &val)
}

/// Calls `Context::insert` with a JSON value. The entry becomes that value, the others stay.
#[verifier::external_body]
fn insert_value(context: &mut Context, key: &str, val: &serde_json::Value)
    ensures
        context_entries(*final(context)) == context_entries(*old(context)).insert(
            key@,
            value_tree(*val),
        ),
{
    context.insert(key, val)
}

/// A page: the name of its template, and what the template is filled with.
pub struct Page {
    pub template: String,
    pub context: Context,
}

/// The page about the language server: the process that it runs as.
pub fn debug_page(pid: u32) -> (page: Page)
    ensures
        page.template@ == "debug.html"@,
        context_entries(page.context) == map!["pid"@ => JsonView::Int(pid as int)],
{
    let mut context = new_context();
    insert_number(&mut context, "pid", pid);
    Page { template: "debug.html".to_owned(), context }
}

/// The file of the project that the page about a document shows. Whatever the path of the page, it
/// is the main file.
pub fn document_file(_path: &str) -> (file: &'static str)
    ensures
        file@ == "src/main.rs"@,
{
    "src/main.rs"
}

/// What the page about a document is filled with.
pub open spec fn document_entries(
    path: Seq<char>,
    content: Seq<char>,
    symbols: JsonView,
) -> Map<Seq<char>, JsonView> {
    map![
        "path"@ => JsonView::Text(path),
        "content"@ => JsonView::Text(content),
        "symbols"@ => symbols,
    ]
}

/// The page about a document: its path, its text and the symbols in it.
pub fn document_page(path: &str, content: &str, symbols: &serde_json::Value) -> (page: Page)
    ensures
        page.template@ == "document.html"@,
        context_entries(page.context) == document_entries(path@, content@, value_tree(*symbols)),
        context_entries(page.context) == map![
            "path"@ => JsonView::Text(path@),
            "content"@ => JsonView::Text(content@),
            "symbols"@ => value_tree(*symbols),
        ],
{
    let mut context = new_context();
    insert_text(&mut context, "path", path);
    insert_text(&mut context, "content", content);
    insert_value(&mut context, "symbols", symbols);
    Page { template: "document.html".to_owned(), context }
}

/// The text to search the symbols of the workspace for: what the request asks for, or the empty
/// text.
pub fn symbol_query(q: Option<String>) -> (query: String)
    ensures
        query@ == match q {
            Some(q) => q@,
            None => Seq::<char>::empty(),
        },
{
    match q {
        Some(q) => q,
        None => String::new(),
    }
}

/// The page about the symbols of the workspace: the text that was searched for, and the symbols
/// that were found.
pub fn symbol_page(query: &str, symbols: &serde_json::Value) -> (page: Page)
    ensures
        page.template@ == "workspace/symbol.html"@,
        context_entries(page.context) == map![
            "query"@ => JsonView::Text(query@),
            "symbols"@ => value_tree(*symbols),
        ],
{
    let mut context = new_context();
    insert_text(&mut context, "query", query);
    insert_value(&mut context, "symbols", symbols);
    Page { template: "workspace/symbol.html".to_owned(), context }
}

/// The pages of a document under two paths differ in the path alone, which each page shows as it
/// was asked for.
pub proof fn law_pages_differ_in_the_path_alone(
    path: Seq<char>,
    other: Seq<char>,
    content: Seq<char>,
    symbols: JsonView,
)
    ensures
        document_entries(path, content, symbols).remove("path"@) == document_entries(
            other,
            content,
            symbols,
        ).remove("path"@),
        document_entries(path, content, symbols).contains_pair("path"@, JsonView::Text(path)),
{
    reveal_strlit("path");
    reveal_strlit("content");
    reveal_strlit("symbols");
    let page = document_entries(path, content, symbols);
    assert("path"@.len() == 4 && "content"@.len() == 7 && "symbols"@.len() == 7);
    assert(page.remove("path"@) =~= document_entries(other, content, symbols).remove("path"@));
}

} // verus!
