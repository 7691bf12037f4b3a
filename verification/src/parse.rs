use vstd::prelude::*;
use crate::items::{function_names, ItemModel, ParsedItem};
use crate::items::collect_function_names;

verus! {

/// What parsing a source text yields: `None` when the text is not
/// syntactically valid, and otherwise the file's top-level items in
/// textual order, reduced to the item model. The result depends on the
/// text alone.
pub uninterp spec fn parsed_items_of(source: Seq<char>) -> Option<Seq<ItemModel>>;

/// Relies on `syn::parse_file`: whether a text parses, and which items the
/// parsed file holds, depend on the text alone, and `File::items` are the
/// file's top-level items in textual order — a declaration nested inside
/// another item's body is not among them. Each item is converted one
/// variant at a time; a function declaration keeps its name, read through
/// `proc_macro2::Ident`'s `Display`.
#[verifier::external_body]
fn parse_top_level_items(source: &str) -> (r: Option<Vec<ParsedItem>>)
    ensures
        match r {
            Some(items) => parsed_items_of(source@) == Some(
                items@.map_values(|it: ParsedItem| it@),
            ),
            None => parsed_items_of(source@) is None,
        },
{
    match syn::parse_file(source) {
        Ok(file) => Some(
            file.items.into_iter().map(|item| match item {
                syn::Item::Fn(f) => ParsedItem::Function { name: f.sig.ident.to_string() },
                _ => ParsedItem::Other,
            }).collect(),
        ),
        Err(_) => None,
    }
}

/// The one failure the lister can meet: the source text of the file at
/// `path` is not syntactically valid.
#[derive(Debug)]
pub struct ParseError {
    pub path: String,
}

/// Whether a source text is syntactically valid.
pub open spec fn parses(source: Seq<char>) -> bool {
    parsed_items_of(source) is Some
}

/// The names the lister returns on a text that parses: the names of the
/// top-level function declarations, in textual order.
pub open spec fn listed_names(source: Seq<char>) -> Seq<Seq<char>>
    recommends
        parses(source),
{
    function_names(parsed_items_of(source)->0)
}

/// List the names of the top-level function declarations of `source`, in
/// textual order; declarations nested inside another item do not appear.
/// Fails, naming `path`, exactly when `source` is not syntactically valid.
pub fn list_functions(path: &String, source: &str) -> (r: Result<Vec<String>, ParseError>)
    ensures
        match r {
            Ok(names) => parses(source@) && names@.map_values(|s: String| s@)
                == listed_names(source@),
            Err(e) => !parses(source@) && e.path@ == path@,
        },
{
    match parse_top_level_items(source) {
        Some(items) => Ok(collect_function_names(&items)),
        None => Err(ParseError { path: path.clone() }),
    }
}

} // verus!
