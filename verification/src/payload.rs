//! Construction of the collaborator's request payloads and reading of its
//! raw responses.
//!
//! The service layer performs the network calls; the functions here build
//! the documents those calls send and read the documents they return, so
//! that every shape decision stands under a contract.

use vstd::prelude::*;
use vstd::string::StringExecFns;
use crate::blocks::{blocks_text, extract_text_from_blocks};
use crate::error::NotionMcpError;
use crate::strlib::{str_contains_char, str_starts_with};
use crate::value::{DocValue, is_text_value, spec_get, spec_items};

verus! {

/// Whether a key has the shape of a current integration token: the
/// `ntn_` or the `secret_` prefix.
pub open spec fn valid_api_key_format(key: Seq<char>) -> bool {
    ||| key.len() >= "ntn_"@.len() && key.take("ntn_"@.len() as int) == "ntn_"@
    ||| key.len() >= "secret_"@.len() && key.take("secret_"@.len() as int) == "secret_"@
}

/// Whether an API key carries one of the accepted prefixes; the client
/// bootstrap warns on a key of any other shape.
pub fn api_key_format_ok(key: &str) -> (r: bool)
    ensures
        r == valid_api_key_format(key@),
{
    str_starts_with(key, "ntn_") || str_starts_with(key, "secret_")
}

/// Whether `p` is the search payload for `query` and `limit`: the query,
/// the page size, and the fixed descending last-edited-time sort.
pub open spec fn is_search_payload(p: DocValue, query: Seq<char>, limit: u32) -> bool {
    match p {
        DocValue::Object(pairs) => {
            &&& pairs@.len() == 3
            &&& pairs@[0].0@ == "query"@
            &&& is_text_value(pairs@[0].1, query)
            &&& pairs@[1].0@ == "page_size"@
            &&& pairs@[1].1 == DocValue::Int(limit as i64)
            &&& pairs@[2].0@ == "sort"@
            &&& match pairs@[2].1 {
                DocValue::Object(sort) => {
                    &&& sort@.len() == 2
                    &&& sort@[0].0@ == "direction"@
                    &&& is_text_value(sort@[0].1, "descending"@)
                    &&& sort@[1].0@ == "timestamp"@
                    &&& is_text_value(sort@[1].1, "last_edited_time"@)
                },
                _ => false,
            }
        },
        _ => false,
    }
}

/// Builds the search request payload; an absent limit defaults to 10.
pub fn search_payload(query: &str, limit: Option<u32>) -> (r: DocValue)
    ensures
        is_search_payload(
            r,
            query@,
            match limit {
                Some(l) => l,
                None => 10,
            },
        ),
{
    let size: u32 = match limit {
        Some(l) => l,
        None => 10,
    };
    let mut sort: Vec<(String, DocValue)> = Vec::new();
    sort.push((String::from_str("direction"), DocValue::Text(String::from_str("descending"))));
    sort.push(
        (String::from_str("timestamp"), DocValue::Text(String::from_str("last_edited_time"))),
    );
    let mut pairs: Vec<(String, DocValue)> = Vec::new();
    pairs.push((String::from_str("query"), DocValue::Text(String::from_str(query))));
    pairs.push((String::from_str("page_size"), DocValue::Int(size as i64)));
    pairs.push((String::from_str("sort"), DocValue::Object(sort)));
    DocValue::Object(pairs)
}

/// Whether `p` is the database-query payload for `filter` and `limit`:
/// the page size, and the filter exactly when one was handed over.
pub open spec fn is_query_payload(p: DocValue, filter: Option<DocValue>, limit: u32) -> bool {
    match p {
        DocValue::Object(pairs) => {
            &&& pairs@.len() >= 1
            &&& pairs@[0].0@ == "page_size"@
            &&& pairs@[0].1 == DocValue::Int(limit as i64)
            &&& match filter {
                Some(f) => pairs@.len() == 2 && pairs@[1].0@ == "filter"@ && pairs@[1].1 == f,
                None => pairs@.len() == 1,
            }
        },
        _ => false,
    }
}

/// Builds the database-query request payload; an absent limit defaults
/// to 100.
pub fn query_payload(filter: Option<DocValue>, limit: Option<u32>) -> (r: DocValue)
    ensures
        is_query_payload(
            r,
            filter,
            match limit {
                Some(l) => l,
                None => 100,
            },
        ),
{
    let size: u32 = match limit {
        Some(l) => l,
        None => 100,
    };
    let mut pairs: Vec<(String, DocValue)> = Vec::new();
    pairs.push((String::from_str("page_size"), DocValue::Int(size as i64)));
    match filter {
        Some(f) => {
            pairs.push((String::from_str("filter"), f));
        },
        None => {},
    }
    DocValue::Object(pairs)
}

/// The parent reference key a page-creation payload uses: a parent id
/// holding a dash names a database, any other a page.
pub open spec fn parent_key(parent_id: Seq<char>) -> Seq<char> {
    if exists|i: int| 0 <= i < parent_id.len() && parent_id[i] == '-' {
        "database_id"@
    } else {
        "page_id"@
    }
}

/// Whether `p` is the page-creation payload for the given parent,
/// properties and optional children.
pub open spec fn is_create_payload(
    p: DocValue,
    parent_id: Seq<char>,
    props: DocValue,
    children: Option<Vec<DocValue>>,
) -> bool {
    match p {
        DocValue::Object(pairs) => {
            &&& pairs@.len() >= 2
            &&& pairs@[0].0@ == "parent"@
            &&& match pairs@[0].1 {
                DocValue::Object(par) => {
                    &&& par@.len() == 1
                    &&& par@[0].0@ == parent_key(parent_id)
                    &&& is_text_value(par@[0].1, parent_id)
                },
                _ => false,
            }
            &&& pairs@[1].0@ == "properties"@
            &&& pairs@[1].1 == props
            &&& match children {
                Some(cs) => pairs@.len() == 3 && pairs@[2].0@ == "children"@ && pairs@[2].1
                    == DocValue::Array(cs),
                None => pairs@.len() == 2,
            }
        },
        _ => false,
    }
}

/// Builds the page-creation request payload: the parent reference keyed
/// by the parent id's shape, the properties as handed over, and the
/// children exactly when some were handed over.
pub fn create_page_payload(parent_id: &str, properties: DocValue, children: Option<Vec<DocValue>>)
    -> (r: DocValue)
    ensures
        is_create_payload(r, parent_id@, properties, children),
{
    let key: &str = if str_contains_char(parent_id, '-') {
        "database_id"
    } else {
        "page_id"
    };
    let mut par: Vec<(String, DocValue)> = Vec::new();
    par.push((String::from_str(key), DocValue::Text(String::from_str(parent_id))));
    let mut pairs: Vec<(String, DocValue)> = Vec::new();
    pairs.push((String::from_str("parent"), DocValue::Object(par)));
    pairs.push((String::from_str("properties"), properties));
    match children {
        Some(cs) => {
            pairs.push((String::from_str("children"), DocValue::Array(cs)));
        },
        None => {},
    }
    DocValue::Object(pairs)
}

/// Whether `p` is the page-update payload for the given properties.
pub open spec fn is_update_payload(p: DocValue, props: DocValue) -> bool {
    match p {
        DocValue::Object(pairs) => {
            &&& pairs@.len() == 1
            &&& pairs@[0].0@ == "properties"@
            &&& pairs@[0].1 == props
        },
        _ => false,
    }
}

/// Builds the page-update request payload around the properties as
/// handed over.
pub fn update_page_payload(properties: DocValue) -> (r: DocValue)
    ensures
        is_update_payload(r, properties),
{
    let mut pairs: Vec<(String, DocValue)> = Vec::new();
    pairs.push((String::from_str("properties"), properties));
    DocValue::Object(pairs)
}

/// The array under a response's `results` field, if any.
pub open spec fn spec_results(resp: DocValue) -> Option<Seq<DocValue>> {
    match spec_get(resp, "results"@) {
        Some(r) => spec_items(r),
        None => None,
    }
}

/// Reads the `results` array of a raw list response; a response without
/// one is a shape error.
pub fn results_of<'a>(resp: &'a DocValue) -> (r: Result<&'a Vec<DocValue>, NotionMcpError>)
    ensures
        match r {
            Ok(items) => spec_results(*resp) == Some(items@),
            Err(e) => {
                &&& spec_results(*resp) is None
                &&& e matches NotionMcpError::JsonParse(m) && m@ == "No se encontro campo 'results'"@
            },
        },
{
    match resp.get("results") {
        Some(v) => match v.as_array() {
            Some(items) => Ok(items),
            None => Err(
                NotionMcpError::JsonParse(String::from_str("No se encontro campo 'results'")),
            ),
        },
        None => Err(NotionMcpError::JsonParse(String::from_str("No se encontro campo 'results'"))),
    }
}

/// Reads a raw block-children response and projects its blocks to plain
/// text: the derived fetch-page-content-as-text operation, short of the
/// fetch itself.
pub fn content_text(resp: &DocValue) -> (r: Result<String, NotionMcpError>)
    ensures
        match r {
            Ok(s) => spec_results(*resp) matches Some(items) && s@ == blocks_text(items),
            Err(e) => {
                &&& spec_results(*resp) is None
                &&& e matches NotionMcpError::JsonParse(m) && m@ == "No se encontro campo 'results'"@
            },
        },
{
    match results_of(resp) {
        Ok(items) => Ok(extract_text_from_blocks(items)),
        Err(e) => Err(e),
    }
}

} // verus!
