//! Decoding the repository listing of the hosting service, and the error
//! object it prints when the listing fails.
use vstd::prelude::*;
use crate::json::{Json, json_stream, json_document, decode_stream, decode_document};

verus! {

/// A repository of the account: its name, used as the local directory name,
/// and the URL that the mirror is cloned from.
#[derive(Debug)]
pub struct Repository {
    pub name: String,
    pub ssh_url: String,
}

impl View for Repository {
    type V = (Seq<char>, Seq<char>);

    open spec fn view(&self) -> (Seq<char>, Seq<char>) {
        (self.name@, self.ssh_url@)
    }
}

/// A structured failure reported by the hosting service.
#[derive(Debug)]
pub struct RemoteError {
    pub message: String,
    pub documentation_url: Option<String>,
}

impl View for RemoteError {
    type V = (Seq<char>, Option<Seq<char>>);

    open spec fn view(&self) -> (Seq<char>, Option<Seq<char>>) {
        (
            self.message@,
            match self.documentation_url {
                Some(u) => Some(u@),
                None => None,
            },
        )
    }
}

impl RemoteError {
    /// The error as a line for the user: the message, then the link to the
    /// documentation in parentheses where there is one.
    pub fn to_text(&self) -> (r: String)
        ensures
            r@ == "GitHub error: "@ + self.message@ + match self.documentation_url {
                Some(u) => " ("@ + u@ + ")"@,
                None => Seq::empty(),
            },
    {
        let head = "GitHub error: ".to_string().concat(self.message.as_str());
        match &self.documentation_url {
            Some(u) => head.concat(" (").concat(u.as_str()).concat(")"),
            None => {
                assert(head@ + Seq::<char>::empty() =~= head@);
                head
            },
        }
    }
}

/// Why a listing failed.
#[derive(Debug)]
pub enum ListError {
    /// The service answered with a structured error object.
    Remote(RemoteError),
    /// The output is not well-formed JSON.
    Syntax(serde_json::Error),
    /// Well-formed JSON, but not a sequence of pages of repositories.
    UnexpectedListing,
    /// Well-formed JSON, but not an error object.
    UnexpectedErrorObject,
}

/// Each repository as its name and URL.
pub open spec fn repos_view(v: Seq<Repository>) -> Seq<(Seq<char>, Seq<char>)> {
    v.map_values(|r: Repository| r@)
}

/// The value of the member `key` of an object. Decoded objects have each key
/// once; the last member wins otherwise.
pub open spec fn lookup(fields: Seq<(String, Json)>, key: Seq<char>) -> Option<Json>
    decreases fields.len(),
{
    if fields.len() == 0 {
        None
    } else if fields.last().0@ == key {
        Some(fields.last().1)
    } else {
        lookup(fields.drop_last(), key)
    }
}

pub open spec fn text_of(j: Option<Json>) -> Option<Seq<char>> {
    match j {
        Some(Json::Str(s)) => Some(s@),
        _ => None,
    }
}

/// A repository object: an object whose members `name` and `ssh_url` are
/// strings; other members are ignored.
pub open spec fn repository_of(j: Json) -> Option<(Seq<char>, Seq<char>)> {
    match j {
        Json::Object(fields) => match (
            text_of(lookup(fields@, "name"@)),
            text_of(lookup(fields@, "ssh_url"@)),
        ) {
            (Some(n), Some(u)) => Some((n, u)),
            _ => None,
        },
        _ => None,
    }
}

/// The repositories of a run of items, in order, if every item is one.
pub open spec fn items_of(items: Seq<Json>) -> Option<Seq<(Seq<char>, Seq<char>)>>
    decreases items.len(),
{
    if items.len() == 0 {
        Some(Seq::empty())
    } else {
        match (items_of(items.drop_last()), repository_of(items.last())) {
            (Some(p), Some(r)) => Some(p.push(r)),
            _ => None,
        }
    }
}

/// A page: an array of repository objects.
pub open spec fn page_of(j: Json) -> Option<Seq<(Seq<char>, Seq<char>)>> {
    match j {
        Json::Array(items) => items_of(items@),
        _ => None,
    }
}

/// The repositories of a sequence of pages, page after page, if every
/// document is a page.
pub open spec fn listing_of(docs: Seq<Json>) -> Option<Seq<(Seq<char>, Seq<char>)>>
    decreases docs.len(),
{
    if docs.len() == 0 {
        Some(Seq::empty())
    } else {
        match (listing_of(docs.drop_last()), page_of(docs.last())) {
            (Some(p), Some(q)) => Some(p + q),
            _ => None,
        }
    }
}

/// An error object: a string member `message` and a member
/// `documentation_url` that is a string, `null` or absent.
pub open spec fn remote_error_of(j: Json) -> Option<(Seq<char>, Option<Seq<char>>)> {
    match j {
        Json::Object(fields) => match text_of(lookup(fields@, "message"@)) {
            Some(m) => match lookup(fields@, "documentation_url"@) {
                None => Some((m, None)),
                Some(Json::Null) => Some((m, None)),
                Some(Json::Str(u)) => Some((m, Some(u@))),
                _ => None,
            },
            None => None,
        },
        _ => None,
    }
}

/// What decoding the output of a successful listing gives.
pub open spec fn listing_outcome(b: Seq<u8>, r: Result<Vec<Repository>, ListError>) -> bool {
    match json_stream(b) {
        None => r matches Err(ListError::Syntax(_)),
        Some(docs) => match listing_of(docs) {
            Some(l) => r matches Ok(v) && repos_view(v@) == l,
            None => r matches Err(ListError::UnexpectedListing),
        },
    }
}

/// What decoding the output of a failed listing gives.
pub open spec fn failure_outcome(b: Seq<u8>, e: ListError) -> bool {
    match json_document(b) {
        None => e matches ListError::Syntax(_),
        Some(doc) => match remote_error_of(doc) {
            Some(v) => e matches ListError::Remote(x) && x@ == v,
            None => e matches ListError::UnexpectedErrorObject,
        },
    }
}

fn lookup_field<'a>(fields: &'a Vec<(String, Json)>, key: &String) -> (r: Option<&'a Json>)
    ensures
        match r {
            Some(j) => lookup(fields@, key@) == Some(*j),
            None => lookup(fields@, key@) is None,
        },
{
    let mut i: usize = fields.len();
    assert(fields@.take(i as int) =~= fields@);
    while i > 0
        invariant
            i <= fields.len(),
            lookup(fields@, key@) == lookup(fields@.take(i as int), key@),
        decreases i,
    {
        let entry = &fields[i - 1];
        assert(fields@.take(i as int).drop_last() =~= fields@.take(i - 1));
        if entry.0 == *key {
            return Some(&entry.1);
        }
        i = i - 1;
    }
    None
}

fn text_field(fields: &Vec<(String, Json)>, key: &String) -> (r: Option<String>)
    ensures
        match r {
            Some(s) => text_of(lookup(fields@, key@)) == Some(s@),
            None => text_of(lookup(fields@, key@)) is None,
        },
{
    match lookup_field(fields, key) {
        Some(Json::Str(s)) => Some(s.clone()),
        _ => None,
    }
}

/// The repository that a JSON value describes, if it is a repository object.
pub fn repository_from_json(j: &Json) -> (r: Option<Repository>)
    ensures
        match r {
            Some(x) => repository_of(*j) == Some(x@),
            None => repository_of(*j) is None,
        },
{
    match j {
        Json::Object(fields) => {
            let name_key = "name".to_string();
            let url_key = "ssh_url".to_string();
            match (text_field(fields, &name_key), text_field(fields, &url_key)) {
                (Some(name), Some(ssh_url)) => Some(Repository { name, ssh_url }),
                _ => None,
            }
        },
        _ => None,
    }
}

/// Appends the repositories of one page to `out`; returns false, and leaves
/// what it appended so far, where the value is not a page.
fn append_page(j: &Json, out: &mut Vec<Repository>) -> (r: bool)
    ensures
        r == (page_of(*j) is Some),
        r ==> repos_view(final(out)@) == repos_view(old(out)@) + page_of(*j)->Some_0,
{
    match j {
        Json::Array(items) => {
            let ghost start = repos_view(out@);
            let mut i: usize = 0;
            while i < items.len()
                invariant
                    i <= items.len(),
                    page_of(*j) == items_of(items@),
                    items_of(items@.take(i as int)) is Some,
                    repos_view(out@) == start + items_of(items@.take(i as int))->Some_0,
                decreases items.len() - i,
            {
                assert(items@.take(i + 1).drop_last() =~= items@.take(i as int));
                match repository_from_json(&items[i]) {
                    Some(x) => {
                        let ghost before = out@;
                        out.push(x);
                        assert(repos_view(out@) =~= repos_view(before).push(x@));
                    },
                    None => {
                        assert(items@.take(i + 1).last() == items@[i as int]);
                        proof { lemma_items_prefix(items@, i as int + 1); }
                        return false;
                    },
                }
                i = i + 1;
            }
            assert(items@ =~= items@.take(i as int));
            true
        },
        _ => false,
    }
}

/// A run of items that holds a non-repository makes every longer run fail.
proof fn lemma_items_prefix(items: Seq<Json>, n: int)
    requires
        0 <= n <= items.len(),
        items_of(items.take(n)) is None,
    ensures
        items_of(items) is None,
    decreases items.len() - n,
{
    if n < items.len() {
        assert(items.take(n + 1).drop_last() =~= items.take(n));
        lemma_items_prefix(items, n + 1);
    } else {
        assert(items.take(n) =~= items);
    }
}

/// A run of documents that holds a non-page makes every longer run fail.
proof fn lemma_listing_prefix(docs: Seq<Json>, n: int)
    requires
        0 <= n <= docs.len(),
        listing_of(docs.take(n)) is None,
    ensures
        listing_of(docs) is None,
    decreases docs.len() - n,
{
    if n < docs.len() {
        assert(docs.take(n + 1).drop_last() =~= docs.take(n));
        lemma_listing_prefix(docs, n + 1);
    } else {
        assert(docs.take(n) =~= docs);
    }
}

/// The repositories of decoded pages, page after page, or `None` where a
/// document is not a page of repository objects.
pub fn repositories_from_documents(docs: &Vec<Json>) -> (r: Option<Vec<Repository>>)
    ensures
        match r {
            Some(v) => listing_of(docs@) == Some(repos_view(v@)),
            None => listing_of(docs@) is None,
        },
{
    let mut out: Vec<Repository> = Vec::new();
    let mut i: usize = 0;
    assert(repos_view(out@) =~= Seq::empty());
    while i < docs.len()
        invariant
            i <= docs.len(),
            listing_of(docs@.take(i as int)) == Some(repos_view(out@)),
        decreases docs.len() - i,
    {
        assert(docs@.take(i + 1).drop_last() =~= docs@.take(i as int));
        if !append_page(&docs[i], &mut out) {
            proof { lemma_listing_prefix(docs@, i as int + 1); }
            return None;
        }
        i = i + 1;
    }
    assert(docs@ =~= docs@.take(i as int));
    Some(out)
}

/// The error that a JSON value describes, if it is an error object.
pub fn remote_error_from_json(j: &Json) -> (r: Option<RemoteError>)
    ensures
        match r {
            Some(e) => remote_error_of(*j) == Some(e@),
            None => remote_error_of(*j) is None,
        },
{
    match j {
        Json::Object(fields) => {
            let message_key = "message".to_string();
            let doc_key = "documentation_url".to_string();
            match text_field(fields, &message_key) {
                Some(message) => match lookup_field(fields, &doc_key) {
                    None => Some(RemoteError { message, documentation_url: None }),
                    Some(Json::Null) => Some(RemoteError { message, documentation_url: None }),
                    Some(Json::Str(u)) => Some(
                        RemoteError { message, documentation_url: Some(u.clone()) },
                    ),
                    _ => None,
                },
                None => None,
            }
        },
        _ => None,
    }
}

/// Decodes the output of a successful listing: pages of repository objects,
/// one JSON array per page, flattened page after page.
pub fn parse_listing(stdout: &[u8]) -> (r: Result<Vec<Repository>, ListError>)
    ensures
        listing_outcome(stdout@, r),
{
    match decode_stream(stdout) {
        Err(e) => Err(ListError::Syntax(e)),
        Ok(docs) => match repositories_from_documents(&docs) {
            Some(v) => Ok(v),
            None => Err(ListError::UnexpectedListing),
        },
    }
}

/// Decodes the output of a failed listing: the service's error object, or
/// the reason why it is not one.
pub fn parse_error_object(stdout: &[u8]) -> (r: ListError)
    ensures
        failure_outcome(stdout@, r),
{
    match decode_document(stdout) {
        Err(e) => ListError::Syntax(e),
        Ok(doc) => match remote_error_from_json(&doc) {
            Some(x) => ListError::Remote(x),
            None => ListError::UnexpectedErrorObject,
        },
    }
}

/// The outcome of a listing from the exit status of the listing program and
/// what it printed. A failed run never yields repositories.
pub fn listing_result(succeeded: bool, stdout: &[u8]) -> (r: Result<Vec<Repository>, ListError>)
    ensures
        succeeded ==> listing_outcome(stdout@, r),
        !succeeded ==> (r matches Err(e) && failure_outcome(stdout@, e)),
{
    if succeeded {
        parse_listing(stdout)
    } else {
        Err(parse_error_object(stdout))
    }
}

/// Pagination does not matter: however the repositories are spread over the
/// pages, the listing holds every one of them, page after page and in order
/// within each page, and as many as the pages hold together.
pub proof fn lemma_listing_flattens_pages(
    docs: Seq<Json>,
    pages: Seq<Seq<(Seq<char>, Seq<char>)>>,
)
    requires
        docs.len() == pages.len(),
        forall|i: int| 0 <= i < docs.len() ==> page_of(#[trigger] docs[i]) == Some(pages[i]),
    ensures
        listing_of(docs) == Some(pages.flatten()),
        listing_of(docs)->Some_0.len() == pages.flatten_alt().len(),
    decreases docs.len(),
{
    pages.lemma_flatten_and_flatten_alt_are_equivalent();
    if docs.len() > 0 {
        let d = docs.drop_last();
        let p = pages.drop_last();
        assert forall|i: int| 0 <= i < d.len() implies page_of(#[trigger] d[i]) == Some(p[i]) by {
            assert(d[i] == docs[i]);
        }
        lemma_listing_flattens_pages(d, p);
        p.lemma_flatten_and_flatten_alt_are_equivalent();
        assert(page_of(docs.last()) == Some(pages.last()));
    }
}

/// A listing in which some document is not a page of repository objects
/// yields no repositories at all.
pub proof fn lemma_listing_all_or_nothing(docs: Seq<Json>, i: int)
    requires
        0 <= i < docs.len(),
        page_of(docs[i]) is None,
    ensures
        listing_of(docs) is None,
{
    assert(docs.take(i + 1).drop_last() =~= docs.take(i));
    assert(docs.take(i + 1).last() == docs[i]);
    lemma_listing_prefix(docs, i + 1);
}

} // verus!
