//! The requests made of the remote collection.
//!
//! A request is a path below the repository and a list of query parameters.
//! Sending it is not done here: this module says what is asked, and turns
//! the answer's status into the library's errors (see
//! [`Error::from_status`](crate::error::Error::from_status)).

use vstd::prelude::*;
use vstd::string::StringExecFns;
use crate::text::{decimal, decimal_text, join, joined, texts};
use crate::time::{iso_date_text, Date};

verus! {

/// The most items that a page may be asked to hold.
pub const MAX_PER_PAGE: u8 = 100;

/// The order in which a listing is asked for.
#[derive(Clone, Copy, Debug, PartialEq, Eq, Structural)]
pub enum Direction {
    NewestFirst,
    OldestFirst,
}

impl Direction {
    /// The word for the direction in a query.
    pub open spec fn text(self) -> Seq<char> {
        match self {
            Direction::NewestFirst => "desc"@,
            Direction::OldestFirst => "asc"@,
        }
    }

    /// The word for the direction in a query.
    pub fn as_str(&self) -> (word: &'static str)
        ensures
            word@ == self.text(),
    {
        match self {
            Direction::NewestFirst => "desc",
            Direction::OldestFirst => "asc",
        }
    }
}

/// The field by which a listing is sorted.
#[derive(Clone, Copy, Debug, PartialEq, Eq, Structural)]
pub enum SortedBy {
    Created,
    Updated,
    Comments,
}

impl SortedBy {
    /// The word for the field in a query.
    pub open spec fn text(self) -> Seq<char> {
        match self {
            SortedBy::Created => "created"@,
            SortedBy::Updated => "updated"@,
            SortedBy::Comments => "comments"@,
        }
    }

    /// The word for the field in a query.
    pub fn as_str(&self) -> (word: &'static str)
        ensures
            word@ == self.text(),
    {
        match self {
            SortedBy::Created => "created",
            SortedBy::Updated => "updated",
            SortedBy::Comments => "comments",
        }
    }
}

/// One query parameter.
#[derive(Debug, PartialEq, Eq)]
pub struct Param {
    pub key: String,
    pub value: String,
}

impl View for Param {
    type V = (Seq<char>, Seq<char>);

    open spec fn view(&self) -> (Seq<char>, Seq<char>) {
        (self.key@, self.value@)
    }
}

/// The keys and values of `params`.
pub open spec fn pairs(params: Seq<Param>) -> Seq<(Seq<char>, Seq<char>)> {
    params.map_values(|param: Param| param@)
}

/// A parameter with the given key and value.
fn param(key: &str, value: String) -> (made: Param)
    ensures
        made@ == (key@, value@),
{
    Param { key: key.to_owned(), value }
}

/// The parameters that ask for page `page` of a listing with `per_page`
/// items a page, sorted as given, and restricted to the issues that carry
/// all of `labels` where there are any.
pub open spec fn page_pairs(
    page: u32,
    per_page: u8,
    labels: Seq<Seq<char>>,
    sorted_by: SortedBy,
    direction: Direction,
) -> Seq<(Seq<char>, Seq<char>)> {
    let always = seq![
        ("per_page"@, decimal(per_page as nat)),
        ("page"@, decimal(page as nat)),
        ("sort"@, sorted_by.text()),
        ("direction"@, direction.text()),
    ];
    if labels.len() > 0 {
        always.push(("labels"@, joined(labels, ","@)))
    } else {
        always
    }
}

/// The parameters that ask for page `page` of a listing of comments with
/// `per_page` items a page, made since the start of the day numbered by
/// `since` where one is given.
pub open spec fn comment_pairs(page: u32, per_page: u8, since: Option<int>) -> Seq<
    (Seq<char>, Seq<char>),
> {
    let always = seq![("per_page"@, decimal(per_page as nat)), ("page"@, decimal(page as nat))];
    match since {
        Some(day) => always.push(("since"@, iso_date_text(day) + "T00:00:00Z"@)),
        None => always,
    }
}

/// The path of the comments of the issue `issue_number`.
pub open spec fn comments_path_text(issue_number: u32) -> Seq<char> {
    "issues/"@ + decimal(issue_number as nat) + "/comments"@
}

/// The query that `pairs` make: each as key, `=` and value, with `&`
/// between them.
pub open spec fn query_text(pairs: Seq<(Seq<char>, Seq<char>)>) -> Seq<char> {
    joined(pairs.map_values(|pair: (Seq<char>, Seq<char>)| pair.0 + "="@ + pair.1), "&"@)
}

/// The address at which `path` is asked for with the query of `pairs`.
pub open spec fn url_text(path: Seq<char>, pairs: Seq<(Seq<char>, Seq<char>)>) -> Seq<char> {
    "https://api.github.com/repos/rust-lang/rust/"@ + path + "?"@ + query_text(pairs)
}

/// What is asked of the remote collection.
#[derive(Debug, PartialEq, Eq)]
pub struct Request {
    /// The path below the repository.
    pub path: String,
    pub params: Vec<Param>,
}

impl Request {
    /// The query of the request.
    pub fn query(&self) -> (query: String)
        ensures
            query@ == query_text(pairs(self.params@)),
    {
        let ghost write = |pair: (Seq<char>, Seq<char>)| pair.0 + "="@ + pair.1;
        let mut parts: Vec<String> = Vec::new();
        let mut i: usize = 0;
        while i < self.params.len()
            invariant
                i <= self.params@.len(),
                write == (|pair: (Seq<char>, Seq<char>)| pair.0 + "="@ + pair.1),
                texts(parts@) == pairs(self.params@).take(i as int).map_values(write),
            decreases self.params@.len() - i,
        {
            let mut part = self.params[i].key.clone();
            part.append("=");
            part.append(self.params[i].value.as_str());
            let ghost before = parts@;
            parts.push(part);
            proof {
                assert(texts(parts@) == texts(before).push(part@));
                assert(pairs(self.params@).take(i + 1).map_values(write) == pairs(
                    self.params@,
                ).take(i as int).map_values(write).push(write(self.params@[i as int]@)));
            }
            i += 1;
        }
        proof {
            assert(pairs(self.params@).take(i as int) == pairs(self.params@));
        }
        join(&parts, "&")
    }

    /// The address at which the request is made.
    pub fn url(&self) -> (url: String)
        ensures
            url@ == url_text(self.path@, pairs(self.params@)),
    {
        let query = self.query();
        let mut url = "https://api.github.com/repos/rust-lang/rust/".to_owned();
        url.append(self.path.as_str());
        url.append("?");
        url.append(query.as_str());
        url
    }
}

/// The request for page `page` of the listing at `path`. A page can be
/// asked to hold [`MAX_PER_PAGE`] items at most.
pub fn page_request(
    path: &str,
    page: u32,
    per_page: u8,
    labels: &Vec<String>,
    sorted_by: SortedBy,
    direction: Direction,
) -> (request: Request)
    requires
        per_page <= MAX_PER_PAGE,
    ensures
        request.path@ == path@,
        pairs(request.params@) == page_pairs(
            page,
            per_page,
            texts(labels@),
            sorted_by,
            direction,
        ),
{
    let mut params: Vec<Param> = Vec::new();
    params.push(param("per_page", decimal_text(per_page as u128)));
    params.push(param("page", decimal_text(page as u128)));
    params.push(param("sort", sorted_by.as_str().to_owned()));
    params.push(param("direction", direction.as_str().to_owned()));
    if labels.len() > 0 {
        params.push(param("labels", join(labels, ",")));
    }
    proof {
        assert(texts(labels@).len() == labels@.len());
        assert(pairs(params@) =~= page_pairs(
            page,
            per_page,
            texts(labels@),
            sorted_by,
            direction,
        ));
    }
    Request { path: path.to_owned(), params }
}

/// The request for page `page` of the events on issues, newest first.
pub fn event_page_request(page: u32, per_page: u8) -> (request: Request)
    requires
        per_page <= MAX_PER_PAGE,
    ensures
        request.path@ == "issues/events"@,
        pairs(request.params@) == page_pairs(
            page,
            per_page,
            Seq::empty(),
            SortedBy::Created,
            Direction::NewestFirst,
        ),
{
    let labels: Vec<String> = Vec::new();
    proof {
        assert(texts(labels@) == Seq::<Seq<char>>::empty());
    }
    page_request("issues/events", page, per_page, &labels, SortedBy::Created, Direction::NewestFirst)
}

/// The request for page `page` of the issues that carry all of `labels`.
pub fn issue_page_request(
    page: u32,
    per_page: u8,
    labels: &Vec<String>,
    sorted_by: SortedBy,
    direction: Direction,
) -> (request: Request)
    requires
        per_page <= MAX_PER_PAGE,
    ensures
        request.path@ == "issues"@,
        pairs(request.params@) == page_pairs(
            page,
            per_page,
            texts(labels@),
            sorted_by,
            direction,
        ),
{
    page_request("issues", page, per_page, labels, sorted_by, direction)
}

/// The request for page `page` of the comments on the issue
/// `issue_number`, made since the start of `since` where it is given.
pub fn comment_page_request(issue_number: u32, page: u32, per_page: u8, since: Option<Date>) -> (request:
    Request)
    ensures
        request.path@ == comments_path_text(issue_number),
        pairs(request.params@) == comment_pairs(
            page,
            per_page,
            match since {
                Some(date) => Some(date@),
                None => None,
            },
        ),
{
    let mut params: Vec<Param> = Vec::new();
    params.push(param("per_page", decimal_text(per_page as u128)));
    params.push(param("page", decimal_text(page as u128)));
    if let Some(date) = since {
        let mut start = date.iso_text();
        start.append("T00:00:00Z");
        params.push(param("since", start));
    }
    let mut path = "issues/".to_owned();
    path.append(decimal_text(issue_number as u128).as_str());
    path.append("/comments");
    proof {
        assert(pairs(params@) =~= comment_pairs(
            page,
            per_page,
            match since {
                Some(date) => Some(date@),
                None => None,
            },
        ));
    }
    Request { path, params }
}

} // verus!
