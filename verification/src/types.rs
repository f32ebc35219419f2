//! Issues and their keys.

use crate::case::{
    is_ascii, is_digit, is_lower, is_upper, lemma_uppercase_fixed, to_uppercase, uppercase,
};
use crate::error::Error;
use crate::key::{
    find_key, first_key, is_key, lemma_first_key_is, lemma_first_key_is_key, lemma_key_chars,
    lemma_leading_key,
};
use crate::text::{chars_of, decimal, push_decimal, slice, string_of};
use vstd::prelude::*;
use vstd::string::StringExecFns;

verus! {

/// The key that extraction finds in `text`: the first key of its upper case.
pub open spec fn extract(text: Seq<char>) -> Option<Seq<char>> {
    first_key(uppercase(text))
}

/// What extraction finds is a key, in capitals.
pub proof fn lemma_extract_is_key(text: Seq<char>)
    requires
        extract(text) is Some,
    ensures
        is_key(extract(text)->Some_0),
{
    lemma_first_key_is_key(uppercase(text));
}

/// A key goes through its text without loss: extraction on the text of a
/// key finds that key.
pub proof fn lemma_key_round_trip(key: Seq<char>)
    requires
        is_key(key),
    ensures
        extract(key) == Some(key),
{
    lemma_key_chars(key);
    assert forall|i: int| 0 <= i < key.len() implies is_ascii(#[trigger] key[i]) && !is_lower(
        key[i],
    ) by {
        assert(is_upper(key[i]) || is_digit(key[i]) || key[i] == '-');
    }
    lemma_uppercase_fixed(key);
    lemma_leading_key(key, Seq::empty());
    assert(key + Seq::<char>::empty() =~= key);
}

/// The key of an issue, as in `AB-123`.
#[derive(Debug, Clone, PartialEq, Eq)]
pub struct IssueKey(pub String);

impl View for IssueKey {
    type V = Seq<char>;

    open spec fn view(&self) -> Seq<char> {
        self.0@
    }
}

impl IssueKey {
    /// The text has the shape of a key. `try_from` returns only such keys.
    pub open spec fn is_valid(&self) -> bool {
        is_key(self@)
    }

    /// The first key in `upper`, which is taken as it is: a key in small
    /// letters is not found.
    pub fn first_in(upper: &Vec<char>) -> (r: Option<IssueKey>)
        ensures
            match r {
                Some(k) => first_key(upper@) == Some(k@) && k.is_valid(),
                None => first_key(upper@) is None,
            },
    {
        match find_key(upper) {
            Some((i, j)) => {
                proof {
                    lemma_first_key_is(upper@, i as int, j as int);
                    lemma_first_key_is_key(upper@);
                }
                Some(IssueKey(string_of(&slice(upper, i, j))))
            },
            None => None,
        }
    }

    /// Extracts a key from `value`. The search does not tell small letters
    /// from capitals; the key that it returns is in capitals. Of several
    /// keys it returns the first. The text of a key gives that key again.
    pub fn try_from(value: String) -> (r: Result<IssueKey, Error>)
        ensures
            match r {
                Ok(k) => extract(value@) == Some(k@) && k.is_valid(),
                Err(e) => e == Error::MalformedKey && extract(value@) is None,
            },
            is_key(value@) ==> r is Ok && r->Ok_0@ == value@,
    {
        let upper = to_uppercase(&chars_of(value.as_str()));
        proof {
            if is_key(value@) {
                lemma_key_round_trip(value@);
            }
        }
        match IssueKey::first_in(&upper) {
            Some(k) => Ok(k),
            None => Err(Error::MalformedKey),
        }
    }

    /// The key as text.
    pub fn to_string(&self) -> (r: String)
        ensures
            r@ == self@,
    {
        self.0.clone()
    }
}

/// The fields of an issue that a query asks for.
#[derive(Debug, Clone)]
pub struct PostIssueQueryResponseBodyFields {
    pub summary: String,
}

/// An issue, as a query returns it.
#[derive(Debug, Clone)]
pub struct Issue {
    pub expand: String,
    pub fields: PostIssueQueryResponseBodyFields,
    pub id: String,
    pub key: IssueKey,
    pub self_reference: String,
}

impl Issue {
    /// The key, a space, and the summary.
    pub open spec fn text(&self) -> Seq<char> {
        self.key@ + seq![' '] + self.fields.summary@
    }

    /// The issue as one line: its key, a space, and its summary.
    pub fn to_string(&self) -> (r: String)
        ensures
            r@ == self.text(),
    {
        let mut line = chars_of(self.key.0.as_str());
        line.push(' ');
        let mut summary = chars_of(self.fields.summary.as_str());
        line.append(&mut summary);
        string_of(&line)
    }
}

/// A user of the issue tracker.
#[derive(Debug, Clone)]
pub struct User {
    pub active: bool,
    pub display_name: String,
    pub deleted: Option<bool>,
    pub name: String,
}

/// The body of a request that assigns an issue to a user.
#[derive(Debug, Clone)]
pub struct PostAssignBody {
    pub name: String,
}

impl From<User> for PostAssignBody {
    fn from(value: User) -> (r: PostAssignBody) {
        PostAssignBody { name: value.name }
    }
}

impl vstd::std_specs::convert::FromSpecImpl<User> for PostAssignBody {
    open spec fn obeys_from_spec() -> bool {
        true
    }

    open spec fn from_spec(value: User) -> PostAssignBody {
        PostAssignBody { name: value.name }
    }
}

/// A saved filter.
#[derive(Debug, Clone)]
pub struct Filter {
    pub id: String,
    pub jql: String,
    pub name: String,
}

/// The answer to a search for filters.
#[derive(Debug, Clone)]
pub struct GetFilterResponseBody {
    pub max_results: u32,
    pub start_at: u32,
    pub total: u32,
    pub is_last: bool,
    pub filters: Vec<Filter>,
}

/// The queries of the filters from index `from` on, each behind
/// `separator`.
pub open spec fn joined_tail(filters: Seq<Filter>, separator: Seq<char>, from: int) -> Seq<char>
    decreases filters.len() - from,
{
    if from < 0 || from >= filters.len() {
        Seq::empty()
    } else {
        separator + "filter="@ + filters[from].id@ + joined_tail(filters, separator, from + 1)
    }
}

/// The query that asks for what any, or what all, of the filters hold: the
/// queries of the filters with ` OR ` or ` AND ` between them.
pub open spec fn joined_filters(filters: Seq<Filter>, inclusive: bool) -> Seq<char> {
    if filters.len() == 0 {
        Seq::empty()
    } else {
        "filter="@ + filters[0].id@ + joined_tail(
            filters,
            if inclusive {
                " OR "@
            } else {
                " AND "@
            },
            1,
        )
    }
}

impl Filter {
    /// The query that asks for what the filter holds.
    pub fn filter_query(filter: &Filter) -> (r: String)
        ensures
            r@ == "filter="@ + filter.id@,
    {
        let mut query = "filter=".to_owned();
        query.append(filter.id.as_str());
        query
    }

    /// The query that asks for what the filters hold: for what any of them
    /// holds if `inclusive`, else for what all of them hold.
    pub fn join(filters: &Vec<Filter>, inclusive: bool) -> (r: String)
        ensures
            r@ == joined_filters(filters@, inclusive),
    {
        let mut query = String::new();
        if filters.len() == 0 {
            return query;
        }
        let separator = if inclusive {
            " OR "
        } else {
            " AND "
        };
        query.append(Filter::filter_query(&filters[0]).as_str());
        let ghost head = query@;
        let mut i: usize = 1;
        assert(query@ =~= head + Seq::<char>::empty());
        while i < filters.len()
            invariant
                1 <= i <= filters.len(),
                head == "filter="@ + filters@[0].id@,
                separator@ == (if inclusive {
                    " OR "@
                } else {
                    " AND "@
                }),
                query@ + joined_tail(filters@, separator@, i as int) == head + joined_tail(
                    filters@,
                    separator@,
                    1,
                ),
            decreases filters.len() - i,
        {
            let ghost before = query@;
            query.append(separator);
            query.append(Filter::filter_query(&filters[i]).as_str());
            assert(query@ + joined_tail(filters@, separator@, i + 1) =~= before + joined_tail(
                filters@,
                separator@,
                i as int,
            ));
            i += 1;
        }
        assert(query@ + joined_tail(filters@, separator@, i as int) =~= query@);
        query
    }
}

/// What a search for the users that can be assigned asks for.
#[derive(Debug, Clone)]
pub struct GetAssignableUserParams {
    pub username: Option<String>,
    pub project: Option<String>,
    pub issue_key: Option<IssueKey>,
    pub max_results: Option<u32>,
}

/// `prefix` and the text, or nothing where there is no text.
pub open spec fn optional_part(prefix: Seq<char>, text: Option<Seq<char>>) -> Seq<char> {
    match text {
        Some(t) => prefix + t,
        None => Seq::empty(),
    }
}

impl GetAssignableUserParams {
    /// The query of the search, as it stands in the address: the most
    /// results, a thousand unless set, then the issue, the user name and the
    /// project, as far as they are given.
    pub open spec fn query_text(&self) -> Seq<char> {
        "maxResults="@ + decimal(
            match self.max_results {
                Some(n) => n as nat,
                None => 1000nat,
            },
        ) + optional_part(
            "&issueKey="@,
            match self.issue_key {
                Some(k) => Some(k@),
                None => None,
            },
        ) + optional_part(
            "&username="@,
            match self.username {
                Some(t) => Some(t@),
                None => None,
            },
        ) + optional_part(
            "&project="@,
            match self.project {
                Some(t) => Some(t@),
                None => None,
            },
        )
    }

    /// The query of the search. A search must name a project or an issue.
    pub fn query(&self) -> (r: Result<String, Error>)
        ensures
            match r {
                Ok(q) => (self.project is Some || self.issue_key is Some) && q@
                    == self.query_text(),
                Err(e) => e == Error::MissingScope && self.project is None && self.issue_key
                    is None,
            },
    {
        if self.project.is_none() && self.issue_key.is_none() {
            return Err(Error::MissingScope);
        }
        let mut query = "maxResults=".to_owned();
        let most: u32 = match self.max_results {
            Some(n) => n,
            None => 1000,
        };
        push_decimal(&mut query, most as u64);
        let ghost q0 = query@;
        match &self.issue_key {
            Some(key) => {
                query.append("&issueKey=");
                query.append(key.0.as_str());
            },
            None => {},
        }
        let ghost q1 = query@;
        assert(q1 =~= q0 + optional_part(
            "&issueKey="@,
            match self.issue_key {
                Some(k) => Some(k@),
                None => None,
            },
        ));
        match &self.username {
            Some(username) => {
                query.append("&username=");
                query.append(username.as_str());
            },
            None => {},
        }
        let ghost q2 = query@;
        assert(q2 =~= q1 + optional_part(
            "&username="@,
            match self.username {
                Some(t) => Some(t@),
                None => None,
            },
        ));
        match &self.project {
            Some(project) => {
                query.append("&project=");
                query.append(project.as_str());
            },
            None => {},
        }
        assert(query@ =~= q2 + optional_part(
            "&project="@,
            match self.project {
                Some(t) => Some(t@),
                None => None,
            },
        ));
        Ok(query)
    }
}

/// The body of a request that comments on an issue.
#[derive(Debug, Clone)]
pub struct PostCommentBody {
    pub body: String,
}

/// The body of a request that logs work on an issue.
#[derive(Debug, Clone)]
pub struct PostWorklogBody {
    pub comment: String,
    pub started: String,
    pub time_spent: Option<String>,
    pub time_spent_seconds: Option<String>,
}

impl PostWorklogBody {
    /// Whether the time is given exactly once: as text or in seconds.
    pub fn check(&self) -> (r: Result<(), Error>)
        ensures
            r is Ok <==> (self.time_spent is Some) != (self.time_spent_seconds is Some),
            r is Err ==> r == Err::<(), Error>(Error::MalformedWorklog),
    {
        if self.time_spent.is_some() == self.time_spent_seconds.is_some() {
            Err(Error::MalformedWorklog)
        } else {
            Ok(())
        }
    }
}

/// The body of a query for issues.
#[derive(Debug, Clone)]
pub struct PostIssueQueryBody {
    pub fields: Vec<String>,
    pub jql: String,
    pub max_results: u32,
    pub start_at: u32,
}

impl PostIssueQueryBody {
    /// The body that asks for the summaries of the issues that `query`
    /// finds, from the first on and `max_results` at most.
    pub fn new(query: &str, max_results: u32) -> (r: PostIssueQueryBody)
        ensures
            r.jql@ == query@,
            r.start_at == 0,
            r.max_results == max_results,
            r.fields@.len() == 1,
            r.fields@[0]@ == "summary"@,
    {
        let mut fields: Vec<String> = Vec::new();
        fields.push("summary".to_owned());
        PostIssueQueryBody { fields, jql: query.to_owned(), max_results, start_at: 0 }
    }
}

/// The answer to a query for issues.
#[derive(Debug, Clone)]
pub struct PostIssueQueryResponseBody {
    pub expand: Option<String>,
    pub issues: Option<Vec<Issue>>,
    pub max_results: Option<u32>,
    pub start_at: Option<u32>,
    pub total: Option<u32>,
}

impl PostIssueQueryResponseBody {
    /// The issues of the answer, if it holds any.
    pub fn found(self) -> (r: Result<Vec<Issue>, Error>)
        ensures
            match r {
                Ok(issues) => self.issues == Some(issues) && issues@.len() > 0,
                Err(e) => e == Error::NothingToSelect && (self.issues is None
                    || self.issues->Some_0@.len() == 0),
            },
    {
        match self.issues {
            Some(issues) => {
                if issues.len() == 0 {
                    Err(Error::NothingToSelect)
                } else {
                    Ok(issues)
                }
            },
            None => Err(Error::NothingToSelect),
        }
    }
}

/// A field that a transition asks for.
#[derive(Debug, Clone)]
pub struct TransitionExpandedFields {
    pub required: bool,
    pub name: String,
    pub operations: Vec<String>,
    pub allowed_values: Option<Vec<String>>,
    pub has_default_value: Option<bool>,
}

impl TransitionExpandedFields {
    /// The field must be filled in by hand: it is required and has no
    /// default.
    pub open spec fn needs_input(&self) -> bool {
        self.required && self.has_default_value != Some(true)
    }
}

/// A move of an issue from one state to another.
#[derive(Debug, Clone)]
pub struct Transition {
    /// The fields of the transition, each under its key.
    pub fields: Vec<(String, TransitionExpandedFields)>,
    pub id: String,
    pub name: String,
}

impl Transition {
    /// Whether a field of the transition must be filled in by hand.
    pub fn needs_input(&self) -> (r: bool)
        ensures
            r == exists|i: int| 0 <= i < self.fields@.len() && (#[trigger] self.fields@[i]).1.needs_input(),
    {
        let mut i: usize = 0;
        while i < self.fields.len()
            invariant
                i <= self.fields.len(),
                forall|j: int| 0 <= j < i ==> !(#[trigger] self.fields@[j]).1.needs_input(),
            decreases self.fields.len() - i,
        {
            let field = &self.fields[i].1;
            let filled = match field.has_default_value {
                Some(b) => b,
                None => false,
            };
            if field.required && !filled {
                return true;
            }
            i += 1;
        }
        false
    }

    /// The name of the transition.
    pub fn to_string(&self) -> (r: String)
        ensures
            r@ == self.name@,
    {
        self.name.clone()
    }
}

/// The answer to a query for the transitions of an issue.
#[derive(Debug, Clone)]
pub struct GetTransitionsBody {
    pub expand: String,
    pub transitions: Vec<Transition>,
}

/// The body of a request that moves an issue.
#[derive(Debug, Clone)]
pub struct PostTransitionBody {
    pub transition: Transition,
}

} // verus!
