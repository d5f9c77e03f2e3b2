//! Links that open GitHub's "new issue" page with its form already filled in.
//!
//! GitHub reads the fields of a new issue from the query string of
//! `https://github.com/<owner>/<repository>/issues/new`. An [`Issue`] collects the
//! repository and the fields to fill in, and [`Issue::url`] renders the link:
//!
//! ```text
//! https://github.com/EstebanBorai/github-issue-url/issues/new?
//! title=Null%3A+The+Billion+Dollar+Mistake
//! &template=bug_report.md
//! &labels=bug%2Cproduction%2Chigh-severity
//! ```
//!
//! The base address goes through the parser of the `url` crate (see [`parser`]); the text of
//! the query is spelled out in [`query`].

use vstd::prelude::*;

pub mod error;
pub mod parser;
pub mod query;

use crate::error::{outcome, Error, ErrorView};
use crate::parser::{
    fits, is_bare, parse, parse_with_params, parsed_view, parsed_with_params, url_parse,
    MAX_URL_LEN,
};
use crate::query::{
    lemma_query_of_appended, lemma_query_text_push, lemma_query_text_reads_back, param_text,
    params_view, query_len_within, query_of, query_text, read_query, Param,
};
use vstd::string::StringExecFns;
use vstd::utf8::encode_utf8;

verus! {

/// The mathematical value of an [`Issue`].
pub ghost struct IssueView {
    /// The repository's name.
    pub repository_name: Seq<char>,
    /// The user or organisation that owns the repository.
    pub repository_owner: Seq<char>,
    /// The fields to fill in, as (key, value), in the order in which they were set.
    pub params: Seq<Param>,
}

impl IssueView {
    /// What [`Issue::new`] makes of a repository's name and owner: an issue with no field set
    /// where both are non-empty, else the error for the first of the two that is empty, the
    /// name coming first.
    pub open spec fn create(repository_name: Seq<char>, repository_owner: Seq<char>) -> Result<
        IssueView,
        ErrorView,
    > {
        if repository_name.len() == 0 {
            Err(ErrorView::EmptyRepositoryName)
        } else if repository_owner.len() == 0 {
            Err(ErrorView::EmptyRepositoryOwner)
        } else {
            Ok(IssueView { repository_name, repository_owner, params: Seq::empty() })
        }
    }

    /// The issue with one more field, set after those it has.
    pub open spec fn with_param(self, key: Seq<char>, value: Seq<char>) -> IssueView {
        IssueView { params: self.params.push((key, value)), ..self }
    }

    /// The address of the repository's "new issue" page, before it is parsed:
    /// `https://github.com/<owner>/<name>/issues/new`.
    pub open spec fn base_url(self) -> Seq<char> {
        "https://github.com/"@ + self.repository_owner + "/"@ + self.repository_name
            + "/issues/new"@
    }

    /// What the URL parser makes of this issue: the serialized URL, or the parser's message.
    ///
    /// With no field set, that is the parsed base address. With fields, they are added to its
    /// query, as [`parsed_with_params`] says.
    pub open spec fn parsed(self) -> Result<Seq<char>, Seq<char>> {
        if self.params.len() == 0 {
            url_parse(self.base_url())
        } else {
            parsed_with_params(self.base_url(), self.params)
        }
    }

    /// The link for this issue, or the error that reports why the URL parser refused it.
    pub open spec fn url(self) -> Result<Seq<char>, ErrorView> {
        spec_link_or_error(self.parsed())
    }

    /// Whether the link stays within the size that the URL parser can address, so that
    /// [`Issue::url`] may be called.
    pub open spec fn within_limits(self) -> bool {
        self.params.len() > 0 ==> fits(url_parse(self.base_url()), self.params)
    }
}

/// What becomes of the URL parser's answer: its URL is the link, and its message becomes an
/// [`ErrorView::UrlParseError`].
pub open spec fn spec_link_or_error(parsed: Result<Seq<char>, Seq<char>>) -> Result<
    Seq<char>,
    ErrorView,
> {
    match parsed {
        Ok(url) => Ok(url),
        Err(detail) => Err(ErrorView::UrlParseError(detail)),
    }
}

/// Turns the URL parser's answer into the library's: the serialized URL as it is, or the
/// parser's message wrapped in [`Error::UrlParseError`].
pub fn link_or_error(parsed: Result<String, String>) -> (link: Result<String, Error>)
    ensures
        outcome(link) == spec_link_or_error(parsed_view(parsed)),
{
    match parsed {
        Ok(url) => Ok(url),
        Err(detail) => Err(Error::UrlParseError(detail)),
    }
}

/// A new issue for a repository, with the fields to fill in.
///
/// Each setter appends one field; setting a field twice keeps both entries.
#[derive(Debug, PartialEq, Eq)]
pub struct Issue<'a> {
    repository_name: &'a str,
    repository_owner: &'a str,
    params: Vec<(&'a str, &'a str)>,
}

impl<'a> View for Issue<'a> {
    type V = IssueView;

    closed spec fn view(&self) -> IssueView {
        IssueView {
            repository_name: self.repository_name@,
            repository_owner: self.repository_owner@,
            params: params_view(self.params@),
        }
    }
}

impl<'a> Issue<'a> {
    /// What holds of every issue: neither the repository's name nor its owner is empty.
    ///
    /// [`Issue::new`] makes only such issues, and the setters leave both as they are.
    pub open spec fn wf(&self) -> bool {
        self@.repository_name.len() > 0 && self@.repository_owner.len() > 0
    }

    /// Starts an issue for the repository `repository_owner/repository_name`, with no field
    /// set.
    ///
    /// Both parts must be non-empty; the name is looked at first.
    pub fn new(repository_name: &'a str, repository_owner: &'a str) -> (created: Result<
        Self,
        Error,
    >)
        ensures
            outcome(created) == IssueView::create(repository_name@, repository_owner@),
            created matches Ok(issue) ==> issue.wf(),
    {
        if repository_name.is_empty() {
            return Err(Error::EmptyRepositoryName);
        }
        if repository_owner.is_empty() {
            return Err(Error::EmptyRepositoryOwner);
        }
        let issue = Issue { repository_name, repository_owner, params: Vec::new() };
        assert(issue@.params =~= Seq::empty());
        Ok(issue)
    }

    /// Appends one field.
    fn set(&mut self, key: &'static str, value: &'a str)
        ensures
            final(self)@ == old(self)@.with_param(key@, value@),
            final(self).wf() == old(self).wf(),
    {
        self.params.push((key, value));
        assert(self@.params =~= old(self)@.params.push((key@, value@)));
    }

    /// The username of the issue's assignee.
    ///
    /// GitHub honours it only where the author of the issue may write to the repository.
    pub fn assignee(&mut self, assignee: &'a str)
        ensures
            final(self)@ == old(self)@.with_param("assignee"@, assignee@),
            final(self).wf() == old(self).wf(),
    {
        self.set("assignee", assignee);
    }

    /// The text that the body of the issue starts with.
    pub fn body(&mut self, body: &'a str)
        ensures
            final(self)@ == old(self)@.with_param("body"@, body@),
            final(self).wf() == old(self).wf(),
    {
        self.set("body", body);
    }

    /// The labels of the issue, separated by commas, as in `bug,production,high-severity`.
    ///
    /// GitHub honours them only where the author of the issue may write to the repository.
    pub fn labels(&mut self, labels: &'a str)
        ensures
            final(self)@ == old(self)@.with_param("labels"@, labels@),
            final(self).wf() == old(self).wf(),
    {
        self.set("labels", labels);
    }

    /// The number of the milestone that the issue belongs to, as shown in the address of the
    /// milestone's page.
    ///
    /// GitHub honours it only where the author of the issue may write to the repository.
    pub fn milestone(&mut self, milestone: &'a str)
        ensures
            final(self)@ == old(self)@.with_param("milestone"@, milestone@),
            final(self).wf() == old(self).wf(),
    {
        self.set("milestone", milestone);
    }

    /// The numbers of the projects that the issue is added to, separated by commas.
    ///
    /// GitHub honours them only where the author of the issue may write to the repository.
    pub fn projects(&mut self, projects: &'a str)
        ensures
            final(self)@ == old(self)@.with_param("projects"@, projects@),
            final(self).wf() == old(self).wf(),
    {
        self.set("projects", projects);
    }

    /// The title of the issue.
    pub fn title(&mut self, title: &'a str)
        ensures
            final(self)@ == old(self)@.with_param("title"@, title@),
            final(self).wf() == old(self).wf(),
    {
        self.set("title", title);
    }

    /// The file name of the issue template to start from, as in `bug_report.md`.
    pub fn template(&mut self, template: &'a str)
        ensures
            final(self)@ == old(self)@.with_param("template"@, template@),
            final(self).wf() == old(self).wf(),
    {
        self.set("template", template);
    }

    /// The address of the repository's "new issue" page, before it is parsed.
    fn base_url(&self) -> (base: String)
        ensures
            base@ == self@.base_url(),
    {
        let mut base = String::from_str("https://github.com/");
        base.append(self.repository_owner);
        base.append("/");
        base.append(self.repository_name);
        base.append("/issues/new");
        base
    }

    /// The link that opens the repository's "new issue" page with the fields filled in.
    ///
    /// The base address goes through the URL parser, and the fields are added to its query in
    /// the order in which they were set; with no field set, nothing is added, not even `?`.
    /// The link fails only where the parser refuses the base address. It depends on nothing
    /// but the issue: built twice, it is the same.
    ///
    /// The URL parser cannot build a link beyond [`MAX_URL_LEN`], which is what
    /// [`IssueView::within_limits`] asks for; [`Issue::checked_url`] tests it.
    pub fn url(&self) -> (link: Result<String, Error>)
        requires
            self@.within_limits(),
        ensures
            outcome(link) == self@.url(),
            link is Ok <==> url_parse(self@.base_url()) is Ok,
    {
        let base = self.base_url();
        if self.params.len() == 0 {
            link_or_error(parse(base.as_str()))
        } else {
            link_or_error(parse_with_params(base.as_str(), &self.params))
        }
    }

    /// The link of [`Issue::url`] where it stays within the size that the URL parser can
    /// address, and nothing where it does not.
    pub fn checked_url(&self) -> (link: Option<Result<String, Error>>)
        ensures
            link is Some <==> self@.within_limits(),
            link matches Some(rendered) ==> outcome(rendered) == self@.url() && (rendered is Ok
                <==> url_parse(self@.base_url()) is Ok),
    {
        if self.params.len() > 0 {
            let base = self.base_url();
            if let Ok(url) = parse(base.as_str()) {
                let size = url.as_str().as_bytes().len();
                assert(size == encode_utf8(url@).len());
                if size as u64 >= MAX_URL_LEN {
                    return None;
                }
                let room: u64 = MAX_URL_LEN - 1 - size as u64;
                if query_len_within(&self.params, room).is_none() {
                    return None;
                }
            }
        }
        Some(self.url())
    }
}

/// With no field set, the link is the parsed base address, with no `?` behind it. Where the
/// URL parser leaves the base address as it is, the link is the base address itself.
pub proof fn lemma_link_without_fields(issue: IssueView)
    requires
        issue.params.len() == 0,
    ensures
        issue.url() == spec_link_or_error(url_parse(issue.base_url())),
        url_parse(issue.base_url()) == Ok::<Seq<char>, Seq<char>>(issue.base_url())
            ==> issue.url() == Ok::<Seq<char>, ErrorView>(issue.base_url()),
{
}

/// With fields set, and a parsed base address that has neither query nor fragment, the link
/// is the parsed base address, then `?`, then the fields as `key=value`, escaped, joined by
/// `&`, in the order in which they were set.
pub proof fn lemma_link_with_fields(issue: IssueView, address: Seq<char>)
    requires
        issue.params.len() > 0,
        url_parse(issue.base_url()) == Ok::<Seq<char>, Seq<char>>(address),
        is_bare(address),
    ensures
        issue.url() == Ok::<Seq<char>, ErrorView>(address + seq!['?'] + query_text(issue.params)),
{
}

/// Setting one more field extends the link at its end, and changes nothing before: by `?`
/// and the field where it is the first, by `&` and the field where others stand before it.
/// This holds where the parsed base address has neither query nor fragment.
pub proof fn lemma_link_grows_at_end(
    issue: IssueView,
    address: Seq<char>,
    key: Seq<char>,
    value: Seq<char>,
)
    requires
        url_parse(issue.base_url()) == Ok::<Seq<char>, Seq<char>>(address),
        is_bare(address),
    ensures
        issue.url() is Ok,
        issue.with_param(key, value).url() == Ok::<Seq<char>, ErrorView>(
            issue.url()->Ok_0 + seq![if issue.params.len() == 0 { '?' } else { '&' }]
                + param_text((key, value)),
        ),
{
    let field = param_text((key, value));
    let link = issue.with_param(key, value).url()->Ok_0;
    lemma_query_text_push(issue.params, (key, value));
    assert(issue.with_param(key, value).base_url() == issue.base_url());
    if issue.params.len() > 0 {
        assert(link =~= address + seq!['?'] + query_text(issue.params) + seq!['&'] + field);
    }
}

/// Setting a field twice keeps both entries, the first before the second: neither replaces
/// the other, in the fields or in the query string.
pub proof fn lemma_field_set_twice(
    issue: IssueView,
    key: Seq<char>,
    first: Seq<char>,
    second: Seq<char>,
)
    ensures
        issue.with_param(key, first).with_param(key, second).params == issue.params + seq![
            (key, first),
            (key, second),
        ],
        query_text(issue.with_param(key, first).with_param(key, second).params) == query_text(
            issue.with_param(key, first).params,
        ) + seq!['&'] + param_text((key, second)),
        read_query(query_text(issue.with_param(key, first).with_param(key, second).params))
            == issue.params + seq![(key, first), (key, second)],
{
    let once = issue.with_param(key, first);
    let twice = once.with_param(key, second);
    assert(twice.params =~= issue.params + seq![(key, first), (key, second)]);
    lemma_query_text_push(once.params, (key, second));
    lemma_query_text_reads_back(twice.params);
}

/// The query of the link reads back as the fields of the issue: the same keys and values, in
/// the order in which they were set. This holds where the parsed base address has neither
/// query nor fragment.
pub proof fn lemma_link_reads_back(issue: IssueView, address: Seq<char>)
    requires
        issue.params.len() > 0,
        url_parse(issue.base_url()) == Ok::<Seq<char>, Seq<char>>(address),
        is_bare(address),
    ensures
        issue.url() is Ok,
        query_of(issue.url()->Ok_0) == query_text(issue.params),
        read_query(query_of(issue.url()->Ok_0)) == issue.params,
{
    lemma_query_of_appended(address, issue.params);
    lemma_query_text_reads_back(issue.params);
}

} // verus!
