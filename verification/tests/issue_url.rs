use github_issue_url::error::Error;
use github_issue_url::Issue;
use url::Url;

const GITHUB_ISSUE_LINK: &str = "https://github.com/EstebanBorai/github-issue-url/issues/new?title=Null%3A+The+Billion+Dollar+Mistake&body=Null+is+a+flag.+It+represents+different+situations+depending+on+the+context+in+which+it+is+used+and+invoked.+This+yields+the+most+serious+error+in+software+development%3A+Coupling+a+hidden+decision+in+the+contract+between+an+object+and+who+uses+it.&template=bug_report.md&labels=bug%2Cproduction%2Chigh-severity&assignee=EstebanBorai&milestone=1&projects=1";
const SAMPLE_ISSUE_BODY: &str = r#"Null is a flag. It represents different situations depending on the context in which it is used and invoked. This yields the most serious error in software development: Coupling a hidden decision in the contract between an object and who uses it."#;

fn query_pairs(link: &str) -> Vec<(String, String)> {
    Url::parse(link)
        .unwrap()
        .query_pairs()
        .map(|(key, value)| (key.into_owned(), value.into_owned()))
        .collect()
}

fn pair(key: &str, value: &str) -> (String, String) {
    (key.to_string(), value.to_string())
}

#[test]
fn build_issue_url() {
    let mut have = Issue::new("github-issue-url", "EstebanBorai").unwrap();

    have.title("Null: The Billion Dollar Mistake");
    have.body(SAMPLE_ISSUE_BODY);
    have.template("bug_report.md");
    have.labels("bug,production,high-severity");
    have.assignee("EstebanBorai");
    have.milestone("1");
    have.projects("1");

    let have = have.url().unwrap();

    assert_eq!(have, GITHUB_ISSUE_LINK.to_string());
}

#[test]
fn return_error_if_repository_owner_is_invalid() {
    let have = Issue::new("github-issue-url", "");

    assert!(have.is_err());
    assert!(matches!(have, Err(Error::EmptyRepositoryOwner)));
    assert_eq!(
        String::from("Repository owner name is not defined"),
        have.err().unwrap().to_string()
    );
}

#[test]
fn return_error_if_repository_name_is_invalid() {
    let have = Issue::new("", "EstebanBorai");

    assert!(have.is_err());
    assert!(matches!(have, Err(Error::EmptyRepositoryName)));
    assert_eq!(
        String::from("Repository name is not defined"),
        have.err().unwrap().to_string()
    );
}

#[test]
fn empty_name_is_reported_before_empty_owner() {
    let have = Issue::new("", "");

    assert!(matches!(have, Err(Error::EmptyRepositoryName)));
}

#[test]
fn non_empty_name_and_owner_are_accepted() {
    assert!(Issue::new("r", "o").is_ok());
    assert!(Issue::new(" ", " ").is_ok());
    assert!(Issue::new("dépôt", "propriétaire").is_ok());
}

#[test]
fn link_without_fields_is_the_base_address() {
    let issue = Issue::new("github-issue-url", "EstebanBorai").unwrap();

    assert_eq!(
        issue.url().unwrap(),
        "https://github.com/EstebanBorai/github-issue-url/issues/new"
    );
}

#[test]
fn link_without_fields_has_no_question_mark() {
    let issue = Issue::new("verus", "verus-lang").unwrap();
    let link = issue.url().unwrap();

    assert!(!link.contains('?'));
    assert!(link.ends_with("/issues/new"));
}

#[test]
fn base_address_goes_through_the_parser() {
    let issue = Issue::new("my repo", "some owner").unwrap();

    assert_eq!(
        issue.url().unwrap(),
        "https://github.com/some%20owner/my%20repo/issues/new"
    );
}

#[test]
fn base_address_with_fields_goes_through_the_parser() {
    let mut issue = Issue::new("my repo", "some owner").unwrap();
    issue.title("x");

    assert_eq!(
        issue.url().unwrap(),
        "https://github.com/some%20owner/my%20repo/issues/new?title=x"
    );
}

#[test]
fn fields_come_in_the_order_of_the_setters() {
    let mut first = Issue::new("r", "o").unwrap();
    first.title("t");
    first.body("b");
    first.labels("l");

    let mut second = Issue::new("r", "o").unwrap();
    second.labels("l");
    second.body("b");
    second.title("t");

    assert_eq!(
        first.url().unwrap(),
        "https://github.com/o/r/issues/new?title=t&body=b&labels=l"
    );
    assert_eq!(
        second.url().unwrap(),
        "https://github.com/o/r/issues/new?labels=l&body=b&title=t"
    );
}

#[test]
fn every_setter_writes_its_own_key() {
    let mut issue = Issue::new("r", "o").unwrap();
    issue.assignee("a");
    issue.body("b");
    issue.labels("c");
    issue.milestone("d");
    issue.projects("e");
    issue.title("f");
    issue.template("g");

    assert_eq!(
        issue.url().unwrap(),
        "https://github.com/o/r/issues/new?assignee=a&body=b&labels=c&milestone=d&projects=e&title=f&template=g"
    );
}

#[test]
fn setting_a_field_extends_the_link_at_its_end() {
    let mut issue = Issue::new("r", "o").unwrap();
    let bare = issue.url().unwrap();
    issue.title("one two");
    let one = issue.url().unwrap();
    issue.milestone("3");
    let two = issue.url().unwrap();

    assert_eq!(one, format!("{}?title=one+two", bare));
    assert_eq!(two, format!("{}&milestone=3", one));
}

#[test]
fn link_is_the_same_when_built_twice() {
    let mut issue = Issue::new("github-issue-url", "EstebanBorai").unwrap();
    issue.title("Null: The Billion Dollar Mistake");
    issue.labels("bug,production");

    let first = issue.url().unwrap();
    let second = issue.url().unwrap();

    assert_eq!(first, second);
    assert_eq!(
        first,
        "https://github.com/EstebanBorai/github-issue-url/issues/new?title=Null%3A+The+Billion+Dollar+Mistake&labels=bug%2Cproduction"
    );
}

#[test]
fn field_set_twice_stands_twice() {
    let mut issue = Issue::new("r", "o").unwrap();
    issue.title("A");
    issue.title("B");

    assert_eq!(
        issue.url().unwrap(),
        "https://github.com/o/r/issues/new?title=A&title=B"
    );
}

#[test]
fn query_reads_back_as_the_fields() {
    let mut issue = Issue::new("github-issue-url", "EstebanBorai").unwrap();
    issue.title("Null: The Billion Dollar Mistake");
    issue.body("a&b=c d+e%f#g?h\n\"i\"");
    issue.labels("bug,production,high-severity");
    issue.title("Été à Zürich 漢字 🦀");
    issue.assignee("");

    let link = issue.url().unwrap();

    assert_eq!(
        query_pairs(&link),
        vec![
            pair("title", "Null: The Billion Dollar Mistake"),
            pair("body", "a&b=c d+e%f#g?h\n\"i\""),
            pair("labels", "bug,production,high-severity"),
            pair("title", "Été à Zürich 漢字 🦀"),
            pair("assignee", ""),
        ]
    );
}

#[test]
fn reserved_characters_are_escaped() {
    let mut issue = Issue::new("r", "o").unwrap();
    issue.body("a&b=c d+e%f#g?h/i:j,k~l");

    assert_eq!(
        issue.url().unwrap(),
        "https://github.com/o/r/issues/new?body=a%26b%3Dc+d%2Be%25f%23g%3Fh%2Fi%3Aj%2Ck%7El"
    );
}

#[test]
fn unreserved_characters_stand_for_themselves() {
    let mut issue = Issue::new("r", "o").unwrap();
    issue.title("AZaz09*-._");

    assert_eq!(
        issue.url().unwrap(),
        "https://github.com/o/r/issues/new?title=AZaz09*-._"
    );
}

#[test]
fn text_beyond_ascii_is_escaped_byte_by_byte() {
    let mut issue = Issue::new("r", "o").unwrap();
    issue.title("Été");
    issue.body("🦀");

    assert_eq!(
        issue.url().unwrap(),
        "https://github.com/o/r/issues/new?title=%C3%89t%C3%A9&body=%F0%9F%A6%80"
    );
}

#[test]
fn control_characters_are_escaped_with_two_digits() {
    let mut issue = Issue::new("r", "o").unwrap();
    issue.body("a\nb\tc\u{7f}");

    assert_eq!(
        issue.url().unwrap(),
        "https://github.com/o/r/issues/new?body=a%0Ab%09c%7F"
    );
}

#[test]
fn empty_value_is_kept() {
    let mut issue = Issue::new("r", "o").unwrap();
    issue.title("");
    issue.body("");

    assert_eq!(
        issue.url().unwrap(),
        "https://github.com/o/r/issues/new?title=&body="
    );
}

#[test]
fn fields_follow_a_query_that_the_owner_opens() {
    let mut issue = Issue::new("r", "o?x=1").unwrap();
    issue.title("t");

    assert_eq!(
        issue.url().unwrap(),
        "https://github.com/o?x=1/r/issues/new&title=t"
    );
}

#[test]
fn fields_stand_before_a_fragment_that_the_owner_opens() {
    let mut issue = Issue::new("r", "o#x").unwrap();
    issue.title("t");

    assert_eq!(
        issue.url().unwrap(),
        "https://github.com/o?title=t#x/r/issues/new"
    );
}

#[test]
fn checked_link_is_the_link() {
    let mut issue = Issue::new("github-issue-url", "EstebanBorai").unwrap();
    assert_eq!(
        issue.checked_url().unwrap().unwrap(),
        issue.url().unwrap()
    );

    issue.title("Null: The Billion Dollar Mistake");
    issue.projects("1,2");
    assert_eq!(
        issue.checked_url().unwrap().unwrap(),
        "https://github.com/EstebanBorai/github-issue-url/issues/new?title=Null%3A+The+Billion+Dollar+Mistake&projects=1%2C2"
    );
    assert_eq!(
        issue.checked_url().unwrap().unwrap(),
        issue.url().unwrap()
    );
}

#[test]
fn long_values_pass_through() {
    let long = "x y".repeat(50_000);
    let mut issue = Issue::new("r", "o").unwrap();
    issue.body(&long);

    let link = issue.checked_url().unwrap().unwrap();

    assert_eq!(
        link.len(),
        "https://github.com/o/r/issues/new?body=".len() + 150_000
    );
    assert_eq!(query_pairs(&link), vec![pair("body", &long)]);
}
