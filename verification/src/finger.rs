//! The directory-facing projection: the public WebFinger shape built from a
//! resolved actor name and the serving domain.

use vstd::prelude::*;

use vstd::string::StringExecFns;

verus! {

/// One link of a WebFinger answer.
#[derive(Debug, PartialEq)]
pub struct LinkPack {
    pub rel: String,
    pub typ: String,
    pub href: String,
}

/// The public WebFinger answer for one actor.
#[derive(Debug, PartialEq)]
pub struct User {
    pub subject: String,
    pub links: Vec<LinkPack>,
}

/// The canonical subject of an actor on a domain.
pub open spec fn subject_text(name: Seq<char>, domain: Seq<char>) -> Seq<char> {
    "acct:"@ + name + "@"@ + domain
}

/// The self link of an actor on a domain.
pub open spec fn self_href(name: Seq<char>, domain: Seq<char>) -> Seq<char> {
    "https://"@ + domain + "/users/"@ + name
}

/// Renders the WebFinger answer for a resolved actor name: the canonical
/// subject and exactly one self link of the ActivityPub type.
pub fn webfinger_user(name: &str, domain: &str) -> (u: User)
    ensures
        u.subject@ == subject_text(name@, domain@),
        u.links@.len() == 1,
        u.links@[0].rel@ == "self"@,
        u.links@[0].typ@ == "application/activity+json"@,
        u.links@[0].href@ == self_href(name@, domain@),
{
    let mut subject = "acct:".to_owned();
    subject.append(name);
    subject.append("@");
    subject.append(domain);
    let mut href = "https://".to_owned();
    href.append(domain);
    href.append("/users/");
    href.append(name);
    let link = LinkPack {
        rel: "self".to_owned(),
        typ: "application/activity+json".to_owned(),
        href,
    };
    let mut links: Vec<LinkPack> = Vec::new();
    links.push(link);
    User { subject, links }
}

} // verus!
