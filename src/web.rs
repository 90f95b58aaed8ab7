//! What the result pages show of a record.
use crate::model::Repository;
use crate::readme::{lower_of, lowercase};
use vstd::prelude::*;

verus! {

/// The fields of a record that a result page shows, with the language's
/// lowercase form as its identifier.
#[derive(Debug, Clone, PartialEq, Eq)]
pub struct RepositoryViewModel {
    pub name: String,
    pub owner: String,
    pub url: String,
    pub description: Option<String>,
    pub language: Option<String>,
    pub language_id: Option<String>,
    pub topics: Option<Vec<String>>,
}

fn copy_text(s: &Option<String>) -> (r: Option<String>)
    ensures
        r == *s,
{
    match s {
        Some(t) => Some(t.clone()),
        None => None,
    }
}

fn copy_list(v: &Vec<String>) -> (r: Vec<String>)
    ensures
        r@ == v@,
{
    let mut r: Vec<String> = Vec::new();
    let mut i: usize = 0;
    while i < v.len()
        invariant
            i <= v@.len(),
            r@ == v@.take(i as int),
        decreases v@.len() - i,
    {
        r.push(v[i].clone());
        assert(v@.take(i + 1) =~= v@.take(i as int).push(v@[i as int]));
        i = i + 1;
    }
    assert(v@.take(i as int) =~= v@);
    r
}

impl RepositoryViewModel {
    /// The view of `value`: its name, its owner's login, its page address,
    /// description, language and topics, and the language in lowercase.
    pub fn from(value: &Repository) -> (r: RepositoryViewModel)
        ensures
            r.name == value.name,
            r.owner == value.owner.login,
            r.url == value.html_url,
            r.description == value.description,
            r.language == value.language,
            match value.language {
                Some(l) => r.language_id is Some && r.language_id->0@ == lower_of(l@),
                None => r.language_id is None,
            },
            match &value.topics {
                Some(t) => r.topics is Some && r.topics->0@ == t@,
                None => r.topics is None,
            },
    {
        let language_id = match &value.language {
            Some(l) => Some(lowercase(l.as_str())),
            None => None,
        };
        let topics = match &value.topics {
            Some(t) => Some(copy_list(t)),
            None => None,
        };
        RepositoryViewModel {
            name: value.name.clone(),
            owner: value.owner.login.clone(),
            url: value.html_url.clone(),
            description: copy_text(&value.description),
            language: copy_text(&value.language),
            language_id,
            topics,
        }
    }
}

} // verus!
