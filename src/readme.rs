//! Resolution of a repository's readme through its fallback chain.
use crate::model::ContentEntry;
use vstd::prelude::*;
use vstd::string::*;

verus! {

/// What `str::to_lowercase` makes of a string.
pub uninterp spec fn lower_of(s: Seq<char>) -> Seq<char>;

/// Relies on `str::to_lowercase`: the lowercase form of a string, which
/// depends on its characters alone.
#[verifier::external_body]
pub(crate) fn lowercase(s: &str) -> (r: String)
    ensures
        r@ == lower_of(s@),
{
    s.to_lowercase()
}

/// The prefix that marks a readme, in lowercase.
pub open spec fn readme_prefix() -> Seq<char> {
    seq!['r', 'e', 'a', 'd', 'm', 'e']
}

/// Whether an already lowercased name starts with `readme`.
pub open spec fn starts_with_readme(folded: Seq<char>) -> bool {
    folded.len() >= 6 && folded.take(6) == readme_prefix()
}

/// Whether a listing entry names a readme: its name, compared
/// case-insensitively, starts with `readme`.
pub open spec fn is_readme_entry(e: ContentEntry) -> bool {
    starts_with_readme(lower_of(e.name@))
}

/// Whether the lowercased name `folded` starts with `readme`.
pub fn has_readme_prefix(folded: &str) -> (r: bool)
    ensures
        r == starts_with_readme(folded@),
{
    let n = folded.unicode_len();
    if n < 6 {
        return false;
    }
    let expected = ['r', 'e', 'a', 'd', 'm', 'e'];
    let mut i: usize = 0;
    while i < 6
        invariant
            n == folded@.len(),
            n >= 6,
            i <= 6,
            expected@ == readme_prefix(),
            forall|j: int| 0 <= j < i ==> folded@[j] == readme_prefix()[j],
        decreases 6 - i,
    {
        if folded.get_char(i) != expected[i] {
            assert(folded@.take(6)[i as int] != readme_prefix()[i as int]);
            return false;
        }
        i = i + 1;
    }
    assert(folded@.take(6) =~= readme_prefix());
    true
}

/// The position of the first entry that names a readme, if any.
pub fn find_readme_entry(entries: &Vec<ContentEntry>) -> (r: Option<usize>)
    ensures
        match r {
            Some(i) => {
                &&& i < entries@.len()
                &&& is_readme_entry(entries@[i as int])
                &&& forall|j: int| 0 <= j < i ==> !is_readme_entry(#[trigger] entries@[j])
            },
            None => forall|j: int| 0 <= j < entries@.len() ==> !is_readme_entry(#[trigger] entries@[j]),
        },
{
    let mut i: usize = 0;
    while i < entries.len()
        invariant
            i <= entries@.len(),
            forall|j: int| 0 <= j < i ==> !is_readme_entry(#[trigger] entries@[j]),
        decreases entries@.len() - i,
    {
        let folded = lowercase(entries[i].name.as_str());
        if has_readme_prefix(folded.as_str()) {
            return Some(i);
        }
        i = i + 1;
    }
    None
}

/// The conventional place of a repository's readme on its default branch.
pub open spec fn default_readme_url_of(owner: Seq<char>, repo: Seq<char>) -> Seq<char> {
    "https://raw.githubusercontent.com/"@ + owner + "/"@ + repo + "/master/README.md"@
}

/// Builds the conventional readme address of `owner/repo`.
pub fn default_readme_url(owner: &str, repo: &str) -> (r: String)
    ensures
        r@ == default_readme_url_of(owner@, repo@),
{
    let mut url = String::from_str("https://raw.githubusercontent.com/");
    url.append(owner);
    url.append("/");
    url.append(repo);
    url.append("/master/README.md");
    url
}

/// Whether `i` is the position of the first entry that names a readme.
pub open spec fn is_first_readme(entries: Seq<ContentEntry>, i: int) -> bool {
    &&& 0 <= i < entries.len()
    &&& is_readme_entry(entries[i])
    &&& forall|j: int| 0 <= j < i ==> !is_readme_entry(#[trigger] entries[j])
}

/// The download address of the first entry that names a readme; absent where
/// no entry does, or where that entry has none.
pub open spec fn readme_download(entries: Seq<ContentEntry>) -> Option<String> {
    if exists|i: int| is_first_readme(entries, i) {
        entries[choose|i: int| is_first_readme(entries, i)].download_url
    } else {
        None
    }
}

/// Where a readme lookup stands. A lookup tries the conventional address
/// first, then the repository's listing, then the listed readme's download
/// address, and stops at the first that yields a body.
#[derive(Debug, Clone, PartialEq, Eq)]
pub enum ReadmeLookup {
    /// The conventional address is to be fetched.
    Direct,
    /// The repository's top-level listing is to be fetched.
    Listing,
    /// This download address of the readme entry is to be fetched.
    Download(String),
    /// The lookup is over, with the readme if one was found.
    Resolved(Option<String>),
}

/// The request that a readme lookup makes next.
#[derive(Debug, Clone, PartialEq, Eq)]
pub enum ReadmeRequest {
    /// Fetch the body at this address; a missing body is no error.
    FetchText(String),
    /// List the top-level contents of the repository.
    ListContents,
    /// Nothing more: the lookup is resolved.
    Done,
}

impl ReadmeLookup {
    /// The lookup after a fetched body (or its absence) came back.
    pub open spec fn after_fetched(self, body: Option<String>) -> ReadmeLookup {
        match self {
            ReadmeLookup::Direct => match body {
                Some(text) => ReadmeLookup::Resolved(Some(text)),
                None => ReadmeLookup::Listing,
            },
            ReadmeLookup::Download(_) => ReadmeLookup::Resolved(body),
            _ => self,
        }
    }

    /// The lookup after the repository's listing came back.
    pub open spec fn after_listed(self, entries: Seq<ContentEntry>) -> ReadmeLookup {
        match readme_download(entries) {
            Some(url) => ReadmeLookup::Download(url),
            None => ReadmeLookup::Resolved(None),
        }
    }

    /// A lookup that has not made any request yet.
    pub fn new() -> (r: ReadmeLookup)
        ensures
            r == ReadmeLookup::Direct,
    {
        ReadmeLookup::Direct
    }

    /// The request to make next for the repository `owner/repo`.
    pub fn request(&self, owner: &str, repo: &str) -> (r: ReadmeRequest)
        ensures
            match *self {
                ReadmeLookup::Direct => r is FetchText && r->FetchText_0@ == default_readme_url_of(owner@, repo@),
                ReadmeLookup::Listing => r is ListContents,
                ReadmeLookup::Download(url) => r == ReadmeRequest::FetchText(url),
                ReadmeLookup::Resolved(_) => r is Done,
            },
    {
        match self {
            ReadmeLookup::Direct => ReadmeRequest::FetchText(default_readme_url(owner, repo)),
            ReadmeLookup::Listing => ReadmeRequest::ListContents,
            ReadmeLookup::Download(url) => ReadmeRequest::FetchText(url.clone()),
            ReadmeLookup::Resolved(_) => ReadmeRequest::Done,
        }
    }

    /// Takes the body that a `FetchText` request brought, absent where the
    /// address had none.
    pub fn on_fetched(self, body: Option<String>) -> (r: ReadmeLookup)
        requires
            self is Direct || self is Download,
        ensures
            r == self.after_fetched(body),
    {
        match self {
            ReadmeLookup::Direct => match body {
                Some(text) => ReadmeLookup::Resolved(Some(text)),
                None => ReadmeLookup::Listing,
            },
            _ => ReadmeLookup::Resolved(body),
        }
    }

    /// Takes the listing that a `ListContents` request brought.
    pub fn on_listed(self, entries: &Vec<ContentEntry>) -> (r: ReadmeLookup)
        requires
            self is Listing,
        ensures
            r == self.after_listed(entries@),
    {
        match find_readme_entry(entries) {
            Some(i) => {
                assert(is_first_readme(entries@, i as int));
                assert forall|k: int| is_first_readme(entries@, k) implies k == i as int by {
                    if k < i as int {
                        assert(!is_readme_entry(entries@[k]));
                    } else if k > i as int {
                        assert(!is_readme_entry(entries@[i as int]));
                    }
                }
                match &entries[i].download_url {
                    Some(url) => ReadmeLookup::Download(url.clone()),
                    None => ReadmeLookup::Resolved(None),
                }
            },
            None => ReadmeLookup::Resolved(None),
        }
    }

    /// The resolved readme; absent where none was found or the lookup is not
    /// over.
    pub fn into_content(self) -> (r: Option<String>)
        ensures
            self is Resolved ==> r == self->Resolved_0,
            !(self is Resolved) ==> r is None,
    {
        match self {
            ReadmeLookup::Resolved(content) => content,
            _ => None,
        }
    }
}

/// When the conventional address has no readme, a listing whose first readme
/// entry (by case-insensitive name) has a download address leads to that
/// address, and the lookup resolves to whatever body it holds.
pub proof fn lemma_readme_fallback(entries: Seq<ContentEntry>, i: int, body: Option<String>)
    requires
        is_first_readme(entries, i),
        entries[i].download_url is Some,
    ensures
        ReadmeLookup::Direct.after_fetched(None) == ReadmeLookup::Listing,
        ReadmeLookup::Listing.after_listed(entries) == ReadmeLookup::Download(entries[i].download_url->0),
        ReadmeLookup::Download(entries[i].download_url->0).after_fetched(body) == ReadmeLookup::Resolved(body),
{
    assert forall|k: int| is_first_readme(entries, k) implies k == i by {
        if k < i {
            assert(!is_readme_entry(entries[k]));
        } else if k > i {
            assert(!is_readme_entry(entries[i]));
        }
    }
}

/// When neither the conventional address nor any listed entry yields a
/// readme, the lookup resolves to nothing.
pub proof fn lemma_readme_absent(entries: Seq<ContentEntry>)
    requires
        forall|j: int| 0 <= j < entries.len() ==> !is_readme_entry(#[trigger] entries[j]),
    ensures
        ReadmeLookup::Direct.after_fetched(None).after_listed(entries) == ReadmeLookup::Resolved(None),
{
}

} // verus!
