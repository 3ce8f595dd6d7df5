//! Comparing a Connect IQ search with `awesome.toml`: which source-code
//! URLs found by the search are not listed yet, by resource type, and the
//! report of them in the TOML file's own layout.

use vstd::prelude::*;
use crate::resource::{InvalidTypeId, ResourceType, type_of_id};
use crate::text::{decimal, decimal_u128, is_prefix, starts_with};
use crate::urls::{base_of, repo_base_url, url_parts};

verus! {

/// Why a search result stopped the comparison.
#[derive(Debug)]
pub enum CompareError {
    /// The website URL does not parse.
    Url(url::ParseError),
    /// The type id names no resource type.
    TypeId(InvalidTypeId),
}

/// What becomes of one search result.
#[derive(Clone, Copy, Debug, PartialEq, Eq, Structural)]
pub enum CompareOutcome {
    /// Not a new source-code URL.
    Skip,
    /// A new URL of this type.
    Add(ResourceType),
    /// The URL does not parse.
    BadUrl,
    /// The type id is unknown.
    BadType,
}

/// A website URL that points at GitHub or GitLab over https.
pub open spec fn is_repo_url(url: Seq<char>) -> bool {
    is_prefix("https://github"@, url) || is_prefix("https://gitlab"@, url)
}

/// What becomes of a search result with this website URL and type id when
/// `listed` holds the URLs of the TOML file: results without a GitHub or
/// GitLab website are skipped, as are those whose repository base URL is
/// listed; the others are added under their type.
pub open spec fn outcome_of(url: Seq<char>, type_id: Seq<char>, listed: Set<Seq<char>>) -> CompareOutcome {
    if url.len() == 0 || !is_repo_url(url) {
        CompareOutcome::Skip
    } else {
        match url_parts(url) {
            None => CompareOutcome::BadUrl,
            Some(p) => if listed.contains(base_of(p)) {
                CompareOutcome::Skip
            } else {
                match type_of_id(type_id) {
                    Some(t) => CompareOutcome::Add(t),
                    None => CompareOutcome::BadType,
                }
            },
        }
    }
}

/// A search result whose repository is already listed in the TOML file is
/// never reported, whatever its type id.
pub proof fn lemma_listed_repositories_are_skipped(url: Seq<char>, type_id: Seq<char>, listed: Set<Seq<char>>)
    requires
        url_parts(url) matches Some(p) && listed.contains(base_of(p)),
    ensures
        outcome_of(url, type_id, listed) == CompareOutcome::Skip,
{
}

/// The section a type's new URLs are reported in; the search only knows the
/// first five types.
pub open spec fn section_of(t: ResourceType) -> int {
    match t {
        ResourceType::WatchFace => 0,
        ResourceType::DataField => 1,
        ResourceType::Widget => 2,
        ResourceType::DeviceApp => 3,
        _ => 4,
    }
}

/// The header of each section.
pub open spec fn section_header(i: int) -> Seq<char> {
    if i == 0 {
        "watch_faces"@
    } else if i == 1 {
        "data_fields"@
    } else if i == 2 {
        "widgets"@
    } else if i == 3 {
        "device_apps"@
    } else {
        "audio_content_providers"@
    }
}

/// A new URL is reported under the TOML table of its type, the type's name
/// in the plural (`widgets` for a widget, `device_apps` for a device app),
/// and types with different Connect IQ type ids never share a section.
pub proof fn lemma_sections_are_toml_tables(id: Seq<char>, other: Seq<char>)
    requires
        type_of_id(id) is Some,
    ensures
        section_header(section_of(type_of_id(id)->0)) == crate::resource::kind_name(type_of_id(id)->0) + "s"@,
        type_of_id(other) is Some && type_of_id(other) != type_of_id(id)
            ==> section_of(type_of_id(other)->0) != section_of(type_of_id(id)->0),
{
    reveal_strlit("s");
    reveal_strlit("watch_face");
    reveal_strlit("watch_faces");
    reveal_strlit("data_field");
    reveal_strlit("data_fields");
    reveal_strlit("widget");
    reveal_strlit("widgets");
    reveal_strlit("device_app");
    reveal_strlit("device_apps");
    reveal_strlit("audio_content_provider");
    reveal_strlit("audio_content_providers");
    let t = type_of_id(id)->0;
    assert(section_header(section_of(t)) =~= crate::resource::kind_name(t) + "s"@);
}

/// `s` with `x` added unless it is there already.
pub open spec fn set_insert(s: Seq<Seq<char>>, x: Seq<char>) -> Seq<Seq<char>> {
    if s.contains(x) {
        s
    } else {
        s.push(x)
    }
}

/// Adding to a list without repetitions keeps it without repetitions.
pub proof fn lemma_set_insert_no_duplicates(s: Seq<Seq<char>>, x: Seq<char>)
    requires
        s.no_duplicates(),
    ensures
        set_insert(s, x).no_duplicates(),
        set_insert(s, x).to_set() == s.to_set().insert(x),
{
    if !s.contains(x) {
        let t = s.push(x);
        assert forall|i: int, j: int| 0 <= i < t.len() && 0 <= j < t.len() && i != j implies t[i] != t[j] by {
            if i == s.len() {
                assert(t[j] == s[j]);
                if s[j] == x {
                    assert(s.contains(x));
                }
            } else if j == s.len() {
                assert(t[i] == s[i]);
                if s[i] == x {
                    assert(s.contains(x));
                }
            } else {
                assert(t[i] == s[i] && t[j] == s[j]);
            }
        }
        s.lemma_push_to_set_commute(x);
    } else {
        assert(s.to_set() =~= s.to_set().insert(x));
    }
}

/// The URLs of a list as plain values.
pub open spec fn texts(v: Seq<String>) -> Seq<Seq<char>> {
    v.map_values(|s: String| s@)
}

/// The comparison so far: the URLs listed in the TOML file, and the new
/// URLs found for each of the five searchable types, each without
/// repetitions.
pub struct CompareState {
    listed: Vec<String>,
    found: Vec<Vec<String>>,
}

impl CompareState {
    /// The URLs listed in the TOML file.
    pub closed spec fn listed(&self) -> Set<Seq<char>> {
        texts(self.listed@).to_set()
    }

    /// The new URLs found for section `i`, in the order they were found.
    pub closed spec fn found(&self, i: int) -> Seq<Seq<char>> {
        texts(self.found@[i]@)
    }

    /// There are five sections, and no section holds a URL twice.
    pub closed spec fn wf(&self) -> bool {
        &&& self.found@.len() == 5
        &&& forall|i: int| 0 <= i < 5 ==> #[trigger] self.found(i).no_duplicates()
    }

    /// No section holds a URL twice: the sections are sets.
    pub proof fn lemma_sections_are_sets(&self, i: int)
        requires
            self.wf(),
            0 <= i < 5,
        ensures
            self.found(i).no_duplicates(),
    {
    }

    /// The number of new URLs found.
    pub open spec fn total(&self) -> int {
        sections_total(seq![self.found(0), self.found(1), self.found(2), self.found(3), self.found(4)])
    }

    /// Starts a comparison against the URLs of the TOML file.
    pub fn new(listed_urls: Vec<String>) -> (r: CompareState)
        ensures
            r.wf(),
            r.listed() == texts(listed_urls@).to_set(),
            forall|i: int| 0 <= i < 5 ==> #[trigger] r.found(i) == Seq::<Seq<char>>::empty(),
    {
        let mut found: Vec<Vec<String>> = Vec::new();
        let mut i: usize = 0;
        while i < 5
            invariant
                i <= 5,
                found@.len() == i,
                forall|j: int| 0 <= j < i ==> (#[trigger] found@[j])@.len() == 0,
            decreases 5 - i,
        {
            found.push(Vec::new());
            i = i + 1;
        }
        let r = CompareState { listed: listed_urls, found };
        assert forall|i: int| 0 <= i < 5 implies #[trigger] r.found(i) == Seq::<Seq<char>>::empty() by {
            assert(r.found(i) =~= Seq::<Seq<char>>::empty());
        }
        assert forall|i: int| 0 <= i < 5 implies #[trigger] r.found(i).no_duplicates() by {
            assert(r.found(i) =~= Seq::<Seq<char>>::empty());
        }
        r
    }

    /// Whether `url` is one of the listed URLs.
    fn is_listed(&self, url: &String) -> (r: bool)
        ensures
            r == self.listed().contains(url@),
    {
        let mut i: usize = 0;
        while i < self.listed.len()
            invariant
                i <= self.listed@.len(),
                forall|j: int| 0 <= j < i ==> self.listed@[j]@ != url@,
            decreases self.listed@.len() - i,
        {
            if self.listed[i] == *url {
                proof {
                    assert(texts(self.listed@)[i as int] == url@);
                }
                return true;
            }
            i = i + 1;
        }
        proof {
            if texts(self.listed@).contains(url@) {
                let j = choose|j: int| 0 <= j < texts(self.listed@).len() && texts(self.listed@)[j] == url@;
                assert(self.listed@[j]@ == url@);
            }
        }
        false
    }

    /// Takes one search result into account: a new GitHub or GitLab URL is
    /// added under its type; an unparsable URL or an unknown type id stops
    /// the comparison with that error.
    pub fn consider(&mut self, website_url: String, type_id: String) -> (r: Result<(), CompareError>)
        requires
            old(self).wf(),
        ensures
            final(self).wf(),
            final(self).listed() == old(self).listed(),
            match outcome_of(website_url@, type_id@, old(self).listed()) {
                CompareOutcome::Add(t) => r is Ok && forall|i: int| 0 <= i < 5 ==> #[trigger] final(self).found(i) == if i == section_of(t) {
                    set_insert(old(self).found(i), website_url@)
                } else {
                    old(self).found(i)
                },
                CompareOutcome::Skip => r is Ok && forall|i: int| 0 <= i < 5 ==> #[trigger] final(self).found(i) == old(self).found(i),
                CompareOutcome::BadUrl => r matches Err(CompareError::Url(_)) && forall|i: int| 0 <= i < 5 ==> #[trigger] final(self).found(i) == old(self).found(i),
                CompareOutcome::BadType => r matches Err(CompareError::TypeId(e)) && e.id@ == type_id@ && forall|i: int| 0 <= i < 5 ==> #[trigger] final(self).found(i) == old(self).found(i),
            },
    {
        if website_url.unicode_len() == 0 {
            return Ok(());
        }
        if !starts_with(website_url.as_str(), "https://github") && !starts_with(website_url.as_str(), "https://gitlab") {
            return Ok(());
        }
        proof {
            reveal_strlit("https://github");
            reveal_strlit("https://gitlab");
            reveal_strlit("https://");
            assert(is_prefix("https://"@, website_url@)) by {
                assert("https://github"@.take(8) =~= "https://"@);
                assert("https://gitlab"@.take(8) =~= "https://"@);
                if is_prefix("https://github"@, website_url@) {
                    assert(website_url@.take(8) =~= website_url@.take(14).take(8));
                } else {
                    assert(website_url@.take(8) =~= website_url@.take(14).take(8));
                }
            }
        }
        let base = match repo_base_url(website_url.as_str()) {
            Ok(b) => b,
            Err(e) => return Err(CompareError::Url(e)),
        };
        if self.is_listed(&base) {
            return Ok(());
        }
        let resource_type = match ResourceType::try_from(type_id) {
            Ok(t) => t,
            Err(e) => return Err(CompareError::TypeId(e)),
        };
        let section: usize = match resource_type {
            ResourceType::WatchFace => 0,
            ResourceType::DataField => 1,
            ResourceType::Widget => 2,
            ResourceType::DeviceApp => 3,
            _ => 4,
        };
        self.insert_found(section, website_url);
        Ok(())
    }

    /// Adds `url` to section `i` unless it is there already.
    fn insert_found(&mut self, i: usize, url: String)
        requires
            old(self).wf(),
            i < 5,
        ensures
            final(self).wf(),
            final(self).listed@ == old(self).listed@,
            forall|j: int| 0 <= j < 5 ==> #[trigger] final(self).found(j) == if j == i {
                set_insert(old(self).found(j), url@)
            } else {
                old(self).found(j)
            },
    {
        let mut found: Vec<Vec<String>> = Vec::new();
        std::mem::swap(&mut found, &mut self.found);
        let ghost old_found = found@;
        let mut list = found.remove(i);
        let ghost before = texts(list@);
        let mut present = false;
        let mut k: usize = 0;
        while k < list.len()
            invariant
                k <= list@.len(),
                present == exists|j: int| 0 <= j < k && list@[j]@ == url@,
            decreases list@.len() - k,
        {
            if list[k] == url {
                present = true;
            }
            k = k + 1;
        }
        proof {
            if present {
                let j = choose|j: int| 0 <= j < k && list@[j]@ == url@;
                assert(texts(list@)[j] == url@);
            } else if texts(list@).contains(url@) {
                let j = choose|j: int| 0 <= j < texts(list@).len() && texts(list@)[j] == url@;
                assert(list@[j]@ == url@);
            }
        }
        if !present {
            list.push(url);
            proof {
                assert(texts(list@) =~= before.push(url@));
            }
        }
        found.insert(i, list);
        std::mem::swap(&mut found, &mut self.found);
        proof {
            assert forall|j: int| 0 <= j < 5 implies #[trigger] self.found(j) == if j == i {
                set_insert(texts(old_found[j]@), url@)
            } else {
                texts(old_found[j]@)
            } by {
                if j != i {
                    assert(self.found@[j] == old_found[j]);
                }
            }
            assert forall|j: int| 0 <= j < 5 implies #[trigger] self.found(j).no_duplicates() by {
                assert(old(self).found(j).no_duplicates());
                if j == i {
                    lemma_set_insert_no_duplicates(old(self).found(j), url@);
                }
            }
        }
    }

    /// The text the comparison prints: the number of new URLs, then for
    /// every section that has some its header and one TOML line per URL.
    pub fn report(&self) -> (s: String)
        requires
            self.wf(),
        ensures
            s@ == report_text(seq![self.found(0), self.found(1), self.found(2), self.found(3), self.found(4)]),
    {
        proof {
            reveal_with_fuel(sections_total, 6);
            assert(self.found(0).len() == self.found@[0]@.len());
            assert(self.found(1).len() == self.found@[1]@.len());
            assert(self.found(2).len() == self.found@[2]@.len());
            assert(self.found(3).len() == self.found@[3]@.len());
            assert(self.found(4).len() == self.found@[4]@.len());
        }
        let total: u128 = self.found[0].len() as u128 + self.found[1].len() as u128 + self.found[2].len() as u128
            + self.found[3].len() as u128 + self.found[4].len() as u128;
        let mut out = "Found ".to_owned();
        let digits = decimal_u128(total);
        out.append(digits.as_str());
        out.append(" URLs not in list\n\n");
        let ghost sections = seq![self.found(0), self.found(1), self.found(2), self.found(3), self.found(4)];
        proof {
            assert(total == sections_total(sections)) by {
                reveal_with_fuel(sections_total, 6);
            }
        }
        let ghost head = out@;
        let mut i: usize = 0;
        while i < 5
            invariant
                self.wf(),
                i <= 5,
                sections == seq![self.found(0), self.found(1), self.found(2), self.found(3), self.found(4)],
                out@ == head + sections_text(sections.take(i as int)),
            decreases 5 - i,
        {
            let text = section_to_str(i, &self.found[i]);
            out.append(text.as_str());
            proof {
                assert(sections.take(i + 1).drop_last() =~= sections.take(i as int));
                assert(sections[i as int] == self.found(i as int));
            }
            i = i + 1;
        }
        proof {
            assert(sections.take(5) =~= sections);
        }
        out
    }
}

/// The number of URLs in all sections.
pub open spec fn sections_total(sections: Seq<Seq<Seq<char>>>) -> int
    decreases sections.len(),
{
    if sections.len() == 0 {
        0
    } else {
        sections_total(sections.drop_last()) + sections.last().len()
    }
}

/// The TOML lines of the URLs, one `"<url>" = {}` line each.
pub open spec fn url_lines(urls: Seq<Seq<char>>) -> Seq<char>
    decreases urls.len(),
{
    if urls.len() == 0 {
        Seq::empty()
    } else {
        url_lines(urls.drop_last()) + "\""@ + urls.last() + "\" = {}\n"@
    }
}

/// A section: nothing when it has no URLs, else its header in brackets, its
/// URL lines and an empty line.
pub open spec fn section_text(i: int, urls: Seq<Seq<char>>) -> Seq<char> {
    if urls.len() == 0 {
        Seq::empty()
    } else {
        "["@ + section_header(i) + "]\n"@ + url_lines(urls) + "\n"@
    }
}

/// The sections in order.
pub open spec fn sections_text(sections: Seq<Seq<Seq<char>>>) -> Seq<char>
    decreases sections.len(),
{
    if sections.len() == 0 {
        Seq::empty()
    } else {
        sections_text(sections.drop_last()) + section_text(sections.len() - 1, sections.last())
    }
}

/// The whole report.
pub open spec fn report_text(sections: Seq<Seq<Seq<char>>>) -> Seq<char> {
    "Found "@ + decimal(sections_total(sections) as nat) + " URLs not in list\n\n"@ + sections_text(sections)
}

/// Writes section `i`.
fn section_to_str(i: usize, urls: &Vec<String>) -> (s: String)
    requires
        i < 5,
    ensures
        s@ == section_text(i as int, texts(urls@)),
{
    let mut out = String::new();
    if urls.len() == 0 {
        proof {
            assert(out@ =~= Seq::<char>::empty());
        }
        return out;
    }
    out.append("[");
    let header = match i {
        0 => "watch_faces",
        1 => "data_fields",
        2 => "widgets",
        3 => "device_apps",
        _ => "audio_content_providers",
    };
    out.append(header);
    out.append("]\n");
    let ghost head = out@;
    let mut k: usize = 0;
    while k < urls.len()
        invariant
            k <= urls@.len(),
            out@ == head + url_lines(texts(urls@).take(k as int)),
        decreases urls@.len() - k,
    {
        out.append("\"");
        out.append(urls[k].as_str());
        out.append("\" = {}\n");
        proof {
            assert(texts(urls@).take(k + 1).drop_last() =~= texts(urls@).take(k as int));
            assert(texts(urls@).take(k + 1).last() == urls@[k as int]@);
        }
        k = k + 1;
    }
    out.append("\n");
    proof {
        assert(texts(urls@).take(urls@.len() as int) =~= texts(urls@));
    }
    out
}

} // verus!
