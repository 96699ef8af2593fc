//! Records of the remote card catalog, and the rules that the resolver
//! applies to them: which entries can be rendered, which answer a name,
//! and how a paged search gathers its results.
use vstd::prelude::*;
use crate::text::{faces, lower_of, lowercase, split_faces, trim, trimmed};

verus! {

/// Links to the images of a card or a card face.
#[derive(Clone, Debug, PartialEq, Eq)]
pub struct ScryfallSearchResultEntryImageUris {
    pub small: String,
    pub normal: String,
    pub large: String,
    pub png: String,
}

/// One face of a multi-faced card.
#[derive(Clone, Debug, PartialEq, Eq)]
pub struct ScryfallSearchResultEntryCardFace {
    pub name: String,
    pub image_uris: Option<ScryfallSearchResultEntryImageUris>,
}

/// One printing of a card, as the catalog reports it.
#[derive(Clone, Debug, PartialEq, Eq)]
pub struct ScryfallSearchResultEntry {
    pub name: String,
    pub lang: String,
    pub set: String,
    pub collector_number: String,
    pub image_uris: Option<ScryfallSearchResultEntryImageUris>,
    pub card_faces: Option<Vec<ScryfallSearchResultEntryCardFace>>,
}

/// One page of a catalog search.
#[derive(Clone, Debug, PartialEq, Eq)]
pub struct ScryfallSearchResult {
    pub object: String,
    pub total_cards: u32,
    pub has_more: bool,
    pub data: Vec<ScryfallSearchResultEntry>,
}

/// A catalog search that could not be read.
#[derive(Clone, Debug, PartialEq, Eq)]
pub struct SearchCardError {
    pub url: String,
    pub error: String,
    pub cause: String,
    pub response: String,
}

/// Whether every face in the list has an image of its own (false for none).
pub open spec fn all_faces_have_images(list: Seq<ScryfallSearchResultEntryCardFace>) -> bool {
    list.len() > 0 && forall|i: int| 0 <= i < list.len() ==> (#[trigger] list[i]).image_uris is Some
}

/// Whether some face in the list has an image of its own.
pub open spec fn some_face_has_image(list: Seq<ScryfallSearchResultEntryCardFace>) -> bool {
    exists|i: int| 0 <= i < list.len() && (#[trigger] list[i]).image_uris is Some
}

/// An entry can be rendered when it has an image, or when each of its faces has one.
pub open spec fn is_renderable(e: ScryfallSearchResultEntry) -> bool {
    e.image_uris is Some || match e.card_faces {
        Some(f) => all_faces_have_images(f@),
        None => false,
    }
}

/// An entry is double-sided when at least one of its faces carries its own image.
pub open spec fn has_face_images(e: ScryfallSearchResultEntry) -> bool {
    match e.card_faces {
        Some(f) => some_face_has_image(f@),
        None => false,
    }
}

impl ScryfallSearchResultEntry {
    /// Returns true for cards that have an image: one of their own, or one for each face.
    pub fn valid(&self) -> (r: bool)
        ensures
            r == is_renderable(*self),
    {
        let has_image = self.image_uris.is_some();
        let has_faces = match &self.card_faces {
            None => false,
            Some(fs) => {
                let n = fs.len();
                let mut all = n > 0;
                let mut i: usize = 0;
                while i < n
                    invariant
                        self.card_faces == Some(*fs),
                        n == fs@.len(),
                        i <= n,
                        all == (n > 0 && forall|j: int| 0 <= j < i ==> (#[trigger] fs@[j]).image_uris is Some),
                    decreases n - i,
                {
                    all = all && fs[i].image_uris.is_some();
                    i = i + 1;
                }
                all
            },
        };
        has_image || has_faces
    }

    /// Whether at least one face of this entry carries its own image.
    pub fn has_face_images(&self) -> (r: bool)
        ensures
            r == has_face_images(*self),
    {
        match &self.card_faces {
            None => false,
            Some(fs) => {
                let n = fs.len();
                let mut i: usize = 0;
                while i < n
                    invariant
                        self.card_faces == Some(*fs),
                        n == fs@.len(),
                        i <= n,
                        forall|j: int| 0 <= j < i ==> (#[trigger] fs@[j]).image_uris is None,
                    decreases n - i,
                {
                    if fs[i].image_uris.is_some() {
                        assert(fs@[i as int].image_uris is Some);
                        assert(some_face_has_image(fs@));
                        return true;
                    }
                    i = i + 1;
                }
                false
            },
        }
    }
}

/// Whether a catalog entry's name answers a query: the whole name, or some
/// face of it, trimmed and lower-cased, equals the query, trimmed and lower-cased.
pub open spec fn name_answers(entry_name: Seq<char>, query: Seq<char>) -> bool {
    lower_of(trimmed(entry_name)) == lower_of(trimmed(query)) || exists|i: int|
        0 <= i < faces(entry_name).len() && lower_of(trimmed(#[trigger] faces(entry_name)[i]))
            == lower_of(trimmed(query))
}

/// Whether one of the folded face names equals the folded query.
pub fn faces_match(folded_faces: &Vec<String>, folded_query: &String) -> (r: bool)
    ensures
        r == exists|i: int| 0 <= i < folded_faces@.len() && (#[trigger] folded_faces@[i])@ == folded_query@,
{
    let n = folded_faces.len();
    let mut i: usize = 0;
    while i < n
        invariant
            n == folded_faces@.len(),
            i <= n,
            forall|j: int| 0 <= j < i ==> (#[trigger] folded_faces@[j])@ != folded_query@,
        decreases n - i,
    {
        if folded_faces[i] == *folded_query {
            assert(folded_faces@[i as int]@ == folded_query@);
            return true;
        }
        i = i + 1;
    }
    false
}

/// Whether a catalog entry named `entry_name` answers a search for `query`.
pub fn name_answers_query(entry_name: &str, query: &str) -> (r: bool)
    ensures
        r == name_answers(entry_name@, query@),
{
    let folded_query = lowercase(trim(query));
    let whole = lowercase(trim(entry_name));
    if whole == folded_query {
        return true;
    }
    let names = split_faces(entry_name);
    let ghost fs = faces(entry_name@);
    assert(names@.len() == fs.len() && forall|j: int| 0 <= j < fs.len() ==> names@[j]@ == #[trigger] fs[j]) by {
        assert forall|j: int| 0 <= j < fs.len() implies names@[j]@ == #[trigger] fs[j] by {
            assert(names@.map_values(|f: String| f@)[j] == fs[j]);
        }
    }
    let mut folded: Vec<String> = Vec::new();
    let n = names.len();
    let mut i: usize = 0;
    while i < n
        invariant
            n == names@.len() == fs.len(),
            forall|j: int| 0 <= j < fs.len() ==> names@[j]@ == #[trigger] fs[j],
            i <= n,
            folded@.len() == i,
            forall|j: int| 0 <= j < i ==> (#[trigger] folded@[j])@ == lower_of(trimmed(fs[j])),
        decreases n - i,
    {
        folded.push(lowercase(trim(names[i].as_str())));
        i = i + 1;
    }
    let r = faces_match(&folded, &folded_query);
    assert(r == name_answers(entry_name@, query@)) by {
        if r {
            let j = choose|j: int| 0 <= j < folded@.len() && (#[trigger] folded@[j])@ == folded_query@;
            assert(lower_of(trimmed(fs[j])) == lower_of(trimmed(query@)));
        }
        if name_answers(entry_name@, query@) {
            let j = choose|j: int| 0 <= j < fs.len() && lower_of(trimmed(#[trigger] fs[j])) == lower_of(trimmed(query@));
            assert(folded@[j]@ == folded_query@);
        }
    }
    r
}

/// The entries of `entries`, in order, whose names answer `query`.
pub open spec fn answering(entries: Seq<ScryfallSearchResultEntry>, query: Seq<char>) -> Seq<ScryfallSearchResultEntry>
    decreases entries.len(),
{
    if entries.len() == 0 {
        seq![]
    } else {
        let earlier = answering(entries.drop_last(), query);
        if name_answers(entries.last().name@, query) {
            earlier.push(entries.last())
        } else {
            earlier
        }
    }
}

/// A paged catalog search for one card name, between two page requests.
pub struct CatalogSearch {
    /// The name searched for.
    pub name: String,
    /// The page to request next, from 1.
    pub page: u32,
    /// Whether the catalog reported more pages.
    pub has_more: bool,
    /// The entries gathered so far, in catalog order.
    pub results: Vec<ScryfallSearchResultEntry>,
}

impl CatalogSearch {
    /// A search for `name` that has not requested any page yet.
    pub fn new(name: String) -> (r: CatalogSearch)
        ensures
            r.name == name,
            r.page == 1,
            r.has_more,
            r.results@.len() == 0,
    {
        CatalogSearch { name, page: 1, has_more: true, results: Vec::new() }
    }

    /// The page to request next, or `None` once the catalog reported no more.
    pub fn next_page(&self) -> (r: Option<u32>)
        ensures
            r == (if self.has_more { Some(self.page) } else { None::<u32> }),
    {
        if self.has_more {
            Some(self.page)
        } else {
            None
        }
    }

    /// Take in one page of results: keep, in order, the entries whose names
    /// answer the search, and move on to the next page.
    pub fn absorb(&mut self, result: ScryfallSearchResult)
        requires
            old(self).page < u32::MAX,
        ensures
            final(self).name == old(self).name,
            final(self).page == old(self).page + 1,
            final(self).has_more == result.has_more,
            final(self).results@ == old(self).results@ + answering(result.data@, old(self).name@),
    {
        let ghost start = self.results@;
        let ghost all = result.data@;
        let mut data = result.data;
        let n = data.len();
        let mut k: usize = 0;
        while k < n
            invariant
                n == all.len(),
                k <= n,
                data@ == all.subrange(k as int, n as int),
                self.name == old(self).name,
                self.page == old(self).page,
                self.results@ == start + answering(all.subrange(0, k as int), self.name@),
            decreases n - k,
        {
            let entry = data.remove(0);
            assert(all.subrange(0, k + 1).drop_last() =~= all.subrange(0, k as int));
            assert(entry == all[k as int]);
            if name_answers_query(entry.name.as_str(), self.name.as_str()) {
                self.results.push(entry);
            }
            assert(data@ =~= all.subrange(k + 1, n as int));
            k = k + 1;
        }
        assert(all.subrange(0, n as int) =~= all);
        self.has_more = result.has_more;
        self.page = self.page + 1;
    }
}

} // verus!
