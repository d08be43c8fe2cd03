//! MIP-03 event filters. Within one filter the fields combine with AND; the
//! values inside `ids`, `authors` and `kinds` combine with OR; tags with AND.
//! Several filters in one request combine with OR.
use crate::encoding::{nested_strings_view, strings_view};
use crate::text::{clone_nested_strings, clone_strings, clone_u32s};
use vstd::prelude::*;

verus! {

/// A MIP-03 event filter; an absent field does not constrain.
#[derive(Debug)]
pub struct EventFilter {
    pub ids: Option<Vec<String>>,
    pub authors: Option<Vec<String>>,
    pub kinds: Option<Vec<u32>>,
    pub tags: Option<Vec<Vec<String>>>,
    pub since: Option<u64>,
    pub until: Option<u64>,
}

/// The contents of an event filter.
pub struct EventFilterModel {
    pub ids: Option<Seq<Seq<char>>>,
    pub authors: Option<Seq<Seq<char>>>,
    pub kinds: Option<Seq<u32>>,
    pub tags: Option<Seq<Seq<Seq<char>>>>,
    pub since: Option<u64>,
    pub until: Option<u64>,
}

/// The texts of an optional vector of strings.
pub open spec fn opt_strings_view(v: Option<Vec<String>>) -> Option<Seq<Seq<char>>> {
    match v {
        Some(v) => Some(strings_view(v@)),
        None => None,
    }
}

/// The texts of an optional vector of vectors of strings.
pub open spec fn opt_nested_view(v: Option<Vec<Vec<String>>>) -> Option<Seq<Seq<Seq<char>>>> {
    match v {
        Some(v) => Some(nested_strings_view(v@)),
        None => None,
    }
}

impl View for EventFilter {
    type V = EventFilterModel;

    open spec fn view(&self) -> EventFilterModel {
        EventFilterModel {
            ids: opt_strings_view(self.ids),
            authors: opt_strings_view(self.authors),
            kinds: match self.kinds {
                Some(k) => Some(k@),
                None => None,
            },
            tags: opt_nested_view(self.tags),
            since: self.since,
            until: self.until,
        }
    }
}

impl Clone for EventFilter {
    /// A copy of the filter.
    fn clone(&self) -> (res: Self)
        ensures
            res@ == self@,
    {
        EventFilter {
            ids: match &self.ids {
                Some(v) => Some(clone_strings(v)),
                None => None,
            },
            authors: match &self.authors {
                Some(v) => Some(clone_strings(v)),
                None => None,
            },
            kinds: match &self.kinds {
                Some(v) => Some(clone_u32s(v)),
                None => None,
            },
            tags: match &self.tags {
                Some(v) => Some(clone_nested_strings(v)),
                None => None,
            },
            since: self.since,
            until: self.until,
        }
    }
}

/// The contents of a vector of filters.
pub open spec fn filters_view(v: Seq<EventFilter>) -> Seq<EventFilterModel> {
    v.map_values(|f: EventFilter| f@)
}

/// A copy of a vector of filters.
pub fn clone_filters(v: &Vec<EventFilter>) -> (res: Vec<EventFilter>)
    ensures
        filters_view(res@) == filters_view(v@),
{
    let mut res: Vec<EventFilter> = Vec::new();
    let n = v.len();
    for i in 0..n
        invariant
            n == v.len(),
            res@.len() == i,
            forall|k: int| 0 <= k < i ==> (#[trigger] res@[k])@ == v@[k]@,
    {
        res.push(v[i].clone());
    }
    assert(filters_view(res@) =~= filters_view(v@));
    res
}

impl Default for EventFilter {
    fn default() -> (res: Self)
        ensures
            res.ids is None,
            res.authors is None,
            res.kinds is None,
            res.tags is None,
            res.since is None,
            res.until is None,
    {
        EventFilter { ids: None, authors: None, kinds: None, tags: None, since: None, until: None }
    }
}

impl EventFilter {
    /// A filter with no constraint.
    pub fn new() -> (res: Self)
        ensures
            res.ids is None,
            res.authors is None,
            res.kinds is None,
            res.tags is None,
            res.since is None,
            res.until is None,
    {
        Self::default()
    }

    /// Sets the accepted ids.
    pub fn ids(self, ids: Vec<String>) -> (res: Self)
        ensures
            res.ids == Some(ids),
            res.authors == self.authors,
            res.kinds == self.kinds,
            res.tags == self.tags,
            res.since == self.since,
            res.until == self.until,
    {
        let mut f = self;
        f.ids = Some(ids);
        f
    }

    /// Sets the accepted authors.
    pub fn authors(self, authors: Vec<String>) -> (res: Self)
        ensures
            res.ids == self.ids,
            res.authors == Some(authors),
            res.kinds == self.kinds,
            res.tags == self.tags,
            res.since == self.since,
            res.until == self.until,
    {
        let mut f = self;
        f.authors = Some(authors);
        f
    }

    /// Sets the accepted kinds.
    pub fn kinds(self, kinds: Vec<u32>) -> (res: Self)
        ensures
            res.ids == self.ids,
            res.authors == self.authors,
            res.kinds == Some(kinds),
            res.tags == self.tags,
            res.since == self.since,
            res.until == self.until,
    {
        let mut f = self;
        f.kinds = Some(kinds);
        f
    }

    /// Sets the required tags.
    pub fn tags(self, tags: Vec<Vec<String>>) -> (res: Self)
        ensures
            res.ids == self.ids,
            res.authors == self.authors,
            res.kinds == self.kinds,
            res.tags == Some(tags),
            res.since == self.since,
            res.until == self.until,
    {
        let mut f = self;
        f.tags = Some(tags);
        f
    }

    /// Sets the earliest creation time.
    pub fn since(self, since: u64) -> (res: Self)
        ensures
            res.ids == self.ids,
            res.authors == self.authors,
            res.kinds == self.kinds,
            res.tags == self.tags,
            res.since == Some(since),
            res.until == self.until,
    {
        let mut f = self;
        f.since = Some(since);
        f
    }

    /// Sets the latest creation time.
    pub fn until(self, until: u64) -> (res: Self)
        ensures
            res.ids == self.ids,
            res.authors == self.authors,
            res.kinds == self.kinds,
            res.tags == self.tags,
            res.since == self.since,
            res.until == Some(until),
    {
        let mut f = self;
        f.until = Some(until);
        f
    }
}

} // verus!
