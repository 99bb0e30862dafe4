use crate::error::EngineError;
use crate::model::{click_rows, link_views, ClickRow, Link, LinkClickTracking, LinkRow};
use crate::state::{without_trailing_slashes, StoreView, MAX_CLICK_EVENTS};
use vstd::prelude::*;
use vstd::string::*;

mod create;
mod prune;
mod resolve;
mod restore;

verus! {

/// A link as the store keeps it.
#[derive(Debug, Clone)]
struct StoredLink {
    slug: String,
    target_url: String,
    created_at: i64,
    updated_at: i64,
    expires_at: Option<i64>,
}

impl View for StoredLink {
    type V = LinkRow;

    closed spec fn view(&self) -> LinkRow {
        LinkRow {
            slug: self.slug@,
            target_url: self.target_url@,
            created_at: self.created_at,
            updated_at: self.updated_at,
            expires_at: self.expires_at,
        }
    }
}

/// The link store with its click log: every operation of the engine is a
/// method that takes the store as a whole, so each is one atomic unit of work.
#[derive(Debug, Clone)]
pub struct LinkStore {
    base_url: String,
    links: Vec<StoredLink>,
    clicks: Vec<LinkClickTracking>,
}

/// `str::trim_end_matches` with the pattern `"/"`: the result is the argument
/// without the slashes at its end.
#[verifier::external_body]
fn trim_trailing_slashes<'a>(s: &'a str) -> (trimmed: &'a str)
    ensures
        trimmed@ == without_trailing_slashes(s@),
{
    s.trim_end_matches("/")
}

impl View for LinkStore {
    type V = StoreView;

    closed spec fn view(&self) -> StoreView {
        StoreView {
            base_url: self.base_url@,
            links: self.links@.map_values(|l: StoredLink| l@),
            clicks: self.clicks@.map_values(|c: LinkClickTracking| c@),
        }
    }
}

impl LinkStore {
    /// The store's invariant: slugs are unique, every click event belongs to
    /// a link, and the click log is within its bound.
    pub open spec fn wf(&self) -> bool {
        self@.well_formed()
    }

    /// An empty store that serves its slugs under `forward_url`.
    pub fn new(forward_url: &str) -> (store: LinkStore)
        ensures
            store.wf(),
            store@.base_url == without_trailing_slashes(forward_url@),
            store@.links.len() == 0,
            store@.clicks.len() == 0,
    {
        let base_url = String::from_str(trim_trailing_slashes(forward_url));
        LinkStore { base_url, links: Vec::new(), clicks: Vec::new() }
    }

    /// The place of the link that carries `slug`, if there is one.
    fn position(&self, slug: &String) -> (place: Option<usize>)
        ensures
            match place {
                Some(i) => i < self@.links.len() && self@.links[i as int].slug == slug@,
                None => !self@.has_slug(slug@),
            },
            self@.unique_slugs() && self@.has_slug(slug@) ==> place == Some(
                self@.index_of(slug@) as usize,
            ),
    {
        let mut i: usize = 0;
        while i < self.links.len()
            invariant
                i <= self.links@.len(),
                forall|k: int| 0 <= k < i ==> (#[trigger] self@.links[k]).slug != slug@,
            decreases self.links@.len() - i,
        {
            if self.links[i].slug == *slug {
                proof {
                    let j = self@.index_of(slug@);
                    if self@.unique_slugs() {
                        assert(self@.links[i as int].slug == slug@);
                        assert(self@.links[j].slug == slug@);
                        assert(j == i);
                    }
                }
                return Some(i);
            }
            i = i + 1;
        }
        None
    }

    /// Whether a link carries `slug`.
    pub fn contains_slug(&self, slug: &str) -> (found: bool)
        ensures
            found == self@.has_slug(slug@),
    {
        let key = String::from_str(slug);
        self.position(&key).is_some()
    }

    /// The number of click events recorded against `slug`.
    fn count_clicks(&self, slug: &String) -> (count: i32)
        requires
            self@.clicks.len() <= MAX_CLICK_EVENTS,
        ensures
            count == self@.click_count(slug@),
    {
        let ghost wanted = |c: ClickRow| c.slug == slug@;
        let mut count: i32 = 0;
        let mut k: usize = 0;
        proof {
            assert(self@.clicks.take(0) =~= Seq::<ClickRow>::empty());
            reveal(Seq::filter);
        }
        while k < self.clicks.len()
            invariant
                k <= self.clicks@.len(),
                self.clicks@.len() <= MAX_CLICK_EVENTS,
                wanted == (|c: ClickRow| c.slug == slug@),
                count == self@.clicks.take(k as int).filter(wanted).len(),
                count <= k,
            decreases self.clicks@.len() - k,
        {
            proof {
                assert(self@.clicks.take(k + 1) =~= self@.clicks.take(k as int).push(
                    self@.clicks[k as int],
                ));
                self@.clicks.take(k as int).lemma_filter_push(self@.clicks[k as int], wanted);
            }
            if self.clicks[k].slug == *slug {
                count = count + 1;
            }
            k = k + 1;
        }
        proof {
            assert(self@.clicks.take(k as int) =~= self@.clicks);
        }
        count
    }

    /// The link in place `i` as a caller sees it.
    fn show(&self, i: usize) -> (link: Link)
        requires
            i < self@.links.len(),
            self@.clicks.len() <= MAX_CLICK_EVENTS,
        ensures
            link@ == self@.shown(i as int),
    {
        let stored = &self.links[i];
        let clicks = self.count_clicks(&stored.slug);
        let mut address = self.base_url.clone();
        address.append("/");
        address.append(stored.slug.as_str());
        proof {
            reveal_strlit("/");
            assert("/"@ =~= seq!['/']);
        }
        Link {
            slug: stored.slug.clone(),
            target_url: stored.target_url.clone(),
            created_at: stored.created_at,
            updated_at: stored.updated_at,
            expires_at: stored.expires_at,
            clicks,
            shortened_url: Some(address),
        }
    }

    /// The link `slug`, with its click count.
    pub fn get(&self, slug: &str) -> (outcome: Result<Link, EngineError>)
        requires
            self.wf(),
        ensures
            match outcome {
                Ok(link) => self@.has_slug(slug@) && link@ == self@.present(self@.link_of(slug@)),
                Err(e) => e == EngineError::NotFound && !self@.has_slug(slug@),
            },
    {
        let key = String::from_str(slug);
        match self.position(&key) {
            Some(i) => Ok(self.show(i)),
            None => Err(EngineError::NotFound),
        }
    }

    /// Every link with its click count, oldest first. A link without clicks
    /// is listed with count 0.
    pub fn list(&self) -> (links: Vec<Link>)
        requires
            self.wf(),
        ensures
            link_views(links@) == self@.listing(),
    {
        let mut links: Vec<Link> = Vec::new();
        let mut i: usize = 0;
        while i < self.links.len()
            invariant
                i <= self.links@.len(),
                self@.clicks.len() <= MAX_CLICK_EVENTS,
                links@.len() == i,
                forall|k: int| 0 <= k < i ==> (#[trigger] links@[k])@ == self@.shown(k),
            decreases self.links@.len() - i,
        {
            let link = self.show(i);
            links.push(link);
            i = i + 1;
        }
        proof {
            assert(link_views(links@) =~= self@.listing());
        }
        links
    }

    /// The click events recorded against the link `slug`, oldest first.
    pub fn clicks_for(&self, slug: &str) -> (outcome: Result<Vec<LinkClickTracking>, EngineError>)
        requires
            self.wf(),
        ensures
            match outcome {
                Ok(events) => self@.has_slug(slug@) && click_rows(events@) == self@.clicks_of(
                    slug@,
                ),
                Err(e) => e == EngineError::NotFound && !self@.has_slug(slug@),
            },
    {
        let key = String::from_str(slug);
        if self.position(&key).is_none() {
            return Err(EngineError::NotFound);
        }
        let ghost wanted = |c: ClickRow| c.slug == slug@;
        let mut events: Vec<LinkClickTracking> = Vec::new();
        let mut k: usize = 0;
        proof {
            reveal(Seq::filter);
            assert(self@.clicks.take(0) =~= Seq::<ClickRow>::empty());
            assert(click_rows(events@) =~= self@.clicks.take(0).filter(wanted));
        }
        while k < self.clicks.len()
            invariant
                k <= self.clicks@.len(),
                key@ == slug@,
                wanted == (|c: ClickRow| c.slug == slug@),
                click_rows(events@) == self@.clicks.take(k as int).filter(wanted),
            decreases self.clicks@.len() - k,
        {
            proof {
                assert(self@.clicks.take(k + 1) =~= self@.clicks.take(k as int).push(
                    self@.clicks[k as int],
                ));
                self@.clicks.take(k as int).lemma_filter_push(self@.clicks[k as int], wanted);
            }
            if self.clicks[k].slug == key {
                let ghost earlier = events@;
                let event = self.clicks[k].duplicate();
                events.push(event);
                proof {
                    assert(click_rows(events@) =~= click_rows(earlier).push(event@));
                }
            }
            k = k + 1;
        }
        proof {
            assert(self@.clicks.take(k as int) =~= self@.clicks);
        }
        Ok(events)
    }
}

} // verus!
