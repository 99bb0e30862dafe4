use crate::error::EngineError;
use crate::model::{click_rows, link_rows, ClickRow, Link, LinkClickTracking};
use crate::state::{distinct_slugs, owns, without_trailing_slashes, MAX_CLICK_EVENTS};
use crate::store::{LinkStore, StoredLink};
use vstd::prelude::*;

verus! {

impl LinkStore {
    /// Whether some link carries the slug and the expiry of `click`.
    fn owns_click(&self, click: &LinkClickTracking) -> (owned: bool)
        requires
            self@.unique_slugs(),
        ensures
            owned == owns(self@.links, click@),
    {
        match self.position(&click.slug) {
            Some(i) => {
                let same = match (self.links[i].expires_at, click.expires_at) {
                    (Some(a), Some(b)) => a == b,
                    (None, None) => true,
                    _ => false,
                };
                proof {
                    if !same && owns(self@.links, click@) {
                        let j = choose|j: int|
                            #![trigger self@.links[j]]
                            0 <= j < self@.links.len() && self@.links[j].slug == click@.slug
                                && self@.links[j].expires_at == click@.expires_at;
                        if j < i {
                            assert(self@.links[j].slug != self@.links[i as int].slug);
                        } else if i < j {
                            assert(self@.links[i as int].slug != self@.links[j].slug);
                        }
                    }
                }
                same
            },
            None => false,
        }
    }

    /// Rebuilds a store from what was kept of it: the links as they were, and
    /// of the click events those that still belong to a link. Links that
    /// share a slug are refused, and so are more events than the log holds.
    pub fn restore(
        forward_url: &str,
        links: &Vec<Link>,
        clicks: &Vec<LinkClickTracking>,
    ) -> (outcome: Result<LinkStore, EngineError>)
        ensures
            match outcome {
                Ok(store) => {
                    &&& store.wf()
                    &&& store@.base_url == without_trailing_slashes(forward_url@)
                    &&& store@.links == link_rows(links@)
                    &&& store@.clicks == click_rows(clicks@).filter(
                        |c: ClickRow| owns(link_rows(links@), c),
                    )
                },
                Err(e) => {
                    ||| e == EngineError::Conflict && !distinct_slugs(link_rows(links@))
                    ||| e == EngineError::StorageError && distinct_slugs(link_rows(links@))
                        && click_rows(clicks@).filter(
                        |c: ClickRow| owns(link_rows(links@), c),
                    ).len() > MAX_CLICK_EVENTS
                },
            },
    {
        let mut store = LinkStore::new(forward_url);
        let ghost rows = link_rows(links@);
        let ghost events = click_rows(clicks@);
        let ghost owned = |c: ClickRow| owns(link_rows(links@), c);
        let mut i: usize = 0;
        proof {
            assert(store@.links =~= rows.take(0));
        }
        while i < links.len()
            invariant
                i <= links@.len(),
                rows == link_rows(links@),
                store@.links == rows.take(i as int),
                distinct_slugs(store@.links),
                store@.clicks.len() == 0,
                store@.base_url == without_trailing_slashes(forward_url@),
            decreases links@.len() - i,
        {
            let link = &links[i];
            let ghost earlier = store@;
            match store.position(&link.slug) {
                Some(p) => {
                    proof {
                        assert(rows[p as int].slug == rows[i as int].slug);
                    }
                    return Err(EngineError::Conflict);
                },
                None => {},
            }
            let stored = StoredLink {
                slug: link.slug.clone(),
                target_url: link.target_url.clone(),
                created_at: link.created_at,
                updated_at: link.updated_at,
                expires_at: link.expires_at,
            };
            store.links.push(stored);
            proof {
                assert(store@.links =~= rows.take(i + 1));
                assert(store@.clicks =~= earlier.clicks);
                assert forall|a: int, b: int|
                    #![trigger store@.links[a], store@.links[b]]
                    0 <= a < b < store@.links.len() implies store@.links[a].slug
                    != store@.links[b].slug by {
                    if b == i {
                        assert(earlier.links[a].slug != link.slug@);
                    } else {
                        assert(earlier.links[a].slug != earlier.links[b].slug);
                    }
                }
            }
            i = i + 1;
        }
        let mut k: usize = 0;
        proof {
            reveal(Seq::filter);
            assert(rows.take(i as int) =~= rows);
            assert(events.take(0) =~= Seq::<ClickRow>::empty());
            assert(store@.clicks =~= events.take(0).filter(owned));
        }
        while k < clicks.len()
            invariant
                k <= clicks@.len(),
                rows == link_rows(links@),
                events == click_rows(clicks@),
                owned == (|c: ClickRow| owns(link_rows(links@), c)),
                store@.links == rows,
                distinct_slugs(rows),
                store@.clicks == events.take(k as int).filter(owned),
                store@.clicks.len() <= MAX_CLICK_EVENTS,
                store@.base_url == without_trailing_slashes(forward_url@),
            decreases clicks@.len() - k,
        {
            let click = &clicks[k];
            let ghost earlier = store@;
            proof {
                assert(events.take(k + 1) =~= events.take(k as int).push(events[k as int]));
                events.take(k as int).lemma_filter_push(events[k as int], owned);
            }
            if store.owns_click(click) {
                if store.clicks.len() >= MAX_CLICK_EVENTS {
                    proof {
                        events.lemma_filter_take_len(owned, k + 1);
                    }
                    return Err(EngineError::StorageError);
                }
                let event = click.duplicate();
                store.clicks.push(event);
                proof {
                    assert(store@.clicks =~= earlier.clicks.push(event@));
                    assert(store@.links =~= earlier.links);
                }
            }
            k = k + 1;
        }
        proof {
            assert(events.take(k as int) =~= events);
            assert forall|j: int| 0 <= j < store@.clicks.len() implies owns(
                store@.links,
                #[trigger] store@.clicks[j],
            ) by {
                events.lemma_filter_pred(owned, j);
            }
        }
        Ok(store)
    }
}

} // verus!
