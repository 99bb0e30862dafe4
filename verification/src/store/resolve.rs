use crate::error::EngineError;
use crate::model::{ClickRow, LinkClickTracking};
use crate::request::{Redirect, RequestMetadata};
use crate::state::{new_click, owns, MAX_CLICK_EVENTS};
use crate::store::LinkStore;
use vstd::prelude::*;
use vstd::string::*;

verus! {

impl LinkStore {
    /// Appends the click event of one redirect through the link in place `i`.
    /// A full click log takes no event.
    fn record(
        &mut self,
        i: usize,
        client_ip_address: String,
        client_browser: String,
        now: i64,
    ) -> (outcome: Result<(), EngineError>)
        requires
            old(self).wf(),
            i < old(self)@.links.len(),
        ensures
            final(self).wf(),
            match outcome {
                Ok(_) => {
                    &&& old(self)@.clicks.len() < MAX_CLICK_EVENTS
                    &&& final(self)@ == old(self)@.with_click(
                        new_click(old(self)@.links[i as int], client_ip_address@, client_browser@, now),
                    )
                },
                Err(e) => {
                    &&& e == EngineError::StorageError
                    &&& old(self)@.clicks.len() == MAX_CLICK_EVENTS
                    &&& final(self)@ == old(self)@
                },
            },
    {
        if self.clicks.len() >= MAX_CLICK_EVENTS {
            return Err(EngineError::StorageError);
        }
        let event = LinkClickTracking {
            slug: self.links[i].slug.clone(),
            datetime: Some(now),
            client_ip_address,
            client_browser,
            expires_at: self.links[i].expires_at,
        };
        self.clicks.push(event);
        proof {
            let click = new_click(old(self)@.links[i as int], client_ip_address@, client_browser@, now);
            assert(self@.clicks =~= old(self)@.clicks.push(click));
            assert(self@.links =~= old(self)@.links);
            assert forall|k: int| 0 <= k < self@.clicks.len() implies owns(
                self@.links,
                #[trigger] self@.clicks[k],
            ) by {
                if k < old(self)@.clicks.len() {
                    assert(owns(old(self)@.links, old(self)@.clicks[k]));
                } else {
                    assert(self@.links[i as int].slug == click.slug);
                }
            }
        }
        Ok(())
    }

    /// Resolves `slug` as one atomic unit of work: looks the link up, records
    /// the click, and answers with the redirect. Either the click is recorded
    /// and the redirect returned, or nothing changes and an error is returned.
    pub fn resolve(
        &mut self,
        slug: &str,
        metadata: &RequestMetadata,
        now: i64,
    ) -> (outcome: Result<Redirect, EngineError>)
        requires
            old(self).wf(),
        ensures
            final(self).wf(),
            match outcome {
                Ok(redirect) => {
                    &&& old(self)@.has_slug(slug@)
                    &&& old(self)@.clicks.len() < MAX_CLICK_EVENTS
                    &&& redirect.leads_to(old(self)@.link_of(slug@).target_url)
                    &&& final(self)@ == old(self)@.resolved(
                        slug@,
                        metadata.ip_address(),
                        metadata.browser(),
                        now,
                    )
                    &&& final(self)@.click_count(slug@) == old(self)@.click_count(slug@) + 1
                },
                Err(e) => {
                    &&& final(self)@ == old(self)@
                    &&& e == EngineError::NotFound || e == EngineError::StorageError
                    &&& e == EngineError::NotFound <==> !old(self)@.has_slug(slug@)
                    &&& e == EngineError::StorageError ==> old(self)@.clicks.len()
                        == MAX_CLICK_EVENTS
                },
            },
    {
        let key = String::from_str(slug);
        let place = match self.position(&key) {
            Some(i) => i,
            None => {
                return Err(EngineError::NotFound);
            },
        };
        let target = self.links[place].target_url.clone();
        match self.record(place, metadata.client_ip_address(), metadata.client_browser(), now) {
            Ok(_) => {
                proof {
                    let click = new_click(
                        old(self)@.link_of(slug@),
                        metadata.ip_address(),
                        metadata.browser(),
                        now,
                    );
                    old(self)@.clicks.lemma_filter_push(click, |c: ClickRow| c.slug == slug@);
                }
                Ok(Redirect::to(target))
            },
            Err(e) => Err(e),
        }
    }
}

} // verus!
